//! What a converter learns from its caller about an engine run and the files
//! it staged: how the process ended, how large a file is, and whether moving
//! or reading a file worked.

use vstd::prelude::*;
use crate::text::views;

verus! {

/// How an engine process ended: whether it reported success, its exit code
/// when it exited with one, how its exit status prints, and what it wrote to its output and error streams.
#[derive(Debug)]
pub struct EngineExit {
    pub success: bool,
    pub code: Option<i32>,
    pub status: String,
    pub stdout: String,
    pub stderr: String,
}

/// `run` gave `r` when asked to run `program` with `args`: the exit, `None`
/// when the run was cancelled, or why the process could not be run.
pub open spec fn ran<F: Fn(&str, &Vec<String>) -> Result<Option<EngineExit>, String>>(
    run: F,
    program: Seq<char>,
    args: Seq<Seq<char>>,
    r: Result<Option<EngineExit>, String>,
) -> bool {
    exists|p: &str, a: &Vec<String>| p@ == program && views(a@) == args && #[trigger] run.ensures((p, a), r)
}

/// `size` gave `s` for the file at `path` (`None`: no file could be read there).
pub open spec fn sized<F: Fn(&str) -> Option<u64>>(size: F, path: Seq<char>, s: Option<u64>) -> bool {
    exists|p: &str| p@ == path && #[trigger] size.ensures((p,), s)
}

/// `publish` gave `r` when asked to move the file at `from` to `to`.
pub open spec fn published<F: Fn(&str, &str) -> Result<(), String>>(
    publish: F,
    from: Seq<char>,
    to: Seq<char>,
    r: Result<(), String>,
) -> bool {
    exists|a: &str, b: &str| a@ == from && b@ == to && #[trigger] publish.ensures((a, b), r)
}

/// `head` gave `r` for the file at `path`: its first bytes, or why they could
/// not be read.
pub open spec fn headed<F: Fn(&str) -> Result<Vec<u8>, String>>(head: F, path: Seq<char>, r: Result<Vec<u8>, String>) -> bool {
    exists|p: &str| p@ == path && #[trigger] head.ensures((p,), r)
}

/// `cancelled` answered `c` when asked whether the job was cancelled.
pub open spec fn asked<F: Fn() -> bool>(cancelled: F, c: bool) -> bool {
    cancelled.ensures((), c)
}

/// `prepare` gave `r` when asked to make the directories `a` and `b`.
pub open spec fn prepared<F: Fn(&str, &str) -> Result<(), String>>(prepare: F, a: Seq<char>, b: Seq<char>, r: Result<(), String>) -> bool {
    exists|x: &str, y: &str| x@ == a && y@ == b && #[trigger] prepare.ensures((x, y), r)
}

/// `count` gave `r` as the page count of the PDF at `path`, read with qpdf at
/// `qpdf`.
pub open spec fn paged<F: Fn(&str, &str) -> Result<u32, String>>(count: F, qpdf: Seq<char>, path: Seq<char>, r: Result<u32, String>) -> bool {
    exists|q: &str, p: &str| q@ == qpdf && p@ == path && #[trigger] count.ensures((q, p), r)
}

/// A staged file is missing or empty.
pub open spec fn empty_file(s: Option<u64>) -> bool {
    s is None || s == Some(0u64)
}

/// `report` was called with `value`: that progress was reported.
pub open spec fn reported<G: Fn(u8)>(report: G, value: u8) -> bool {
    exists|u: ()| #[trigger] report.ensures((value,), u)
}

/// `discard` was called with `path`: the file there was removed, as far as
/// removing it worked.
pub open spec fn discarded<X: Fn(&str)>(discard: X, path: Seq<char>) -> bool {
    exists|p: &str, u: ()| p@ == path && #[trigger] discard.ensures((p,), u)
}

} // verus!
