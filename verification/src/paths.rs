//! The path model of the library.
//!
//! Paths are texts. Both `/` and `\` separate components, as on Windows, the
//! platform the application ships for. A path is absolute when it begins with a
//! separator or with a drive letter, a colon and a separator. The last component
//! of a path, with trailing separators ignored, is its file name, except when it
//! is empty, `.` or `..`. The extension is what follows the last dot of the file
//! name, provided that dot is not its first character; the stem is what precedes
//! it (or the whole name when there is no such dot).

use vstd::prelude::*;
use crate::text::{ascii_lower, chars_of, lower_char_exec, same_text, string_of};
use vstd::string::*;

verus! {

pub open spec fn is_sep(c: char) -> bool {
    c == '/' || c == '\\'
}

pub open spec fn is_ascii_letter(c: char) -> bool {
    ('a' <= c && c <= 'z') || ('A' <= c && c <= 'Z')
}

/// Whether a path is absolute under the rule of either platform the
/// application runs on: it starts with a separator (Unix), or with a drive
/// letter, a colon and a separator (Windows). Text that is absolute on one
/// platform only is accepted on both.
pub open spec fn is_absolute_path(s: Seq<char>) -> bool {
    (s.len() >= 1 && is_sep(s[0]))
        || (s.len() >= 3 && is_ascii_letter(s[0]) && s[1] == ':' && is_sep(s[2]))
}

/// The length of `s.take(i)` once its trailing separators are dropped.
pub open spec fn trimmed_len(s: Seq<char>, i: int) -> int
    decreases i,
{
    if i > 0 && is_sep(s[i - 1]) {
        trimmed_len(s, i - 1)
    } else {
        i
    }
}

/// The index of the last separator among the first `i` characters, or -1.
pub open spec fn last_sep_before(s: Seq<char>, i: int) -> int
    decreases i,
{
    if i <= 0 {
        -1
    } else if is_sep(s[i - 1]) {
        i - 1
    } else {
        last_sep_before(s, i - 1)
    }
}

/// The index of the last dot among the first `i` characters, or -1.
pub open spec fn last_dot_before(s: Seq<char>, i: int) -> int
    decreases i,
{
    if i <= 0 {
        -1
    } else if s[i - 1] == '.' {
        i - 1
    } else {
        last_dot_before(s, i - 1)
    }
}

/// A path without its trailing separators.
pub open spec fn trim_seps(s: Seq<char>) -> Seq<char> {
    s.take(trimmed_len(s, s.len() as int))
}

/// The last component of a path.
pub open spec fn last_component(s: Seq<char>) -> Seq<char> {
    let t = trim_seps(s);
    t.subrange(last_sep_before(t, t.len() as int) + 1, t.len() as int)
}

/// The file name of a path.
pub open spec fn file_name_of(s: Seq<char>) -> Option<Seq<char>> {
    let n = last_component(s);
    if n.len() == 0 || n =~= seq!['.'] || n =~= seq!['.', '.'] {
        None
    } else {
        Some(n)
    }
}

/// The extension of a path (without the dot).
pub open spec fn extension_of(s: Seq<char>) -> Option<Seq<char>> {
    match file_name_of(s) {
        None => None,
        Some(n) => {
            let d = last_dot_before(n, n.len() as int);
            if d <= 0 {
                None
            } else {
                Some(n.subrange(d + 1, n.len() as int))
            }
        },
    }
}

/// The file name of a path without its extension.
pub open spec fn stem_of(s: Seq<char>) -> Option<Seq<char>> {
    match file_name_of(s) {
        None => None,
        Some(n) => {
            let d = last_dot_before(n, n.len() as int);
            if d <= 0 {
                Some(n)
            } else {
                Some(n.take(d))
            }
        },
    }
}

/// The directory part of a path: `None` for a root or an empty path.
pub open spec fn parent_of(s: Seq<char>) -> Option<Seq<char>> {
    let t = trim_seps(s);
    let k = last_sep_before(t, t.len() as int);
    if t.len() == 0 {
        None
    } else if k < 0 {
        Some(Seq::empty())
    } else if k == 0 {
        Some(t.take(1))
    } else if k == 2 && is_absolute_path(t) && !is_sep(t[0]) {
        Some(t.take(3))
    } else {
        Some(t.take(k))
    }
}

/// A name placed inside a directory.
pub open spec fn joined(dir: Seq<char>, name: Seq<char>) -> Seq<char> {
    if dir.len() == 0 {
        name
    } else if is_sep(dir.last()) {
        dir + name
    } else {
        dir.push('/') + name
    }
}

/// The view of an optional string.
pub open spec fn opt_view(o: Option<String>) -> Option<Seq<char>> {
    match o {
        Some(s) => Some(s@),
        None => None,
    }
}

fn is_sep_exec(c: char) -> (r: bool)
    ensures
        r == is_sep(c),
{
    c == '/' || c == '\\'
}

/// Whether a path is absolute.
pub fn is_absolute(path: &str) -> (r: bool)
    ensures
        r == is_absolute_path(path@),
{
    let v = chars_of(path);
    if v.len() >= 1 && is_sep_exec(v[0]) {
        return true;
    }
    if v.len() >= 3 {
        let c = v[0];
        let letter = ('a' <= c && c <= 'z') || ('A' <= c && c <= 'Z');
        return letter && v[1] == ':' && is_sep_exec(v[2]);
    }
    false
}

fn trimmed_len_exec(v: &Vec<char>) -> (r: usize)
    ensures
        r as int == trimmed_len(v@, v@.len() as int),
        r <= v.len(),
{
    let mut i = v.len();
    while i > 0 && is_sep_exec(v[i - 1])
        invariant
            i <= v.len(),
            trimmed_len(v@, v@.len() as int) == trimmed_len(v@, i as int),
        decreases i,
    {
        i = i - 1;
    }
    i
}

/// Index of the last separator among the first `i` characters.
fn last_sep_exec(v: &Vec<char>, i: usize) -> (r: Option<usize>)
    requires
        i <= v.len(),
    ensures
        match r {
            Some(k) => k < i && k as int == last_sep_before(v@, i as int),
            None => last_sep_before(v@, i as int) == -1,
        },
{
    let mut j = i;
    while j > 0
        invariant
            j <= i <= v.len(),
            last_sep_before(v@, i as int) == last_sep_before(v@, j as int),
        decreases j,
    {
        if is_sep_exec(v[j - 1]) {
            return Some(j - 1);
        }
        j = j - 1;
    }
    None
}

/// Index of the last dot among the first `i` characters.
fn last_dot_exec(v: &Vec<char>, i: usize) -> (r: Option<usize>)
    requires
        i <= v.len(),
    ensures
        match r {
            Some(k) => k < i && k as int == last_dot_before(v@, i as int),
            None => last_dot_before(v@, i as int) == -1,
        },
{
    let mut j = i;
    while j > 0
        invariant
            j <= i <= v.len(),
            last_dot_before(v@, i as int) == last_dot_before(v@, j as int),
        decreases j,
    {
        if v[j - 1] == '.' {
            return Some(j - 1);
        }
        j = j - 1;
    }
    None
}

fn slice_chars(v: &Vec<char>, from: usize, to: usize) -> (r: Vec<char>)
    requires
        from <= to <= v.len(),
    ensures
        r@ == v@.subrange(from as int, to as int),
{
    let mut r: Vec<char> = Vec::new();
    let mut i = from;
    while i < to
        invariant
            from <= i <= to <= v.len(),
            r@ == v@.subrange(from as int, i as int),
        decreases to - i,
    {
        r.push(v[i]);
        i = i + 1;
    }
    r
}

/// The characters of the last component of a path.
fn last_component_chars(v: &Vec<char>) -> (r: Vec<char>)
    ensures
        r@ == last_component(v@),
{
    let t_len = trimmed_len_exec(v);
    let t = slice_chars(v, 0, t_len);
    assert(t@ == trim_seps(v@));
    let start = match last_sep_exec(&t, t_len) {
        Some(k) => k + 1,
        None => 0,
    };
    slice_chars(&t, start, t_len)
}

fn file_name_chars(v: &Vec<char>) -> (r: Option<Vec<char>>)
    ensures
        match r {
            Some(n) => file_name_of(v@) == Some(n@),
            None => file_name_of(v@) is None,
        },
{
    let n = last_component_chars(v);
    if n.len() == 0 {
        return None;
    }
    if n.len() == 1 && n[0] == '.' {
        assert(n@ =~= seq!['.']);
        return None;
    }
    if n.len() == 2 && n[0] == '.' && n[1] == '.' {
        assert(n@ =~= seq!['.', '.']);
        return None;
    }
    assert(!(n@ =~= seq!['.']));
    assert(!(n@ =~= seq!['.', '.']));
    Some(n)
}

/// The file name of a path.
pub fn file_name(path: &str) -> (r: Option<String>)
    ensures
        opt_view(r) == file_name_of(path@),
{
    let v = chars_of(path);
    match file_name_chars(&v) {
        Some(n) => Some(string_of(&n)),
        None => None,
    }
}

/// The extension of a path, as written.
pub fn extension(path: &str) -> (r: Option<String>)
    ensures
        opt_view(r) == extension_of(path@),
{
    let v = chars_of(path);
    match file_name_chars(&v) {
        None => None,
        Some(n) => {
            match last_dot_exec(&n, n.len()) {
                None => None,
                Some(d) => {
                    if d == 0 {
                        None
                    } else {
                        let e = slice_chars(&n, d + 1, n.len());
                        Some(string_of(&e))
                    }
                },
            }
        },
    }
}

/// The file stem of a path.
pub fn file_stem(path: &str) -> (r: Option<String>)
    ensures
        opt_view(r) == stem_of(path@),
{
    let v = chars_of(path);
    match file_name_chars(&v) {
        None => None,
        Some(n) => {
            match last_dot_exec(&n, n.len()) {
                None => Some(string_of(&n)),
                Some(d) => {
                    if d == 0 {
                        Some(string_of(&n))
                    } else {
                        let s = slice_chars(&n, 0, d);
                        assert(s@ =~= n@.take(d as int));
                        Some(string_of(&s))
                    }
                },
            }
        },
    }
}

/// The directory part of a path.
pub fn parent(path: &str) -> (r: Option<String>)
    ensures
        opt_view(r) == parent_of(path@),
{
    let v = chars_of(path);
    let t_len = trimmed_len_exec(&v);
    let t = slice_chars(&v, 0, t_len);
    assert(t@ =~= trim_seps(v@));
    if t_len == 0 {
        return None;
    }
    match last_sep_exec(&t, t_len) {
        None => {
            let e: Vec<char> = Vec::new();
            assert(e@ =~= Seq::<char>::empty());
            Some(string_of(&e))
        },
        Some(k) => {
            let drive = t_len >= 3 && !is_sep_exec(t[0]) && t[1] == ':' && is_sep_exec(t[2])
                && (('a' <= t[0] && t[0] <= 'z') || ('A' <= t[0] && t[0] <= 'Z'));
            let end = if k == 0 {
                1
            } else if k == 2 && drive {
                3
            } else {
                k
            };
            let p = slice_chars(&t, 0, end);
            assert(p@ =~= t@.take(end as int));
            Some(string_of(&p))
        },
    }
}

/// Places `name` inside `dir`.
pub fn join(dir: &str, name: &str) -> (r: String)
    ensures
        r@ == joined(dir@, name@),
{
    let mut v = chars_of(dir);
    let n = chars_of(name);
    if v.len() > 0 && !is_sep_exec(v[v.len() - 1]) {
        v.push('/');
    }
    let mut i: usize = 0;
    let ghost base = v@;
    while i < n.len()
        invariant
            i <= n.len(),
            v@ == base + n@.take(i as int),
        decreases n.len() - i,
    {
        v.push(n[i]);
        i = i + 1;
        assert(n@.take(i as int) =~= n@.take(i - 1).push(n@[i - 1]));
    }
    assert(n@.take(n.len() as int) =~= n@);
    string_of(&v)
}

} // verus!

verus! {

/// What a filesystem probe found at a path.
#[derive(Clone, Copy, Debug, PartialEq, Eq, Structural)]
pub enum PathKind {
    Missing,
    File,
    Directory,
    Other,
}

/// `t` lies at or below `s`, comparing whole components: `s` is a prefix of
/// `t` that ends at a component boundary of `t`.
pub open spec fn path_within(t: Seq<char>, s: Seq<char>) -> bool {
    ||| t == s
    ||| s.len() < t.len() && t.take(s.len() as int) == s
        && ((s.len() > 0 && is_sep(s.last())) || is_sep(t[s.len() as int]))
}

/// Whether the path `target` lies at or below the path `source`.
pub fn is_within(target: &str, source: &str) -> (r: bool)
    ensures
        r == path_within(target@, source@),
{
    let t = chars_of(target);
    let s = chars_of(source);
    if s.len() > t.len() {
        return false;
    }
    let mut i: usize = 0;
    while i < s.len()
        invariant
            i <= s.len(),
            s.len() <= t.len(),
            t@ == target@,
            s@ == source@,
            forall|j: int| 0 <= j < i ==> t@[j] == s@[j],
        decreases s.len() - i,
    {
        if t[i] != s[i] {
            assert(t@.take(s.len() as int)[i as int] != s@[i as int]);
            return false;
        }
        i = i + 1;
    }
    assert(t@.take(s.len() as int) =~= s@);
    if s.len() == t.len() {
        assert(t@ =~= s@);
        return true;
    }
    (s.len() > 0 && is_sep_exec(s[s.len() - 1])) || is_sep_exec(t[s.len()])
}

pub open spec fn kind_exists(k: PathKind) -> bool {
    k != PathKind::Missing
}

/// Whether the extension of `path`, in lower case, is `ext`.
pub open spec fn ext_is(path: Seq<char>, ext: Seq<char>) -> bool {
    match extension_of(path) {
        Some(x) => ascii_lower(x) == ext,
        None => false,
    }
}

/// The lower-case form of a text.
pub fn lower(s: &str) -> (r: String)
    ensures
        r@ == ascii_lower(s@),
{
    let v = chars_of(s);
    let mut out: Vec<char> = Vec::new();
    let mut i: usize = 0;
    while i < v.len()
        invariant
            v@ == s@,
            i <= v.len(),
            out@ =~= ascii_lower(s@).take(i as int),
        decreases v.len() - i,
    {
        out.push(lower_char_exec(v[i]));
        i = i + 1;
    }
    assert(ascii_lower(s@).take(v.len() as int) =~= ascii_lower(s@));
    string_of(&out)
}

/// The extension of `path` in lower case.
pub fn lower_extension(path: &str) -> (r: Option<String>)
    ensures
        match extension_of(path@) {
            Some(x) => r is Some && r->0@ == ascii_lower(x),
            None => r is None,
        },
{
    match extension(path) {
        Some(e) => Some(lower(e.as_str())),
        None => None,
    }
}

/// Whether the lower-case extension of `path` is `ext`.
pub fn has_ext(path: &str, ext: &str) -> (r: bool)
    ensures
        r == ext_is(path@, ext@),
{
    match lower_extension(path) {
        Some(e) => same_text(e.as_str(), ext),
        None => false,
    }
}

} // verus!

verus! {

/// The path with the extension of its file name replaced by `ext`.
pub open spec fn with_extension_of(s: Seq<char>, ext: Seq<char>) -> Seq<char> {
    match (file_name_of(s), stem_of(s)) {
        (Some(_), Some(st)) => {
            let t = trim_seps(s);
            t.take(last_sep_before(t, t.len() as int) + 1) + st + "."@ + ext
        },
        _ => s,
    }
}

/// Replaces the extension of the file name of `path` with `ext`.
pub fn with_extension(path: &str, ext: &str) -> (r: String)
    ensures
        r@ == with_extension_of(path@, ext@),
{
    let v = chars_of(path);
    if file_name_chars(&v).is_none() {
        return path.to_owned();
    }
    let stem = match file_stem(path) {
        Some(s) => s,
        None => return path.to_owned(),
    };
    let t_len = trimmed_len_exec(&v);
    let t = slice_chars(&v, 0, t_len);
    assert(t@ =~= trim_seps(v@));
    let start = match last_sep_exec(&t, t_len) {
        Some(k) => k + 1,
        None => 0,
    };
    let head = slice_chars(&t, 0, start);
    assert(head@ =~= t@.take(start as int));
    let head_text = string_of(&head);
    let mut r = head_text;
    r.append(stem.as_str());
    r.append(".");
    r.append(ext);
    r
}

/// The parent of the output exists as a directory.
pub open spec fn parent_dir_ok(output: Seq<char>, parent_kind: PathKind) -> bool {
    parent_of(output) is Some && parent_kind == PathKind::Directory
}

/// Builds `.{stem}.{job_id}.part.{extension}` beside `output`, with the given
/// messages when `output` has no parent or no usable stem.
pub open spec fn staged_beside(
    output: Seq<char>,
    job_id: Seq<char>,
    extension: Seq<char>,
    no_parent: Seq<char>,
    no_stem: Seq<char>,
) -> Result<Seq<char>, Seq<char>> {
    if parent_of(output) is None {
        Err(no_parent)
    } else if stem_of(output) is None {
        Err(no_stem)
    } else {
        Ok(joined(parent_of(output)->0, "."@ + stem_of(output)->0 + "."@ + job_id + ".part."@ + extension))
    }
}

pub fn staged_path_beside(
    output: &str,
    job_id: &str,
    extension: &str,
    no_parent: &str,
    no_stem: &str,
) -> (r: Result<String, String>)
    ensures
        crate::text::text_result_view(r) == staged_beside(output@, job_id@, extension@, no_parent@, no_stem@),
{
    let dir = match parent(output) {
        Some(p) => p,
        None => return Err(no_parent.to_owned()),
    };
    let stem = match file_stem(output) {
        Some(s) => s,
        None => return Err(no_stem.to_owned()),
    };
    let mut name = ".".to_owned();
    name.append(stem.as_str());
    name.append(".");
    name.append(job_id);
    name.append(".part.");
    name.append(extension);
    Ok(join(dir.as_str(), name.as_str()))
}

} // verus!

verus! {

/// A probe of the filesystem answered `found` for the path `p`.
pub open spec fn probed<F: Fn(&str) -> bool>(probe: F, p: Seq<char>, found: bool) -> bool {
    exists|s: &str| s@ == p && #[trigger] probe.ensures((s,), found)
}

} // verus!
