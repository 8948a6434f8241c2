//! The rules of the file browser: valid names, where an item goes, what is
//! protected, how a listing is ordered and how an entry is described. What is
//! on disk is told by the caller.

use vstd::prelude::*;
use crate::domain::file_entry::{DirectoryListing, EntryKind, EntryModel, FileEntry, FileOperationResult, entry_views};
use crate::paths::{
    extension, extension_of, file_name, file_name_of, is_absolute, is_absolute_path, is_ascii_letter, is_within, join, joined, lower, opt_view, parent,
    parent_of, path_within, probed,
};
use crate::platform::TargetOs;
use crate::text::{ascii_lower, chars_of, concat2, contains_text, same_text, text_contains, text_less, text_lt, text_result_view, trim, trimmed, views};

verus! {

/// On Windows a name such as `C:x` starts with a drive prefix and so names
/// more than one path component.
pub open spec fn drive_prefixed(t: Seq<char>) -> bool {
    t.len() > 2 && is_ascii_letter(t[0]) && t[1] == ':'
}

/// The verdict on a new file or folder name: the trimmed name, which must be
/// one plain path component.
pub open spec fn leaf_check(name: Seq<char>, os: TargetOs) -> Result<Seq<char>, Seq<char>> {
    let t = trimmed(name);
    if t.len() == 0 || t == "."@ || t == ".."@ {
        Err("A non-empty file or folder name is required."@)
    } else if contains_text(t, "/"@) || contains_text(t, "\\"@) || (os == TargetOs::Windows && drive_prefixed(t)) {
        Err("The name cannot contain path separators."@)
    } else {
        Ok(t)
    }
}

pub open spec fn text_outcome(r: Result<String, String>) -> Result<Seq<char>, Seq<char>> {
    match r {
        Ok(s) => Ok(s@),
        Err(e) => Err(e@),
    }
}

/// Checks a new file or folder name and gives it trimmed.
pub fn validate_leaf_name(name: &str, os: TargetOs) -> (r: Result<String, String>)
    ensures
        text_outcome(r) == leaf_check(name@, os),
{
    let t = trim(name);
    if t.as_str().is_empty() || same_text(t.as_str(), ".") || same_text(t.as_str(), "..") {
        proof {
            reveal_strlit(".");
            reveal_strlit("..");
        }
        return Err("A non-empty file or folder name is required.".to_owned());
    }
    proof {
        reveal_strlit(".");
        reveal_strlit("..");
    }
    let v = chars_of(t.as_str());
    let prefixed = os == TargetOs::Windows && v.len() > 2
        && (('a' <= v[0] && v[0] <= 'z') || ('A' <= v[0] && v[0] <= 'Z')) && v[1] == ':';
    if text_contains(t.as_str(), "/") || text_contains(t.as_str(), "\\") || prefixed {
        return Err("The name cannot contain path separators.".to_owned());
    }
    Ok(t)
}

/// Where a new item named `name` goes inside `parent`: refused when the name
/// is not valid or the probe finds an item there already.
pub open spec fn new_item_target<F: Fn(&str) -> bool>(probe: F, parent: Seq<char>, name: Seq<char>, os: TargetOs, r: Result<String, String>) -> bool {
    match leaf_check(name, os) {
        Err(e) => r is Err && r->Err_0@ == e,
        Ok(t) => {
            let target = joined(parent, t);
            ||| probed(probe, target, true) && r is Err && r->Err_0@ == "An item with that name already exists."@
            ||| probed(probe, target, false) && r is Ok && r->Ok_0@ == target
        },
    }
}

/// The path of a new folder `name` inside `parent`.
pub fn creation_target<F: Fn(&str) -> bool>(parent: &str, name: &str, os: TargetOs, probe: &F) -> (r: Result<String, String>)
    requires
        forall|s: &str| probe.requires((s,)),
    ensures
        new_item_target(*probe, parent@, name@, os, r),
{
    let leaf = validate_leaf_name(name, os)?;
    let target = join(parent, leaf.as_str());
    let found = probe(target.as_str());
    assert(probed(*probe, target@, found));
    if found {
        Err("An item with that name already exists.".to_owned())
    } else {
        Ok(target)
    }
}

/// The new path of `source` once renamed to `new_name` in its own directory.
/// The root of a filesystem cannot be renamed.
pub fn rename_target<F: Fn(&str) -> bool>(source: &str, new_name: &str, os: TargetOs, probe: &F) -> (r: Result<String, String>)
    requires
        forall|s: &str| probe.requires((s,)),
    ensures
        match parent_of(source@) {
            None => r is Err && r->Err_0@ == "Filesystem roots cannot be renamed."@,
            Some(p) => new_item_target(*probe, p, new_name@, os, r),
        },
{
    let dir = match parent(source) {
        Some(p) => p,
        None => return Err("Filesystem roots cannot be renamed.".to_owned()),
    };
    creation_target(dir.as_str(), new_name, os, probe)
}

/// Where `source` goes inside `destination` when copied or moved: under its
/// own name, which must not be taken there.
pub fn unique_destination<F: Fn(&str) -> bool>(destination: &str, source: &str, probe: &F) -> (r: Result<String, String>)
    requires
        forall|s: &str| probe.requires((s,)),
    ensures
        match file_name_of(source@) {
            None => r is Err && r->Err_0@ == "Filesystem roots cannot be copied or moved."@,
            Some(n) => {
                let target = joined(destination@, n);
                ||| probed(*probe, target, true) && r is Err && r->Err_0@ == target + " already exists."@
                ||| probed(*probe, target, false) && r is Ok && r->Ok_0@ == target
            },
        },
{
    let name = match file_name(source) {
        Some(n) => n,
        None => return Err("Filesystem roots cannot be copied or moved.".to_owned()),
    };
    let target = join(destination, name.as_str());
    let found = probe(target.as_str());
    assert(probed(*probe, target@, found));
    if found {
        Err(concat2(target.as_str(), " already exists."))
    } else {
        Ok(target)
    }
}

/// A directory cannot be copied to a place at or below itself.
pub open spec fn copy_nesting_check(source: Seq<char>, target: Seq<char>) -> Result<(), Seq<char>> {
    if path_within(target, source) {
        Err("A directory cannot be copied into itself."@)
    } else {
        Ok(())
    }
}

/// Refuses to copy the directory `source` to `target` at or below itself.
pub fn check_copy_into_itself(source: &str, target: &str) -> (r: Result<(), String>)
    ensures
        crate::text::check_view(r) == copy_nesting_check(source@, target@),
{
    if is_within(target, source) {
        Err("A directory cannot be copied into itself.".to_owned())
    } else {
        Ok(())
    }
}

/// A directory cannot be moved to a place at or below itself; a file may go
/// anywhere.
pub open spec fn move_nesting_check(source: Seq<char>, target: Seq<char>, source_is_dir: bool) -> Result<(), Seq<char>> {
    if source_is_dir && path_within(target, source) {
        Err("A directory cannot be moved into itself."@)
    } else {
        Ok(())
    }
}

/// Refuses to move the directory `source` to `target` at or below itself.
pub fn check_move_into_itself(source: &str, target: &str, source_is_dir: bool) -> (r: Result<(), String>)
    ensures
        crate::text::check_view(r) == move_nesting_check(source@, target@, source_is_dir),
{
    if source_is_dir && is_within(target, source) {
        Err("A directory cannot be moved into itself.".to_owned())
    } else {
        Ok(())
    }
}

/// The root of a filesystem and the user's home directory cannot be trashed
/// or deleted. `homes` are the home directories the environment names.
pub open spec fn protection_check(path: Seq<char>, homes: Seq<Seq<char>>) -> Result<(), Seq<char>> {
    if parent_of(path) is None {
        Err("Filesystem roots are protected."@)
    } else if homes.contains(path) {
        Err("The user home directory is protected."@)
    } else {
        Ok(())
    }
}

pub fn reject_protected_root(path: &str, homes: &Vec<String>) -> (r: Result<(), String>)
    ensures
        crate::text::check_view(r) == protection_check(path@, views(homes@)),
{
    if parent(path).is_none() {
        return Err("Filesystem roots are protected.".to_owned());
    }
    let mut i: usize = 0;
    while i < homes.len()
        invariant
            i <= homes.len(),
            parent_of(path@) is Some,
            forall|j: int| 0 <= j < i ==> views(homes@)[j] != path@,
        decreases homes.len() - i,
    {
        assert(views(homes@)[i as int] == homes@[i as int]@);
        if same_text(homes[i].as_str(), path) {
            assert(views(homes@).contains(path@));
            return Err("The user home directory is protected.".to_owned());
        }
        i = i + 1;
    }
    Ok(())
}

/// What `str::to_lowercase` gives for a text (full Unicode lower case).
pub uninterp spec fn unicode_lower(s: Seq<char>) -> Seq<char>;

/// The Unicode lower-case form of a text. Calls `str::to_lowercase`; the
/// result is named, not stated.
#[verifier::external_body]
fn lowercase(s: &str) -> (r: String)
    ensures
        r@ == unicode_lower(s@),
{
    s.to_lowercase()
}

pub open spec fn kind_rank(k: EntryKind) -> int {
    if k == EntryKind::Directory { 0 } else { 1 }
}

/// `a` is listed before `b`: directories first, then by lower-case name.
pub open spec fn listed_before(a: EntryModel, b: EntryModel) -> bool {
    kind_rank(a.kind) < kind_rank(b.kind)
        || (kind_rank(a.kind) == kind_rank(b.kind) && text_lt(unicode_lower(a.name), unicode_lower(b.name)))
}

/// Where `x` goes in an ordered listing: after every entry it does not precede.
pub open spec fn listing_pos(s: Seq<EntryModel>, x: EntryModel) -> nat
    decreases s.len(),
{
    if s.len() == 0 {
        0
    } else if !listed_before(x, s[0]) {
        1 + listing_pos(s.drop_first(), x)
    } else {
        0
    }
}

/// The entries in listing order: directories first, then by lower-case name;
/// entries that compare equal keep their order.
pub open spec fn listing_order(s: Seq<EntryModel>) -> Seq<EntryModel>
    decreases s.len(),
{
    if s.len() == 0 {
        s
    } else {
        let rest = listing_order(s.drop_last());
        rest.insert(listing_pos(rest, s.last()) as int, s.last())
    }
}

proof fn lemma_listing_pos(s: Seq<EntryModel>, x: EntryModel, p: int)
    requires
        0 <= p <= s.len(),
        forall|k: int| 0 <= k < p ==> !listed_before(x, #[trigger] s[k]),
        p == s.len() || listed_before(x, s[p]),
    ensures
        listing_pos(s, x) == p,
    decreases s.len(),
{
    if s.len() > 0 && p > 0 {
        assert forall|k: int| 0 <= k < p - 1 implies !listed_before(x, #[trigger] s.drop_first()[k]) by {
            assert(s.drop_first()[k] == s[k + 1]);
        }
        lemma_listing_pos(s.drop_first(), x, p - 1);
    }
}

fn before(a_kind: EntryKind, a_key: &str, b_kind: EntryKind, b_key: &str) -> (r: bool)
    ensures
        r == (kind_rank(a_kind) < kind_rank(b_kind) || (kind_rank(a_kind) == kind_rank(b_kind) && text_lt(a_key@, b_key@))),
{
    let ra: u8 = if a_kind == EntryKind::Directory { 0 } else { 1 };
    let rb: u8 = if b_kind == EntryKind::Directory { 0 } else { 1 };
    ra < rb || (ra == rb && text_less(a_key, b_key))
}

/// Orders a directory listing: directories first, then by lower-case name.
pub fn order_entries(entries: Vec<FileEntry>) -> (r: Vec<FileEntry>)
    ensures
        entry_views(r@) == listing_order(entry_views(entries@)),
{
    let ghost all = entry_views(entries@);
    let mut out: Vec<FileEntry> = Vec::new();
    let mut keys: Vec<String> = Vec::new();
    let mut rest = entries;
    let mut taken: Vec<FileEntry> = Vec::new();
    let mut i: usize = 0;
    let n = rest.len();
    while rest.len() > 0
        invariant
            n == all.len(),
            i + rest.len() == n,
            all == entry_views(taken@) + entry_views(rest@),
            entry_views(out@) == listing_order(entry_views(taken@)),
            keys.len() == out.len(),
            forall|k: int| 0 <= k < keys.len() ==> #[trigger] keys@[k]@ == unicode_lower(out@[k].name@),
        decreases rest.len(),
    {
        let ghost rest_before = entry_views(rest@);
        let e = rest.remove(0);
        let ghost done = entry_views(taken@);
        proof {
            assert(rest_before =~= seq![e@] + entry_views(rest@));
        }
        let key = lowercase(e.name.as_str());
        let mut p: usize = 0;
        while p < out.len() && !before(e.kind, key.as_str(), out[p].kind, keys[p].as_str())
            invariant
                p <= out.len(),
                keys.len() == out.len(),
                key@ == unicode_lower(e.name@),
                forall|k: int| 0 <= k < keys.len() ==> #[trigger] keys@[k]@ == unicode_lower(out@[k].name@),
                forall|k: int| 0 <= k < p ==> !listed_before(e@, #[trigger] entry_views(out@)[k]),
            decreases out.len() - p,
        {
            assert(entry_views(out@)[p as int] == out@[p as int]@);
            p = p + 1;
        }
        proof {
            if p < out.len() {
                assert(entry_views(out@)[p as int] == out@[p as int]@);
            }
            lemma_listing_pos(entry_views(out@), e@, p as int);
        }
        let ghost out_before = out@;
        let ghost keys_before = keys@;
        let ghost ev = e@;
        let copy = FileEntry {
            name: e.name.clone(),
            path: e.path.clone(),
            kind: e.kind,
            size_bytes: e.size_bytes,
            modified_at: e.modified_at,
            extension: match &e.extension {
                Some(x) => Some(x.clone()),
                None => None,
            },
            hidden: e.hidden,
        };
        taken.push(e);
        out.insert(p, copy);
        keys.insert(p, key);
        proof {
            assert(entry_views(taken@) =~= done.push(ev));
            assert(entry_views(out@) =~= entry_views(out_before).insert(p as int, ev));
            assert(done.push(ev).drop_last() =~= done);
            assert(all =~= entry_views(taken@) + entry_views(rest@));
            assert forall|k: int| 0 <= k < keys.len() implies #[trigger] keys@[k]@ == unicode_lower(out@[k].name@) by {
                if k < p {
                    assert(keys@[k] == keys_before[k] && out@[k] == out_before[k]);
                } else if k > p {
                    assert(keys@[k] == keys_before[k - 1] && out@[k] == out_before[k - 1]);
                }
            }
        }
        i = i + 1;
    }
    assert(entry_views(taken@) =~= all);
    out
}

/// The description of a directory entry from what its metadata says.
pub open spec fn described_entry(
    path: Seq<char>,
    kind: EntryKind,
    len: u64,
    modified_at: Option<u64>,
    hidden_attribute: bool,
) -> EntryModel {
    let name = match file_name_of(path) {
        Some(n) => n,
        None => path,
    };
    EntryModel {
        name,
        path,
        kind,
        size_bytes: if kind == EntryKind::File { Some(len) } else { None },
        modified_at,
        extension: match extension_of(path) {
            Some(x) => Some(ascii_lower(x)),
            None => None,
        },
        hidden: (name.len() > 0 && name[0] == '.') || hidden_attribute,
    }
}

/// Describes the entry at `path`: `kind` is what its metadata says it is (a
/// link is not followed), `len` its size, `modified_at` its modification time
/// in seconds, and `hidden_attribute` whether Windows marks it hidden.
pub fn entry_from_metadata(
    path: &str,
    kind: EntryKind,
    len: u64,
    modified_at: Option<u64>,
    hidden_attribute: bool,
) -> (r: FileEntry)
    ensures
        r@ == described_entry(path@, kind, len, modified_at, hidden_attribute),
{
    let name = match file_name(path) {
        Some(n) => n,
        None => path.to_owned(),
    };
    let ext = match extension(path) {
        Some(x) => Some(lower(x.as_str())),
        None => None,
    };
    let chars = chars_of(name.as_str());
    let dotted = chars.len() > 0 && chars[0] == '.';
    FileEntry {
        name,
        path: path.to_owned(),
        kind,
        size_bytes: if kind == EntryKind::File { Some(len) } else { None },
        modified_at,
        extension: ext,
        hidden: dotted || hidden_attribute,
    }
}

/// Permanent deletion happens only once the user confirmed it.
pub fn require_confirmation(confirmed: bool) -> (r: Result<(), String>)
    ensures
        r is Ok <==> confirmed,
        r matches Err(e) ==> e@ == "Permanent deletion requires explicit confirmation."@,
{
    if confirmed {
        Ok(())
    } else {
        Err("Permanent deletion requires explicit confirmation.".to_owned())
    }
}

} // verus!

verus! {

/// No entry of the listing comes before an entry listed ahead of it.
pub open spec fn listing_sorted(s: Seq<EntryModel>) -> bool {
    forall|i: int, j: int| 0 <= i < j < s.len() ==> !listed_before(#[trigger] s[j], #[trigger] s[i])
}

proof fn lemma_listed_before_transitive(a: EntryModel, b: EntryModel, c: EntryModel)
    requires
        listed_before(a, b),
        listed_before(b, c),
    ensures
        listed_before(a, c),
{
    if kind_rank(a.kind) == kind_rank(b.kind) && kind_rank(b.kind) == kind_rank(c.kind) {
        crate::text::lemma_text_lt_transitive(unicode_lower(a.name), unicode_lower(b.name), unicode_lower(c.name));
    }
}

proof fn lemma_listed_before_irreflexive(a: EntryModel)
    ensures
        !listed_before(a, a),
{
    crate::text::lemma_text_lt_irreflexive(unicode_lower(a.name));
}

proof fn lemma_listing_pos_bounds(s: Seq<EntryModel>, x: EntryModel)
    ensures
        listing_pos(s, x) <= s.len(),
        forall|k: int| 0 <= k < listing_pos(s, x) ==> !listed_before(x, #[trigger] s[k]),
        listing_pos(s, x) < s.len() ==> listed_before(x, s[listing_pos(s, x) as int]),
    decreases s.len(),
{
    if s.len() > 0 && !listed_before(x, s[0]) {
        lemma_listing_pos_bounds(s.drop_first(), x);
        assert forall|k: int| 0 <= k < listing_pos(s, x) implies !listed_before(x, #[trigger] s[k]) by {
            if k > 0 {
                assert(s[k] == s.drop_first()[k - 1]);
            }
        }
    }
}

proof fn lemma_listing_order_sorted(s: Seq<EntryModel>)
    ensures
        listing_sorted(listing_order(s)),
        listing_order(s).len() == s.len(),
    decreases s.len(),
{
    if s.len() > 0 {
        let rest = listing_order(s.drop_last());
        lemma_listing_order_sorted(s.drop_last());
        let x = s.last();
        let p = listing_pos(rest, x) as int;
        lemma_listing_pos_bounds(rest, x);
        let r = rest.insert(p, x);
        assert forall|i: int, j: int| 0 <= i < j < r.len() implies !listed_before(#[trigger] r[j], #[trigger] r[i]) by {
            if j < p {
                assert(r[i] == rest[i] && r[j] == rest[j]);
            } else if j == p {
                assert(r[i] == rest[i]);
            } else if i == p {
                assert(r[j] == rest[j - 1]);
                if listed_before(rest[j - 1], x) {
                    if j - 1 == p {
                        lemma_listed_before_transitive(rest[p], x, rest[p]);
                        lemma_listed_before_irreflexive(rest[p]);
                    } else {
                        lemma_listed_before_transitive(rest[j - 1], x, rest[p]);
                    }
                }
            } else if i < p {
                assert(r[i] == rest[i] && r[j] == rest[j - 1]);
            } else {
                assert(r[i] == rest[i - 1] && r[j] == rest[j - 1]);
            }
        }
    }
}

/// A directory listing shows every folder before every other entry, and
/// within each group orders entries by lower-case name.
pub proof fn law_listing_puts_folders_first(entries: Seq<EntryModel>)
    ensures
        forall|i: int, j: int| 0 <= i < j < listing_order(entries).len()
            && #[trigger] listing_order(entries)[j].kind == EntryKind::Directory
            ==> #[trigger] listing_order(entries)[i].kind == EntryKind::Directory,
        forall|i: int, j: int| 0 <= i < j < listing_order(entries).len()
            && kind_rank(#[trigger] listing_order(entries)[i].kind) == kind_rank(#[trigger] listing_order(entries)[j].kind)
            ==> !text_lt(unicode_lower(listing_order(entries)[j].name), unicode_lower(listing_order(entries)[i].name)),
        listing_order(entries).len() == entries.len(),
{
    lemma_listing_order_sorted(entries);
    let r = listing_order(entries);
    assert forall|i: int, j: int| 0 <= i < j < r.len() && #[trigger] r[j].kind == EntryKind::Directory
        implies #[trigger] r[i].kind == EntryKind::Directory by {
        assert(!listed_before(r[j], r[i]));
    }
    assert forall|i: int, j: int| 0 <= i < j < r.len() && kind_rank(#[trigger] r[i].kind) == kind_rank(#[trigger] r[j].kind)
        implies !text_lt(unicode_lower(r[j].name), unicode_lower(r[i].name)) by {
        assert(!listed_before(r[j], r[i]));
    }
}

} // verus!

verus! {

proof fn lemma_insert_keeps_entries(rest: Seq<EntryModel>, p: int, x: EntryModel)
    requires
        0 <= p <= rest.len(),
    ensures
        rest.insert(p, x).to_multiset() =~= rest.to_multiset().insert(x),
{
    broadcast use vstd::seq_lib::group_to_multiset_ensures;
    broadcast use vstd::multiset::group_multiset_axioms;
    let r = rest.insert(p, x);
    assert(r.remove(p) =~= rest);
    assert(r[p] == x);
    assert(r.contains(x));
    assert(r.to_multiset().count(x) > 0);
    assert(rest.to_multiset() =~= r.to_multiset().remove(x));
}

/// A directory listing shows each entry it was given, as often as it was
/// given: ordering loses and adds nothing.
pub proof fn law_listing_keeps_every_entry(entries: Seq<EntryModel>)
    ensures
        listing_order(entries).to_multiset() =~= entries.to_multiset(),
    decreases entries.len(),
{
    broadcast use vstd::seq_lib::group_to_multiset_ensures;
    if entries.len() > 0 {
        let init = entries.drop_last();
        law_listing_keeps_every_entry(init);
        let rest = listing_order(init);
        lemma_listing_order_sorted(init);
        lemma_listing_pos_bounds(rest, entries.last());
        lemma_insert_keeps_entries(rest, listing_pos(rest, entries.last()) as int, entries.last());
        assert(entries =~= init.push(entries.last()));
    }
}

} // verus!

verus! {

/// The verdict on a path chosen in the browser, given what resolving it on
/// disk gave (its canonical form, or the error): only absolute paths are
/// taken, and only when they resolve.
pub open spec fn existing_check(path: Seq<char>, canonical: Result<Seq<char>, Seq<char>>) -> Result<Seq<char>, Seq<char>> {
    if !is_absolute_path(path) {
        Err("Only absolute filesystem paths are accepted."@)
    } else {
        match canonical {
            Ok(c) => Ok(c),
            Err(e) => Err("The selected path is unavailable: "@ + e),
        }
    }
}

/// An existing path in canonical form. `canonical` is what resolving `path`
/// on disk gave; it is read only when `path` is absolute.
pub fn canonical_existing(path: &str, canonical: Result<String, String>) -> (r: Result<String, String>)
    ensures
        text_result_view(r) == existing_check(path@, text_result_view(canonical)),
{
    if !is_absolute(path) {
        return Err("Only absolute filesystem paths are accepted.".to_owned());
    }
    match canonical {
        Ok(c) => Ok(c),
        Err(e) => Err(concat2("The selected path is unavailable: ", e.as_str())),
    }
}

/// As [`canonical_existing`], and the path must be a directory; `is_dir`
/// tells whether the resolved path is one.
pub fn existing_directory(path: &str, canonical: Result<String, String>, is_dir: bool) -> (r: Result<String, String>)
    ensures
        text_result_view(r) == match existing_check(path@, text_result_view(canonical)) {
            Ok(c) => if is_dir { Ok(c) } else { Err("The selected path is not a directory."@) },
            Err(e) => Err(e),
        },
{
    let c = canonical_existing(path, canonical)?;
    if !is_dir {
        return Err("The selected path is not a directory.".to_owned());
    }
    Ok(c)
}

} // verus!

verus! {

/// `resolve` gave `r` (as texts) for `path`.
pub open spec fn resolved<R: Fn(&str) -> Result<String, String>>(resolve: R, path: Seq<char>, r: Result<Seq<char>, Seq<char>>) -> bool {
    exists|p: &str, o: Result<String, String>| p@ == path && #[trigger] resolve.ensures((p,), o) && text_result_view(o) == r
}

/// `act` gave `r` (as texts) for `source` and `target`.
pub open spec fn acted<A: Fn(&str, &str) -> Result<(), String>>(act: A, source: Seq<char>, target: Seq<char>, r: Result<(), Seq<char>>) -> bool {
    exists|s: &str, t: &str, o: Result<(), String>| s@ == source && t@ == target && #[trigger] act.ensures((s, t), o)
        && crate::text::check_view(o) == r
}

/// `act` gave `r` (as texts) for `path`.
pub open spec fn acted_on<A: Fn(&str) -> Result<(), String>>(act: A, path: Seq<char>, r: Result<(), Seq<char>>) -> bool {
    exists|p: &str, o: Result<(), String>| p@ == path && #[trigger] act.ensures((p,), o) && crate::text::check_view(o) == r
}

pub open spec fn operation_view(r: Result<FileOperationResult, String>) -> Result<Seq<Seq<char>>, Seq<char>> {
    match r {
        Ok(o) => Ok(views(o.affected_paths@)),
        Err(e) => Err(e@),
    }
}

/// `source` is absolute and resolved to the canonical path `c`.
pub open spec fn resolved_to<R: Fn(&str) -> Result<String, String>>(resolve: R, source: Seq<char>, c: Seq<char>) -> bool {
    is_absolute_path(source) && resolved(resolve, source, Ok(c))
}

/// Resolving `source` failed with `e`.
pub open spec fn resolve_failed<R: Fn(&str) -> Result<String, String>>(resolve: R, source: Seq<char>, e: Seq<char>) -> bool {
    ||| !is_absolute_path(source) && e == "Only absolute filesystem paths are accepted."@
    ||| is_absolute_path(source) && exists|m: Seq<char>| #[trigger] resolved(resolve, source, Err(m))
        && e == "The selected path is unavailable: "@ + m
}

/// Resolves one chosen path as [`canonical_existing`] does, asking `resolve`
/// only for an absolute path.
fn resolve_chosen<R: Fn(&str) -> Result<String, String>>(path: &str, resolve: &R) -> (r: Result<String, String>)
    requires
        forall|p: &str| resolve.requires((p,)),
    ensures
        r matches Ok(c) ==> resolved_to(*resolve, path@, c@),
        r matches Err(e) ==> resolve_failed(*resolve, path@, e@),
{
    if !is_absolute(path) {
        return Err("Only absolute filesystem paths are accepted.".to_owned());
    }
    let o = resolve(path);
    assert(resolved(*resolve, path@, text_result_view(o)));
    match o {
        Ok(c) => Ok(c),
        Err(m) => {
            assert(resolved(*resolve, path@, Err(m@)));
            Err(concat2("The selected path is unavailable: ", m.as_str()))
        },
    }
}

/// The place of a copied or moved source inside `destination`, and why there
/// is none.
pub open spec fn placed<E: Fn(&str) -> bool>(taken: E, destination: Seq<char>, c: Seq<char>, r: Result<Seq<char>, Seq<char>>) -> bool {
    match file_name_of(c) {
        None => r == Err::<Seq<char>, Seq<char>>("Filesystem roots cannot be copied or moved."@),
        Some(n) => {
            let target = joined(destination, n);
            ||| probed(taken, target, true) && r == Err::<Seq<char>, Seq<char>>(target + " already exists."@)
            ||| probed(taken, target, false) && r == Ok::<Seq<char>, Seq<char>>(target)
        },
    }
}

/// `source` was copied to `target`.
pub open spec fn copied_one<R: Fn(&str) -> Result<String, String>, E: Fn(&str) -> bool, K: Fn(&str, &str) -> Result<(), String>>(
    resolve: R,
    taken: E,
    copy: K,
    destination: Seq<char>,
    source: Seq<char>,
    target: Seq<char>,
) -> bool {
    exists|c: Seq<char>| #[trigger] resolved_to(resolve, source, c) && placed(taken, destination, c, Ok(target))
        && acted(copy, c, target, Ok(()))
}

/// Copying `source` failed with `e`.
pub open spec fn copy_failed_one<R: Fn(&str) -> Result<String, String>, E: Fn(&str) -> bool, K: Fn(&str, &str) -> Result<(), String>>(
    resolve: R,
    taken: E,
    copy: K,
    destination: Seq<char>,
    source: Seq<char>,
    e: Seq<char>,
) -> bool {
    ||| resolve_failed(resolve, source, e)
    ||| exists|c: Seq<char>| #[trigger] resolved_to(resolve, source, c) && placed(taken, destination, c, Err(e))
    ||| exists|c: Seq<char>, t: Seq<char>| #[trigger] resolved_to(resolve, source, c) && placed(taken, destination, c, Ok(t))
        && #[trigger] acted(copy, c, t, Err(e))
}

/// Each of `sources` was copied, in order, to the path at the same place in
/// `paths`.
pub open spec fn copied_all<R: Fn(&str) -> Result<String, String>, E: Fn(&str) -> bool, K: Fn(&str, &str) -> Result<(), String>>(
    resolve: R,
    taken: E,
    copy: K,
    destination: Seq<char>,
    sources: Seq<Seq<char>>,
    paths: Seq<Seq<char>>,
) -> bool {
    &&& paths.len() == sources.len()
    &&& forall|i: int| 0 <= i < sources.len() ==> #[trigger] copied_one(resolve, taken, copy, destination, sources[i], paths[i])
}

/// Every source was copied, in order; or the first ones were, to `done`, and
/// the next failed with `e`.
pub open spec fn copy_outcome<R: Fn(&str) -> Result<String, String>, E: Fn(&str) -> bool, K: Fn(&str, &str) -> Result<(), String>>(
    resolve: R,
    taken: E,
    copy: K,
    destination: Seq<char>,
    sources: Seq<Seq<char>>,
    r: Result<Seq<Seq<char>>, Seq<char>>,
) -> bool {
    match r {
        Ok(paths) => copied_all(resolve, taken, copy, destination, sources, paths),
        Err(e) => exists|done: Seq<Seq<char>>| #[trigger] copied_all(resolve, taken, copy, destination,
            sources.take(done.len() as int), done)
            && done.len() < sources.len()
            && copy_failed_one(resolve, taken, copy, destination, sources[done.len() as int], e),
    }
}

/// Copies each source into `destination`, in order, under its own name, and
/// stops at the first that fails. `destination_resolved` is what resolving the
/// destination gave and `destination_is_dir` whether that is a directory;
/// `resolve` resolves a source, `taken` tells whether a path is taken and
/// `copy` copies a resolved source to its target.
pub fn copy_entries<R: Fn(&str) -> Result<String, String>, E: Fn(&str) -> bool, K: Fn(&str, &str) -> Result<(), String>>(
    sources: &Vec<String>,
    destination: &str,
    destination_resolved: Result<String, String>,
    destination_is_dir: bool,
    resolve: &R,
    taken: &E,
    copy: &K,
) -> (r: Result<FileOperationResult, String>)
    requires
        forall|p: &str| resolve.requires((p,)),
        forall|p: &str| taken.requires((p,)),
        forall|s: &str, t: &str| copy.requires((s, t)),
    ensures
        match existing_check(destination@, text_result_view(destination_resolved)) {
            Err(e) => r is Err && r->Err_0@ == e,
            Ok(d) => if !destination_is_dir {
                r is Err && r->Err_0@ == "The selected path is not a directory."@
            } else {
                copy_outcome(*resolve, *taken, *copy, d, views(sources@), operation_view(r))
            },
        },
{
    let dest = existing_directory(destination, destination_resolved, destination_is_dir)?;
    let ghost d = dest@;
    let ghost srcs = views(sources@);
    let mut affected: Vec<String> = Vec::new();
    let mut i: usize = 0;
    while i < sources.len()
        invariant
            i <= sources.len(),
            srcs == views(sources@),
            d == dest@,
            existing_check(destination@, text_result_view(destination_resolved)) == Ok::<Seq<char>, Seq<char>>(d),
            destination_is_dir,
            forall|p: &str| resolve.requires((p,)),
            forall|p: &str| taken.requires((p,)),
            forall|s: &str, t: &str| copy.requires((s, t)),
            affected.len() == i,
            copied_all(*resolve, *taken, *copy, d, srcs.take(i as int), views(affected@)),
        decreases sources.len() - i,
    {
        assert(srcs[i as int] == sources@[i as int]@);
        let c = match resolve_chosen(sources[i].as_str(), resolve) {
            Ok(c) => c,
            Err(e) => {
                proof {
                    assert(copy_failed_one(*resolve, *taken, *copy, d, srcs[i as int], e@));
                    assert(copied_all(*resolve, *taken, *copy, d, srcs.take(views(affected@).len() as int), views(affected@)));
                }
                return Err(e);
            },
        };
        let target = match unique_destination(dest.as_str(), c.as_str(), taken) {
            Ok(t) => t,
            Err(e) => {
                proof {
                    assert(placed(*taken, d, c@, Err(e@)));
                    assert(copy_failed_one(*resolve, *taken, *copy, d, srcs[i as int], e@));
                    assert(copied_all(*resolve, *taken, *copy, d, srcs.take(views(affected@).len() as int), views(affected@)));
                }
                return Err(e);
            },
        };
        assert(placed(*taken, d, c@, Ok(target@)));
        let o = copy(c.as_str(), target.as_str());
        assert(acted(*copy, c@, target@, crate::text::check_view(o)));
        match o {
            Ok(()) => {},
            Err(e) => {
                proof {
                    assert(acted(*copy, c@, target@, Err(e@)));
                    assert(copy_failed_one(*resolve, *taken, *copy, d, srcs[i as int], e@));
                    assert(copied_all(*resolve, *taken, *copy, d, srcs.take(views(affected@).len() as int), views(affected@)));
                }
                return Err(e);
            },
        }
        assert(copied_one(*resolve, *taken, *copy, d, srcs[i as int], target@));
        let ghost before = views(affected@);
        affected.push(target);
        proof {
            assert(views(affected@) =~= before.push(views(affected@)[i as int]));
            assert(srcs.take(i + 1) =~= srcs.take(i as int).push(srcs[i as int]));
            assert forall|j: int| 0 <= j < i + 1 implies #[trigger] copied_one(*resolve, *taken, *copy, d,
                srcs.take(i + 1)[j], views(affected@)[j]) by {
                if j < i {
                    assert(views(affected@)[j] == before[j]);
                    assert(srcs.take(i + 1)[j] == srcs.take(i as int)[j]);
                }
            }
        }
        i = i + 1;
    }
    assert(srcs.take(sources.len() as int) =~= srcs);
    Ok(FileOperationResult { affected_paths: affected })
}

} // verus!

verus! {

/// `source` was moved to `target`; `is_dir` told whether the resolved source
/// is a directory.
pub open spec fn moved_one<R: Fn(&str) -> Result<String, String>, E: Fn(&str) -> bool, D: Fn(&str) -> bool, M: Fn(&str, &str) -> Result<(), String>>(
    resolve: R,
    taken: E,
    is_dir: D,
    rename: M,
    destination: Seq<char>,
    source: Seq<char>,
    target: Seq<char>,
) -> bool {
    exists|c: Seq<char>, b: bool| #[trigger] resolved_to(resolve, source, c) && placed(taken, destination, c, Ok(target))
        && #[trigger] probed(is_dir, c, b) && move_nesting_check(c, target, b) is Ok && acted(rename, c, target, Ok(()))
}

/// Moving `source` failed with `e`.
pub open spec fn move_failed_one<R: Fn(&str) -> Result<String, String>, E: Fn(&str) -> bool, D: Fn(&str) -> bool, M: Fn(&str, &str) -> Result<(), String>>(
    resolve: R,
    taken: E,
    is_dir: D,
    rename: M,
    destination: Seq<char>,
    source: Seq<char>,
    e: Seq<char>,
) -> bool {
    ||| resolve_failed(resolve, source, e)
    ||| exists|c: Seq<char>| #[trigger] resolved_to(resolve, source, c) && placed(taken, destination, c, Err(e))
    ||| exists|c: Seq<char>, t: Seq<char>, b: bool| #[trigger] resolved_to(resolve, source, c)
        && #[trigger] placed(taken, destination, c, Ok(t))
        && #[trigger] probed(is_dir, c, b) && move_nesting_check(c, t, b) == Err::<(), Seq<char>>(e)
    ||| exists|c: Seq<char>, t: Seq<char>, b: bool| #[trigger] resolved_to(resolve, source, c)
        && #[trigger] placed(taken, destination, c, Ok(t))
        && #[trigger] probed(is_dir, c, b) && move_nesting_check(c, t, b) is Ok && acted(rename, c, t, Err(e))
}

/// Each of `sources` was moved, in order, to the path at the same place in
/// `paths`.
pub open spec fn moved_all<R: Fn(&str) -> Result<String, String>, E: Fn(&str) -> bool, D: Fn(&str) -> bool, M: Fn(&str, &str) -> Result<(), String>>(
    resolve: R,
    taken: E,
    is_dir: D,
    rename: M,
    destination: Seq<char>,
    sources: Seq<Seq<char>>,
    paths: Seq<Seq<char>>,
) -> bool {
    &&& paths.len() == sources.len()
    &&& forall|i: int| 0 <= i < sources.len() ==> #[trigger] moved_one(resolve, taken, is_dir, rename, destination, sources[i], paths[i])
}

/// Every source was moved, in order; or the first ones were, to `done`, and
/// the next failed with `e`.
pub open spec fn move_outcome<R: Fn(&str) -> Result<String, String>, E: Fn(&str) -> bool, D: Fn(&str) -> bool, M: Fn(&str, &str) -> Result<(), String>>(
    resolve: R,
    taken: E,
    is_dir: D,
    rename: M,
    destination: Seq<char>,
    sources: Seq<Seq<char>>,
    r: Result<Seq<Seq<char>>, Seq<char>>,
) -> bool {
    match r {
        Ok(paths) => moved_all(resolve, taken, is_dir, rename, destination, sources, paths),
        Err(e) => exists|done: Seq<Seq<char>>| #[trigger] moved_all(resolve, taken, is_dir, rename, destination,
            sources.take(done.len() as int), done)
            && done.len() < sources.len()
            && move_failed_one(resolve, taken, is_dir, rename, destination, sources[done.len() as int], e),
    }
}

/// Moves each source into `destination`, in order, under its own name, and
/// stops at the first that fails; a directory is never moved below itself.
/// `is_dir` tells whether a resolved source is a directory and `rename` moves
/// it, giving the error to report when it cannot.
pub fn move_entries<R: Fn(&str) -> Result<String, String>, E: Fn(&str) -> bool, D: Fn(&str) -> bool, M: Fn(&str, &str) -> Result<(), String>>(
    sources: &Vec<String>,
    destination: &str,
    destination_resolved: Result<String, String>,
    destination_is_dir: bool,
    resolve: &R,
    taken: &E,
    is_dir: &D,
    rename: &M,
) -> (r: Result<FileOperationResult, String>)
    requires
        forall|p: &str| resolve.requires((p,)),
        forall|p: &str| taken.requires((p,)),
        forall|p: &str| is_dir.requires((p,)),
        forall|s: &str, t: &str| rename.requires((s, t)),
    ensures
        match existing_check(destination@, text_result_view(destination_resolved)) {
            Err(e) => r is Err && r->Err_0@ == e,
            Ok(d) => if !destination_is_dir {
                r is Err && r->Err_0@ == "The selected path is not a directory."@
            } else {
                move_outcome(*resolve, *taken, *is_dir, *rename, d, views(sources@), operation_view(r))
            },
        },
{
    let dest = existing_directory(destination, destination_resolved, destination_is_dir)?;
    let ghost d = dest@;
    let ghost srcs = views(sources@);
    let mut affected: Vec<String> = Vec::new();
    let mut i: usize = 0;
    while i < sources.len()
        invariant
            i <= sources.len(),
            srcs == views(sources@),
            d == dest@,
            existing_check(destination@, text_result_view(destination_resolved)) == Ok::<Seq<char>, Seq<char>>(d),
            destination_is_dir,
            forall|p: &str| resolve.requires((p,)),
            forall|p: &str| taken.requires((p,)),
            forall|p: &str| is_dir.requires((p,)),
            forall|s: &str, t: &str| rename.requires((s, t)),
            affected.len() == i,
            moved_all(*resolve, *taken, *is_dir, *rename, d, srcs.take(i as int), views(affected@)),
        decreases sources.len() - i,
    {
        assert(srcs[i as int] == sources@[i as int]@);
        let c = match resolve_chosen(sources[i].as_str(), resolve) {
            Ok(c) => c,
            Err(e) => {
                assert(move_failed_one(*resolve, *taken, *is_dir, *rename, d, srcs[i as int], e@));
                assert(moved_all(*resolve, *taken, *is_dir, *rename, d, srcs.take(views(affected@).len() as int), views(affected@)));
                return Err(e);
            },
        };
        let target = match unique_destination(dest.as_str(), c.as_str(), taken) {
            Ok(t) => t,
            Err(e) => {
                assert(placed(*taken, d, c@, Err(e@)));
                assert(move_failed_one(*resolve, *taken, *is_dir, *rename, d, srcs[i as int], e@));
                assert(moved_all(*resolve, *taken, *is_dir, *rename, d, srcs.take(views(affected@).len() as int), views(affected@)));
                return Err(e);
            },
        };
        assert(placed(*taken, d, c@, Ok(target@)));
        let b = is_dir(c.as_str());
        assert(probed(*is_dir, c@, b));
        match check_move_into_itself(c.as_str(), target.as_str(), b) {
            Ok(()) => {},
            Err(e) => {
                assert(move_failed_one(*resolve, *taken, *is_dir, *rename, d, srcs[i as int], e@));
                assert(moved_all(*resolve, *taken, *is_dir, *rename, d, srcs.take(views(affected@).len() as int), views(affected@)));
                return Err(e);
            },
        }
        let o = rename(c.as_str(), target.as_str());
        assert(acted(*rename, c@, target@, crate::text::check_view(o)));
        match o {
            Ok(()) => {},
            Err(e) => {
                assert(acted(*rename, c@, target@, Err(e@)));
                assert(move_failed_one(*resolve, *taken, *is_dir, *rename, d, srcs[i as int], e@));
                assert(moved_all(*resolve, *taken, *is_dir, *rename, d, srcs.take(views(affected@).len() as int), views(affected@)));
                return Err(e);
            },
        }
        assert(moved_one(*resolve, *taken, *is_dir, *rename, d, srcs[i as int], target@));
        let ghost before = views(affected@);
        affected.push(target);
        proof {
            assert(views(affected@) =~= before.push(views(affected@)[i as int]));
            assert(srcs.take(i + 1) =~= srcs.take(i as int).push(srcs[i as int]));
            assert forall|j: int| 0 <= j < i + 1 implies #[trigger] moved_one(*resolve, *taken, *is_dir, *rename, d,
                srcs.take(i + 1)[j], views(affected@)[j]) by {
                if j < i {
                    assert(views(affected@)[j] == before[j]);
                    assert(srcs.take(i + 1)[j] == srcs.take(i as int)[j]);
                }
            }
        }
        i = i + 1;
    }
    assert(srcs.take(sources.len() as int) =~= srcs);
    Ok(FileOperationResult { affected_paths: affected })
}

} // verus!

verus! {

/// `path` resolved to `c`, which is not protected, and `act` took it away.
pub open spec fn removed_one<R: Fn(&str) -> Result<String, String>, A: Fn(&str) -> Result<(), String>>(
    resolve: R,
    act: A,
    homes: Seq<Seq<char>>,
    path: Seq<char>,
    c: Seq<char>,
) -> bool {
    resolved_to(resolve, path, c) && protection_check(c, homes) is Ok && acted_on(act, c, Ok(()))
}

/// Taking `path` away failed with `e`.
pub open spec fn remove_failed_one<R: Fn(&str) -> Result<String, String>, A: Fn(&str) -> Result<(), String>>(
    resolve: R,
    act: A,
    homes: Seq<Seq<char>>,
    path: Seq<char>,
    e: Seq<char>,
) -> bool {
    ||| resolve_failed(resolve, path, e)
    ||| exists|c: Seq<char>| #[trigger] resolved_to(resolve, path, c) && protection_check(c, homes) == Err::<(), Seq<char>>(e)
    ||| exists|c: Seq<char>| #[trigger] resolved_to(resolve, path, c) && protection_check(c, homes) is Ok
        && acted_on(act, c, Err(e))
}

pub open spec fn removed_all<R: Fn(&str) -> Result<String, String>, A: Fn(&str) -> Result<(), String>>(
    resolve: R,
    act: A,
    homes: Seq<Seq<char>>,
    paths: Seq<Seq<char>>,
    done: Seq<Seq<char>>,
) -> bool {
    &&& done.len() == paths.len()
    &&& forall|i: int| 0 <= i < paths.len() ==> #[trigger] removed_one(resolve, act, homes, paths[i], done[i])
}

/// Every path was taken away, in order; or the first ones were, and the next
/// failed with `e`.
pub open spec fn remove_outcome<R: Fn(&str) -> Result<String, String>, A: Fn(&str) -> Result<(), String>>(
    resolve: R,
    act: A,
    homes: Seq<Seq<char>>,
    paths: Seq<Seq<char>>,
    r: Result<Seq<Seq<char>>, Seq<char>>,
) -> bool {
    match r {
        Ok(done) => removed_all(resolve, act, homes, paths, done),
        Err(e) => exists|done: Seq<Seq<char>>| #[trigger] removed_all(resolve, act, homes, paths.take(done.len() as int), done)
            && done.len() < paths.len()
            && remove_failed_one(resolve, act, homes, paths[done.len() as int], e),
    }
}

/// Resolves each path, refuses roots and home directories, and hands it to
/// `act`, in order, stopping at the first that fails.
fn remove_each<R: Fn(&str) -> Result<String, String>, A: Fn(&str) -> Result<(), String>>(
    paths: &Vec<String>,
    homes: &Vec<String>,
    resolve: &R,
    act: &A,
) -> (r: Result<FileOperationResult, String>)
    requires
        forall|p: &str| resolve.requires((p,)),
        forall|p: &str| act.requires((p,)),
    ensures
        remove_outcome(*resolve, *act, views(homes@), views(paths@), operation_view(r)),
{
    let ghost ps = views(paths@);
    let ghost hs = views(homes@);
    let mut affected: Vec<String> = Vec::new();
    let mut i: usize = 0;
    while i < paths.len()
        invariant
            i <= paths.len(),
            ps == views(paths@),
            hs == views(homes@),
            forall|p: &str| resolve.requires((p,)),
            forall|p: &str| act.requires((p,)),
            affected.len() == i,
            removed_all(*resolve, *act, hs, ps.take(i as int), views(affected@)),
        decreases paths.len() - i,
    {
        assert(ps[i as int] == paths@[i as int]@);
        let c = match resolve_chosen(paths[i].as_str(), resolve) {
            Ok(c) => c,
            Err(e) => {
                assert(remove_failed_one(*resolve, *act, hs, ps[i as int], e@));
                assert(removed_all(*resolve, *act, hs, ps.take(views(affected@).len() as int), views(affected@)));
                return Err(e);
            },
        };
        match reject_protected_root(c.as_str(), homes) {
            Ok(()) => {},
            Err(e) => {
                assert(remove_failed_one(*resolve, *act, hs, ps[i as int], e@));
                assert(removed_all(*resolve, *act, hs, ps.take(views(affected@).len() as int), views(affected@)));
                return Err(e);
            },
        }
        let o = act(c.as_str());
        assert(acted_on(*act, c@, crate::text::check_view(o)));
        match o {
            Ok(()) => {},
            Err(e) => {
                assert(acted_on(*act, c@, Err(e@)));
                assert(remove_failed_one(*resolve, *act, hs, ps[i as int], e@));
                assert(removed_all(*resolve, *act, hs, ps.take(views(affected@).len() as int), views(affected@)));
                return Err(e);
            },
        }
        assert(removed_one(*resolve, *act, hs, ps[i as int], c@));
        let ghost before = views(affected@);
        affected.push(c);
        proof {
            assert(views(affected@) =~= before.push(views(affected@)[i as int]));
            assert(ps.take(i + 1) =~= ps.take(i as int).push(ps[i as int]));
            assert forall|j: int| 0 <= j < i + 1 implies #[trigger] removed_one(*resolve, *act, hs, ps.take(i + 1)[j],
                views(affected@)[j]) by {
                if j < i {
                    assert(views(affected@)[j] == before[j]);
                    assert(ps.take(i + 1)[j] == ps.take(i as int)[j]);
                }
            }
        }
        i = i + 1;
    }
    assert(ps.take(paths.len() as int) =~= ps);
    Ok(FileOperationResult { affected_paths: affected })
}

/// Moves each path to the system trash, in order, stopping at the first that
/// fails. Filesystem roots and the home directories in `homes` are refused;
/// `trash` moves a resolved path and gives the error to report when it cannot.
pub fn trash_entries<R: Fn(&str) -> Result<String, String>, T: Fn(&str) -> Result<(), String>>(
    paths: &Vec<String>,
    homes: &Vec<String>,
    resolve: &R,
    trash: &T,
) -> (r: Result<FileOperationResult, String>)
    requires
        forall|p: &str| resolve.requires((p,)),
        forall|p: &str| trash.requires((p,)),
    ensures
        remove_outcome(*resolve, *trash, views(homes@), views(paths@), operation_view(r)),
{
    remove_each(paths, homes, resolve, trash)
}

/// Deletes each path for good, in order, stopping at the first that fails, and
/// only once the user confirmed it. Filesystem roots and the home directories
/// in `homes` are refused; `delete` removes a resolved path and gives the error
/// to report when it cannot.
pub fn delete_entries_permanently<R: Fn(&str) -> Result<String, String>, X: Fn(&str) -> Result<(), String>>(
    paths: &Vec<String>,
    confirmed: bool,
    homes: &Vec<String>,
    resolve: &R,
    delete: &X,
) -> (r: Result<FileOperationResult, String>)
    requires
        forall|p: &str| resolve.requires((p,)),
        forall|p: &str| delete.requires((p,)),
    ensures
        !confirmed ==> r is Err && r->Err_0@ == "Permanent deletion requires explicit confirmation."@,
        confirmed ==> remove_outcome(*resolve, *delete, views(homes@), views(paths@), operation_view(r)),
{
    require_confirmation(confirmed)?;
    remove_each(paths, homes, resolve, delete)
}

} // verus!

verus! {

/// The verdict on a directory chosen in the browser: [`existing_check`], and
/// the resolved path must be a directory.
pub open spec fn directory_check(path: Seq<char>, resolved: Result<Seq<char>, Seq<char>>, is_dir: bool) -> Result<Seq<char>, Seq<char>> {
    match existing_check(path, resolved) {
        Ok(c) => if is_dir { Ok(c) } else { Err("The selected path is not a directory."@) },
        Err(e) => Err(e),
    }
}

/// The listing of `directory` built from the entries `read` gave.
pub open spec fn listing_of(directory: Seq<char>, read: Result<Vec<FileEntry>, String>, r: Result<DirectoryListing, String>) -> bool {
    match read {
        Err(m) => r is Err && r->Err_0@ == "Could not read "@ + directory + ": "@ + m@,
        Ok(entries) => r matches Ok(l) && l.path@ == directory && opt_view(l.parent) == parent_of(directory)
            && entry_views(l.entries@) == listing_order(entry_views(entries@)),
    }
}

/// Lists a directory: folders first, then by lower-case name. `resolved` is what
/// resolving `path` gave and `is_dir` whether that is a directory; `read` gives
/// the entries of the resolved directory, described as [`entry_from_metadata`]
/// does.
pub fn list_directory<F: Fn(&str) -> Result<Vec<FileEntry>, String>>(
    path: &str,
    resolved: Result<String, String>,
    is_dir: bool,
    read: &F,
) -> (r: Result<DirectoryListing, String>)
    requires
        forall|p: &str| read.requires((p,)),
    ensures
        match directory_check(path@, text_result_view(resolved), is_dir) {
            Err(e) => r is Err && r->Err_0@ == e,
            Ok(d) => exists|p: &str, o: Result<Vec<FileEntry>, String>| p@ == d && #[trigger] read.ensures((p,), o)
                && listing_of(d, o, r),
        },
{
    let d = existing_directory(path, resolved, is_dir)?;
    let o = read(d.as_str());
    let ghost og = o;
    let r = match o {
        Err(m) => {
            let mut e = concat2("Could not read ", d.as_str());
            e.append(": ");
            e.append(m.as_str());
            Err(e)
        },
        Ok(entries) => Ok(DirectoryListing { parent: parent(d.as_str()), path: d.clone(), entries: order_entries(entries) }),
    };
    assert(listing_of(d@, og, r));
    r
}

/// The outcome of making the new folder: the target as [`creation_target`]
/// chose it, then what `make` gave.
pub open spec fn created_one<F: Fn(&str) -> bool, M: Fn(&str) -> Result<(), String>>(
    taken: F,
    make: M,
    parent: Seq<char>,
    name: Seq<char>,
    os: TargetOs,
    r: Result<Seq<Seq<char>>, Seq<char>>,
) -> bool {
    exists|t: Result<String, String>| #[trigger] new_item_target(taken, parent, name, os, t) && match t {
        Err(e) => r == Err::<Seq<Seq<char>>, Seq<char>>(e@),
        Ok(target) => {
            ||| acted_on(make, target@, Ok(())) && r == Ok::<Seq<Seq<char>>, Seq<char>>(seq![target@])
            ||| exists|m: Seq<char>| #[trigger] acted_on(make, target@, Err(m)) && r == Err::<Seq<Seq<char>>, Seq<char>>(m)
        },
    }
}

/// Creates the folder `name` inside the chosen directory. `make` creates it and
/// gives the error to report when it cannot.
pub fn create_directory<F: Fn(&str) -> bool, M: Fn(&str) -> Result<(), String>>(
    parent_path: &str,
    name: &str,
    resolved: Result<String, String>,
    is_dir: bool,
    os: TargetOs,
    taken: &F,
    make: &M,
) -> (r: Result<FileOperationResult, String>)
    requires
        forall|p: &str| taken.requires((p,)),
        forall|p: &str| make.requires((p,)),
    ensures
        match directory_check(parent_path@, text_result_view(resolved), is_dir) {
            Err(e) => r is Err && r->Err_0@ == e,
            Ok(d) => created_one(*taken, *make, d, name@, os, operation_view(r)),
        },
{
    let d = existing_directory(parent_path, resolved, is_dir)?;
    let t = creation_target(d.as_str(), name, os, taken);
    let ghost tg = t;
    assert(new_item_target(*taken, d@, name@, os, tg));
    let target = match t {
        Ok(target) => target,
        Err(e) => return Err(e),
    };
    let o = make(target.as_str());
    assert(acted_on(*make, target@, crate::text::check_view(o)));
    match o {
        Ok(()) => {},
        Err(m) => {
            assert(acted_on(*make, target@, Err(m@)));
            return Err(m);
        },
    }
    let mut affected: Vec<String> = Vec::new();
    affected.push(target);
    assert(views(affected@) =~= seq![affected@[0]@]);
    Ok(FileOperationResult { affected_paths: affected })
}

/// The outcome of renaming `source`: the new path as [`rename_target`] chose it,
/// then what `rename` gave.
pub open spec fn renamed_one<F: Fn(&str) -> bool, M: Fn(&str, &str) -> Result<(), String>>(
    taken: F,
    rename: M,
    source: Seq<char>,
    new_name: Seq<char>,
    os: TargetOs,
    r: Result<Seq<Seq<char>>, Seq<char>>,
) -> bool {
    match parent_of(source) {
        None => r == Err::<Seq<Seq<char>>, Seq<char>>("Filesystem roots cannot be renamed."@),
        Some(p) => exists|t: Result<String, String>| #[trigger] new_item_target(taken, p, new_name, os, t) && match t {
            Err(e) => r == Err::<Seq<Seq<char>>, Seq<char>>(e@),
            Ok(target) => {
                ||| acted(rename, source, target@, Ok(())) && r == Ok::<Seq<Seq<char>>, Seq<char>>(seq![target@])
                ||| exists|m: Seq<char>| #[trigger] acted(rename, source, target@, Err(m))
                    && r == Err::<Seq<Seq<char>>, Seq<char>>(m)
            },
        },
    }
}

/// Renames the chosen item within its directory. `resolved` is what resolving
/// `path` gave; `rename` renames it and gives the error to report when it
/// cannot.
pub fn rename_entry<F: Fn(&str) -> bool, M: Fn(&str, &str) -> Result<(), String>>(
    path: &str,
    new_name: &str,
    resolved: Result<String, String>,
    os: TargetOs,
    taken: &F,
    rename: &M,
) -> (r: Result<FileOperationResult, String>)
    requires
        forall|p: &str| taken.requires((p,)),
        forall|s: &str, t: &str| rename.requires((s, t)),
    ensures
        match existing_check(path@, text_result_view(resolved)) {
            Err(e) => r is Err && r->Err_0@ == e,
            Ok(source) => renamed_one(*taken, *rename, source, new_name@, os, operation_view(r)),
        },
{
    let source = canonical_existing(path, resolved)?;
    let dir = match parent(source.as_str()) {
        Some(p) => p,
        None => return Err("Filesystem roots cannot be renamed.".to_owned()),
    };
    assert(parent_of(source@) == Some(dir@));
    let t = creation_target(dir.as_str(), new_name, os, taken);
    let ghost tg = t;
    assert(new_item_target(*taken, dir@, new_name@, os, tg));
    assert(new_item_target(*taken, parent_of(source@)->0, new_name@, os, tg));
    let target = match t {
        Ok(target) => target,
        Err(e) => {
            assert(renamed_one(*taken, *rename, source@, new_name@, os, Err(e@)));
            return Err(e);
        },
    };
    let o = rename(source.as_str(), target.as_str());
    assert(acted(*rename, source@, target@, crate::text::check_view(o)));
    match o {
        Ok(()) => {},
        Err(m) => {
            assert(acted(*rename, source@, target@, Err(m@)));
            assert(renamed_one(*taken, *rename, source@, new_name@, os, Err(m@)));
            return Err(m);
        },
    }
    let mut affected: Vec<String> = Vec::new();
    affected.push(target);
    assert(views(affected@) =~= seq![affected@[0]@]);
    Ok(FileOperationResult { affected_paths: affected })
}

} // verus!
