//! Copying diffs field by field, and comparing them by content as `==` on
//! the diff types does (strings by their characters).

use vstd::prelude::*;
use crate::diff::{FileDiff, Hunk, Line};
use crate::text::same_str;

verus! {

/// The characters of an optional string.
pub open spec fn opt_chars(o: Option<String>) -> Option<Seq<char>> {
    match o {
        Some(s) => Some(s@),
        None => None,
    }
}

/// Two lines with the same numbers, kind and text.
pub open spec fn same_line(a: Line, b: Line) -> bool {
    a.old == b.old && a.new == b.new && a.kind == b.kind && a.text@ == b.text@
}

/// Two hunks with the same header, patch and lines.
pub open spec fn same_hunk(a: Hunk, b: Hunk) -> bool {
    &&& a.header@ == b.header@
    &&& a.patch@ == b.patch@
    &&& a.lines@.len() == b.lines@.len()
    &&& forall|i: int| 0 <= i < a.lines@.len() ==> same_line(#[trigger] a.lines@[i], b.lines@[i])
}

/// Two file diffs that agree in every field.
pub open spec fn same_file(a: FileDiff, b: FileDiff) -> bool {
    &&& a.path@ == b.path@
    &&& opt_chars(a.old_path) == opt_chars(b.old_path)
    &&& a.status == b.status
    &&& a.binary == b.binary
    &&& a.patch@ == b.patch@
    &&& a.additions == b.additions
    &&& a.deletions == b.deletions
    &&& opt_chars(a.old_text) == opt_chars(b.old_text)
    &&& opt_chars(a.new_text) == opt_chars(b.new_text)
    &&& a.hunks@.len() == b.hunks@.len()
    &&& forall|i: int| 0 <= i < a.hunks@.len() ==> same_hunk(#[trigger] a.hunks@[i], b.hunks@[i])
}

/// Two lists of file diffs that agree file by file.
#[verifier::opaque]
pub open spec fn same_files(a: Seq<FileDiff>, b: Seq<FileDiff>) -> bool {
    a.len() == b.len() && forall|i: int| 0 <= i < a.len() ==> same_file(#[trigger] a[i], b[i])
}

/// A copy of an optional string.
pub fn copy_opt(o: &Option<String>) -> (r: Option<String>)
    ensures
        r == *o,
{
    match o {
        Some(s) => Some(s.clone()),
        None => None,
    }
}

/// Whether two optional strings hold the same characters.
fn same_opt(a: &Option<String>, b: &Option<String>) -> (r: bool)
    ensures
        r == (opt_chars(*a) == opt_chars(*b)),
{
    match (a, b) {
        (Some(x), Some(y)) => same_str(x.as_str(), y.as_str()),
        (None, None) => true,
        _ => false,
    }
}

/// A copy of a line.
pub fn copy_line(l: &Line) -> (r: Line)
    ensures
        r == *l,
{
    Line { old: l.old, new: l.new, kind: l.kind, text: l.text.clone() }
}

/// A copy of a hunk.
pub fn copy_hunk(h: &Hunk) -> (r: Hunk)
    ensures
        r.header == h.header,
        r.patch == h.patch,
        r.lines@ == h.lines@,
{
    let mut lines: Vec<Line> = Vec::new();
    let mut i: usize = 0;
    while i < h.lines.len()
        invariant
            i <= h.lines@.len(),
            lines@ == h.lines@.take(i as int),
        decreases h.lines.len() - i,
    {
        lines.push(copy_line(&h.lines[i]));
        i = i + 1;
        assert(lines@ =~= h.lines@.take(i as int));
    }
    assert(h.lines@.take(i as int) =~= h.lines@);
    Hunk { header: h.header.clone(), patch: h.patch.clone(), lines }
}

/// A copy of a file diff, equal to it in content.
pub fn copy_file(f: &FileDiff) -> (r: FileDiff)
    ensures
        same_file(r, *f),
        r.path == f.path,
        r.status == f.status,
        r.hunks@.len() == f.hunks@.len(),
{
    let mut hunks: Vec<Hunk> = Vec::new();
    let mut i: usize = 0;
    while i < f.hunks.len()
        invariant
            i <= f.hunks@.len(),
            hunks@.len() == i,
            forall|k: int| 0 <= k < i ==> same_hunk(#[trigger] hunks@[k], f.hunks@[k]),
        decreases f.hunks.len() - i,
    {
        hunks.push(copy_hunk(&f.hunks[i]));
        i = i + 1;
    }
    FileDiff {
        path: f.path.clone(),
        old_path: copy_opt(&f.old_path),
        status: f.status,
        binary: f.binary,
        patch: f.patch.clone(),
        additions: f.additions,
        deletions: f.deletions,
        old_text: copy_opt(&f.old_text),
        new_text: copy_opt(&f.new_text),
        hunks,
    }
}

/// A copy of a list of file diffs, equal to it in content.
pub fn copy_files(files: &Vec<FileDiff>) -> (r: Vec<FileDiff>)
    ensures
        same_files(r@, files@),
{
    let mut r: Vec<FileDiff> = Vec::new();
    let mut i: usize = 0;
    while i < files.len()
        invariant
            i <= files@.len(),
            r@.len() == i,
            forall|k: int| 0 <= k < i ==> same_file(#[trigger] r@[k], files@[k]),
        decreases files.len() - i,
    {
        r.push(copy_file(&files[i]));
        i = i + 1;
    }
    proof {
        reveal(same_files);
    }
    r
}

/// Whether two hunks agree (see `same_hunk`).
fn hunks_equal(a: &Hunk, b: &Hunk) -> (r: bool)
    ensures
        r == same_hunk(*a, *b),
{
    if !same_str(a.header.as_str(), b.header.as_str()) || !same_str(a.patch.as_str(), b.patch.as_str())
        || a.lines.len() != b.lines.len() {
        return false;
    }
    let mut i: usize = 0;
    while i < a.lines.len()
        invariant
            i <= a.lines@.len(),
            a.lines@.len() == b.lines@.len(),
            forall|k: int| 0 <= k < i ==> same_line(#[trigger] a.lines@[k], b.lines@[k]),
        decreases a.lines.len() - i,
    {
        let x = &a.lines[i];
        let y = &b.lines[i];
        if x.old != y.old || x.new != y.new || x.kind != y.kind || !same_str(
            x.text.as_str(),
            y.text.as_str(),
        ) {
            assert(!same_line(a.lines@[i as int], b.lines@[i as int]));
            return false;
        }
        i = i + 1;
    }
    true
}

/// Whether two file diffs agree (see `same_file`).
pub fn files_agree(a: &FileDiff, b: &FileDiff) -> (r: bool)
    ensures
        r == same_file(*a, *b),
{
    if !same_str(a.path.as_str(), b.path.as_str()) || !same_opt(&a.old_path, &b.old_path)
        || a.status != b.status || a.binary != b.binary || !same_str(
        a.patch.as_str(),
        b.patch.as_str(),
    ) || a.additions != b.additions || a.deletions != b.deletions || !same_opt(
        &a.old_text,
        &b.old_text,
    ) || !same_opt(&a.new_text, &b.new_text) || a.hunks.len() != b.hunks.len() {
        return false;
    }
    let mut i: usize = 0;
    while i < a.hunks.len()
        invariant
            i <= a.hunks@.len(),
            a.hunks@.len() == b.hunks@.len(),
            forall|k: int| 0 <= k < i ==> same_hunk(#[trigger] a.hunks@[k], b.hunks@[k]),
        decreases a.hunks.len() - i,
    {
        if !hunks_equal(&a.hunks[i], &b.hunks[i]) {
            return false;
        }
        i = i + 1;
    }
    true
}

/// Whether two lists of file diffs agree (see `same_files`), as `==` on
/// them answers.
pub fn file_lists_agree(a: &Vec<FileDiff>, b: &Vec<FileDiff>) -> (r: bool)
    ensures
        r == same_files(a@, b@),
{
    proof {
        reveal(same_files);
    }
    if a.len() != b.len() {
        return false;
    }
    let mut i: usize = 0;
    while i < a.len()
        invariant
            i <= a@.len(),
            a@.len() == b@.len(),
            forall|k: int| 0 <= k < i ==> same_file(#[trigger] a@[k], b@[k]),
        decreases a.len() - i,
    {
        if !files_agree(&a[i], &b[i]) {
            proof {
                reveal(same_files);
            }
            return false;
        }
        i = i + 1;
    }
    true
}

/// Content agreement of file lists is transitive.
pub proof fn lemma_same_files_transitive(a: Seq<FileDiff>, b: Seq<FileDiff>, c: Seq<FileDiff>)
    requires
        same_files(a, b),
        same_files(b, c),
    ensures
        same_files(a, c),
{
    reveal(same_files);
    assert forall|i: int| 0 <= i < a.len() implies crate::diff_copy::same_file(#[trigger] a[i], c[i]) by {
        assert(crate::diff_copy::same_file(a[i], b[i]));
        assert(crate::diff_copy::same_file(b[i], c[i]));
        assert forall|h: int| 0 <= h < a[i].hunks@.len() implies crate::diff_copy::same_hunk(
            #[trigger] a[i].hunks@[h],
            c[i].hunks@[h],
        ) by {
            assert(crate::diff_copy::same_hunk(a[i].hunks@[h], b[i].hunks@[h]));
            assert(crate::diff_copy::same_hunk(b[i].hunks@[h], c[i].hunks@[h]));
            assert forall|l: int| 0 <= l < a[i].hunks@[h].lines@.len() implies crate::diff_copy::same_line(
                #[trigger] a[i].hunks@[h].lines@[l],
                c[i].hunks@[h].lines@[l],
            ) by {
                assert(crate::diff_copy::same_line(a[i].hunks@[h].lines@[l], b[i].hunks@[h].lines@[l]));
                assert(crate::diff_copy::same_line(b[i].hunks@[h].lines@[l], c[i].hunks@[h].lines@[l]));
            }
        }
    }
}

/// Every list of file diffs agrees with itself.
pub proof fn lemma_same_files_reflexive(a: Seq<FileDiff>)
    ensures
        same_files(a, a),
{
    reveal(same_files);
    assert forall|i: int| 0 <= i < a.len() implies crate::diff_copy::same_file(#[trigger] a[i], a[i]) by {
        assert forall|h: int| 0 <= h < a[i].hunks@.len() implies crate::diff_copy::same_hunk(
            #[trigger] a[i].hunks@[h],
            a[i].hunks@[h],
        ) by {}
    }
}

/// Content agreement of file lists is symmetric.
pub proof fn lemma_same_files_symmetric(a: Seq<FileDiff>, b: Seq<FileDiff>)
    requires
        same_files(a, b),
    ensures
        same_files(b, a),
{
    reveal(same_files);
    assert forall|i: int| 0 <= i < b.len() implies crate::diff_copy::same_file(#[trigger] b[i], a[i]) by {
        assert(crate::diff_copy::same_file(a[i], b[i]));
        assert forall|h: int| 0 <= h < b[i].hunks@.len() implies crate::diff_copy::same_hunk(
            #[trigger] b[i].hunks@[h],
            a[i].hunks@[h],
        ) by {
            assert(crate::diff_copy::same_hunk(a[i].hunks@[h], b[i].hunks@[h]));
            assert forall|l: int| 0 <= l < b[i].hunks@[h].lines@.len() implies crate::diff_copy::same_line(
                #[trigger] b[i].hunks@[h].lines@[l],
                a[i].hunks@[h].lines@[l],
            ) by {
                assert(crate::diff_copy::same_line(a[i].hunks@[h].lines@[l], b[i].hunks@[h].lines@[l]));
            }
        }
    }
}

} // verus!
