//! The rows of the pull-request file tree: folders first (a chain of
//! folders that each hold one folder and no file is one row), then the
//! files directly under the prefix; a folded folder hides what is under it.

use vstd::prelude::*;
use vstd::string::{StrSliceExecFns, StringExecFns};
use crate::diff::FileDiff;
use crate::pr_tree::{
    child_folders, file_name, find_char, find_char_exec, has_direct, last_component, remainder,
    strip_count, tree_children, tree_status,
};
use crate::text::{
    chars_of, contains_chars, has_name, is_infix, list_has_name, lowercase, same_str, to_lower,
    trim_str, trimmed,
};

verus! {

/// One row of the file tree.
#[derive(Clone, Debug)]
pub struct PrTreeRow {
    /// A folder row (else a file row).
    pub folder: bool,
    /// The folder's path (the first folder of a joined chain), or the
    /// file's path.
    pub path: String,
    /// What the row shows: the joined folder names, or the file's name.
    pub label: String,
    pub depth: usize,
    /// A folded folder.
    pub collapsed: bool,
    /// `A` when every file under the folder (or the file) is added, else
    /// the file's own status, or `M` for a folder.
    pub status: char,
    /// The selected file.
    pub selected: bool,
}

/// What a row says.
pub struct RowSpec {
    pub folder: bool,
    pub path: Seq<char>,
    pub label: Seq<char>,
    pub depth: int,
    pub collapsed: bool,
    pub status: char,
    pub selected: bool,
}

/// What a row says, read from the row.
pub open spec fn row_spec(r: PrTreeRow) -> RowSpec {
    RowSpec {
        folder: r.folder,
        path: r.path@,
        label: r.label@,
        depth: r.depth as int,
        collapsed: r.collapsed,
        status: r.status,
        selected: r.selected,
    }
}

/// What each row says.
pub open spec fn rows_spec(rows: Seq<PrTreeRow>) -> Seq<RowSpec> {
    rows.map_values(|r: PrTreeRow| row_spec(r))
}

/// `s` starts with `p`.
pub open spec fn starts_with(s: Seq<char>, p: Seq<char>) -> bool {
    p.len() <= s.len() && s.take(p.len() as int) == p
}

/// The first `n` files whose path starts with `p`.
pub open spec fn under(files: Seq<&FileDiff>, p: Seq<char>, n: int) -> Seq<&FileDiff>
    decreases n,
{
    if n <= 0 {
        Seq::empty()
    } else {
        let before = under(files, p, n - 1);
        if starts_with(files[n - 1].path@, p) {
            before.push(files[n - 1])
        } else {
            before
        }
    }
}

/// Every path starts with `prefix` and has at most `bound` characters.
pub open spec fn fits(files: Seq<&FileDiff>, prefix: Seq<char>, bound: int) -> bool {
    forall|i: int|
        0 <= i < files.len() ==> starts_with(#[trigger] files[i].path@, prefix) && files[i].path@.len()
            <= bound
}

/// A folder's status: `A` when it holds files and all are added, else `M`.
pub open spec fn folder_status(files: Seq<&FileDiff>) -> char {
    if files.len() > 0 && forall|k: int| 0 <= k < files.len() ==> #[trigger] files[k].status == 'A' {
        'A'
    } else {
        'M'
    }
}

/// Every path starts with the empty prefix.
pub proof fn lemma_fits_empty(files: Seq<&FileDiff>, prefix: Seq<char>, bound: int)
    requires
        fits(files, prefix, bound),
    ensures
        fits(files, Seq::empty(), bound),
{
    assert forall|i: int| 0 <= i < files.len() implies starts_with(
        #[trigger] files[i].path@,
        Seq::empty(),
    ) by {
        assert(files[i].path@.take(0) =~= Seq::<char>::empty());
    }
}

/// The files of `files` under `p` start with `p` and keep the bound.
pub proof fn lemma_under_fits(files: Seq<&FileDiff>, p: Seq<char>, n: int, bound: int)
    requires
        0 <= n <= files.len(),
        forall|i: int| 0 <= i < files.len() ==> #[trigger] files[i].path@.len() <= bound,
    ensures
        fits(under(files, p, n), p, bound),
        under(files, p, n).len() <= n,
    decreases n,
{
    if n > 0 {
        lemma_under_fits(files, p, n - 1, bound);
    }
}

/// Each folder directly under `prefix` is `prefix` and a name, and it and a
/// slash begin one of the paths.
pub proof fn lemma_folder_within(files: Seq<&FileDiff>, prefix: Seq<char>, n: int, k: int)
    requires
        0 <= n <= files.len(),
        forall|i: int| 0 <= i < n ==> starts_with(#[trigger] files[i].path@, prefix),
        0 <= k < child_folders(files, prefix, n).len(),
    ensures
        child_folders(files, prefix, n).len() <= n,
        child_folders(files, prefix, n)[k].len() >= prefix.len(),
        exists|i: int|
            0 <= i < n && starts_with(
                #[trigger] files[i].path@,
                child_folders(files, prefix, n)[k] + "/"@,
            ),
    decreases n,
{
    let before = child_folders(files, prefix, n - 1);
    let path = files[n - 1].path@;
    let rest = remainder(path, prefix);
    let slash = find_char(rest, '/', 0);
    lemma_child_folders_len(files, prefix, n - 1);
    if k < before.len() {
        lemma_folder_within(files, prefix, n - 1, k);
        let i = choose|i: int|
            0 <= i < n - 1 && starts_with(#[trigger] files[i].path@, before[k] + "/"@);
        assert(starts_with(files[i].path@, child_folders(files, prefix, n)[k] + "/"@));
    } else {
        lemma_find_char(rest, '/', 0);
        let f = prefix + rest.take(slash);
        assert(rest =~= path.skip(prefix.len() as int));
        assert(child_folders(files, prefix, n)[k] == f);
        reveal_strlit("/");
        assert((f + "/"@) =~= path.take(prefix.len() + slash + 1));
        assert(starts_with(files[n - 1].path@, f + "/"@));
    }
}

/// There are no more folders than paths.
pub proof fn lemma_child_folders_len(files: Seq<&FileDiff>, prefix: Seq<char>, n: int)
    ensures
        child_folders(files, prefix, n).len() <= if n > 0 {
            n
        } else {
            0
        },
    decreases n,
{
    if n > 0 {
        lemma_child_folders_len(files, prefix, n - 1);
    }
}

/// `find_char` stops at a `c` or at the end.
pub proof fn lemma_find_char(s: Seq<char>, c: char, i: int)
    requires
        0 <= i <= s.len(),
    ensures
        i <= find_char(s, c, i) <= s.len(),
        find_char(s, c, i) < s.len() ==> s[find_char(s, c, i)] == c,
    decreases s.len() - i,
{
    if i < s.len() && s[i] != c {
        lemma_find_char(s, c, i + 1);
    }
}

/// The chain of folders below `deepest` (ending in `/`) that each hold one
/// folder and no file, joined: the deepest folder reached (with its `/`)
/// and the label grown by each folder's name.
pub open spec fn joined(files: Seq<&FileDiff>, deepest: Seq<char>, label: Seq<char>, bound: int) -> (
    Seq<char>,
    Seq<char>,
)
    decreases bound - deepest.len(),
    when fits(files, Seq::empty(), bound) && deepest.len() <= bound
{
    let nested = under(files, deepest, files.len() as int);
    let subs = child_folders(nested, deepest, nested.len() as int);
    if has_direct(nested, deepest) || subs.len() != 1 {
        (deepest, label)
    } else {
        proof {
            lemma_under_fits(files, deepest, files.len() as int, bound);
            lemma_folder_within(nested, deepest, nested.len() as int, 0);
            reveal_strlit("/");
        }
        joined(files, subs[0] + "/"@, label + "/"@ + last_component(subs[0]), bound)
    }
}

/// The rows under `prefix` of `files` (whose paths start with it), at
/// `depth`: the folders (see `folder_rows`), then the files directly under
/// the prefix.
pub open spec fn tree_rows_of(
    files: Seq<&FileDiff>,
    prefix: Seq<char>,
    depth: int,
    collapsed: Seq<String>,
    selected: Option<Seq<char>>,
    bound: int,
) -> Seq<RowSpec>
    decreases bound - prefix.len(), files.len() + 1,
    when fits(files, prefix, bound) && prefix.len() <= bound
{
    proof {
        lemma_child_folders_len(files, prefix, files.len() as int);
    }
    folder_rows(
        files,
        prefix,
        depth,
        collapsed,
        selected,
        bound,
        child_folders(files, prefix, files.len() as int).len() as int,
    ) + file_rows(files, prefix, depth, selected, files.len() as int)
}

/// The rows of the first `k` folders directly under `prefix`: each folder
/// (joined with the chain below it) is a row, followed, unless it is
/// folded, by the rows under the deepest folder of the chain.
pub open spec fn folder_rows(
    files: Seq<&FileDiff>,
    prefix: Seq<char>,
    depth: int,
    collapsed: Seq<String>,
    selected: Option<Seq<char>>,
    bound: int,
    k: int,
) -> Seq<RowSpec>
    decreases bound - prefix.len(), k,
    when fits(files, prefix, bound) && prefix.len() <= bound && k <= child_folders(
        files,
        prefix,
        files.len() as int,
    ).len()
{
    if k <= 0 {
        Seq::empty()
    } else {
        let f = child_folders(files, prefix, files.len() as int)[k - 1];
        let (deepest, label) = joined(files, f + "/"@, last_component(f), bound);
        let children = under(files, deepest, files.len() as int);
        let folded = has_name(collapsed, f);
        let row = RowSpec {
            folder: true,
            path: f,
            label,
            depth,
            collapsed: folded,
            status: folder_status(children),
            selected: false,
        };
        proof {
            lemma_folder_within(files, prefix, files.len() as int, k - 1);
            lemma_fits_empty(files, prefix, bound);
            lemma_under_fits(files, deepest, files.len() as int, bound);
            reveal_strlit("/");
            lemma_joined_grows(files, f + "/"@, last_component(f), bound);
            if children.len() > 0 {
                assert(starts_with(children[0].path@, deepest));
            }
        }
        folder_rows(files, prefix, depth, collapsed, selected, bound, k - 1) + seq![row] + if !folded
            && children.len() > 0 {
            tree_rows_of(children, deepest, depth + 1, collapsed, selected, bound)
        } else {
            Seq::empty()
        }
    }
}

/// The rows of the files, among the first `n`, directly under `prefix`.
pub open spec fn file_rows(
    files: Seq<&FileDiff>,
    prefix: Seq<char>,
    depth: int,
    selected: Option<Seq<char>>,
    n: int,
) -> Seq<RowSpec>
    decreases n,
{
    if n <= 0 {
        Seq::empty()
    } else {
        let before = file_rows(files, prefix, depth, selected, n - 1);
        let file = files[n - 1];
        let rest = remainder(file.path@, prefix);
        if rest.len() == 0 || find_char(rest, '/', 0) < rest.len() {
            before
        } else {
            before.push(
                RowSpec {
                    folder: false,
                    path: file.path@,
                    label: last_component(file.path@),
                    depth,
                    collapsed: false,
                    status: file.status,
                    selected: selected == Some(file.path@),
                },
            )
        }
    }
}

/// Joining keeps the start and grows it: the deepest folder reached starts
/// with the one joining began at.
pub proof fn lemma_joined_grows(files: Seq<&FileDiff>, deepest: Seq<char>, label: Seq<char>, bound: int)
    requires
        fits(files, Seq::empty(), bound),
        deepest.len() <= bound,
    ensures
        joined(files, deepest, label, bound).0.len() >= deepest.len(),
    decreases bound - deepest.len(),
{
    let nested = under(files, deepest, files.len() as int);
    let subs = child_folders(nested, deepest, nested.len() as int);
    if !(has_direct(nested, deepest) || subs.len() != 1) {
        lemma_under_fits(files, deepest, files.len() as int, bound);
        lemma_folder_within(nested, deepest, nested.len() as int, 0);
        reveal_strlit("/");
        lemma_joined_grows(files, subs[0] + "/"@, label + "/"@ + last_component(subs[0]), bound);
    }
}

/// The longest path of the first `n` files, in characters.
pub open spec fn longest(files: Seq<&FileDiff>, n: int) -> int
    decreases n,
{
    if n <= 0 {
        0
    } else {
        let before = longest(files, n - 1);
        if files[n - 1].path@.len() > before {
            files[n - 1].path@.len() as int
        } else {
            before
        }
    }
}

/// No path is longer than the longest.
proof fn lemma_longest(files: Seq<&FileDiff>, n: int)
    requires
        0 <= n <= files.len(),
    ensures
        forall|i: int| 0 <= i < n ==> #[trigger] files[i].path@.len() <= longest(files, n),
        longest(files, n) >= 0,
    decreases n,
{
    if n > 0 {
        lemma_longest(files, n - 1);
    }
}

/// The longest path is shorter than the machine's limit when every path is.
proof fn lemma_longest_fits(files: Seq<&FileDiff>, n: int)
    requires
        0 <= n <= files.len(),
        forall|i: int| 0 <= i < files.len() ==> #[trigger] files[i].path@.len() < usize::MAX,
    ensures
        longest(files, n) < usize::MAX,
    decreases n,
{
    if n > 0 {
        lemma_longest_fits(files, n - 1);
    }
}

/// The characters of an optional string.
pub open spec fn opt_chars(o: Option<String>) -> Option<Seq<char>> {
    match o {
        Some(s) => Some(s@),
        None => None,
    }
}

/// Whether `path` starts with `p`.
fn starts_with_str(path: &str, p: &str) -> (r: bool)
    ensures
        r == starts_with(path@, p@),
{
    let a = chars_of(path);
    let b = chars_of(p);
    let off = strip_count(&a, &b);
    if b.len() <= a.len() && off == b.len() {
        proof {
            if b@.len() > 0 {
                assert(a@.skip(b@.len() as int).len() < a@.len());
            }
            if !(a@.take(b@.len() as int) == b@) {
                assert(remainder(a@, b@) == a@);
                assert(a@.skip(off as int).len() == a@.len() - off);
                assert(b@.len() == 0);
                assert(a@.take(0) =~= b@);
            }
        }
        true
    } else {
        proof {
            if b@.len() <= a@.len() && a@.take(b@.len() as int) == b@ {
                assert(a@.skip(off as int) == a@.skip(b@.len() as int));
                assert(a@.skip(off as int).len() == a@.len() - off);
            }
        }
        false
    }
}

/// The files whose path starts with `p` (see `under`).
fn under_exec<'a>(files: &Vec<&'a FileDiff>, p: &str) -> (r: Vec<&'a FileDiff>)
    ensures
        r@ == under(files@, p@, files@.len() as int),
{
    let mut r: Vec<&FileDiff> = Vec::new();
    let mut i: usize = 0;
    while i < files.len()
        invariant
            i <= files@.len(),
            r@ == under(files@, p@, i as int),
        decreases files.len() - i,
    {
        if starts_with_str(files[i].path.as_str(), p) {
            r.push(files[i]);
        }
        i = i + 1;
    }
    r
}

/// Joins the chain of folders below `start` (see `joined`).
fn joined_exec(files: &Vec<&FileDiff>, start: &str, start_label: &str, Ghost(bound): Ghost<int>) -> (r: (
    String,
    String,
))
    requires
        fits(files@, Seq::empty(), bound),
        start@.len() <= bound,
    ensures
        (r.0@, r.1@) == joined(files@, start@, start_label@, bound),
{
    let ghost target = joined(files@, start@, start_label@, bound);
    let mut deepest = start.to_owned();
    let mut label = start_label.to_owned();
    loop
        invariant
            fits(files@, Seq::empty(), bound),
            deepest@.len() <= bound,
            joined(files@, deepest@, label@, bound) == target,
            target == joined(files@, start@, start_label@, bound),
        decreases bound - deepest@.len(),
    {
        let nested = under_exec(files, deepest.as_str());
        let (direct, subs) = tree_children(deepest.as_str(), nested.as_slice());
        let ghost d0 = deepest@;
        let ghost l0 = label@;
        assert(nested@ == under(files@, d0, files@.len() as int));
        assert(direct == has_direct(nested@, d0));
        assert(subs@.len() == child_folders(nested@, d0, nested@.len() as int).len());
        if direct || subs.len() != 1 {
            assert(joined(files@, d0, l0, bound) == (d0, l0));
            return (deepest, label);
        }
        proof {
            lemma_under_fits(files@, deepest@, files@.len() as int, bound);
            lemma_folder_within(nested@, deepest@, nested@.len() as int, 0);
            reveal_strlit("/");
        }
        let next = subs[0].clone();
        let name = file_name(next.as_str());
        label = label.concat("/").concat(name.as_str());
        deepest = next.concat("/");
        proof {
            let c = child_folders(nested@, d0, nested@.len() as int)[0];
            assert(next@ == c);
            assert(joined(files@, d0, l0, bound) == joined(files@, c + "/"@, l0 + "/"@ + last_component(c), bound));
            assert(deepest@ == c + "/"@);
            assert(label@ == l0 + "/"@ + last_component(c));
        }
    }
}

/// Whether a path lies directly under `prefix`: something follows the
/// prefix and it holds no `/`.
fn lies_directly_under(path: &str, prefix: &str) -> (r: bool)
    ensures
        r == ({
            let rest = remainder(path@, prefix@);
            rest.len() > 0 && find_char(rest, '/', 0) == rest.len()
        }),
{
    let p = chars_of(path);
    let q = chars_of(prefix);
    let off = strip_count(&p, &q);
    if off >= p.len() {
        return false;
    }
    let slash = find_char_exec(&p, '/', off);
    slash == p.len()
}

/// The rows under `prefix` (see `tree_rows_of`).
fn rows_under(
    files: &Vec<&FileDiff>,
    prefix: &str,
    depth: usize,
    collapsed: &Vec<String>,
    selected: &Option<String>,
    Ghost(bound): Ghost<int>,
) -> (r: Vec<PrTreeRow>)
    requires
        fits(files@, prefix@, bound),
        prefix@.len() <= bound,
        depth <= prefix@.len(),
        bound < usize::MAX,
    ensures
        rows_spec(r@) == tree_rows_of(files@, prefix@, depth as int, collapsed@, opt_chars(*selected), bound),
    decreases bound - prefix@.len(),
{
    let ghost sel = opt_chars(*selected);
    let (_, folders) = tree_children(prefix, files.as_slice());
    proof {
        lemma_child_folders_len(files@, prefix@, files@.len() as int);
        lemma_fits_empty(files@, prefix@, bound);
    }
    let mut rows: Vec<PrTreeRow> = Vec::new();
    let mut k: usize = 0;
    while k < folders.len()
        invariant
            fits(files@, prefix@, bound),
            fits(files@, Seq::empty(), bound),
            prefix@.len() <= bound,
            depth <= prefix@.len(),
            bound < usize::MAX,
            sel == opt_chars(*selected),
            k <= folders@.len(),
            folders@.len() == child_folders(files@, prefix@, files@.len() as int).len(),
            forall|x: int|
                0 <= x < folders@.len() ==> #[trigger] folders@[x]@ == child_folders(
                    files@,
                    prefix@,
                    files@.len() as int,
                )[x],
            rows_spec(rows@) == folder_rows(files@, prefix@, depth as int, collapsed@, sel, bound, k as int),
        decreases folders.len() - k,
    {
        let f = &folders[k];
        proof {
            lemma_folder_within(files@, prefix@, files@.len() as int, k as int);
            reveal_strlit("/");
        }
        let (deepest, label) = joined_exec(
            files,
            f.clone().concat("/").as_str(),
            file_name(f.as_str()).as_str(),
            Ghost(bound),
        );
        let children = under_exec(files, deepest.as_str());
        let folded = list_has_name(collapsed.as_slice(), f.as_str());
        let (status, _) = tree_status(children.as_slice());
        let ghost before = rows@;
        rows.push(
            PrTreeRow {
                folder: true,
                path: f.clone(),
                label,
                depth,
                collapsed: folded,
                status,
                selected: false,
            },
        );
        proof {
            lemma_under_fits(files@, deepest@, files@.len() as int, bound);
            lemma_joined_grows(files@, f@ + "/"@, last_component(f@), bound);
            assert(rows_spec(rows@) =~= rows_spec(before).push(row_spec(rows@[k as int + 0 + (before.len() - k)])));
        }
        if !folded && children.len() > 0 {
            proof {
                assert(starts_with(children@[0].path@, deepest@));
            }
            let mut sub = rows_under(&children, deepest.as_str(), depth + 1, collapsed, selected, Ghost(bound));
            let ghost mid = rows@;
            rows.append(&mut sub);
            proof {
                assert(rows_spec(rows@) =~= rows_spec(mid) + rows_spec(rows@.skip(mid.len() as int)));
            }
        }
        k = k + 1;
    }
    let ghost folder_part = rows@;
    let mut i: usize = 0;
    while i < files.len()
        invariant
            i <= files@.len(),
            sel == opt_chars(*selected),
            rows_spec(rows@) == rows_spec(folder_part) + file_rows(files@, prefix@, depth as int, sel, i as int),
        decreases files.len() - i,
    {
        let path = files[i].path.as_str();
        let ghost file = files@[i as int];
        let ghost rows_before = rows@;
        proof {
            lemma_find_char(remainder(file.path@, prefix@), '/', 0);
            assert(file_rows(files@, prefix@, depth as int, sel, i + 1) == {
                let before = file_rows(files@, prefix@, depth as int, sel, i as int);
                let rest = remainder(file.path@, prefix@);
                if rest.len() == 0 || find_char(rest, '/', 0) < rest.len() {
                    before
                } else {
                    before.push(
                        RowSpec {
                            folder: false,
                            path: file.path@,
                            label: last_component(file.path@),
                            depth: depth as int,
                            collapsed: false,
                            status: file.status,
                            selected: sel == Some(file.path@),
                        },
                    )
                }
            });
        }
        if lies_directly_under(path, prefix) {
            let chosen = match selected {
                Some(s) => same_str(s.as_str(), path),
                None => false,
            };
            let ghost before = rows@;
            rows.push(
                PrTreeRow {
                    folder: false,
                    path: files[i].path.clone(),
                    label: file_name(path),
                    depth,
                    collapsed: false,
                    status: files[i].status,
                    selected: chosen,
                },
            );
            proof {
                assert(rows_spec(rows@) =~= rows_spec(before).push(row_spec(rows@.last())));
                assert(row_spec(rows@.last()) == RowSpec {
                    folder: false,
                    path: file.path@,
                    label: last_component(file.path@),
                    depth: depth as int,
                    collapsed: false,
                    status: file.status,
                    selected: sel == Some(file.path@),
                });
                let fr = file_rows(files@, prefix@, depth as int, sel, i as int);
                assert(rows_spec(rows@) =~= rows_spec(folder_part) + fr.push(row_spec(rows@.last())));
            }
        }
        i = i + 1;
    }
    rows
}

/// The rows of the whole tree of `files`, with the folded folders
/// `collapsed` and the selected file `selected`.
pub fn pr_tree_rows(files: &Vec<&FileDiff>, collapsed: &Vec<String>, selected: &Option<String>) -> (r: Vec<
    PrTreeRow,
>)
    requires
        forall|i: int| 0 <= i < files@.len() ==> #[trigger] files@[i].path@.len() < usize::MAX,
    ensures
        rows_spec(r@) == tree_rows_of(
            files@,
            Seq::empty(),
            0,
            collapsed@,
            opt_chars(*selected),
            longest(files@, files@.len() as int),
        ),
{
    let mut bound: usize = 0;
    let mut i: usize = 0;
    while i < files.len()
        invariant
            i <= files@.len(),
            bound == longest(files@, i as int),
            forall|j: int| 0 <= j < files@.len() ==> #[trigger] files@[j].path@.len() < usize::MAX,
        decreases files.len() - i,
    {
        let n = chars_of(files[i].path.as_str()).len();
        if n > bound {
            bound = n;
        }
        i = i + 1;
    }
    proof {
        lemma_longest(files@, files@.len() as int);
        lemma_longest_fits(files@, files@.len() as int);
        assert forall|j: int| 0 <= j < files@.len() implies starts_with(
            #[trigger] files@[j].path@,
            Seq::empty(),
        ) && files@[j].path@.len() <= bound by {
            assert(files@[j].path@.take(0) =~= Seq::<char>::empty());
        }
    }
    proof {
        reveal_strlit("");
        assert(""@ =~= Seq::<char>::empty());
    }
    rows_under(files, "", 0, collapsed, selected, Ghost(bound as int))
}

/// The first `n` files the tree shows for the lowercased filter `q`: all
/// when it is empty, else those whose lowercased path contains it.
pub open spec fn shown_files<'a>(files: Seq<&'a FileDiff>, q: Seq<char>, n: int) -> Seq<&'a FileDiff>
    decreases n,
{
    if n <= 0 {
        Seq::empty()
    } else {
        let before = shown_files(files, q, n - 1);
        if q.len() == 0 || is_infix(q, lowercase(files[n - 1].path@)) {
            before.push(files[n - 1])
        } else {
            before
        }
    }
}

/// The file tree's rows for the filter field's text `filter` (trimmed and
/// lowercased; see `shown_files`), with the folded folders and the selected
/// file.
pub fn file_tree_rows(diff: &Vec<&FileDiff>, filter: &str, collapsed: &Vec<String>, selected: &Option<String>) -> (r: Vec<
    PrTreeRow,
>)
    requires
        forall|i: int| 0 <= i < diff@.len() ==> #[trigger] diff@[i].path@.len() < usize::MAX,
    ensures
        ({
            let shown = shown_files(diff@, lowercase(trimmed(filter@)), diff@.len() as int);
            rows_spec(r@) == tree_rows_of(
                shown,
                Seq::empty(),
                0,
                collapsed@,
                opt_chars(*selected),
                longest(shown, shown.len() as int),
            )
        }),
{
    let q = chars_of(to_lower(trim_str(filter).as_str()).as_str());
    let mut shown: Vec<&FileDiff> = Vec::new();
    let mut i: usize = 0;
    while i < diff.len()
        invariant
            i <= diff@.len(),
            q@ == lowercase(trimmed(filter@)),
            shown@ == shown_files(diff@, q@, i as int),
            forall|k: int| 0 <= k < shown@.len() ==> #[trigger] shown@[k].path@.len() < usize::MAX,
            forall|j: int| 0 <= j < diff@.len() ==> #[trigger] diff@[j].path@.len() < usize::MAX,
        decreases diff.len() - i,
    {
        let keep = q.len() == 0 || contains_chars(&chars_of(to_lower(diff[i].path.as_str()).as_str()), &q);
        if keep {
            shown.push(diff[i]);
        }
        i = i + 1;
    }
    pr_tree_rows(&shown, collapsed, selected)
}

} // verus!
