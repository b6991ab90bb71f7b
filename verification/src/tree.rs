//! Snapshot-derived file-tree rows, cached across redraws. Path splitting and
//! filtering run once per snapshot, query or fold change, never per frame.

use std::sync::Arc;
use vstd::prelude::*;
use vstd::string::StrSliceExecFns;
use crate::text::{
    chars_eq, chars_of, contains_chars, is_infix, lemma_slash_positions, lowercase, slash_positions,
    slashes, to_lower,
};

verus! {

/// A row of the file tree: a folder (with its full path) or a file (with its
/// index in the snapshot).
#[derive(Clone, Debug, PartialEq, Eq)]
pub enum TreeRow {
    Folder { path: String, name: String, depth: usize, collapsed: bool },
    File { index: usize, name: String, depth: usize },
}

/// What a tree row shows.
pub enum TreeRowView {
    Folder { path: Seq<char>, name: Seq<char>, depth: nat, collapsed: bool },
    File { index: nat, name: Seq<char>, depth: nat },
}

impl View for TreeRow {
    type V = TreeRowView;

    open spec fn view(&self) -> TreeRowView {
        match self {
            TreeRow::Folder { path, name, depth, collapsed } => TreeRowView::Folder {
                path: path@,
                name: name@,
                depth: *depth as nat,
                collapsed: *collapsed,
            },
            TreeRow::File { index, name, depth } => TreeRowView::File {
                index: *index as nat,
                name: name@,
                depth: *depth as nat,
            },
        }
    }
}

/// The views of a row list.
pub open spec fn rows_view(rows: Seq<TreeRow>) -> Seq<TreeRowView> {
    rows.map_values(|r: TreeRow| r@)
}

/// The set of strings named by a list.
pub open spec fn name_set(list: Seq<String>) -> Set<Seq<char>> {
    Set::new(|x: Seq<char>| exists|i: int| 0 <= i < list.len() && #[trigger] list[i]@ == x)
}

/// A path is shown when the lowercase query is empty or occurs in the
/// lowercase path.
pub open spec fn path_matches(path: Seq<char>, query: Seq<char>) -> bool {
    lowercase(query).len() == 0 || is_infix(lowercase(query), lowercase(path))
}

/// Where the `d`-th component of a path starts, given its separators.
pub open spec fn part_start(seps: Seq<int>, d: int) -> int {
    if d <= 0 {
        0
    } else {
        seps[d - 1] + 1
    }
}

/// The folder row contributed by depth `d` of a path: the path up to its
/// `d`-th separator, named by its last component.
pub open spec fn folder_row(path: Seq<char>, seps: Seq<int>, d: int, collapsed: bool) -> TreeRowView {
    TreeRowView::Folder {
        path: path.take(seps[d]),
        name: path.subrange(part_start(seps, d), seps[d]),
        depth: d as nat,
        collapsed,
    }
}

/// Visits the folders of one path from depth `d` on: each folder not seen
/// before adds a row; a collapsed folder hides the rest of the path.
/// Returns the rows, the folders seen, and whether the path is hidden.
pub open spec fn walk_folders(
    path: Seq<char>,
    seps: Seq<int>,
    d: int,
    rows: Seq<TreeRowView>,
    folders: Set<Seq<char>>,
    collapsed: Set<Seq<char>>,
) -> (Seq<TreeRowView>, Set<Seq<char>>, bool)
    decreases seps.len() - d,
{
    if d < 0 || d >= seps.len() {
        (rows, folders, false)
    } else {
        let folder = path.take(seps[d]);
        let shut = collapsed.contains(folder);
        let (rows2, folders2) = if folders.contains(folder) {
            (rows, folders)
        } else {
            (rows.push(folder_row(path, seps, d, shut)), folders.insert(folder))
        };
        if shut {
            (rows2, folders2, true)
        } else {
            walk_folders(path, seps, d + 1, rows2, folders2, collapsed)
        }
    }
}

/// Adds the rows of one shown path: its new folders, then the file itself
/// unless a collapsed folder hides it.
pub open spec fn add_path(
    rows: Seq<TreeRowView>,
    folders: Set<Seq<char>>,
    index: int,
    path: Seq<char>,
    collapsed: Set<Seq<char>>,
) -> (Seq<TreeRowView>, Set<Seq<char>>) {
    let seps = slash_positions(path);
    let (rows2, folders2, hidden) = walk_folders(path, seps, 0, rows, folders, collapsed);
    if hidden {
        (rows2, folders2)
    } else {
        (
            rows2.push(
                TreeRowView::File {
                    index: index as nat,
                    name: path.skip(part_start(seps, seps.len() as int)),
                    depth: seps.len(),
                },
            ),
            folders2,
        )
    }
}

/// The rows and seen folders after the first `n` paths.
pub open spec fn tree_build(
    paths: Seq<Seq<char>>,
    query: Seq<char>,
    collapsed: Set<Seq<char>>,
    n: int,
) -> (Seq<TreeRowView>, Set<Seq<char>>)
    decreases n,
{
    if n <= 0 {
        (Seq::empty(), Set::empty())
    } else {
        let (rows, folders) = tree_build(paths, query, collapsed, n - 1);
        if path_matches(paths[n - 1], query) {
            add_path(rows, folders, n - 1, paths[n - 1], collapsed)
        } else {
            (rows, folders)
        }
    }
}

/// The file tree of a snapshot: for each path that matches the query, in
/// snapshot order, the folders it opens for the first time and then the
/// file, unless a collapsed folder on its way hides it.
pub open spec fn tree_rows(paths: Seq<Seq<char>>, query: Seq<char>, collapsed: Set<Seq<char>>) -> Seq<
    TreeRowView,
> {
    tree_build(paths, query, collapsed, paths.len() as int).0
}

/// Number of file rows among `rows`.
pub open spec fn file_count(rows: Seq<TreeRowView>) -> nat
    decreases rows.len(),
{
    if rows.len() == 0 {
        0
    } else {
        file_count(rows.drop_last()) + if rows.last() is File { 1nat } else { 0nat }
    }
}

/// Number of the first `n` paths that match the query.
pub open spec fn matching_count(paths: Seq<Seq<char>>, query: Seq<char>, n: int) -> nat
    decreases n,
{
    if n <= 0 {
        0
    } else {
        matching_count(paths, query, n - 1) + if path_matches(paths[n - 1], query) { 1nat } else { 0nat }
    }
}

/// Rows well formed for `n` paths: every file row names one of the first `n`
/// paths, a path that matches the query, and file rows come in path order.
pub open spec fn files_ordered(rows: Seq<TreeRowView>, paths: Seq<Seq<char>>, query: Seq<char>, n: int) -> bool {
    &&& forall|k: int| 0 <= k < rows.len() && #[trigger] rows[k] is File ==> {
        &&& rows[k]->File_index < n
        &&& rows[k]->File_index < paths.len()
        &&& path_matches(paths[rows[k]->File_index as int], query)
    }
    &&& forall|k: int, l: int|
        0 <= k < l < rows.len() && #[trigger] rows[k] is File && #[trigger] rows[l] is File
            ==> rows[k]->File_index < rows[l]->File_index
}

proof fn lemma_walk_adds_folders(
    path: Seq<char>,
    seps: Seq<int>,
    d: int,
    rows: Seq<TreeRowView>,
    folders: Set<Seq<char>>,
    collapsed: Set<Seq<char>>,
)
    ensures
        ({
            let out = walk_folders(path, seps, d, rows, folders, collapsed).0;
            &&& rows.len() <= out.len()
            &&& forall|k: int| 0 <= k < rows.len() ==> out[k] == rows[k]
            &&& forall|k: int| rows.len() <= k < out.len() ==> out[k] is Folder
            &&& file_count(out) == file_count(rows)
        }),
        collapsed == Set::<Seq<char>>::empty() ==> !walk_folders(path, seps, d, rows, folders, collapsed).2,
    decreases seps.len() - d,
{
    if 0 <= d < seps.len() {
        let folder = path.take(seps[d]);
        let shut = collapsed.contains(folder);
        let (rows2, folders2) = if folders.contains(folder) {
            (rows, folders)
        } else {
            (rows.push(folder_row(path, seps, d, shut)), folders.insert(folder))
        };
        assert(rows2.len() == rows.len() ==> rows2 == rows);
        if !folders.contains(folder) {
            assert(rows2.drop_last() =~= rows);
        }
        if !shut {
            lemma_walk_adds_folders(path, seps, d + 1, rows2, folders2, collapsed);
        }
    }
}

proof fn lemma_tree_build(paths: Seq<Seq<char>>, query: Seq<char>, collapsed: Set<Seq<char>>, n: int)
    requires
        0 <= n <= paths.len(),
    ensures
        files_ordered(tree_build(paths, query, collapsed, n).0, paths, query, n),
        collapsed == Set::<Seq<char>>::empty() ==> file_count(tree_build(paths, query, collapsed, n).0)
            == matching_count(paths, query, n),
    decreases n,
{
    if n > 0 {
        lemma_tree_build(paths, query, collapsed, n - 1);
        let (rows, folders) = tree_build(paths, query, collapsed, n - 1);
        if path_matches(paths[n - 1], query) {
            let path = paths[n - 1];
            let seps = slash_positions(path);
            lemma_walk_adds_folders(path, seps, 0, rows, folders, collapsed);
            let (rows2, folders2, hidden) = walk_folders(path, seps, 0, rows, folders, collapsed);
            let out = add_path(rows, folders, n - 1, path, collapsed).0;
            assert forall|k: int, l: int|
                0 <= k < l < out.len() && #[trigger] out[k] is File && #[trigger] out[l] is File
                    implies out[k]->File_index < out[l]->File_index by {
                if l < rows.len() {
                    assert(out[k] == rows[k] && out[l] == rows[l]);
                } else if l < rows2.len() {
                    assert(out[l] == rows2[l]);
                } else {
                    assert(k < rows2.len());
                    if k < rows.len() {
                        assert(out[k] == rows[k]);
                    } else {
                        assert(out[k] == rows2[k]);
                    }
                }
            }
            assert forall|k: int| 0 <= k < out.len() && #[trigger] out[k] is File implies {
                &&& out[k]->File_index < n
                &&& out[k]->File_index < paths.len()
                &&& path_matches(paths[out[k]->File_index as int], query)
            } by {
                if k < rows.len() {
                    assert(out[k] == rows[k]);
                } else if k < rows2.len() {
                    assert(out[k] == rows2[k]);
                }
            }
            if !hidden {
                assert(out.drop_last() =~= rows2);
            }
        } else {
            assert forall|k: int| 0 <= k < rows.len() && #[trigger] rows[k] is File implies rows[k]->File_index < n by {
            }
        }
    }
}

/// `name` is the last component of `path`: the part after its last `/`,
/// or the whole path when it has none.
pub open spec fn last_component(path: Seq<char>, name: Seq<char>) -> bool {
    &&& name.len() <= path.len()
    &&& path.skip(path.len() - name.len()) == name
    &&& forall|i: int| 0 <= i < name.len() ==> name[i] != '/'
    &&& name.len() == path.len() || path[path.len() - name.len() - 1] == '/'
}

/// Every file row among `rows` names a path of `paths` by its last
/// component.
pub open spec fn files_named(rows: Seq<TreeRowView>, paths: Seq<Seq<char>>) -> bool {
    forall|k: int|
        0 <= k < rows.len() && #[trigger] rows[k] is File ==> rows[k]->File_index < paths.len()
            && last_component(paths[rows[k]->File_index as int], rows[k]->File_name)
}

/// What follows the last separator of a path is its last component.
proof fn lemma_after_last_separator(path: Seq<char>)
    ensures
        last_component(path, path.skip(part_start(slash_positions(path), slash_positions(path).len() as int))),
{
    let seps = slash_positions(path);
    lemma_slash_positions(path);
    let from = part_start(seps, seps.len() as int);
    let name = path.skip(from);
    if seps.len() > 0 {
        let last = seps[seps.len() - 1];
        assert forall|i: int| 0 <= i < name.len() implies name[i] != '/' by {
            if name[i] == '/' {
                assert(path[from + i] == '/');
                let k = choose|k: int| 0 <= k < seps.len() && seps[k] == from + i;
                if k < seps.len() - 1 {
                    assert(seps[k] < seps[seps.len() - 1]);
                }
            }
        }
        assert(path.skip(path.len() - name.len()) =~= name);
    } else {
        assert forall|i: int| 0 <= i < name.len() implies name[i] != '/' by {
            if name[i] == '/' {
                assert(seps.contains(i));
            }
        }
        assert(path.skip(path.len() - name.len()) =~= name);
    }
}

proof fn lemma_tree_build_named(paths: Seq<Seq<char>>, query: Seq<char>, collapsed: Set<Seq<char>>, n: int)
    requires
        0 <= n <= paths.len(),
    ensures
        files_named(tree_build(paths, query, collapsed, n).0, paths),
    decreases n,
{
    if n > 0 {
        lemma_tree_build_named(paths, query, collapsed, n - 1);
        let (rows, folders) = tree_build(paths, query, collapsed, n - 1);
        if path_matches(paths[n - 1], query) {
            let path = paths[n - 1];
            let seps = slash_positions(path);
            lemma_walk_adds_folders(path, seps, 0, rows, folders, collapsed);
            lemma_after_last_separator(path);
            let (rows2, folders2, hidden) = walk_folders(path, seps, 0, rows, folders, collapsed);
            let out = add_path(rows, folders, n - 1, path, collapsed).0;
            assert forall|k: int| 0 <= k < out.len() && #[trigger] out[k] is File implies out[k]->File_index
                < paths.len() && last_component(paths[out[k]->File_index as int], out[k]->File_name) by {
                if k < rows.len() {
                    assert(out[k] == rows[k]);
                } else if k < rows2.len() {
                    assert(out[k] == rows2[k]);
                }
            }
        }
    }
}

/// Every file row of the tree is named by the last component of its path
/// (the part after the last `/`, or the whole path without one); its
/// folders carry the rest.
pub proof fn lemma_tree_rows_file_names(paths: Seq<Seq<char>>, query: Seq<char>, collapsed: Set<Seq<char>>)
    ensures
        files_named(tree_rows(paths, query, collapsed), paths),
{
    lemma_tree_build_named(paths, query, collapsed, paths.len() as int);
}

/// Laws of the tree rows: every file row is a path that matches the query,
/// file rows follow snapshot order, and without folded folders every
/// matching path has exactly one file row.
pub proof fn lemma_tree_rows_files(paths: Seq<Seq<char>>, query: Seq<char>, collapsed: Set<Seq<char>>)
    ensures
        files_ordered(tree_rows(paths, query, collapsed), paths, query, paths.len() as int),
        collapsed == Set::<Seq<char>>::empty() ==> file_count(tree_rows(paths, query, collapsed))
            == matching_count(paths, query, paths.len() as int),
{
    lemma_tree_build(paths, query, collapsed, paths.len() as int);
}

/// The views of a list of paths.
pub open spec fn paths_view(paths: Seq<&str>) -> Seq<Seq<char>> {
    paths.map_values(|p: &str| p@)
}

/// Shares the cached rows: `Arc::clone` hands out another pointer to the same
/// allocation, so the clone holds the same rows.
#[verifier::external_body]
fn share_rows(rows: &Arc<Vec<TreeRow>>) -> (r: Arc<Vec<TreeRow>>)
    ensures
        r == *rows,
{
    rows.clone()
}

/// The set of folder paths held by a list of character runs.
pub open spec fn chars_set(list: Seq<Vec<char>>) -> Set<Seq<char>> {
    Set::new(|x: Seq<char>| exists|i: int| 0 <= i < list.len() && #[trigger] list[i]@ == x)
}

/// Whether `list` holds `x`.
fn list_has(list: &Vec<Vec<char>>, x: &Vec<char>) -> (r: bool)
    ensures
        r == chars_set(list@).contains(x@),
{
    let mut i: usize = 0;
    while i < list.len()
        invariant
            i <= list.len(),
            forall|j: int| 0 <= j < i ==> list@[j]@ != x@,
        decreases list.len() - i,
    {
        if chars_eq(list[i].as_slice(), x.as_slice()) {
            assert(list@[i as int]@ == x@);
            return true;
        }
        i = i + 1;
    }
    false
}

/// The character runs of a list of strings.
fn chars_list(list: &[String]) -> (r: Vec<Vec<char>>)
    ensures
        r@.len() == list@.len(),
        forall|i: int| 0 <= i < list@.len() ==> #[trigger] r@[i]@ == list@[i]@,
        chars_set(r@) == name_set(list@),
{
    let mut r: Vec<Vec<char>> = Vec::new();
    let mut i: usize = 0;
    while i < list.len()
        invariant
            i <= list.len(),
            r@.len() == i,
            forall|j: int| 0 <= j < i ==> #[trigger] r@[j]@ == list@[j]@,
        decreases list.len() - i,
    {
        r.push(chars_of(list[i].as_str()));
        i = i + 1;
    }
    assert(chars_set(r@) =~= name_set(list@)) by {
        assert forall|x: Seq<char>| chars_set(r@).contains(x) implies name_set(list@).contains(x) by {
            let j = choose|j: int| 0 <= j < r@.len() && #[trigger] r@[j]@ == x;
            assert(list@[j]@ == x);
        }
        assert forall|x: Seq<char>| name_set(list@).contains(x) implies chars_set(r@).contains(x) by {
            let j = choose|j: int| 0 <= j < list@.len() && #[trigger] list@[j]@ == x;
            assert(r@[j]@ == x);
        }
    }
    r
}

/// Whether two strings are equal.
fn same_text(a: &str, b: &str) -> (r: bool)
    ensures
        r == (a@ == b@),
{
    let ac = chars_of(a);
    let bc = chars_of(b);
    chars_eq(ac.as_slice(), bc.as_slice())
}

/// Whether two lists name the same set of strings.
fn same_names(a: &Vec<String>, b: &[String]) -> (r: bool)
    ensures
        r == (name_set(a@) == name_set(b@)),
{
    let ac = chars_list(a.as_slice());
    let bc = chars_list(b);
    let mut i: usize = 0;
    while i < ac.len()
        invariant
            i <= ac.len(),
            chars_set(ac@) == name_set(a@),
            chars_set(bc@) == name_set(b@),
            forall|j: int| 0 <= j < i ==> chars_set(bc@).contains(#[trigger] ac@[j]@),
        decreases ac.len() - i,
    {
        if !list_has(&bc, &ac[i]) {
            assert(name_set(a@).contains(ac@[i as int]@));
            return false;
        }
        i = i + 1;
    }
    let mut k: usize = 0;
    while k < bc.len()
        invariant
            k <= bc.len(),
            chars_set(ac@) == name_set(a@),
            chars_set(bc@) == name_set(b@),
            forall|j: int| 0 <= j < ac@.len() ==> chars_set(bc@).contains(#[trigger] ac@[j]@),
            forall|j: int| 0 <= j < k ==> chars_set(ac@).contains(#[trigger] bc@[j]@),
        decreases bc.len() - k,
    {
        if !list_has(&ac, &bc[k]) {
            assert(name_set(b@).contains(bc@[k as int]@));
            return false;
        }
        k = k + 1;
    }
    assert(chars_set(ac@) =~= chars_set(bc@)) by {
        assert forall|x: Seq<char>| chars_set(ac@).contains(x) implies chars_set(bc@).contains(x) by {
            let j = choose|j: int| 0 <= j < ac@.len() && #[trigger] ac@[j]@ == x;
        }
        assert forall|x: Seq<char>| chars_set(bc@).contains(x) implies chars_set(ac@).contains(x) by {
            let j = choose|j: int| 0 <= j < bc@.len() && #[trigger] bc@[j]@ == x;
        }
    }
    true
}

proof fn lemma_chars_set_push(list: Seq<Vec<char>>, x: Vec<char>)
    ensures
        chars_set(list.push(x)) == chars_set(list).insert(x@),
{
    assert forall|y: Seq<char>| chars_set(list.push(x)).contains(y) implies chars_set(list).insert(x@).contains(y) by {
        let j = choose|j: int| 0 <= j < list.push(x).len() && #[trigger] list.push(x)[j]@ == y;
        if j < list.len() {
            assert(list[j]@ == y);
        }
    }
    assert forall|y: Seq<char>| chars_set(list).insert(x@).contains(y) implies chars_set(list.push(x)).contains(y) by {
        if y == x@ {
            assert(list.push(x)[list.len() as int]@ == y);
        } else {
            let j = choose|j: int| 0 <= j < list.len() && #[trigger] list[j]@ == y;
            assert(list.push(x)[j]@ == y);
        }
    }
    assert(chars_set(list.push(x)) =~= chars_set(list).insert(x@));
}

proof fn lemma_rows_view_push(rows: Seq<TreeRow>, r: TreeRow)
    ensures
        rows_view(rows.push(r)) == rows_view(rows).push(r@),
{
    assert(rows_view(rows.push(r)) =~= rows_view(rows).push(r@));
}

/// The first `n` characters of `v`.
fn prefix_of(v: &Vec<char>, n: usize) -> (r: Vec<char>)
    requires
        n <= v@.len(),
    ensures
        r@ == v@.take(n as int),
{
    let mut r: Vec<char> = Vec::new();
    let mut i: usize = 0;
    while i < n
        invariant
            n <= v@.len(),
            i <= n,
            r@ == v@.take(i as int),
        decreases n - i,
    {
        r.push(v[i]);
        i = i + 1;
        assert(r@ =~= v@.take(i as int));
    }
    r
}

/// Adds the rows of one shown path (see `add_path`).
fn push_path(
    rows: &mut Vec<TreeRow>,
    folders: &mut Vec<Vec<char>>,
    index: usize,
    path: &str,
    collapsed: &Vec<Vec<char>>,
)
    ensures
        rows_view(final(rows)@) == add_path(rows_view(old(rows)@), chars_set(old(folders)@), index as int, path@, chars_set(collapsed@)).0,
        chars_set(final(folders)@) == add_path(rows_view(old(rows)@), chars_set(old(folders)@), index as int, path@, chars_set(collapsed@)).1,
{
    let ghost cset = chars_set(collapsed@);
    let ghost seps = slash_positions(path@);
    let ghost start = walk_folders(path@, seps, 0, rows_view(rows@), chars_set(folders@), cset);
    let pc = chars_of(path);
    let sv = slashes(&pc);
    proof {
        lemma_slash_positions(path@);
    }
    let mut hidden = false;
    let mut d: usize = 0;
    while d < sv.len() && !hidden
        invariant
            pc@ == path@,
            sv@.len() == seps.len(),
            seps == slash_positions(path@),
            cset == chars_set(collapsed@),
            forall|k: int| 0 <= k < sv@.len() ==> sv@[k] as int == #[trigger] seps[k],
            forall|k: int| 0 <= k < seps.len() ==> 0 <= #[trigger] seps[k] < path@.len(),
            forall|k: int, l: int| 0 <= k < l < seps.len() ==> seps[k] < seps[l],
            d <= sv.len(),
            !hidden ==> walk_folders(path@, seps, d as int, rows_view(rows@), chars_set(folders@), cset) == start,
            hidden ==> start == (rows_view(rows@), chars_set(folders@), true),
        decreases (sv.len() - d) * 2 + if hidden { 0int } else { 1int },
    {
        let cut = sv[d];
        let folder = prefix_of(&pc, cut);
        let shut = list_has(collapsed, &folder);
        let ghost before_rows = rows_view(rows@);
        let ghost before_folders = chars_set(folders@);
        if !list_has(folders, &folder) {
            let from = if d == 0 { 0 } else { sv[d - 1] + 1 };
            proof {
                if d > 0 {
                    assert(seps[d - 1] < seps[d as int]);
                }
            }
            let row = TreeRow::Folder {
                path: path.substring_char(0, cut).to_owned(),
                name: path.substring_char(from, cut).to_owned(),
                depth: d,
                collapsed: shut,
            };
            proof {
                assert(path@.subrange(0, cut as int) =~= path@.take(seps[d as int]));
                assert(row@ == folder_row(path@, seps, d as int, shut));
                lemma_rows_view_push(rows@, row);
                lemma_chars_set_push(folders@, folder);
            }
            rows.push(row);
            folders.push(folder);
        }
        if shut {
            hidden = true;
        } else {
            d = d + 1;
        }
    }
    if !hidden {
        let n = pc.len();
        proof {
            if sv.len() > 0 {
                assert(seps[sv.len() - 1] < path@.len());
                assert(sv@[sv.len() - 1] < n);
            }
        }
        let from = if sv.len() == 0 { 0 } else { sv[sv.len() - 1] + 1 };
        let row = TreeRow::File {
            index,
            name: path.substring_char(from, pc.len()).to_owned(),
            depth: sv.len(),
        };
        proof {
            assert(path@.subrange(from as int, pc@.len() as int) =~= path@.skip(part_start(seps, seps.len() as int)));
            lemma_rows_view_push(rows@, row);
        }
        rows.push(row);
    }
}

/// Builds the tree rows of `paths` from scratch (see `tree_rows`).
fn build_rows(query: &str, collapsed: &Vec<Vec<char>>, paths: &[&str]) -> (rows: Vec<TreeRow>)
    ensures
        rows_view(rows@) == tree_rows(paths_view(paths@), query@, chars_set(collapsed@)),
{
    let ghost pv = paths_view(paths@);
    let ghost cset = chars_set(collapsed@);
    let ql = to_lower(query);
    let qc = chars_of(ql.as_str());
    let mut rows: Vec<TreeRow> = Vec::new();
    let mut folders: Vec<Vec<char>> = Vec::new();
    let mut index: usize = 0;
    proof {
        assert(rows_view(rows@) =~= Seq::<TreeRowView>::empty());
        assert(chars_set(folders@) =~= Set::<Seq<char>>::empty());
    }
    while index < paths.len()
        invariant
            index <= paths@.len(),
            pv == paths_view(paths@),
            cset == chars_set(collapsed@),
            qc@ == lowercase(query@),
            rows_view(rows@) == tree_build(pv, query@, cset, index as int).0,
            chars_set(folders@) == tree_build(pv, query@, cset, index as int).1,
        decreases paths.len() - index,
    {
        let path: &str = paths[index];
        let shown = if qc.len() == 0 {
            true
        } else {
            let pl = to_lower(path);
            let pcs = chars_of(pl.as_str());
            contains_chars(&pcs, &qc)
        };
        assert(pv[index as int] == path@);
        if shown {
            push_path(&mut rows, &mut folders, index, path, collapsed);
        }
        index = index + 1;
    }
    rows
}

/// Cached tree rows of the installed snapshot. The owner invalidates the
/// cache whenever it installs a new snapshot; a redraw with the same query
/// and folds hands back the cached rows without reading a path.
pub struct TreeCache {
    valid: bool,
    query: String,
    collapsed: Vec<String>,
    rows: Arc<Vec<TreeRow>>,
    /// The paths the rows were built from.
    listing: Ghost<Seq<Seq<char>>>,
}

impl TreeCache {
    /// Cached rows that may be reused are the tree rows of the paths they
    /// were built from, under their query and folds.
    #[verifier::type_invariant]
    spec fn coherent(self) -> bool {
        self.valid ==> rows_view(self.rows@) == tree_rows(self.listing@, self.query@, name_set(self.collapsed@))
    }

    /// The paths the cached rows were built from.
    pub closed spec fn listing(&self) -> Seq<Seq<char>> {
        self.listing@
    }

    /// Whether the cached rows may be reused.
    pub closed spec fn valid(&self) -> bool {
        self.valid
    }

    /// The query the rows were built for.
    pub closed spec fn query_view(&self) -> Seq<char> {
        self.query@
    }

    /// The folded folders the rows were built for.
    pub closed spec fn collapsed_view(&self) -> Set<Seq<char>> {
        name_set(self.collapsed@)
    }

    /// The cached rows.
    pub closed spec fn cached(&self) -> Arc<Vec<TreeRow>> {
        self.rows
    }

    /// A `prepare` with this query and these folds reuses the cached rows.
    pub open spec fn hits(&self, query: Seq<char>, collapsed: Set<Seq<char>>) -> bool {
        self.valid() && self.query_view() == query && self.collapsed_view() == collapsed
    }

    /// Forgets the cached rows; the next `prepare` rebuilds them.
    pub fn invalidate(&mut self)
        ensures
            !final(self).valid(),
            forall|q: Seq<char>, c: Set<Seq<char>>| !#[trigger] final(self).hits(q, c),
            final(self).query_view() == old(self).query_view(),
            final(self).collapsed_view() == old(self).collapsed_view(),
            final(self).cached() == old(self).cached(),
            final(self).listing() == old(self).listing(),
    {
        self.valid = false;
    }

    /// The tree rows for `query` and the folded folders `collapsed` over the
    /// snapshot's file paths, in order, as `paths` lists them. When the cache
    /// holds rows for the same query and folds, those rows are returned and
    /// `paths` is never called (it need not be callable then); otherwise the rows are rebuilt from what it
    /// lists, cached and returned.
    pub fn prepare<'a, F: FnOnce() -> Vec<&'a str>>(&mut self, query: &str, collapsed: &[String], paths: F) -> (r: Arc<Vec<TreeRow>>)
        requires
            !old(self).hits(query@, name_set(collapsed@)) ==> paths.requires(()),
        ensures
            old(self).hits(query@, name_set(collapsed@)) ==> r == old(self).cached() && *final(self) == *old(self),
            !old(self).hits(query@, name_set(collapsed@)) ==> exists|listed: Vec<&'a str>|
                #[trigger] paths.ensures((), listed) && final(self).listing() == paths_view(listed@),
            rows_view(r@) == tree_rows(final(self).listing(), query@, name_set(collapsed@)),
            final(self).hits(query@, name_set(collapsed@)),
            final(self).cached() == r,
    {
        proof {
            use_type_invariant(&*self);
        }
        if self.valid && same_text(self.query.as_str(), query) && same_names(&self.collapsed, collapsed) {
            return share_rows(&self.rows);
        }
        self.valid = false;
        let cc = chars_list(collapsed);
        let listed = paths();
        let rows = build_rows(query, &cc, listed.as_slice());
        let mut kept: Vec<String> = Vec::new();
        let mut i: usize = 0;
        while i < collapsed.len()
            invariant
                i <= collapsed@.len(),
                kept@ == collapsed@.take(i as int),
            decreases collapsed.len() - i,
        {
            kept.push(collapsed[i].clone());
            i = i + 1;
            assert(kept@ =~= collapsed@.take(i as int));
        }
        assert(collapsed@.take(collapsed@.len() as int) =~= collapsed@);
        self.listing = Ghost(paths_view(listed@));
        self.query = query.to_owned();
        self.collapsed = kept;
        self.rows = Arc::new(rows);
        self.valid = true;
        share_rows(&self.rows)
    }
}

impl Default for TreeCache {
    fn default() -> (r: Self)
        ensures
            !r.valid(),
            r.query_view() == Seq::<char>::empty(),
            r.collapsed_view() == Set::<Seq<char>>::empty(),
            r.cached()@ == Seq::<TreeRow>::empty(),
    {
        let r = TreeCache {
            valid: false,
            query: String::new(),
            collapsed: Vec::new(),
            rows: Arc::new(Vec::new()),
            listing: Ghost(Seq::empty()),
        };
        assert(name_set(r.collapsed@) =~= Set::<Seq<char>>::empty());
        r
    }
}

/// While the paths stay those the cache last built from, a cached answer
/// equals a fresh build: `r1` is what `prepare` answered on `c0` (leaving
/// `c1`), `r2` what it answers on a cache that has to build, from a listing
/// `listed` equal to the one `c1` recorded.
pub proof fn lemma_cached_rows_match_fresh_build(
    c1: TreeCache,
    query: Seq<char>,
    collapsed: Set<Seq<char>>,
    r1: Seq<TreeRow>,
    listed: Seq<Seq<char>>,
    r2: Seq<TreeRow>,
)
    requires
        rows_view(r1) == tree_rows(c1.listing(), query, collapsed),
        rows_view(r2) == tree_rows(listed, query, collapsed),
        listed == c1.listing(),
    ensures
        rows_view(r1) == rows_view(r2),
{
}

} // verus!
