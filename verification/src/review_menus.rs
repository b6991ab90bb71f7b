//! The entries of the review panel's popup menus: which controls each menu
//! offers, in which order, with which label, glyphs and separators.

use vstd::prelude::*;
use vstd::string::{StrSliceExecFns, StringExecFns};
use crate::pr_file_tree::starts_with;
use crate::ordered_names::{insert_sorted_name, strictly_sorted, views};
use crate::review_actions::{acted, file_index, Action};
use crate::review_panel::{matching, strip_origin, trim_origin, Menu, ReviewPanel, Scope};
use crate::text::{char_utf8_len, char_width, chars_of, ends_with, has_name, list_has_name, utf8_len};

verus! {

/// A change to one file's state in Git that a file menu offers.
#[derive(Clone, Debug)]
pub enum FileChange {
    Stage(String),
    Unstage(String),
    Discard(String),
}

/// One entry of a popup menu.
#[derive(Clone, Debug)]
pub struct MenuEntry<M> {
    pub label: String,
    pub action: Action<M>,
    pub leading: Option<&'static str>,
    pub trailing: Option<&'static str>,
    pub separator_before: bool,
}

/// What the menus read from the repository snapshot.
#[derive(Clone, Debug)]
pub struct MenuSource {
    /// The checked-out branch.
    pub branch: String,
    pub upstream: Option<String>,
    pub branches: Vec<String>,
    /// Each commit's hash and subject.
    pub commits: Vec<(String, String)>,
    pub root: String,
    /// The text of the jump field.
    pub jump_query: String,
}

/// The characters of a glyph name.
pub open spec fn glyph(g: Option<&'static str>) -> Option<Seq<char>> {
    match g {
        Some(s) => Some(s@),
        None => None,
    }
}

/// `e` reads `label`, does `action`, carries these glyphs, and has a
/// separator before it when `sep`.
pub open spec fn entry_is<M>(
    e: MenuEntry<M>,
    label: Seq<char>,
    action: Action<M>,
    leading: Option<Seq<char>>,
    trailing: Option<Seq<char>>,
    sep: bool,
) -> bool {
    &&& e.label@ == label
    &&& e.action == action
    &&& glyph(e.leading) == leading
    &&& glyph(e.trailing) == trailing
    &&& e.separator_before == sep
}

/// `e` reads `label` and carries no glyph and no separator.
pub open spec fn bare<M>(e: MenuEntry<M>, label: Seq<char>) -> bool {
    &&& e.label@ == label
    &&& e.leading is None
    &&& e.trailing is None
    &&& !e.separator_before
}

/// The position of the active comparison in the scope menu.
pub open spec fn scope_position(s: Scope) -> int {
    match s {
        Scope::LastTurn => 0,
        Scope::Uncommitted => 1,
        Scope::Unstaged => 2,
        Scope::Staged => 3,
        Scope::Commit(_) => 4,
        Scope::Branch(_) => 5,
    }
}

/// The tick of entry `k` of the scope menu when `current` is active.
pub open spec fn tick(current: int, k: int) -> Option<Seq<char>> {
    if current == k {
        Some("check"@)
    } else {
        None
    }
}

/// The branch the scope menu compares against: the upstream, else `main`
/// when the repository has it, else `HEAD`.
pub open spec fn compare_branch(src: MenuSource) -> Seq<char> {
    match src.upstream {
        Some(u) => u@,
        None => if has_name(src.branches@, "main"@) {
            "main"@
        } else {
            "HEAD"@
        },
    }
}

/// The scope menu: the last turn, the working-tree comparisons, the commit
/// list and the branch comparison, the active one ticked.
pub open spec fn scope_menu<M>(scope: Scope, src: MenuSource, r: Seq<MenuEntry<M>>) -> bool {
    let c = scope_position(scope);
    &&& r.len() == 6
    &&& entry_is(r[0], "上一轮"@, Action::Scope(Scope::LastTurn), None, tick(c, 0), false)
    &&& entry_is(r[1], "未提交"@, Action::Scope(Scope::Uncommitted), None, tick(c, 1), true)
    &&& entry_is(r[2], "未暂存"@, Action::Scope(Scope::Unstaged), None, tick(c, 2), false)
    &&& entry_is(r[3], "已暂存"@, Action::Scope(Scope::Staged), None, tick(c, 3), false)
    &&& entry_is(
        r[4],
        "已提交"@,
        Action::Menu(Menu::Commits),
        None,
        if c == 4 {
            Some("check"@)
        } else {
            Some("review-chevron-right"@)
        },
        true,
    )
    &&& r[5].label@ == "分支"@
    &&& (r[5].action matches Action::Scope(Scope::Branch(b)) && b@ == compare_branch(src))
    &&& r[5].leading is None
    &&& glyph(r[5].trailing) == tick(c, 5)
    &&& !r[5].separator_before
}

/// `on_label` when `on`, else `off_label`.
pub open spec fn pick(on: bool, on_label: Seq<char>, off_label: Seq<char>) -> Seq<char> {
    if on {
        on_label
    } else {
        off_label
    }
}

/// The view menu: refresh, then each view option labelled by what choosing
/// it does, then the `git apply` command.
pub open spec fn view_menu<M>(p: ReviewPanel, r: Seq<MenuEntry<M>>) -> bool {
    let all_folded = p.source.collapsed@.len() == p.source.files@.len()
        && p.source.files@.len() > 0;
    &&& r.len() == 9
    &&& entry_is(r[0], "刷新"@, Action::Refresh, Some("review-refresh"@), None, false)
    &&& entry_is(
        r[1],
        pick(p.wrap, "禁用自动换行"@, "启用自动换行"@),
        Action::Wrap,
        Some("review-word-wrap"@),
        None,
        false,
    )
    &&& entry_is(
        r[2],
        pick(p.source.split, "切换到统一差异视图"@, "切换到拆分差异视图"@),
        Action::Split,
        Some("review-split-diff"@),
        None,
        false,
    )
    &&& entry_is(
        r[3],
        pick(all_folded, "展开全部差异"@, "折叠全部差异"@),
        Action::Collapse,
        Some("review-collapse-all"@),
        None,
        false,
    )
    &&& entry_is(
        r[4],
        pick(p.load_files, "不加载完整文件"@, "加载完整文件"@),
        Action::LoadFiles,
        Some("review-load-full-files"@),
        None,
        true,
    )
    &&& entry_is(
        r[5],
        pick(p.source.rich, "禁用富文本预览"@, "启用富文本预览"@),
        Action::Rich,
        Some("review-rich-preview"@),
        None,
        false,
    )
    &&& entry_is(
        r[6],
        pick(p.words, "禁用文字差异"@, "启用文字差异"@),
        Action::Words,
        Some("review-word-diffs"@),
        None,
        false,
    )
    &&& entry_is(
        r[7],
        pick(p.whitespace, "显示空白字符"@, "隐藏空白字符"@),
        Action::Whitespace,
        Some("review-white-space"@),
        None,
        false,
    )
    &&& entry_is(
        r[8],
        "复制 git apply 命令"@,
        Action::CopyPatch,
        Some("review-copy-apply"@),
        None,
        false,
    )
}

/// The characters of `s` whose UTF-8 encoding fits whole in its first `n`
/// bytes.
pub open spec fn byte_prefix(s: Seq<char>, n: int) -> Seq<char>
    decreases s.len(),
{
    if s.len() == 0 || char_utf8_len(s[0]) > n {
        Seq::empty()
    } else {
        seq![s[0]] + byte_prefix(s.drop_first(), n - char_utf8_len(s[0]))
    }
}

/// Byte 7 of `s` (or its end, when shorter) falls between two characters.
pub open spec fn short_hash_cut(s: Seq<char>) -> bool {
    utf8_len(s) <= 7 || utf8_len(byte_prefix(s, 7)) == 7
}

/// The label of a commit: its hash cut to seven bytes, two spaces, its
/// subject.
pub open spec fn commit_label(sha: Seq<char>, subject: Seq<char>) -> Seq<char> {
    byte_prefix(sha, 7) + "  "@ + subject
}

/// The scopes over the working tree, where files can be staged, unstaged
/// and restored.
pub open spec fn editable(s: Scope) -> bool {
    s is Uncommitted || s is Unstaged || s is Staged
}

/// The labels of the entries.
pub open spec fn labels<M>(r: Seq<MenuEntry<M>>) -> Seq<Seq<char>> {
    r.map_values(|e: MenuEntry<M>| e.label@)
}

/// The base-branch menu: the branch names without their `origin/` prefix,
/// sorted, each once, each choosing itself as the base.
pub open spec fn base_menu<M>(src: MenuSource, r: Seq<MenuEntry<M>>) -> bool {
    &&& strictly_sorted(labels(r))
    &&& forall|k: int|
        0 <= k < r.len() ==> bare(#[trigger] r[k], r[k].label@) && (r[k].action matches Action::PrBase(
            b,
        ) && b@ == r[k].label@)
    &&& forall|k: int| 0 <= k < r.len() ==> base_name(src.branches@, #[trigger] r[k].label@)
    &&& forall|j: int|
        0 <= j < src.branches@.len() ==> labels(r).contains(#[trigger] strip_origin(src.branches@[j]@))
}

/// `y` is one of the branch names without its `origin/` prefix.
pub open spec fn base_name(branches: Seq<String>, y: Seq<char>) -> bool {
    exists|j: int| 0 <= j < branches.len() && #[trigger] strip_origin(branches[j]@) == y
}

/// The branch menu: each branch, comparing against it.
pub open spec fn branch_menu<M>(src: MenuSource, r: Seq<MenuEntry<M>>) -> bool {
    &&& r.len() == src.branches@.len()
    &&& forall|k: int|
        0 <= k < r.len() ==> bare(#[trigger] r[k], src.branches@[k]@) && (r[k].action matches Action::Scope(
            Scope::Branch(b),
        ) && b@ == src.branches@[k]@)
}

/// The commit menu: each commit, comparing its changes.
pub open spec fn commit_menu<M>(src: MenuSource, r: Seq<MenuEntry<M>>) -> bool {
    &&& r.len() == src.commits@.len()
    &&& forall|k: int|
        0 <= k < r.len() ==> bare(
            #[trigger] r[k],
            commit_label(src.commits@[k].0@, src.commits@[k].1@),
        ) && (r[k].action matches Action::Scope(Scope::Commit(c)) && c@ == src.commits@[k].0@)
}

/// The jump menu: each file whose path matches the jump field, jumping to
/// it.
pub open spec fn jump_menu<M>(p: ReviewPanel, src: MenuSource, r: Seq<MenuEntry<M>>) -> bool {
    let m = matching(p.source.files@, src.jump_query@, p.source.files@.len() as int);
    &&& r.len() == m.len()
    &&& forall|k: int|
        0 <= k < r.len() ==> #[trigger] entry_is(
            r[k],
            p.source.files@[m[k] as int].path@,
            Action::Jump(m[k]),
            None,
            None,
            false,
        )
}

/// The menu of file `i`: open, reveal, copy its path and its absolute path
/// (the path joined to the repository root: see `absolute_path`), and over the working tree stage (or unstage) it and restore it.
pub open spec fn file_menu(p: ReviewPanel, src: MenuSource, i: usize, r: Seq<MenuEntry<FileChange>>) -> bool {
    let path = p.source.files@[i as int].path@;
    let staged = p.scope is Staged;
    &&& r.len() == if editable(p.scope) {
        6int
    } else {
        4int
    }
    &&& entry_is(r[0], "打开文件"@, Action::Open(i), None, None, false)
    &&& entry_is(r[1], "在访达中显示"@, Action::Reveal(i), None, None, false)
    &&& bare(r[2], "复制路径"@) && (r[2].action matches Action::Copy(c) && c@ == path)
    &&& bare(r[3], "复制绝对路径"@) && (r[3].action matches Action::Copy(c) && {
        &&& c@ == joined_path(src.root@, path)
        &&& !verbatim_root(src.root@) ==> ends_with(c@, path)
        &&& !verbatim_root(src.root@) && plain_relative(path) ==> starts_with(c@, src.root@)
    })
    &&& editable(p.scope) ==> {
        &&& bare(r[4], pick(staged, "取消暂存"@, "暂存更改"@))
        &&& (if staged {
            r[4].action matches Action::Mutation(FileChange::Unstage(f)) && f@ == path
        } else {
            r[4].action matches Action::Mutation(FileChange::Stage(f)) && f@ == path
        })
        &&& bare(r[5], "撤销更改…"@)
        &&& (r[5].action matches Action::Confirm(FileChange::Discard(f)) && f@ == path)
    }
}

/// The entries of `menu`.
pub open spec fn menu_shown(p: ReviewPanel, menu: Menu, src: MenuSource, r: Seq<MenuEntry<FileChange>>) -> bool {
    match menu {
        Menu::Scope => scope_menu(p.scope, src, r),
        Menu::View => view_menu(p, r),
        Menu::Git => r.len() == 2 && entry_is(r[0], "提交或推送"@, Action::Commit, None, None, false)
            && entry_is(r[1], "创建 Pull Request"@, Action::PullRequest, None, None, false),
        Menu::CommitBranch => r.len() == 2 && entry_is(
            r[0],
            src.branch@,
            Action::NewBranch(false),
            None,
            None,
            false,
        ) && entry_is(r[1], "新分支"@, Action::NewBranch(true), None, None, false),
        Menu::PullRequestBase => base_menu(src, r),
        Menu::Branch => branch_menu(src, r),
        Menu::Commits => commit_menu(src, r),
        Menu::Jump => jump_menu(p, src, r),
        Menu::File(i) => file_menu(p, src, i, r),
    }
}

/// Every menu but a file menu can open; a file menu names a file of the
/// snapshot, and each commit hash can be cut at byte seven.
pub open spec fn menu_openable(p: ReviewPanel, menu: Menu, src: MenuSource) -> bool {
    &&& (menu matches Menu::File(i) ==> i < p.source.files@.len())
    &&& (menu is Commits ==> forall|k: int|
        0 <= k < src.commits@.len() ==> short_hash_cut(#[trigger] src.commits@[k].0@))
}

/// `root` begins with a Windows verbatim prefix (`\\?\`), under which
/// `Path::join` normalises what it appends.
pub open spec fn verbatim_root(root: Seq<char>) -> bool {
    &&& root.len() >= 4
    &&& root[0] == '\\'
    &&& root[1] == '\\'
    &&& root[2] == '?'
    &&& root[3] == '\\'
}

/// `path` is relative on every platform: it starts with no separator and
/// holds no drive colon, so it has neither a root nor a prefix.
pub open spec fn plain_relative(path: Seq<char>) -> bool {
    &&& !(path.len() > 0 && (path[0] == '/' || path[0] == '\\'))
    &&& forall|k: int| 0 <= k < path.len() ==> path[k] != ':'
}

/// What `Path::new(root).join(path).to_string_lossy()` gives. It depends on
/// the two texts alone (on one platform: the separator and what counts as
/// absolute differ between platforms).
pub uninterp spec fn joined_path(root: Seq<char>, path: Seq<char>) -> Seq<char>;

/// The absolute form of `path` under `root`, as `Path::join` builds it
/// (through `PathBuf::push`, then `to_string_lossy`, which keeps text that
/// came from two `&str` as it is): the result is `joined_path(root, path)`.
/// Of it, `push` shows this much unless `root` has a verbatim prefix:
/// `path` stays whole at the end (an absolute `path`, or one with a root or
/// a prefix, replaces `root` or all of it but its prefix), and any other
/// `path` is appended to the whole of `root`, after a separator when `root`
/// does not end with one. Under a verbatim prefix `push` normalises the
/// appended components; nothing more is stated there.
#[verifier::external_body]
fn absolute_path(root: &str, path: &str) -> (r: String)
    ensures
        r@ == joined_path(root@, path@),
        !verbatim_root(root@) ==> ends_with(r@, path@),
        !verbatim_root(root@) && plain_relative(path@) ==> starts_with(r@, root@),
{
    std::path::Path::new(root).join(path).to_string_lossy().into_owned()
}

/// The hash cut to its first seven bytes (see `byte_prefix`).
fn short_hash(sha: &str) -> (r: String)
    requires
        short_hash_cut(sha@),
    ensures
        r@ == byte_prefix(sha@, 7),
{
    let chars = chars_of(sha);
    let mut k: usize = 0;
    let mut used: usize = 0;
    assert(sha@.skip(0) =~= sha@);
    assert(sha@.take(0) =~= Seq::<char>::empty());
    while k < chars.len() && used + char_width(chars[k]) <= 7
        invariant
            k <= chars@.len(),
            chars@ == sha@,
            used <= 7,
            byte_prefix(sha@, 7) == sha@.take(k as int) + byte_prefix(sha@.skip(k as int), 7 - used),
        decreases chars.len() - k,
    {
        let w = char_width(chars[k]);
        proof {
            let rest = sha@.skip(k as int);
            assert(rest[0] == sha@[k as int]);
            assert(rest.drop_first() =~= sha@.skip(k + 1));
            assert(sha@.take(k + 1) =~= sha@.take(k as int) + seq![sha@[k as int]]);
            assert(sha@.take(k as int) + (seq![rest[0]] + byte_prefix(rest.drop_first(), 7 - used - w))
                =~= sha@.take(k + 1) + byte_prefix(sha@.skip(k + 1), 7 - (used + w)));
        }
        used = used + w;
        k = k + 1;
    }
    proof {
        assert(byte_prefix(sha@.skip(k as int), 7 - used) =~= Seq::<char>::empty());
        assert(sha@.take(k as int) + Seq::<char>::empty() =~= sha@.take(k as int));
        assert(sha@.subrange(0, k as int) =~= sha@.take(k as int));
    }
    sha.substring_char(0, k).to_owned()
}

/// Every index `matching` lists is below `n`, and they increase.
proof fn lemma_matching_bounded(files: Seq<crate::diff::FileDiff>, query: Seq<char>, n: int)
    requires
        0 <= n <= files.len(),
    ensures
        forall|k: int| 0 <= k < matching(files, query, n).len() ==> #[trigger] matching(files, query, n)[k] < n,
    decreases n,
{
    if n > 0 {
        lemma_matching_bounded(files, query, n - 1);
        let prev = matching(files, query, n - 1);
        let cur = matching(files, query, n);
        assert forall|k: int| 0 <= k < cur.len() implies #[trigger] cur[k] < n by {
            if k < prev.len() {
                assert(cur[k] == prev[k]);
            }
        }
    }
}

/// The added (or, with `added` false, the deleted) lines of the first `n`
/// files.
pub open spec fn line_total(files: Seq<crate::diff::FileDiff>, n: int, added: bool) -> nat
    decreases n,
{
    if n <= 0 {
        0
    } else {
        line_total(files, n - 1, added) + if added {
            files[n - 1].additions as nat
        } else {
            files[n - 1].deletions as nat
        }
    }
}

/// The totals grow with the number of files counted.
proof fn lemma_line_total_grows(files: Seq<crate::diff::FileDiff>, m: int, n: int, added: bool)
    requires
        m <= n,
    ensures
        line_total(files, m, added) <= line_total(files, n, added),
    decreases n - m,
{
    if m < n {
        lemma_line_total_grows(files, m, n - 1, added);
    }
}

/// A menu entry with no glyph and no separator.
fn plain<M>(label: &str, action: Action<M>) -> (e: MenuEntry<M>)
    ensures
        e.label@ == label@,
        e.action == action,
        e.leading is None,
        e.trailing is None,
        !e.separator_before,
{
    MenuEntry {
        label: String::from_str(label),
        action,
        leading: None,
        trailing: None,
        separator_before: false,
    }
}

/// A menu entry with a leading glyph.
fn with_glyph<M>(label: &str, action: Action<M>, glyph_name: &'static str, sep: bool) -> (e: MenuEntry<M>)
    ensures
        e.label@ == label@,
        e.action == action,
        e.leading == Some(glyph_name),
        e.trailing is None,
        e.separator_before == sep,
{
    MenuEntry {
        label: String::from_str(label),
        action,
        leading: Some(glyph_name),
        trailing: None,
        separator_before: sep,
    }
}

/// The branch the scope menu compares against (see `compare_branch`).
fn comparison_branch(src: &MenuSource) -> (r: String)
    ensures
        r@ == compare_branch(*src),
{
    match &src.upstream {
        Some(u) => u.clone(),
        None => if list_has_name(src.branches.as_slice(), "main") {
            String::from_str("main")
        } else {
            String::from_str("HEAD")
        },
    }
}

impl ReviewPanel {
    /// The scope menu (see `scope_menu`).
    fn scope_entries(&self, src: &MenuSource) -> (r: Vec<MenuEntry<FileChange>>)
        ensures
            scope_menu(self.scope, *src, r@),
    {
        let current: usize = match &self.scope {
            Scope::LastTurn => 0,
            Scope::Uncommitted => 1,
            Scope::Unstaged => 2,
            Scope::Staged => 3,
            Scope::Commit(_) => 4,
            Scope::Branch(_) => 5,
        };
        let mut r: Vec<MenuEntry<FileChange>> = Vec::new();
        r.push(plain("上一轮", Action::Scope(Scope::LastTurn)));
        let mut uncommitted = plain("未提交", Action::Scope(Scope::Uncommitted));
        uncommitted.separator_before = true;
        r.push(uncommitted);
        r.push(plain("未暂存", Action::Scope(Scope::Unstaged)));
        r.push(plain("已暂存", Action::Scope(Scope::Staged)));
        let mut commits = plain("已提交", Action::Menu(Menu::Commits));
        commits.trailing = Some("review-chevron-right");
        commits.separator_before = true;
        r.push(commits);
        r.push(plain("分支", Action::Scope(Scope::Branch(comparison_branch(src)))));
        r[current].trailing = Some("check");
        r
    }

    /// The view menu (see `view_menu`).
    fn view_entries(&self) -> (r: Vec<MenuEntry<FileChange>>)
        ensures
            view_menu(*self, r@),
    {
        let all_folded = self.source.collapsed.len() == self.source.files.len()
            && self.source.files.len() > 0;
        let mut r: Vec<MenuEntry<FileChange>> = Vec::new();
        r.push(with_glyph("刷新", Action::Refresh, "review-refresh", false));
        r.push(
            with_glyph(
                if self.wrap {
                    "禁用自动换行"
                } else {
                    "启用自动换行"
                },
                Action::Wrap,
                "review-word-wrap",
                false,
            ),
        );
        r.push(
            with_glyph(
                if self.source.split {
                    "切换到统一差异视图"
                } else {
                    "切换到拆分差异视图"
                },
                Action::Split,
                "review-split-diff",
                false,
            ),
        );
        r.push(
            with_glyph(
                if all_folded {
                    "展开全部差异"
                } else {
                    "折叠全部差异"
                },
                Action::Collapse,
                "review-collapse-all",
                false,
            ),
        );
        r.push(
            with_glyph(
                if self.load_files {
                    "不加载完整文件"
                } else {
                    "加载完整文件"
                },
                Action::LoadFiles,
                "review-load-full-files",
                true,
            ),
        );
        r.push(
            with_glyph(
                if self.source.rich {
                    "禁用富文本预览"
                } else {
                    "启用富文本预览"
                },
                Action::Rich,
                "review-rich-preview",
                false,
            ),
        );
        r.push(
            with_glyph(
                if self.words {
                    "禁用文字差异"
                } else {
                    "启用文字差异"
                },
                Action::Words,
                "review-word-diffs",
                false,
            ),
        );
        r.push(
            with_glyph(
                if self.whitespace {
                    "显示空白字符"
                } else {
                    "隐藏空白字符"
                },
                Action::Whitespace,
                "review-white-space",
                false,
            ),
        );
        r.push(with_glyph("复制 git apply 命令", Action::CopyPatch, "review-copy-apply", false));
        r
    }
    /// The base-branch menu (see `base_menu`).
    fn base_entries(src: &MenuSource) -> (r: Vec<MenuEntry<FileChange>>)
        ensures
            base_menu(*src, r@),
    {
        let mut names: Vec<String> = Vec::new();
        let mut i: usize = 0;
        while i < src.branches.len()
            invariant
                i <= src.branches@.len(),
                strictly_sorted(views(names@)),
                forall|y: Seq<char>|
                    views(names@).contains(y) <==> exists|j: int|
                        0 <= j < i && #[trigger] strip_origin(src.branches@[j]@) == y,
            decreases src.branches.len() - i,
        {
            let name = trim_origin(src.branches[i].as_str());
            insert_sorted_name(&mut names, name);
            proof {
                assert forall|y: Seq<char>|
                    views(names@).contains(y) <==> exists|j: int|
                        0 <= j < i + 1 && #[trigger] strip_origin(src.branches@[j]@) == y by {
                    if y == strip_origin(src.branches@[i as int]@) {
                        assert(strip_origin(src.branches@[i as int]@) == y);
                    }
                }
            }
            i = i + 1;
        }
        let mut r: Vec<MenuEntry<FileChange>> = Vec::new();
        let mut k: usize = 0;
        while k < names.len()
            invariant
                k <= names@.len(),
                r@.len() == k,
                forall|q: int| 0 <= q < k ==> #[trigger] r@[q].label@ == names@[q]@,
                forall|q: int|
                    0 <= q < k ==> bare(#[trigger] r@[q], r@[q].label@) && (r@[q].action matches Action::PrBase(
                        b,
                    ) && b@ == r@[q].label@),
            decreases names.len() - k,
        {
            r.push(plain(names[k].as_str(), Action::PrBase(names[k].clone())));
            k = k + 1;
        }
        proof {
            let lv = labels(r@);
            assert(lv =~= views(names@));
            assert forall|q: int| 0 <= q < r@.len() implies base_name(
                src.branches@,
                #[trigger] r@[q].label@,
            ) by {
                assert(views(names@)[q] == r@[q].label@);
                assert(views(names@).contains(r@[q].label@));
            }
            assert forall|j: int| 0 <= j < src.branches@.len() implies labels(r@).contains(
                #[trigger] strip_origin(src.branches@[j]@),
            ) by {
                let y = strip_origin(src.branches@[j]@);
                assert(views(names@).contains(y));
            }
        }
        r
    }

    /// The branch menu (see `branch_menu`).
    fn branch_entries(src: &MenuSource) -> (r: Vec<MenuEntry<FileChange>>)
        ensures
            branch_menu(*src, r@),
    {
        let mut r: Vec<MenuEntry<FileChange>> = Vec::new();
        let mut k: usize = 0;
        while k < src.branches.len()
            invariant
                k <= src.branches@.len(),
                r@.len() == k,
                forall|q: int|
                    0 <= q < k ==> bare(#[trigger] r@[q], src.branches@[q]@) && (r@[q].action matches Action::Scope(
                        Scope::Branch(b),
                    ) && b@ == src.branches@[q]@),
            decreases src.branches.len() - k,
        {
            let b = &src.branches[k];
            r.push(plain(b.as_str(), Action::Scope(Scope::Branch(b.clone()))));
            k = k + 1;
        }
        r
    }

    /// The commit menu (see `commit_menu`).
    fn commit_entries(src: &MenuSource) -> (r: Vec<MenuEntry<FileChange>>)
        requires
            forall|k: int| 0 <= k < src.commits@.len() ==> short_hash_cut(#[trigger] src.commits@[k].0@),
        ensures
            commit_menu(*src, r@),
    {
        let mut r: Vec<MenuEntry<FileChange>> = Vec::new();
        let mut k: usize = 0;
        while k < src.commits.len()
            invariant
                k <= src.commits@.len(),
                r@.len() == k,
                forall|q: int| 0 <= q < src.commits@.len() ==> short_hash_cut(#[trigger] src.commits@[q].0@),
                forall|q: int|
                    0 <= q < k ==> bare(
                        #[trigger] r@[q],
                        commit_label(src.commits@[q].0@, src.commits@[q].1@),
                    ) && (r@[q].action matches Action::Scope(Scope::Commit(c)) && c@ == src.commits@[q].0@),
            decreases src.commits.len() - k,
        {
            let sha = &src.commits[k].0;
            let subject = &src.commits[k].1;
            assert(short_hash_cut(src.commits@[k as int].0@));
            let label = short_hash(sha.as_str()).concat("  ").concat(subject.as_str());
            let mut e = plain("", Action::Scope(Scope::Commit(sha.clone())));
            e.label = label;
            r.push(e);
            k = k + 1;
        }
        r
    }

    /// The jump menu (see `jump_menu`).
    fn jump_entries(&self, src: &MenuSource) -> (r: Vec<MenuEntry<FileChange>>)
        ensures
            jump_menu(*self, *src, r@),
    {
        let m = self.matching_files(src.jump_query.as_str());
        proof {
            lemma_matching_bounded(self.source.files@, src.jump_query@, self.source.files@.len() as int);
        }
        let mut r: Vec<MenuEntry<FileChange>> = Vec::new();
        let mut k: usize = 0;
        while k < m.len()
            invariant
                k <= m@.len(),
                r@.len() == k,
                m@ == matching(self.source.files@, src.jump_query@, self.source.files@.len() as int),
                forall|q: int| 0 <= q < m@.len() ==> #[trigger] m@[q] < self.source.files@.len(),
                forall|q: int|
                    0 <= q < k ==> #[trigger] entry_is(
                        r@[q],
                        self.source.files@[m@[q] as int].path@,
                        Action::Jump(m@[q]),
                        None,
                        None,
                        false,
                    ),
            decreases m.len() - k,
        {
            let i = m[k];
            assert(i < self.source.files@.len());
            r.push(plain(self.source.files[i].path.as_str(), Action::Jump(i)));
            k = k + 1;
        }
        r
    }

    /// The menu of file `i` (see `file_menu`).
    fn file_entries(&self, src: &MenuSource, i: usize) -> (r: Vec<MenuEntry<FileChange>>)
        requires
            i < self.source.files@.len(),
        ensures
            file_menu(*self, *src, i, r@),
    {
        let path = &self.source.files[i].path;
        let mut r: Vec<MenuEntry<FileChange>> = Vec::new();
        r.push(plain("打开文件", Action::Open(i)));
        r.push(plain("在访达中显示", Action::Reveal(i)));
        r.push(plain("复制路径", Action::Copy(path.clone())));
        r.push(plain("复制绝对路径", Action::Copy(absolute_path(src.root.as_str(), path.as_str()))));
        let (editable_scope, staged) = match &self.scope {
            Scope::Uncommitted => (true, false),
            Scope::Unstaged => (true, false),
            Scope::Staged => (true, true),
            _ => (false, false),
        };
        if editable_scope {
            if staged {
                r.push(plain("取消暂存", Action::Mutation(FileChange::Unstage(path.clone()))));
            } else {
                r.push(plain("暂存更改", Action::Mutation(FileChange::Stage(path.clone()))));
            }
            r.push(plain("撤销更改…", Action::Confirm(FileChange::Discard(path.clone()))));
        }
        r
    }

    /// The entries of `menu`, in order.
    pub fn menu_entries(&self, menu: Menu, src: &MenuSource) -> (r: Vec<MenuEntry<FileChange>>)
        requires
            menu_openable(*self, menu, *src),
        ensures
            menu_shown(*self, menu, *src, r@),
    {
        match menu {
            Menu::Scope => self.scope_entries(src),
            Menu::View => self.view_entries(),
            Menu::Git => {
                let mut r: Vec<MenuEntry<FileChange>> = Vec::new();
                r.push(plain("提交或推送", Action::Commit));
                r.push(plain("创建 Pull Request", Action::PullRequest));
                r
            },
            Menu::CommitBranch => {
                let mut r: Vec<MenuEntry<FileChange>> = Vec::new();
                r.push(plain(src.branch.as_str(), Action::NewBranch(false)));
                r.push(plain("新分支", Action::NewBranch(true)));
                r
            },
            Menu::PullRequestBase => Self::base_entries(src),
            Menu::Branch => Self::branch_entries(src),
            Menu::Commits => Self::commit_entries(src),
            Menu::Jump => self.jump_entries(src),
            Menu::File(i) => self.file_entries(src, i),
        }
    }
    /// The label and the action of each entry of `menu`.
    pub fn menu_actions(&self, menu: Menu, src: &MenuSource) -> (r: Vec<(String, Action<FileChange>)>)
        requires
            menu_openable(*self, menu, *src),
        ensures
            exists|entries: Seq<MenuEntry<FileChange>>|
                #[trigger] menu_shown(*self, menu, *src, entries) && r@.len() == entries.len() && forall|
                    k: int,
                | 0 <= k < entries.len() ==> #[trigger] r@[k].0@ == entries[k].label@ && r@[k].1
                    == entries[k].action,
    {
        let entries = self.menu_entries(menu, src);
        let mut r: Vec<(String, Action<FileChange>)> = Vec::new();
        let mut rest = entries;
        let ghost all = rest@;
        let mut k: usize = 0;
        while rest.len() > 0
            invariant
                r@.len() + rest@.len() == all.len(),
                rest@ == all.skip(r@.len() as int),
                forall|q: int| 0 <= q < r@.len() ==> #[trigger] r@[q].0@ == all[q].label@ && r@[q].1 == all[q].action,
            decreases rest.len(),
        {
            let e = rest.remove(0);
            proof {
                assert(e == all[r@.len() as int]);
            }
            r.push((e.label, e.action));
            proof {
                assert(rest@ =~= all.skip(r@.len() as int));
            }
        }
        assert(menu_shown(*self, menu, *src, all));
        r
    }

    /// Chooses entry `index` of `menu`: acts on its action, or does nothing
    /// (`None`) past the last entry. `branch_text` is the branch field's
    /// text.
    pub fn activate_menu(&mut self, menu: Menu, index: usize, src: &MenuSource, branch_text: &str) -> (r: Option<
        crate::review_actions::ActionResult<FileChange>,
    >)
        requires
            menu_openable(*old(self), menu, *src),
            old(self).wf(),
            old(self).generation < u64::MAX - 1,
        ensures
            final(self).wf(),
            exists|entries: Seq<MenuEntry<FileChange>>|
                #[trigger] menu_shown(*old(self), menu, *src, entries) && (if index < entries.len() {
                    r matches Some(res) && ((file_index(entries[index as int].action) matches Some(i)
                        && i >= old(self).source.files@.len()) ==> *final(self) == *old(self)) && ((
                    file_index(entries[index as int].action) matches Some(i) ==> i
                        < old(self).source.files@.len()) ==> acted(
                        *old(self),
                        entries[index as int].action,
                        branch_text@,
                        *final(self),
                        res,
                    ))
                } else {
                    r is None && *final(self) == *old(self)
                }),
    {
        let mut entries = self.menu_entries(menu, src);
        let ghost all = entries@;
        if index < entries.len() {
            let e = entries.remove(index);
            assert(e == all[index as int]);
            let res = self.action(e.action, branch_text);
            assert(menu_shown(*old(self), menu, *src, all));
            Some(res)
        } else {
            assert(menu_shown(*old(self), menu, *src, all));
            None
        }
    }

    /// The added and the deleted lines of all files.
    pub fn counts(&self) -> (r: (usize, usize))
        requires
            line_total(self.source.files@, self.source.files@.len() as int, true) <= usize::MAX,
            line_total(self.source.files@, self.source.files@.len() as int, false) <= usize::MAX,
        ensures
            r.0 == line_total(self.source.files@, self.source.files@.len() as int, true),
            r.1 == line_total(self.source.files@, self.source.files@.len() as int, false),
    {
        let mut a: usize = 0;
        let mut d: usize = 0;
        let mut i: usize = 0;
        while i < self.source.files.len()
            invariant
                i <= self.source.files@.len(),
                a == line_total(self.source.files@, i as int, true),
                d == line_total(self.source.files@, i as int, false),
                line_total(self.source.files@, self.source.files@.len() as int, true) <= usize::MAX,
                line_total(self.source.files@, self.source.files@.len() as int, false) <= usize::MAX,
            decreases self.source.files.len() - i,
        {
            proof {
                lemma_line_total_grows(self.source.files@, i + 1, self.source.files@.len() as int, true);
                lemma_line_total_grows(self.source.files@, i + 1, self.source.files@.len() as int, false);
            }
            a = a + self.source.files[i].additions;
            d = d + self.source.files[i].deletions;
            i = i + 1;
        }
        (a, d)
    }
}

} // verus!
