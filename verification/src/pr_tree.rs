//! Reading file paths for the pull-request file tree: the folders and files
//! directly under a prefix, a folder's status, a file's name, its icon and
//! the language its extension names.

use vstd::prelude::*;
use vstd::string::{StrSliceExecFns, StringExecFns};
use crate::diff::FileDiff;
use crate::text::{chars_eq, chars_of, ends_with, ends_with_str, has_name, list_has_name};

verus! {

/// `path` without `prefix` when it starts with it, else the whole path.
pub open spec fn remainder(path: Seq<char>, prefix: Seq<char>) -> Seq<char> {
    if prefix.len() <= path.len() && path.take(prefix.len() as int) == prefix {
        path.skip(prefix.len() as int)
    } else {
        path
    }
}

/// The index of the first `c` in `s` at or after `i`, or `s.len()`.
pub open spec fn find_char(s: Seq<char>, c: char, i: int) -> int
    decreases s.len() - i,
{
    if 0 <= i < s.len() && s[i] != c {
        find_char(s, c, i + 1)
    } else {
        i
    }
}

/// The index of the last `c` in `s[..j]`, if any.
pub open spec fn rfind_char(s: Seq<char>, c: char, j: int) -> Option<int>
    decreases j,
{
    if j <= 0 || j > s.len() {
        None
    } else if s[j - 1] == c {
        Some(j - 1)
    } else {
        rfind_char(s, c, j - 1)
    }
}

/// The folders directly under `prefix` of the first `n` paths, by first
/// appearance, each as `prefix` followed by its name.
pub open spec fn child_folders(files: Seq<&FileDiff>, prefix: Seq<char>, n: int) -> Seq<Seq<char>>
    decreases n,
{
    if n <= 0 {
        Seq::empty()
    } else {
        let before = child_folders(files, prefix, n - 1);
        let rest = remainder(files[n - 1].path@, prefix);
        let slash = find_char(rest, '/', 0);
        if rest.len() > 0 && slash < rest.len() && !before.contains(prefix + rest.take(slash)) {
            before.push(prefix + rest.take(slash))
        } else {
            before
        }
    }
}

/// Some file lies directly under `prefix`.
pub open spec fn has_direct(files: Seq<&FileDiff>, prefix: Seq<char>) -> bool {
    exists|i: int|
        0 <= i < files.len() && {
            let rest = #[trigger] remainder(files[i].path@, prefix);
            rest.len() > 0 && find_char(rest, '/', 0) == rest.len()
        }
}

/// How many leading characters of `path` the prefix takes: all of `prefix`
/// when `path` starts with it, else none.
pub(crate) fn strip_count(path: &Vec<char>, prefix: &Vec<char>) -> (r: usize)
    ensures
        r <= path@.len(),
        path@.skip(r as int) == remainder(path@, prefix@),
{
    if prefix.len() <= path.len() {
        let mut k: usize = 0;
        while k < prefix.len()
            invariant
                prefix@.len() <= path@.len(),
                k <= prefix@.len(),
                forall|j: int| 0 <= j < k ==> path@[j] == prefix@[j],
            decreases prefix.len() - k,
        {
            if path[k] != prefix[k] {
                assert(path@.take(prefix@.len() as int)[k as int] != prefix@[k as int]);
                assert(path@.skip(0) =~= path@);
                return 0;
            }
            k = k + 1;
        }
        assert(path@.take(prefix@.len() as int) =~= prefix@);
        return prefix.len();
    }
    assert(path@.skip(0) =~= path@);
    0
}

/// The index of the first `c` in `s` at or after `from`, or its length.
pub(crate) fn find_char_exec(s: &Vec<char>, c: char, from: usize) -> (r: usize)
    requires
        from <= s@.len(),
    ensures
        r == from + find_char(s@.skip(from as int), c, 0),
        from <= r <= s@.len(),
{
    let mut i: usize = from;
    let ghost t = s@.skip(from as int);
    while i < s.len() && s[i] != c
        invariant
            from <= i <= s@.len(),
            t == s@.skip(from as int),
            find_char(t, c, 0) == find_char(t, c, i - from),
        decreases s.len() - i,
    {
        assert(t[i - from] == s@[i as int]);
        i = i + 1;
    }
    if i < s.len() {
        assert(t[i - from] == s@[i as int]);
    }
    i
}

/// Whether a file lies directly under `prefix`, and the folders directly
/// under it in the order they first appear.
pub fn tree_children(prefix: &str, files: &[&FileDiff]) -> (r: (bool, Vec<String>))
    ensures
        r.0 == has_direct(files@, prefix@),
        r.1@.len() == child_folders(files@, prefix@, files@.len() as int).len(),
        forall|k: int|
            0 <= k < r.1@.len() ==> #[trigger] r.1@[k]@ == child_folders(
                files@,
                prefix@,
                files@.len() as int,
            )[k],
{
    let q = chars_of(prefix);
    let mut direct = false;
    let mut folders: Vec<String> = Vec::new();
    let mut i: usize = 0;
    while i < files.len()
        invariant
            i <= files@.len(),
            q@ == prefix@,
            direct == exists|j: int|
                0 <= j < i && {
                    let rest = #[trigger] remainder(files@[j].path@, prefix@);
                    rest.len() > 0 && find_char(rest, '/', 0) == rest.len()
                },
            folders@.len() == child_folders(files@, prefix@, i as int).len(),
            forall|k: int|
                0 <= k < folders@.len() ==> #[trigger] folders@[k]@ == child_folders(
                    files@,
                    prefix@,
                    i as int,
                )[k],
        decreases files.len() - i,
    {
        let path = files[i].path.as_str();
        let p = chars_of(path);
        let off = strip_count(&p, &q);
        let ghost rest = remainder(files@[i as int].path@, prefix@);
        let ghost before = child_folders(files@, prefix@, i as int);
        if off < p.len() {
            let slash = find_char_exec(&p, '/', off);
            if slash < p.len() {
                let folder = String::from_str(prefix).concat(path.substring_char(off, slash));
                proof {
                    assert(rest.take(slash - off) =~= p@.subrange(off as int, slash as int));
                }
                let mut seen = false;
                let mut m: usize = 0;
                while m < folders.len()
                    invariant
                        m <= folders@.len(),
                        folders@.len() == before.len(),
                        forall|x: int| 0 <= x < folders@.len() ==> #[trigger] folders@[x]@ == before[x],
                        seen == exists|x: int| 0 <= x < m && before[x] == folder@,
                    decreases folders.len() - m,
                {
                    let fc = chars_of(folders[m].as_str());
                    let gc = chars_of(folder.as_str());
                    if chars_eq(fc.as_slice(), gc.as_slice()) {
                        seen = true;
                    }
                    m = m + 1;
                }
                proof {
                    assert(seen == before.contains(folder@));
                }
                if !seen {
                    folders.push(folder);
                }
            } else {
                direct = true;
            }
        }
        proof {
            assert forall|k: int| 0 <= k < folders@.len() implies #[trigger] folders@[k]@ == child_folders(
                files@,
                prefix@,
                i + 1,
            )[k] by {}
        }
        i = i + 1;
    }
    (direct, folders)
}

/// A folder advertises `A` (added) when every changed file under it is
/// added, otherwise `M`; the flag says which.
pub fn tree_status(files: &[&FileDiff]) -> (r: (char, bool))
    ensures
        r.1 == (files@.len() > 0 && forall|k: int| 0 <= k < files@.len() ==> #[trigger] files@[k].status == 'A'),
        r.0 == (if r.1 {
            'A'
        } else {
            'M'
        }),
{
    let mut all_added = files.len() > 0;
    let mut k: usize = 0;
    while k < files.len()
        invariant
            k <= files@.len(),
            all_added == (files@.len() > 0 && forall|j: int| 0 <= j < k ==> #[trigger] files@[j].status == 'A'),
        decreases files.len() - k,
    {
        if files[k].status != 'A' {
            all_added = false;
        }
        k = k + 1;
    }
    if all_added {
        ('A', true)
    } else {
        ('M', false)
    }
}

/// The part of `path` after its last `/` (the whole path without one).
pub open spec fn last_component(path: Seq<char>) -> Seq<char> {
    match rfind_char(path, '/', path.len() as int) {
        Some(k) => path.skip(k + 1),
        None => path,
    }
}

/// The index just past the last `c` in `s`, or 0.
fn after_last(s: &Vec<char>, c: char) -> (r: usize)
    ensures
        r <= s@.len(),
        (match rfind_char(s@, c, s@.len() as int) {
            Some(k) => r == k + 1,
            None => r == 0,
        }),
{
    let mut j = s.len();
    while j > 0 && s[j - 1] != c
        invariant
            j <= s@.len(),
            rfind_char(s@, c, s@.len() as int) == rfind_char(s@, c, j as int),
        decreases j,
    {
        j = j - 1;
    }
    j
}

/// A file's name: its path after the last `/`.
pub fn file_name(path: &str) -> (r: String)
    ensures
        r@ == last_component(path@),
{
    let p = chars_of(path);
    let start = after_last(&p, '/');
    proof {
        if rfind_char(p@, '/', p@.len() as int) is None {
            assert(p@.skip(0) =~= p@);
        }
    }
    path.substring_char(start, p.len()).to_owned()
}

/// The icon of a file in the review panel's tree: Rust, Markdown, or any
/// other file.
pub fn file_glyph(path: &str) -> (r: &'static str)
    ensures
        ends_with(path@, ".rs"@) ==> r@ == "markdown-file-rust"@,
        !ends_with(path@, ".rs"@) && ends_with(path@, ".md"@) ==> r@ == "markdown-file-document"@,
        !ends_with(path@, ".rs"@) && !ends_with(path@, ".md"@) ==> r@ == "panel-files"@,
{
    if ends_with_str(path, ".rs") {
        "markdown-file-rust"
    } else if ends_with_str(path, ".md") {
        "markdown-file-document"
    } else {
        "panel-files"
    }
}

/// The text after the last `.` of a path (the whole path without one).
pub open spec fn extension_text(path: Seq<char>) -> Seq<char> {
    match rfind_char(path, '.', path.len() as int) {
        Some(k) => path.skip(k + 1),
        None => path,
    }
}

/// The highlighter's language for an extension, if it knows one.
pub open spec fn language_of(ext: Seq<char>) -> Option<Seq<char>> {
    if ext == "rs"@ {
        Some("rs"@)
    } else if ext == "toml"@ {
        Some("toml"@)
    } else if ext == "json"@ {
        Some("json"@)
    } else if ext == "md"@ {
        Some("markdown"@)
    } else if ext == "py"@ {
        Some("python"@)
    } else if ext == "js"@ || ext == "mjs"@ || ext == "cjs"@ {
        Some("javascript"@)
    } else if ext == "ts"@ {
        Some("typescript"@)
    } else if ext == "sh"@ || ext == "zsh"@ || ext == "bash"@ {
        Some("bash"@)
    } else if ext == "yml"@ || ext == "yaml"@ {
        Some("yaml"@)
    } else if ext == "c"@ || ext == "h"@ {
        Some("c"@)
    } else if ext == "cpp"@ || ext == "cc"@ || ext == "hpp"@ {
        Some("cpp"@)
    } else if ext == "go"@ {
        Some("go"@)
    } else if ext == "html"@ {
        Some("html"@)
    } else if ext == "css"@ {
        Some("css"@)
    } else {
        None
    }
}

/// The syntax highlighter's language for a path, by the text after its
/// last `.`.
pub fn language_for(path: &str) -> (r: Option<&'static str>)
    ensures
        (match r {
            Some(l) => language_of(extension_text(path@)) == Some(l@),
            None => language_of(extension_text(path@)) is None,
        }),
{
    let p = chars_of(path);
    let start = after_last(&p, '.');
    proof {
        if rfind_char(p@, '.', p@.len() as int) is None {
            assert(p@.skip(0) =~= p@);
        }
    }
    let ext = path.substring_char(start, p.len());
    if crate::text::same_str(ext, "rs") {
        Some("rs")
    } else if crate::text::same_str(ext, "toml") {
        Some("toml")
    } else if crate::text::same_str(ext, "json") {
        Some("json")
    } else if crate::text::same_str(ext, "md") {
        Some("markdown")
    } else if crate::text::same_str(ext, "py") {
        Some("python")
    } else if crate::text::same_str(ext, "js") || crate::text::same_str(ext, "mjs")
        || crate::text::same_str(ext, "cjs") {
        Some("javascript")
    } else if crate::text::same_str(ext, "ts") {
        Some("typescript")
    } else if crate::text::same_str(ext, "sh") || crate::text::same_str(ext, "zsh")
        || crate::text::same_str(ext, "bash") {
        Some("bash")
    } else if crate::text::same_str(ext, "yml") || crate::text::same_str(ext, "yaml") {
        Some("yaml")
    } else if crate::text::same_str(ext, "c") || crate::text::same_str(ext, "h") {
        Some("c")
    } else if crate::text::same_str(ext, "cpp") || crate::text::same_str(ext, "cc")
        || crate::text::same_str(ext, "hpp") {
        Some("cpp")
    } else if crate::text::same_str(ext, "go") {
        Some("go")
    } else if crate::text::same_str(ext, "html") {
        Some("html")
    } else if crate::text::same_str(ext, "css") {
        Some("css")
    } else {
        None
    }
}

} // verus!
