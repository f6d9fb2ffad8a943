//! The file tree of an archive, as the preview renderer draws it: entry
//! names decoded (UTF-8, else the legacy GB18030 code page), split into path
//! parts, system clutter skipped, and every path merged into one tree.

use vstd::prelude::*;
use vstd::string::*;
use vstd::utf8::{decode_utf8, valid_utf8};
use crate::text::{has_prefix, same_text, starts_with};

verus! {

/// What `String::from_utf8_lossy` makes of `b`.
pub uninterp spec fn utf8_lossy_of(b: Seq<u8>) -> Seq<char>;

/// What GB18030 decoding makes of `b`.
pub uninterp spec fn gb18030_of(b: Seq<u8>) -> Seq<char>;

/// Relies on `std::str::from_utf8`, which accepts exactly the valid UTF-8
/// byte strings and then yields the text that they encode.
#[verifier::external_body]
fn utf8_text(b: &[u8]) -> (r: Option<String>)
    ensures
        r.is_some() == valid_utf8(b@),
        r matches Some(s) ==> s@ == decode_utf8(b@),
{
    std::str::from_utf8(b).ok().map(|s| s.to_string())
}

/// Relies on `String::from_utf8_lossy`, which replaces each invalid sequence
/// with U+FFFD; its result depends on the bytes alone.
#[verifier::external_body]
fn utf8_lossy(b: &[u8]) -> (r: String)
    ensures
        r@ == utf8_lossy_of(b@),
{
    String::from_utf8_lossy(b).into_owned()
}

/// Relies on `encoding_rs::GB18030.decode`, which decodes the bytes (after
/// BOM sniffing) with malformed sequences replaced; its result depends on the
/// bytes alone. It panics only where a buffer size overflows `usize`, far
/// beyond the 65535 bytes that an archive entry name can have.
#[verifier::external_body]
fn gb18030_text(b: &[u8]) -> (r: String)
    requires
        b@.len() <= 65535,
    ensures
        r@ == gb18030_of(b@),
{
    let (text, _, _) = encoding_rs::GB18030.decode(b);
    text.into_owned()
}

/// The name of an archive entry: its bytes as UTF-8 where they are valid
/// UTF-8, lossily as UTF-8 where the archive flags the name as UTF-8, and
/// as GB18030 otherwise.
pub open spec fn entry_name(raw: Seq<u8>, utf8_flag: bool) -> Seq<char> {
    if valid_utf8(raw) {
        decode_utf8(raw)
    } else if utf8_flag {
        utf8_lossy_of(raw)
    } else {
        gb18030_of(raw)
    }
}

/// Decodes the raw name of an archive entry.
pub fn decode_entry_name(raw: &Vec<u8>, utf8_flag: bool) -> (r: String)
    requires
        raw@.len() <= 65535,
    ensures
        r@ == entry_name(raw@, utf8_flag),
{
    match utf8_text(raw.as_slice()) {
        Some(s) => s,
        None => if utf8_flag {
            utf8_lossy(raw.as_slice())
        } else {
            gb18030_text(raw.as_slice())
        },
    }
}

/// The pieces of `s` between slashes, empty ones included.
pub open spec fn segments(s: Seq<char>) -> Seq<Seq<char>>
    decreases s.len(),
{
    if s.len() == 0 {
        seq![Seq::<char>::empty()]
    } else if s.last() == '/' {
        segments(s.drop_last()).push(Seq::<char>::empty())
    } else {
        let p = segments(s.drop_last());
        p.update(p.len() - 1, p.last().push(s.last()))
    }
}

/// The parts of a path: the non-empty pieces between slashes.
pub open spec fn path_parts(s: Seq<char>) -> Seq<Seq<char>> {
    segments(s).filter(|x: Seq<char>| x.len() > 0)
}

pub open spec fn views(v: Seq<String>) -> Seq<Seq<char>> {
    v.map_values(|s: String| s@)
}

proof fn lemma_segments_nonempty(s: Seq<char>)
    ensures
        segments(s).len() >= 1,
    decreases s.len(),
{
    if s.len() > 0 {
        lemma_segments_nonempty(s.drop_last());
    }
}

/// Splits a path into its parts.
pub fn split_path(name: &str) -> (r: Vec<String>)
    ensures
        views(r@) == path_parts(name@),
{
    let n = name.unicode_len();
    let mut parts: Vec<String> = Vec::new();
    let mut cur = String::new();
    let ghost mut done: Seq<Seq<char>> = Seq::empty();
    let mut i: usize = 0;
    assert(name@.subrange(0, 0) =~= Seq::<char>::empty());
    assert(segments(Seq::<char>::empty()) =~= done.push(cur@));
    while i < n
        invariant
            n == name@.len(),
            0 <= i <= n,
            segments(name@.subrange(0, i as int)) == done.push(cur@),
            views(parts@) == done.filter(|x: Seq<char>| x.len() > 0),
        decreases n - i,
    {
        let c = name.get_char(i);
        let ghost pre = name@.subrange(0, i as int);
        let ghost next = name@.subrange(0, i + 1);
        assert(next.drop_last() =~= pre);
        assert(next.last() == c);
        if c == '/' {
            proof {
                done.lemma_filter_push(cur@, |x: Seq<char>| x.len() > 0);
            }
            if cur.as_str().unicode_len() > 0 {
                let ghost before = parts@;
                parts.push(cur);
                assert(views(parts@) =~= views(before).push(cur@));
            }
            proof {
                done = done.push(cur@);
            }
            cur = String::new();
            assert(segments(next) =~= done.push(cur@));
        } else {
            let piece = name.substring_char(i, i + 1);
            assert(piece@ =~= seq![c]);
            let ghost old_cur = cur@;
            cur.append(piece);
            assert(cur@ =~= old_cur.push(c));
            assert(segments(next) =~= done.push(cur@)) by {
                lemma_segments_nonempty(pre);
                assert(done.push(old_cur).update(done.len() as int, old_cur.push(c)) =~= done.push(cur@));
            }
        }
        i += 1;
    }
    assert(name@.subrange(0, n as int) =~= name@);
    proof {
        done.lemma_filter_push(cur@, |x: Seq<char>| x.len() > 0);
    }
    if cur.as_str().unicode_len() > 0 {
        let ghost before = parts@;
        parts.push(cur);
        assert(views(parts@) =~= views(before).push(cur@));
    }
    parts
}

/// A part that hides an entry: a dotfile or an office lock file (`~$…`).
pub open spec fn hidden_part(p: Seq<char>) -> bool {
    starts_with(p, "."@) || starts_with(p, "~$"@)
}

/// Entries left out of the tree: no parts, macOS resource forks, hidden files.
pub open spec fn skipped(parts: Seq<Seq<char>>) -> bool {
    parts.len() == 0 || parts[0] == "__MACOSX"@ || exists|i: int| 0 <= i < parts.len() && hidden_part(#[trigger] parts[i])
}

/// Whether an entry with these parts is left out of the tree.
pub fn is_skipped(parts: &Vec<String>) -> (r: bool)
    ensures
        r == skipped(views(parts@)),
{
    if parts.len() == 0 {
        return true;
    }
    if same_text(parts[0].as_str(), "__MACOSX") {
        return true;
    }
    let mut i: usize = 0;
    while i < parts.len()
        invariant
            0 <= i <= parts@.len(),
            parts@.len() > 0,
            views(parts@)[0] != "__MACOSX"@,
            forall|k: int| 0 <= k < i ==> !hidden_part(#[trigger] views(parts@)[k]),
        decreases parts.len() - i,
    {
        let p = parts[i].as_str();
        if has_prefix(p, ".") || has_prefix(p, "~$") {
            assert(hidden_part(views(parts@)[i as int]));
            return true;
        }
        i += 1;
    }
    false
}

/// A node of the file tree: a file or a folder, under its parent folder
/// (an index into the tree's node list), or at the top level.
#[derive(Clone, Debug, PartialEq, Eq)]
pub struct TreeNode {
    pub name: String,
    pub folder: bool,
    pub parent: Option<usize>,
}

/// A node as the contracts see it: name, whether a folder, parent.
pub open spec fn node_view(n: TreeNode) -> (Seq<char>, bool, Option<usize>) {
    (n.name@, n.folder, n.parent)
}

pub open spec fn tree_view(nodes: Seq<TreeNode>) -> Seq<(Seq<char>, bool, Option<usize>)> {
    nodes.map_values(|n: TreeNode| node_view(n))
}

/// The first node from position `i` on with this parent and name.
pub open spec fn find_from(t: Seq<(Seq<char>, bool, Option<usize>)>, parent: Option<usize>, name: Seq<char>, i: int) -> Option<int>
    decreases t.len() - i,
{
    if i < 0 || i >= t.len() {
        None
    } else if t[i].2 == parent && t[i].0 == name {
        Some(i)
    } else {
        find_from(t, parent, name, i + 1)
    }
}

/// Merges the path `parts[k..]` under `parent` into the tree `t`: every part
/// but a file's last is a folder; an existing node of the same name is reused
/// and descended into, and one of the other kind is a conflict (`None`).
pub open spec fn insert_from(t: Seq<(Seq<char>, bool, Option<usize>)>, parts: Seq<Seq<char>>, k: int, parent: Option<usize>, is_dir: bool) -> Option<Seq<(Seq<char>, bool, Option<usize>)>>
    decreases parts.len() - k,
{
    if k < 0 || k >= parts.len() {
        Some(t)
    } else {
        let folder = !(k == parts.len() - 1 && !is_dir);
        match find_from(t, parent, parts[k], 0) {
            Some(i) => if t[i].1 != folder {
                None
            } else if folder {
                insert_from(t, parts, k + 1, Some(i as usize), is_dir)
            } else {
                Some(t)
            },
            None => if folder {
                insert_from(t.push((parts[k], true, parent)), parts, k + 1, Some(t.len() as usize), is_dir)
            } else {
                Some(t.push((parts[k], false, parent)))
            },
        }
    }
}

/// One entry of an archive, as its central directory gives it.
#[derive(Clone, Debug, PartialEq, Eq)]
pub struct ArchiveEntry {
    pub raw_name: Vec<u8>,
    /// The archive marks the name as UTF-8.
    pub utf8_flag: bool,
    pub is_dir: bool,
}

/// The tree after adding one entry; `None` on a file/folder conflict.
pub open spec fn add_entry_spec(t: Seq<(Seq<char>, bool, Option<usize>)>, e: ArchiveEntry) -> Option<Seq<(Seq<char>, bool, Option<usize>)>> {
    let parts = path_parts(entry_name(e.raw_name@, e.utf8_flag));
    if skipped(parts) {
        Some(t)
    } else {
        insert_from(t, parts, 0, None, e.is_dir)
    }
}

/// The tree of the first `n` entries, or the position of the first entry
/// that conflicts with an earlier one.
pub open spec fn tree_after(entries: Seq<ArchiveEntry>, n: int) -> Result<Seq<(Seq<char>, bool, Option<usize>)>, int>
    decreases n,
{
    if n <= 0 {
        Ok(Seq::empty())
    } else {
        match tree_after(entries, n - 1) {
            Err(i) => Err(i),
            Ok(t) => match add_entry_spec(t, entries[n - 1]) {
                Some(t2) => Ok(t2),
                None => Err(n - 1),
            },
        }
    }
}

/// The file tree of an archive, nodes in order of creation.
pub struct FileTree {
    pub nodes: Vec<TreeNode>,
}

fn same_parent(a: Option<usize>, b: Option<usize>) -> (r: bool)
    ensures
        r == (a == b),
{
    match (a, b) {
        (Some(x), Some(y)) => x == y,
        (None, None) => true,
        _ => false,
    }
}

fn find_child(nodes: &Vec<TreeNode>, parent: Option<usize>, name: &str) -> (r: Option<usize>)
    ensures
        r matches Some(i) ==> i < nodes@.len(),
        match r {
            Some(i) => find_from(tree_view(nodes@), parent, name@, 0) == Some(i as int),
            None => find_from(tree_view(nodes@), parent, name@, 0) is None,
        },
{
    let ghost t = tree_view(nodes@);
    let mut i: usize = 0;
    while i < nodes.len()
        invariant
            t == tree_view(nodes@),
            0 <= i <= nodes@.len(),
            find_from(t, parent, name@, 0) == find_from(t, parent, name@, i as int),
        decreases nodes.len() - i,
    {
        assert(t[i as int] == node_view(nodes@[i as int]));
        if same_parent(nodes[i].parent, parent) && same_text(nodes[i].name.as_str(), name) {
            return Some(i);
        }
        i += 1;
    }
    None
}

fn insert_path(nodes: &mut Vec<TreeNode>, parts: &Vec<String>, is_dir: bool) -> (r: bool)
    ensures
        r == insert_from(tree_view(old(nodes)@), views(parts@), 0, None, is_dir).is_some(),
        r ==> insert_from(tree_view(old(nodes)@), views(parts@), 0, None, is_dir) == Some(tree_view(final(nodes)@)),
{
    let ghost t0 = tree_view(nodes@);
    let ghost ps = views(parts@);
    let n = parts.len();
    assert(ps.len() == n);
    let mut parent: Option<usize> = None;
    let mut k: usize = 0;
    while k < n
        invariant
            n == parts@.len(),
            ps == views(parts@),
            t0 == tree_view(old(nodes)@),
            ps.len() == n,
            0 <= k <= n,
            insert_from(t0, ps, 0, None, is_dir) == insert_from(tree_view(nodes@), ps, k as int, parent, is_dir),
        decreases n - k,
    {
        let folder = !(k == n - 1 && !is_dir);
        let ghost t = tree_view(nodes@);
        assert(ps[k as int] == parts@[k as int]@);
        match find_child(nodes, parent, parts[k].as_str()) {
            Some(i) => {
                assert(t[i as int] == node_view(nodes@[i as int]));
                if nodes[i].folder != folder {
                    return false;
                }
                if !folder {
                    return true;
                }
                parent = Some(i);
            },
            None => {
                let node = TreeNode { name: parts[k].clone(), folder, parent };
                let len = nodes.len();
                nodes.push(node);
                assert(tree_view(nodes@) =~= t.push((ps[k as int], folder, parent)));
                if !folder {
                    return true;
                }
                parent = Some(len);
            },
        }
        k += 1;
    }
    true
}

/// Builds the file tree of an archive from its entries, in order: `Err(i)`
/// where entry `i` is a file where an earlier entry made a folder, or the
/// other way round.
pub fn build_tree(entries: &Vec<ArchiveEntry>) -> (r: Result<FileTree, usize>)
    requires
        forall|i: int| 0 <= i < entries@.len() ==> (#[trigger] entries@[i]).raw_name@.len() <= 65535,
    ensures
        match tree_after(entries@, entries@.len() as int) {
            Ok(t) => r matches Ok(tree) && tree_view(tree.nodes@) == t,
            Err(i) => r == Err::<FileTree, usize>(i as usize),
        },
{
    let mut nodes: Vec<TreeNode> = Vec::new();
    assert(tree_view(nodes@) =~= Seq::<(Seq<char>, bool, Option<usize>)>::empty());
    let mut i: usize = 0;
    while i < entries.len()
        invariant
            0 <= i <= entries@.len(),
            forall|j: int| 0 <= j < entries@.len() ==> (#[trigger] entries@[j]).raw_name@.len() <= 65535,
            tree_after(entries@, i as int) == Ok::<Seq<(Seq<char>, bool, Option<usize>)>, int>(tree_view(nodes@)),
        decreases entries.len() - i,
    {
        let e = &entries[i];
        assert(e.raw_name@.len() <= 65535);
        let name = decode_entry_name(&e.raw_name, e.utf8_flag);
        let parts = split_path(name.as_str());
        if !is_skipped(&parts) {
            if !insert_path(&mut nodes, &parts, e.is_dir) {
                proof {
                    lemma_error_persists(entries@, i as int + 1, entries@.len() as int);
                }
                return Err(i);
            }
        }
        i += 1;
    }
    Ok(FileTree { nodes })
}

proof fn lemma_error_persists(entries: Seq<ArchiveEntry>, m: int, n: int)
    requires
        0 < m <= n,
        tree_after(entries, m) is Err,
    ensures
        tree_after(entries, n) == tree_after(entries, m),
    decreases n - m,
{
    if n > m {
        lemma_error_persists(entries, m, n - 1);
    }
}

impl FileTree {
    /// Positions of the nodes directly under `parent` (the top level for
    /// `None`), in order of creation.
    pub fn children_of(&self, parent: Option<usize>) -> (r: Vec<usize>)
        ensures
            forall|j: int| 0 <= j < r@.len() ==> (#[trigger] r@[j]) < self.nodes@.len() && self.nodes@[r@[j] as int].parent == parent,
            forall|j: int, k: int| 0 <= j < k < r@.len() ==> r@[j] < r@[k],
            forall|x: usize| x < self.nodes@.len() && self.nodes@[x as int].parent == parent ==> #[trigger] r@.contains(x),
    {
        let mut r: Vec<usize> = Vec::new();
        let mut i: usize = 0;
        while i < self.nodes.len()
            invariant
                0 <= i <= self.nodes@.len(),
                forall|j: int| 0 <= j < r@.len() ==> (#[trigger] r@[j]) < i && self.nodes@[r@[j] as int].parent == parent,
                forall|j: int, k: int| 0 <= j < k < r@.len() ==> r@[j] < r@[k],
                forall|x: usize| x < i && self.nodes@[x as int].parent == parent ==> #[trigger] r@.contains(x),
            decreases self.nodes.len() - i,
        {
            if same_parent(self.nodes[i].parent, parent) {
                let ghost before = r@;
                r.push(i);
                assert forall|x: usize| x < i + 1 && self.nodes@[x as int].parent == parent implies r@.contains(x) by {
                    if x < i {
                        assert(before.contains(x));
                        let j = choose|j: int| 0 <= j < before.len() && before[j] == x;
                        assert(r@[j] == x);
                    } else {
                        assert(r@[before.len() as int] == x);
                    }
                }
            }
            i += 1;
        }
        r
    }
}

} // verus!
