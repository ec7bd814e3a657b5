//! Listing a node: the names of a folder's children, one to a line, or the
//! path itself where it leads to a file.

use vstd::prelude::*;
use vstd::string::StringExecFns;
use crate::node::VirtualNode;
use crate::path::{lemma_split_whole, segments, trim_end, trim_slashes, trim_start};
use crate::traverse::{lemma_walk_one, resolve, traverse, TraverseError, TraverseFailure};

verus! {

/// Each of `names` followed by a line feed, in order.
pub open spec fn lines(names: Seq<Seq<char>>) -> Seq<char>
    decreases names.len(),
{
    if names.len() == 0 {
        Seq::<char>::empty()
    } else {
        lines(names.drop_last()) + names.last().push('\n')
    }
}

/// What a list of strings holds, each as a sequence of characters.
pub open spec fn texts(names: Seq<&str>) -> Seq<Seq<char>> {
    names.map_values(|name: &str| name@)
}

/// The listing of `node`, reached by `path`: a root or folder lists the names
/// of its children, one to a line; a file lists as the path that led to it.
pub open spec fn listing(node: VirtualNode, path: Seq<char>) -> Seq<char> {
    if node is File {
        path
    } else {
        lines(node.names())
    }
}

/// The listing of what `path` names under `fs`. Slashes around the path do
/// not count, and the path that is empty without them names `fs` itself.
pub open spec fn dir_listing(fs: VirtualNode, path: Seq<char>) -> Result<
    Seq<char>,
    TraverseFailure,
> {
    let inner = trim_end(trim_start(path, '/'), '/');
    if inner.len() == 0 {
        Ok(listing(fs, inner))
    } else {
        match resolve(fs, segments(inner)) {
            Ok(node) => Ok(listing(node, inner)),
            Err(e) => Err(e),
        }
    }
}

/// Writes the strings one to a line, each line ended by a line feed.
pub fn strings_to_lines(names: &Vec<&str>) -> (buf: String)
    ensures
        buf@ == lines(texts(names@)),
{
    let mut buf = String::new();
    let mut i: usize = 0;
    while i < names.len()
        invariant
            i <= names.len(),
            buf@ == lines(texts(names@).take(i as int)),
        decreases names.len() - i,
    {
        proof {
            reveal_strlit("\n");
            assert("\n"@ =~= seq!['\n']);
            let shown = texts(names@).take(i + 1);
            assert(shown.drop_last() =~= texts(names@).take(i as int));
            assert(buf@ + names@[i as int]@ + seq!['\n'] =~= buf@ + names@[i as int]@.push('\n'));
        }
        buf.append(names[i]);
        buf.append("\n");
        i += 1;
    }
    assert(texts(names@).take(i as int) =~= texts(names@));
    buf
}

/// Lists `node`, which `path` led to. A root or folder gives each child's
/// name exactly once, in the order of its entries; a file gives `path` back.
pub fn list(node: &VirtualNode, path: &str) -> (out: String)
    ensures
        out@ == listing(*node, path@),
        node.names().no_duplicates(),
{
    match node {
        VirtualNode::Root(dir) => {
            let names = dir.keys();
            assert(texts(names@) =~= dir.names());
            strings_to_lines(&names)
        },
        VirtualNode::Folder(_, dir) => {
            let names = dir.keys();
            assert(texts(names@) =~= dir.names());
            strings_to_lines(&names)
        },
        VirtualNode::File(_) => {
            assert(node.names() =~= Seq::<Seq<char>>::empty());
            String::from_str(path)
        },
    }
}

/// Lists what `path` names under `fs`.
pub fn list_dir(fs: VirtualNode, path: &str) -> (r: Result<String, TraverseError>)
    ensures
        match r {
            Ok(out) => dir_listing(fs, path@) == Ok::<Seq<char>, TraverseFailure>(out@),
            Err(e) => dir_listing(fs, path@) == Err::<Seq<char>, TraverseFailure>(e@),
        },
{
    let inner = trim_slashes(path);
    if inner.is_empty() {
        Ok(list(&fs, inner))
    } else {
        match traverse(&fs, inner) {
            Ok(node) => Ok(list(node, inner)),
            Err(e) => Err(e),
        }
    }
}

/// Listing a root or folder under the empty path, under `/` and under `.`
/// gives one and the same text: the names of its children.
pub proof fn lemma_root_paths_agree(root: VirtualNode)
    requires
        root.is_dir(),
    ensures
        dir_listing(root, ""@) == Ok::<Seq<char>, TraverseFailure>(lines(root.names())),
        dir_listing(root, "/"@) == dir_listing(root, ""@),
        dir_listing(root, "."@) == dir_listing(root, ""@),
{
    reveal_strlit("");
    reveal_strlit("/");
    reveal_strlit(".");
    let empty = Seq::<char>::empty();
    assert(""@ =~= empty);
    assert("/"@ =~= seq!['/']);
    assert("."@ =~= seq!['.']);
    assert(seq!['/'].drop_first() =~= empty);
    assert(trim_start(seq!['/'], '/') == trim_start(empty, '/'));
    lemma_split_whole(seq!['.'], '/');
    lemma_walk_one(seq![root], seq!['.']);
}

} // verus!
