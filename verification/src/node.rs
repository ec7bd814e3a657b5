//! The virtual tree: a root, folders and files, each folder holding its
//! children under distinct names in the order in which they were added.

use vstd::prelude::*;
use brdb::tables::{BrFile, BrFolder};
use crate::text::str_eq;

verus! {

/// The storage layer's record of a folder (`brdb::tables::BrFolder`). The tree
/// carries it along and never looks inside.
#[verifier::external_type_specification]
#[verifier::external_body]
pub struct ExBrFolder(BrFolder);

/// The storage layer's record of a file (`brdb::tables::BrFile`). The tree
/// carries it along and never looks inside.
#[verifier::external_type_specification]
#[verifier::external_body]
pub struct ExBrFile(BrFile);

/// One node of the virtual tree.
#[derive(Debug)]
pub enum VirtualNode {
    /// The entry point of a tree, with its children.
    Root(Directory),
    /// An interior node: the storage layer's record and the children.
    Folder(BrFolder, Directory),
    /// A terminal node. Its bytes are not here: storage hands them out by path.
    File(BrFile),
}

/// The children of a root or folder: names mapped to nodes. No name occurs
/// twice, and the entries keep the order in which their names first came in.
#[derive(Debug)]
pub struct Directory {
    entries: Vec<(String, VirtualNode)>,
}

/// The names of `entries`, in order.
pub open spec fn names_of(entries: Seq<(Seq<char>, VirtualNode)>) -> Seq<Seq<char>> {
    entries.map_values(|e: (Seq<char>, VirtualNode)| e.0)
}

/// The position of the first entry called `name`.
pub open spec fn position(entries: Seq<(Seq<char>, VirtualNode)>, name: Seq<char>) -> Option<int>
    decreases entries.len(),
{
    if entries.len() == 0 {
        None
    } else if entries.last().0 == name && position(entries.drop_last(), name) is None {
        Some(entries.len() - 1)
    } else {
        position(entries.drop_last(), name)
    }
}

/// The node that `entries` holds under `name`.
pub open spec fn lookup(entries: Seq<(Seq<char>, VirtualNode)>, name: Seq<char>) -> Option<
    VirtualNode,
> {
    match position(entries, name) {
        Some(i) => Some(entries[i].1),
        None => None,
    }
}

/// `position` finds a name exactly when it occurs, and then at its first
/// occurrence.
pub proof fn lemma_position(entries: Seq<(Seq<char>, VirtualNode)>, name: Seq<char>)
    ensures
        match position(entries, name) {
            Some(i) => 0 <= i < entries.len() && entries[i].0 == name && forall|k: int|
                0 <= k < i ==> (#[trigger] entries[k]).0 != name,
            None => forall|k: int| 0 <= k < entries.len() ==> (#[trigger] entries[k]).0 != name,
        },
    decreases entries.len(),
{
    if entries.len() > 0 {
        lemma_position(entries.drop_last(), name);
        assert forall|k: int| 0 <= k < entries.len() - 1 implies entries.drop_last()[k]
            == entries[k] by {}
    }
}

/// Where no name occurs twice, `lookup` gives a node under a name exactly when
/// that pair is one of the entries.
pub proof fn lemma_lookup_is_membership(
    entries: Seq<(Seq<char>, VirtualNode)>,
    name: Seq<char>,
    node: VirtualNode,
)
    requires
        names_of(entries).no_duplicates(),
    ensures
        lookup(entries, name) == Some(node) <==> entries.contains((name, node)),
{
    lemma_position(entries, name);
    if entries.contains((name, node)) {
        let k = choose|k: int| 0 <= k < entries.len() && entries[k] == (name, node);
        let i = position(entries, name)->0;
        assert(names_of(entries)[k] == name);
        assert(names_of(entries)[i] == name);
    }
}

impl Directory {
    /// The entries as pairs of a name and a node, in order.
    pub closed spec fn view(self) -> Seq<(Seq<char>, VirtualNode)> {
        self.entries@.map_values(|e: (String, VirtualNode)| (e.0@, e.1))
    }

    /// The names, in order.
    pub open spec fn names(self) -> Seq<Seq<char>> {
        names_of(self@)
    }

    /// The node held under `name`.
    pub open spec fn child(self, name: Seq<char>) -> Option<VirtualNode> {
        lookup(self@, name)
    }

    #[verifier::type_invariant]
    spec fn distinct(self) -> bool {
        names_of(self@).no_duplicates()
    }

    /// A directory without entries.
    pub fn new() -> (d: Directory)
        ensures
            d@ == Seq::<(Seq<char>, VirtualNode)>::empty(),
    {
        Directory { entries: Vec::new() }
    }

    /// The number of entries.
    pub fn len(&self) -> (n: usize)
        ensures
            n == self@.len(),
            self.names().no_duplicates(),
    {
        proof {
            use_type_invariant(self);
        }
        self.entries.len()
    }

    fn find(&self, name: &str) -> (r: Option<usize>)
        ensures
            match r {
                Some(i) => position(self@, name@) == Some(i as int) && i < self.entries@.len(),
                None => position(self@, name@) is None,
            },
    {
        let mut i: usize = 0;
        while i < self.entries.len()
            invariant
                i <= self.entries.len(),
                forall|k: int| 0 <= k < i ==> (#[trigger] self@[k]).0 != name@,
            decreases self.entries.len() - i,
        {
            if str_eq(self.entries[i].0.as_str(), name) {
                proof {
                    lemma_position(self@, name@);
                    assert(self@[i as int].0 == name@);
                }
                return Some(i);
            }
            i += 1;
        }
        proof {
            lemma_position(self@, name@);
        }
        None
    }

    /// The node held under `name`, if there is one.
    pub fn get(&self, name: &str) -> (r: Option<&VirtualNode>)
        ensures
            match r {
                Some(n) => self.child(name@) == Some(*n),
                None => self.child(name@) is None,
            },
    {
        match self.find(name) {
            Some(i) => Some(&self.entries[i].1),
            None => None,
        }
    }

    /// The names, in order, each once.
    pub fn keys(&self) -> (r: Vec<&str>)
        ensures
            r@.len() == self.names().len(),
            forall|i: int| 0 <= i < r@.len() ==> (#[trigger] r@[i])@ == self.names()[i],
            self.names().no_duplicates(),
    {
        proof {
            use_type_invariant(self);
        }
        let mut r: Vec<&str> = Vec::new();
        let mut i: usize = 0;
        while i < self.entries.len()
            invariant
                i <= self.entries.len(),
                r@.len() == i,
                forall|k: int| 0 <= k < i ==> (#[trigger] r@[k])@ == self.names()[k],
            decreases self.entries.len() - i,
        {
            r.push(self.entries[i].0.as_str());
            i += 1;
        }
        r
    }

    /// Puts `node` under `name`. A name that is already there keeps its place
    /// and gets the new node, and the node it held comes back; a new name goes
    /// to the end.
    pub fn insert(&mut self, name: String, node: VirtualNode) -> (r: Option<VirtualNode>)
        ensures
            match position(old(self)@, name@) {
                Some(i) => final(self)@ == old(self)@.update(i, (name@, node)) && r == Some(
                    old(self)@[i].1,
                ),
                None => final(self)@ == old(self)@.push((name@, node)) && r is None,
            },
    {
        proof {
            use_type_invariant(&*self);
            lemma_position(self@, name@);
        }
        let found = self.find(name.as_str());
        let ghost before = self@;
        let mut entries: Vec<(String, VirtualNode)> = Vec::new();
        assert(names_of(entries@.map_values(|e: (String, VirtualNode)| (e.0@, e.1)))
            =~= Seq::<Seq<char>>::empty());
        core::mem::swap(&mut self.entries, &mut entries);
        entries.push((name, node));
        let r = match found {
            Some(i) => {
                let replaced = entries.swap_remove(i);
                Some(replaced.1)
            },
            None => None,
        };
        proof {
            let after = entries@.map_values(|e: (String, VirtualNode)| (e.0@, e.1));
            match found {
                Some(i) => {
                    assert(names_of(after) =~= names_of(before));
                },
                None => {
                    assert(names_of(after) =~= names_of(before).push(name@));
                },
            }
        }
        core::mem::swap(&mut self.entries, &mut entries);
        r
    }
}

impl VirtualNode {
    /// Whether the node is a root or a folder, which hold children.
    pub open spec fn is_dir(self) -> bool {
        !(self is File)
    }

    /// The entries of a root or folder; a file has none.
    pub open spec fn entries(self) -> Seq<(Seq<char>, VirtualNode)> {
        match self {
            VirtualNode::Root(dir) => dir@,
            VirtualNode::Folder(_, dir) => dir@,
            VirtualNode::File(_) => Seq::empty(),
        }
    }

    /// The names of the children, in order.
    pub open spec fn names(self) -> Seq<Seq<char>> {
        names_of(self.entries())
    }

    /// The child called `name`.
    pub open spec fn child(self, name: Seq<char>) -> Option<VirtualNode> {
        lookup(self.entries(), name)
    }
}

} // verus!
