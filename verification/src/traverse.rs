//! Resolving a slash-delimited path against a tree: a walk that keeps the
//! chain of nodes it has descended through, so that `..` steps back by one.

use vstd::prelude::*;
use vstd::string::StringExecFns;
use crate::node::VirtualNode;
use crate::path::{segments, split_path};
use crate::text::str_eq;

verus! {

/// Why a path did not resolve.
#[derive(Debug, PartialEq, Eq)]
pub enum TraverseError {
    /// The path climbed above the node it started from.
    NoParentOfRoot,
    /// A segment named no child of the folder the walk stood in.
    NotFound(String),
    /// A segment asked for a child of a file.
    TraverseIntoFile,
}

/// A `TraverseError` with the segment it carries as a sequence of characters.
pub enum TraverseFailure {
    NoParentOfRoot,
    NotFound(Seq<char>),
    TraverseIntoFile,
}

impl View for TraverseError {
    type V = TraverseFailure;

    open spec fn view(&self) -> TraverseFailure {
        match self {
            TraverseError::NoParentOfRoot => TraverseFailure::NoParentOfRoot,
            TraverseError::NotFound(name) => TraverseFailure::NotFound(name@),
            TraverseError::TraverseIntoFile => TraverseFailure::TraverseIntoFile,
        }
    }
}

/// The sentence that tells a user of the failure `e`.
pub open spec fn message_of(e: TraverseFailure) -> Seq<char> {
    match e {
        TraverseFailure::NoParentOfRoot => "You tried to go above the root directory."@,
        TraverseFailure::NotFound(name) => "cannot access '"@ + name
            + "': No such file or directory."@,
        TraverseFailure::TraverseIntoFile => "Tried to traverse into a file, not a folder."@,
    }
}

impl TraverseError {
    /// The sentence that tells a user of this error.
    pub fn message(&self) -> (text: String)
        ensures
            text@ == message_of(self@),
    {
        match self {
            TraverseError::NoParentOfRoot => String::from_str(
                "You tried to go above the root directory.",
            ),
            TraverseError::NotFound(name) => {
                let mut text = String::from_str("cannot access '");
                text.append(name.as_str());
                text.append("': No such file or directory.");
                text
            },
            TraverseError::TraverseIntoFile => String::from_str(
                "Tried to traverse into a file, not a folder.",
            ),
        }
    }
}

/// The segment `.`, which stays where the walk is.
pub open spec fn here() -> Seq<char> {
    seq!['.']
}

/// The segment `..`, which steps back to the parent.
pub open spec fn up() -> Seq<char> {
    seq!['.', '.']
}

/// Whether `seg` is read as the name of a child: anything but `.` and `..`.
pub open spec fn is_name(seg: Seq<char>) -> bool {
    seg != here() && seg != up()
}

/// One segment applied to the chain of nodes walked so far, the current node
/// last. The chain is empty once the walk has stepped above its start.
pub open spec fn step(chain: Seq<VirtualNode>, seg: Seq<char>) -> Result<
    Seq<VirtualNode>,
    TraverseFailure,
> {
    if seg == here() {
        Ok(chain)
    } else if chain.len() == 0 {
        Err(TraverseFailure::NoParentOfRoot)
    } else if seg == up() {
        Ok(chain.drop_last())
    } else if chain.last() is File {
        Err(TraverseFailure::TraverseIntoFile)
    } else {
        match chain.last().child(seg) {
            Some(node) => Ok(chain.push(node)),
            None => Err(TraverseFailure::NotFound(seg)),
        }
    }
}

/// The segments applied in order, stopping at the first that fails.
pub open spec fn walk(chain: Seq<VirtualNode>, segs: Seq<Seq<char>>) -> Result<
    Seq<VirtualNode>,
    TraverseFailure,
>
    decreases segs.len(),
{
    if segs.len() == 0 {
        Ok(chain)
    } else {
        match walk(chain, segs.drop_last()) {
            Ok(reached) => step(reached, segs.last()),
            Err(e) => Err(e),
        }
    }
}

/// Where a walk that ended with `chain` stands: on its last node, unless it
/// stepped above its start.
pub open spec fn finish(chain: Seq<VirtualNode>) -> Result<VirtualNode, TraverseFailure> {
    if chain.len() == 0 {
        Err(TraverseFailure::NoParentOfRoot)
    } else {
        Ok(chain.last())
    }
}

/// The node that `segs` lead to from `root`, or the first failure on the way.
pub open spec fn resolve(root: VirtualNode, segs: Seq<Seq<char>>) -> Result<
    VirtualNode,
    TraverseFailure,
> {
    match walk(seq![root], segs) {
        Ok(chain) => finish(chain),
        Err(e) => Err(e),
    }
}

/// The nodes that a stack of references points to.
spec fn pointees(stack: Seq<&VirtualNode>) -> Seq<VirtualNode> {
    stack.map_values(|node: &VirtualNode| *node)
}

/// Resolves `path` from `root`: `.` stays, `..` steps back to the parent, and
/// any other segment, the empty one too, names a child of the current node.
pub fn traverse<'a>(root: &'a VirtualNode, path: &str) -> (r: Result<&'a VirtualNode, TraverseError>)
    ensures
        match r {
            Ok(node) => resolve(*root, segments(path@)) == Ok::<VirtualNode, TraverseFailure>(
                *node,
            ),
            Err(e) => resolve(*root, segments(path@)) == Err::<VirtualNode, TraverseFailure>(e@),
        },
{
    let parts = split_path(path);
    let ghost segs = segments(path@);
    let mut traversal: Vec<&'a VirtualNode> = Vec::new();
    traversal.push(root);
    assert(pointees(traversal@) =~= seq![*root]);
    let mut i: usize = 0;
    while i < parts.len()
        invariant
            i <= parts.len(),
            segs == segments(path@),
            parts@.len() == segs.len(),
            forall|k: int| 0 <= k < parts@.len() ==> (#[trigger] parts@[k])@ == segs[k],
            walk(seq![*root], segs.take(i as int)) == Ok::<Seq<VirtualNode>, TraverseFailure>(
                pointees(traversal@),
            ),
        decreases parts.len() - i,
    {
        let part = parts[i];
        proof {
            reveal_strlit(".");
            reveal_strlit("..");
            assert("."@ =~= here());
            assert(".."@ =~= up());
            assert(segs.take(i + 1).drop_last() =~= segs.take(i as int));
            assert(segs =~= segs.take(i + 1) + segs.skip(i + 1));
            lemma_walk_concat(seq![*root], segs.take(i + 1), segs.skip(i + 1));
        }
        let ghost chain = pointees(traversal@);
        if str_eq(part, ".") {
        } else if str_eq(part, "..") {
            match traversal.pop() {
                Some(_) => {
                    assert(pointees(traversal@) =~= chain.drop_last());
                },
                None => {
                    return Err(TraverseError::NoParentOfRoot);
                },
            }
        } else {
            if traversal.len() == 0 {
                return Err(TraverseError::NoParentOfRoot);
            }
            let current: &'a VirtualNode = traversal[traversal.len() - 1];
            let found = match current {
                VirtualNode::Root(dir) => dir.get(part),
                VirtualNode::Folder(_, dir) => dir.get(part),
                VirtualNode::File(_) => {
                    return Err(TraverseError::TraverseIntoFile);
                },
            };
            match found {
                Some(node) => {
                    traversal.push(node);
                    assert(pointees(traversal@) =~= chain.push(*node));
                },
                None => {
                    return Err(TraverseError::NotFound(part.to_owned()));
                },
            }
        }
        i += 1;
    }
    assert(segs.take(i as int) =~= segs);
    match traversal.pop() {
        Some(node) => Ok(node),
        None => Err(TraverseError::NoParentOfRoot),
    }
}

/// A walk over `first` and then `rest` is a walk over `rest` from where
/// `first` led, and fails where `first` fails.
pub proof fn lemma_walk_concat(chain: Seq<VirtualNode>, first: Seq<Seq<char>>, rest: Seq<Seq<char>>)
    ensures
        walk(chain, first + rest) == match walk(chain, first) {
            Ok(reached) => walk(reached, rest),
            Err(e) => Err(e),
        },
    decreases rest.len(),
{
    if rest.len() == 0 {
        assert(first + rest =~= first);
    } else {
        assert((first + rest).drop_last() =~= first + rest.drop_last());
        lemma_walk_concat(chain, first, rest.drop_last());
    }
}

/// A walk over one segment is that one step.
pub proof fn lemma_walk_one(chain: Seq<VirtualNode>, seg: Seq<char>)
    ensures
        walk(chain, seq![seg]) == step(chain, seg),
{
    let one = seq![seg];
    assert(one.drop_last() =~= Seq::<Seq<char>>::empty());
    assert(walk(chain, one.drop_last()) == Ok::<Seq<VirtualNode>, TraverseFailure>(chain));
}

/// Once the walk has stepped above its start, no further segment brings it
/// back: it fails, or ends with the chain still empty.
pub proof fn lemma_walk_above_start(segs: Seq<Seq<char>>)
    ensures
        match walk(Seq::<VirtualNode>::empty(), segs) {
            Ok(chain) => chain.len() == 0,
            Err(e) => e == TraverseFailure::NoParentOfRoot,
        },
    decreases segs.len(),
{
    if segs.len() > 0 {
        lemma_walk_above_start(segs.drop_last());
    }
}

/// The names that `segs` add up to: `.` dropped, and each `..` taking back the
/// name before it. `None` when some `..` has no name left to take back, which
/// is a step above the start.
pub open spec fn canonical(segs: Seq<Seq<char>>) -> Option<Seq<Seq<char>>>
    decreases segs.len(),
{
    if segs.len() == 0 {
        Some(Seq::<Seq<char>>::empty())
    } else {
        match canonical(segs.drop_last()) {
            None => None,
            Some(names) => if segs.last() == here() {
                Some(names)
            } else if segs.last() != up() {
                Some(names.push(segs.last()))
            } else if names.len() > 0 {
                Some(names.drop_last())
            } else {
                None
            },
        }
    }
}

/// The node reached from `root` by taking the child of each name in turn.
pub open spec fn descend(root: VirtualNode, names: Seq<Seq<char>>) -> Option<VirtualNode>
    decreases names.len(),
{
    if names.len() == 0 {
        Some(root)
    } else {
        match descend(root, names.drop_last()) {
            Some(node) => node.child(names.last()),
            None => None,
        }
    }
}

/// Whether every step of `segs` stays inside the tree under `root`: after each
/// segment the walk has not stepped above `root`, and the names it has added
/// up to lead to a node. A file has no children, so no step goes through one.
pub open spec fn stays_inside(root: VirtualNode, segs: Seq<Seq<char>>) -> bool {
    forall|k: int|
        0 <= k <= segs.len() ==> match #[trigger] canonical(segs.take(k)) {
            Some(names) => descend(root, names) is Some,
            None => false,
        }
}

/// `root` followed by the node that each prefix of `names` leads to.
spec fn lineage(root: VirtualNode, names: Seq<Seq<char>>) -> Seq<VirtualNode> {
    Seq::new(names.len() + 1, |j: int| descend(root, names.take(j))->0)
}

proof fn lemma_walk_is_lineage(root: VirtualNode, segs: Seq<Seq<char>>)
    requires
        stays_inside(root, segs),
    ensures
        walk(seq![root], segs) == Ok::<Seq<VirtualNode>, TraverseFailure>(
            lineage(root, canonical(segs)->0),
        ),
    decreases segs.len(),
{
    assert(segs.take(segs.len() as int) =~= segs);
    assert(canonical(segs.take(segs.len() as int)) is Some);
    if segs.len() == 0 {
        let names = Seq::<Seq<char>>::empty();
        assert(lineage(root, names) =~= seq![root]);
    } else {
        let before = segs.drop_last();
        assert forall|k: int| 0 <= k <= before.len() implies match #[trigger] canonical(
            before.take(k),
        ) {
            Some(names) => descend(root, names) is Some,
            None => false,
        } by {
            assert(before.take(k) =~= segs.take(k));
        }
        lemma_walk_is_lineage(root, before);
        let names = canonical(before)->0;
        let after = canonical(segs)->0;
        let chain = lineage(root, names);
        let seg = segs.last();
        assert(names.take(names.len() as int) =~= names);
        assert(after.take(after.len() as int) =~= after);
        assert(chain.last() == descend(root, names)->0);
        if seg == here() {
        } else if seg != up() {
            assert(after.drop_last() =~= names);
            assert(chain.last().child(seg) == descend(root, after));
            assert forall|j: int| 0 <= j <= names.len() implies after.take(j) == names.take(
                j,
            ) by {
                assert(after.take(j) =~= names.take(j));
            }
            assert(lineage(root, after) =~= chain.push(descend(root, after)->0));
        } else {
            assert forall|j: int| 0 <= j <= after.len() implies after.take(j) == names.take(
                j,
            ) by {
                assert(after.take(j) =~= names.take(j));
            }
            assert(lineage(root, after) =~= chain.drop_last());
        }
    }
}

/// A path that stays inside the tree resolves, and to the node that its names
/// lead to once `.` is dropped and each `..` has taken back the name before it.
pub proof fn lemma_resolve_follows_names(root: VirtualNode, segs: Seq<Seq<char>>)
    requires
        stays_inside(root, segs),
    ensures
        canonical(segs) matches Some(names) && descend(root, names) matches Some(node)
            && resolve(root, segs) == Ok::<VirtualNode, TraverseFailure>(node),
{
    lemma_walk_is_lineage(root, segs);
    assert(segs.take(segs.len() as int) =~= segs);
    assert(canonical(segs.take(segs.len() as int)) is Some);
    let names = canonical(segs)->0;
    assert(names.take(names.len() as int) =~= names);
}

proof fn lemma_walk_stays_inside(root: VirtualNode, segs: Seq<Seq<char>>)
    requires
        walk(seq![root], segs) matches Ok(chain) && chain.len() > 0,
    ensures
        stays_inside(root, segs),
    decreases segs.len(),
{
    if segs.len() == 0 {
        assert forall|k: int| 0 <= k <= segs.len() implies match #[trigger] canonical(
            segs.take(k),
        ) {
            Some(names) => descend(root, names) is Some,
            None => false,
        } by {
            assert(segs.take(k) =~= Seq::<Seq<char>>::empty());
        }
    } else {
        let before = segs.drop_last();
        let seg = segs.last();
        let reached = walk(seq![root], before)->Ok_0;
        assert(reached.len() > 0) by {
            if reached.len() == 0 {
                assert(step(reached, seg) is Err || step(reached, seg)->Ok_0.len() == 0);
            }
        }
        lemma_walk_stays_inside(root, before);
        lemma_walk_is_lineage(root, before);
        assert(before.take(before.len() as int) =~= before);
        assert(canonical(before.take(before.len() as int)) is Some);
        let names = canonical(before)->0;
        assert(names.take(names.len() as int) =~= names);
        assert(reached.last() == descend(root, names)->0);
        if seg != here() && seg != up() {
            assert(names.push(seg).drop_last() =~= names);
        }
        assert forall|k: int| 0 <= k <= segs.len() implies match #[trigger] canonical(
            segs.take(k),
        ) {
            Some(names) => descend(root, names) is Some,
            None => false,
        } by {
            if k < segs.len() {
                assert(segs.take(k) =~= before.take(k));
            } else {
                assert(segs.take(k) =~= segs);
            }
        }
    }
}

/// The paths that resolve are exactly those that stay inside the tree.
pub proof fn lemma_resolves_iff_stays_inside(root: VirtualNode, segs: Seq<Seq<char>>)
    ensures
        resolve(root, segs) is Ok <==> stays_inside(root, segs),
{
    if stays_inside(root, segs) {
        lemma_resolve_follows_names(root, segs);
    }
    if resolve(root, segs) is Ok {
        lemma_walk_stays_inside(root, segs);
    }
}

/// A walk that has stepped above its start fails with `NoParentOfRoot`,
/// whatever follows.
pub proof fn lemma_no_way_back(root: VirtualNode, first: Seq<Seq<char>>, rest: Seq<Seq<char>>)
    requires
        walk(seq![root], first) == Ok::<Seq<VirtualNode>, TraverseFailure>(Seq::empty()),
    ensures
        resolve(root, first + rest) == Err::<VirtualNode, TraverseFailure>(
            TraverseFailure::NoParentOfRoot,
        ),
{
    lemma_walk_concat(seq![root], first, rest);
    lemma_walk_above_start(rest);
}

/// `..` alone resolves from no node: it steps above the start.
pub proof fn lemma_up_from_start(root: VirtualNode)
    ensures
        resolve(root, seq![up()]) == Err::<VirtualNode, TraverseFailure>(
            TraverseFailure::NoParentOfRoot,
        ),
{
    lemma_walk_one(seq![root], up());
    assert(up() != here()) by {
        assert(up().len() != here().len());
    }
}

/// A failure is final: whatever follows the segment that failed, the path
/// fails in the same way.
pub proof fn lemma_failure_is_final(
    root: VirtualNode,
    first: Seq<Seq<char>>,
    rest: Seq<Seq<char>>,
    e: TraverseFailure,
)
    requires
        walk(seq![root], first) == Err::<Seq<VirtualNode>, TraverseFailure>(e),
    ensures
        resolve(root, first + rest) == Err::<VirtualNode, TraverseFailure>(e),
{
    lemma_walk_concat(seq![root], first, rest);
}

/// A walk that stands on a file fails with `TraverseIntoFile` at the next
/// segment that is not `.`, provided that segment is not `..`; what comes
/// after it changes nothing.
pub proof fn lemma_no_descent_into_file(
    root: VirtualNode,
    first: Seq<Seq<char>>,
    chain: Seq<VirtualNode>,
    dots: Seq<Seq<char>>,
    seg: Seq<char>,
    rest: Seq<Seq<char>>,
)
    requires
        walk(seq![root], first) == Ok::<Seq<VirtualNode>, TraverseFailure>(chain),
        chain.len() > 0,
        chain.last() is File,
        forall|k: int| 0 <= k < dots.len() ==> dots[k] == here(),
        is_name(seg),
    ensures
        resolve(root, first + dots + seq![seg] + rest) == Err::<VirtualNode, TraverseFailure>(
            TraverseFailure::TraverseIntoFile,
        ),
{
    lemma_walk_dots(chain, dots);
    lemma_walk_concat(seq![root], first, dots);
    let reached = first + dots;
    assert((reached + seq![seg]).drop_last() =~= reached);
    lemma_walk_concat(seq![root], reached + seq![seg], rest);
}

/// Segments that are all `.` leave the walk where it is.
pub proof fn lemma_walk_dots(chain: Seq<VirtualNode>, dots: Seq<Seq<char>>)
    requires
        forall|k: int| 0 <= k < dots.len() ==> dots[k] == here(),
    ensures
        walk(chain, dots) == Ok::<Seq<VirtualNode>, TraverseFailure>(chain),
    decreases dots.len(),
{
    if dots.len() > 0 {
        lemma_walk_dots(chain, dots.drop_last());
    }
}

/// `..` takes back a descent: after a step down to `node`, a path that goes on
/// with `..` ends as the rest of it does from where the step down began.
pub proof fn lemma_up_takes_back(chain: Seq<VirtualNode>, node: VirtualNode, rest: Seq<Seq<char>>)
    ensures
        walk(chain.push(node), seq![up()] + rest) == walk(chain, rest),
{
    lemma_walk_one(chain.push(node), up());
    assert(up() != here()) by {
        assert(up().len() != here().len());
    }
    assert(chain.push(node).drop_last() =~= chain);
    lemma_walk_concat(chain.push(node), seq![up()], rest);
}

/// `<folder>/<file>/<name>...`: where `file` names a file in the child
/// `folder` of `root`, a path that goes on below it with a name fails with
/// `TraverseIntoFile`, whatever the name and whatever follows it.
pub proof fn lemma_path_below_file(
    root: VirtualNode,
    folder: Seq<char>,
    file: Seq<char>,
    seg: Seq<char>,
    rest: Seq<Seq<char>>,
)
    requires
        is_name(folder),
        is_name(file),
        is_name(seg),
        root.child(folder) matches Some(dir) && dir.child(file) matches Some(leaf)
            && leaf is File,
    ensures
        resolve(root, seq![folder, file, seg] + rest) == Err::<VirtualNode, TraverseFailure>(
            TraverseFailure::TraverseIntoFile,
        ),
{
    let dir = root.child(folder)->0;
    let leaf = dir.child(file)->0;
    let first = seq![folder, file];
    assert(first.drop_last() =~= seq![folder]);
    lemma_walk_one(seq![root], folder);
    assert(root.entries().len() > 0) by {
        crate::node::lemma_position(root.entries(), folder);
    }
    assert(dir.entries().len() > 0) by {
        crate::node::lemma_position(dir.entries(), file);
    }
    assert(walk(seq![root], first) == Ok::<Seq<VirtualNode>, TraverseFailure>(
        seq![root].push(dir).push(leaf),
    ));
    let dots = Seq::<Seq<char>>::empty();
    lemma_no_descent_into_file(root, first, seq![root].push(dir).push(leaf), dots, seg, rest);
    assert(first + dots + seq![seg] + rest =~= seq![folder, file, seg] + rest);
}

/// The first segment that names no child of the folder the walk stands in
/// fails the path with `NotFound` carrying that segment, whatever follows it.
pub proof fn lemma_first_unknown_name(
    root: VirtualNode,
    first: Seq<Seq<char>>,
    chain: Seq<VirtualNode>,
    seg: Seq<char>,
    rest: Seq<Seq<char>>,
)
    requires
        walk(seq![root], first) == Ok::<Seq<VirtualNode>, TraverseFailure>(chain),
        chain.len() > 0,
        chain.last().is_dir(),
        is_name(seg),
        chain.last().child(seg) is None,
    ensures
        resolve(root, first + seq![seg] + rest) == Err::<VirtualNode, TraverseFailure>(
            TraverseFailure::NotFound(seg),
        ),
{
    assert((first + seq![seg]).drop_last() =~= first);
    lemma_walk_concat(seq![root], first + seq![seg], rest);
}

} // verus!
