//! What a whole run visits, stated over a model of the file system.
//!
//! The model is a tree of files and directories, all of which can be
//! listed. A run answers every question of the walk from the tree; the laws
//! here say what such a run asks the caller to do, and in which order.

use vstd::prelude::*;
use crate::markup::prefixed;
use crate::search::framed;
use crate::walk::{
    directory_notice,
    pending_of,
    step_for,
    PendingView,
    StepView,
    FOUND_FILE_COUNT,
};

verus! {

/// A file, or a directory with its entries in the order in which they are
/// listed.
pub enum Tree {
    File { path: Seq<char> },
    Dir { path: Seq<char>, entries: Seq<Tree> },
}

impl Tree {
    /// The path of the file or directory.
    pub open spec fn path(self) -> Seq<char> {
        match self {
            Tree::File { path } => path,
            Tree::Dir { path, .. } => path,
        }
    }

    /// The entries of a directory; a file has none.
    pub open spec fn entries(self) -> Seq<Tree> {
        match self {
            Tree::File { .. } => seq![],
            Tree::Dir { entries, .. } => entries,
        }
    }
}

/// A tree that is still to be visited.
pub struct Slot {
    pub tree: Tree,
    /// Whether it was found inside a directory.
    pub found: bool,
}

/// The trees of a list as slots, in order.
pub open spec fn slots_of(trees: Seq<Tree>, found: bool) -> Seq<Slot> {
    Seq::new(trees.len(), |i: int| Slot { tree: trees[i], found })
}

/// The pending path that stands for a slot.
pub open spec fn item_of(slot: Slot) -> PendingView {
    PendingView { path: slot.tree.path(), found: slot.found, failure: None }
}

/// The pending paths that stand for a list of slots, in order.
pub open spec fn items_of(stack: Seq<Slot>) -> Seq<PendingView> {
    Seq::new(stack.len(), |i: int| item_of(stack[i]))
}

/// Whether `listing` names the trees of `entries`, in order.
pub open spec fn lists(listing: Seq<String>, entries: Seq<Tree>) -> bool {
    &&& listing.len() == entries.len()
    &&& forall|i: int| 0 <= i < listing.len() ==> listing[i]@ == #[trigger] entries[i].path()
}

/// The number of files and directories in a tree.
pub open spec fn size(tree: Tree) -> nat
    decreases tree,
{
    match tree {
        Tree::File { .. } => 1,
        Tree::Dir { entries, .. } => 1 + size_all(entries),
    }
}

/// The number of files and directories in a list of trees.
pub open spec fn size_all(trees: Seq<Tree>) -> nat
    decreases trees,
{
    if trees.len() == 0 {
        0
    } else {
        size(trees[0]) + size_all(trees.drop_first())
    }
}

/// The number of files and directories in the trees of a list of slots.
pub open spec fn weight(stack: Seq<Slot>) -> nat
    decreases stack.len(),
{
    if stack.len() == 0 {
        0
    } else {
        size(stack[0].tree) + weight(stack.drop_first())
    }
}

/// What a visit of a tree and of all below it asks the caller to do, in
/// order: a file is searched; a directory that is entered gives what its
/// entries give, each as a path found inside a directory; a directory that
/// is not entered is reported.
pub open spec fn requests_for(tree: Tree, found: bool, num_files: usize, recursive: bool)
    -> Seq<StepView>
    decreases tree,
{
    match tree {
        Tree::File { path } => seq![
            step_for(PendingView { path, found, failure: None }, false, num_files, recursive),
        ],
        Tree::Dir { path, entries } => if found || recursive {
            requests_for_all(entries, true, num_files, recursive)
        } else {
            seq![step_for(PendingView { path, found, failure: None }, true, num_files, recursive)]
        },
    }
}

/// What the visits of a list of trees ask the caller to do, one tree after
/// the other.
pub open spec fn requests_for_all(
    trees: Seq<Tree>,
    found: bool,
    num_files: usize,
    recursive: bool,
) -> Seq<StepView>
    decreases trees,
{
    if trees.len() == 0 {
        seq![]
    } else {
        requests_for(trees[0], found, num_files, recursive) + requests_for_all(
            trees.drop_first(),
            found,
            num_files,
            recursive,
        )
    }
}

/// Whether `path` is a file in `tree`, at any depth.
pub open spec fn holds_file(tree: Tree, path: Seq<char>) -> bool
    decreases tree,
{
    match tree {
        Tree::File { path: own } => own == path,
        Tree::Dir { entries, .. } => holds_file_any(entries, path),
    }
}

/// Whether `path` is a file in one of `trees`, at any depth.
pub open spec fn holds_file_any(trees: Seq<Tree>, path: Seq<char>) -> bool
    decreases trees,
{
    trees.len() > 0 && (holds_file(trees[0], path) || holds_file_any(trees.drop_first(), path))
}

/// The request to search a file that was found inside a directory.
pub open spec fn found_scan(path: Seq<char>) -> StepView {
    StepView::Scan { path, num_files: FOUND_FILE_COUNT }
}

/// What a run of the walk asks the caller to do, in order, when the trees
/// of `stack` are pending and every answer comes from the trees.
///
/// Each round visits the first pending tree. When the step is to list it,
/// its entries become pending in front of the rest, as found paths, and
/// nothing is asked of the caller beyond the listing; any other step is
/// handed to the caller.
pub open spec fn run(stack: Seq<Slot>, num_files: usize, recursive: bool) -> Seq<StepView>
    decreases weight(stack),
    via run_decreases
{
    if stack.len() == 0 {
        seq![]
    } else {
        let top = stack[0];
        let rest = stack.drop_first();
        let step = step_for(item_of(top), top.tree is Dir, num_files, recursive);
        if step is List {
            run(slots_of(top.tree.entries(), true) + rest, num_files, recursive)
        } else {
            seq![step] + run(rest, num_files, recursive)
        }
    }
}

#[via_fn]
proof fn run_decreases(stack: Seq<Slot>, num_files: usize, recursive: bool) {
    if stack.len() > 0 {
        let top = stack[0];
        let rest = stack.drop_first();
        let below = slots_of(top.tree.entries(), true);
        lemma_weight_of_slots(top.tree.entries(), true);
        lemma_weight_concat(below, rest);
    }
}

/// The weight of two lists of slots put together is the sum of their weights.
pub proof fn lemma_weight_concat(front: Seq<Slot>, back: Seq<Slot>)
    ensures
        weight(front + back) == weight(front) + weight(back),
    decreases front.len(),
{
    if front.len() == 0 {
        assert(front + back =~= back);
    } else {
        assert((front + back).drop_first() =~= front.drop_first() + back);
        lemma_weight_concat(front.drop_first(), back);
    }
}

/// The weight of the slots of a list of trees is the size of the trees.
pub proof fn lemma_weight_of_slots(trees: Seq<Tree>, found: bool)
    ensures
        weight(slots_of(trees, found)) == size_all(trees),
    decreases trees.len(),
{
    if trees.len() > 0 {
        assert(slots_of(trees, found).drop_first() =~= slots_of(trees.drop_first(), found));
        lemma_weight_of_slots(trees.drop_first(), found);
    }
}

/// One round of the walk keeps step with [`run`]: when the pending paths
/// are those of a stack of trees, the visited path is that of the first
/// tree, the paths left after the visit are those of the other trees, and
/// the paths left after entering the first tree's listing are those of its
/// entries, as found paths, in front of the others.
pub proof fn lemma_round_keeps_step(stack: Seq<Slot>, listing: Seq<String>)
    requires
        stack.len() > 0,
        lists(listing, stack[0].tree.entries()),
    ensures
        items_of(stack)[0] == item_of(stack[0]),
        items_of(stack).drop_first() == items_of(stack.drop_first()),
        pending_of(listing, true) + items_of(stack.drop_first()) == items_of(
            slots_of(stack[0].tree.entries(), true) + stack.drop_first(),
        ),
{
    let entries = stack[0].tree.entries();
    let rest = stack.drop_first();
    assert(items_of(stack).drop_first() =~= items_of(rest));
    assert forall|i: int| 0 <= i < listing.len() implies pending_of(listing, true)[i] == items_of(
        slots_of(entries, true) + rest,
    )[i] by {
        assert(listing[i]@ == entries[i].path());
    }
    assert(pending_of(listing, true) + items_of(rest) =~= items_of(
        slots_of(entries, true) + rest,
    ));
}

/// A run visits the pending trees one after the other, each with all below
/// it, before it turns to the rest.
pub proof fn lemma_run_visits_in_order(
    trees: Seq<Tree>,
    found: bool,
    rest: Seq<Slot>,
    num_files: usize,
    recursive: bool,
)
    ensures
        run(slots_of(trees, found) + rest, num_files, recursive) == requests_for_all(
            trees,
            found,
            num_files,
            recursive,
        ) + run(rest, num_files, recursive),
    decreases size_all(trees),
{
    let stack = slots_of(trees, found) + rest;
    if trees.len() == 0 {
        assert(stack =~= rest);
        assert(requests_for_all(trees, found, num_files, recursive) + run(
            rest,
            num_files,
            recursive,
        ) =~= run(rest, num_files, recursive));
    } else {
        let first = trees[0];
        let tail = trees.drop_first();
        let after = slots_of(tail, found) + rest;
        assert(stack[0] == Slot { tree: first, found });
        assert(stack.drop_first() =~= after);
        assert(size_all(trees) == size(first) + size_all(tail));
        assert(size(first) == 1 + size_all(first.entries())) by {
            assert(size_all(Seq::<Tree>::empty()) == 0);
        }
        lemma_run_visits_in_order(tail, found, rest, num_files, recursive);
        let step = step_for(item_of(stack[0]), first is Dir, num_files, recursive);
        if step is List {
            let entries = first.entries();
            lemma_run_visits_in_order(entries, true, after, num_files, recursive);
            assert(requests_for(first, found, num_files, recursive) == requests_for_all(
                entries,
                true,
                num_files,
                recursive,
            ));
        } else {
            assert(requests_for(first, found, num_files, recursive) == seq![step]);
        }
        assert(run(stack, num_files, recursive) =~= requests_for(
            first,
            found,
            num_files,
            recursive,
        ) + requests_for_all(tail, found, num_files, recursive) + run(rest, num_files, recursive));
    }
}

/// A run over path arguments asks for exactly what the visits of the
/// arguments ask for, argument by argument.
pub proof fn lemma_run_of_arguments(arguments: Seq<Tree>, recursive: bool)
    requires
        arguments.len() <= usize::MAX,
    ensures
        run(slots_of(arguments, false), arguments.len() as usize, recursive) == requests_for_all(
            arguments,
            false,
            arguments.len() as usize,
            recursive,
        ),
{
    let num_files = arguments.len() as usize;
    let none = Seq::<Slot>::empty();
    lemma_run_visits_in_order(arguments, false, none, num_files, recursive);
    assert(slots_of(arguments, false) + none =~= slots_of(arguments, false));
    assert(requests_for_all(arguments, false, num_files, recursive) + run(
        none,
        num_files,
        recursive,
    ) =~= requests_for_all(arguments, false, num_files, recursive));
}

/// A directory given as an argument to a run that is not recursive is
/// reported in one line, and nothing is asked for what is inside it.
pub proof fn lemma_directory_skipped(path: Seq<char>, entries: Seq<Tree>, num_files: usize)
    ensures
        requests_for(Tree::Dir { path, entries }, false, num_files, false) == seq![
            StepView::Skip { notice: directory_notice(path) },
        ],
{
}

/// Every file inside found trees is searched, under the file count of
/// found files.
pub proof fn lemma_found_files_scanned(
    trees: Seq<Tree>,
    path: Seq<char>,
    num_files: usize,
    recursive: bool,
)
    requires
        holds_file_any(trees, path),
    ensures
        requests_for_all(trees, true, num_files, recursive).contains(found_scan(path)),
    decreases trees,
{
    let first = requests_for(trees[0], true, num_files, recursive);
    let others = requests_for_all(trees.drop_first(), true, num_files, recursive);
    let all = requests_for_all(trees, true, num_files, recursive);
    assert(all == first + others);
    if holds_file(trees[0], path) {
        match trees[0] {
            Tree::File { path: own } => {
                assert(first[0] == found_scan(path));
            },
            Tree::Dir { entries, .. } => {
                lemma_found_files_scanned(entries, path, num_files, recursive);
            },
        }
        let at = choose|at: int| 0 <= at < first.len() && first[at] == found_scan(path);
        assert(all[at] == found_scan(path));
    } else {
        lemma_found_files_scanned(trees.drop_first(), path, num_files, recursive);
        let at = choose|at: int| 0 <= at < others.len() && others[at] == found_scan(path);
        assert(all[first.len() + at] == found_scan(path));
    }
}

/// Found trees give nothing but searches of files inside them, each under
/// the file count of found files.
pub proof fn lemma_found_trees_only_scan(
    trees: Seq<Tree>,
    num_files: usize,
    recursive: bool,
    at: int,
)
    requires
        0 <= at < requests_for_all(trees, true, num_files, recursive).len(),
    ensures
        requests_for_all(trees, true, num_files, recursive)[at] matches StepView::Scan {
            path,
            num_files: count,
        } && count == FOUND_FILE_COUNT && holds_file_any(trees, path),
    decreases trees,
{
    let first = requests_for(trees[0], true, num_files, recursive);
    let others = requests_for_all(trees.drop_first(), true, num_files, recursive);
    let all = requests_for_all(trees, true, num_files, recursive);
    assert(all == first + others);
    if at < first.len() {
        assert(all[at] == first[at]);
        match trees[0] {
            Tree::File { path: own } => {
                assert(first[at] == found_scan(own));
                assert(holds_file(trees[0], own));
            },
            Tree::Dir { entries, .. } => {
                lemma_found_trees_only_scan(entries, num_files, recursive, at);
                assert(first[at] is Scan);
                assert(holds_file(trees[0], first[at]->Scan_path));
            },
        }
    } else {
        assert(all[at] == others[at - first.len()]);
        lemma_found_trees_only_scan(trees.drop_first(), num_files, recursive, at - first.len());
    }
}

/// A directory that is entered, as an argument of a recursive run or as a
/// found path, has every file inside it searched, at any depth, under the
/// file count of found files, which is more than one: the lines of such a
/// file always carry its path.
pub proof fn lemma_directory_entered(
    path: Seq<char>,
    entries: Seq<Tree>,
    found: bool,
    num_files: usize,
    recursive: bool,
    file: Seq<char>,
)
    requires
        found || recursive,
        holds_file(Tree::Dir { path, entries }, file),
    ensures
        requests_for(Tree::Dir { path, entries }, found, num_files, recursive).contains(
            found_scan(file),
        ),
        FOUND_FILE_COUNT > 1,
{
    lemma_found_files_scanned(entries, file, num_files, recursive);
}

/// The lines of a file found inside a directory always carry its path.
pub proof fn lemma_found_lines_carry_path(body: Seq<char>, path: Seq<char>)
    ensures
        framed(body, FOUND_FILE_COUNT as int, Some(path)) == prefixed(path, body),
{
}

} // verus!
