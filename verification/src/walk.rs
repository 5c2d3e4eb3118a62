//! The order in which the paths of a run are visited.
//!
//! The caller owns the file system: it tells whether a path is a directory
//! and lists a directory's entries. This module decides what happens to each
//! path and which paths are left to visit.

use vstd::prelude::*;
use vstd::string::*;

verus! {

/// The file count under which files found inside a directory are searched.
/// It is more than one, so their lines always carry the path.
pub const FOUND_FILE_COUNT: usize = 2;

/// A path that is still to be visited.
#[derive(Debug)]
pub struct Pending {
    /// The path.
    pub path: String,
    /// Whether the path was found inside a directory, rather than given as
    /// an argument.
    pub found: bool,
    /// Set where the path is a directory whose listing broke off: the
    /// system's reason. The entries listed before the failure are visited
    /// first; the visit of this path then ends the run.
    pub failure: Option<String>,
}

/// The paths of a run that are still to be visited, and the settings that
/// decide what a visit does.
pub struct Walk {
    /// The paths to visit; the last one is visited next.
    pending: Vec<Pending>,
    /// The number of path arguments of the run.
    num_files: usize,
    /// Whether directories given as arguments are entered.
    recursive: bool,
}

/// What the caller is to do for the path just visited.
#[derive(Debug)]
pub enum Step {
    /// Read the file and search it under this file count.
    Scan { path: String, num_files: usize },
    /// Print this line to standard error and leave the path alone.
    Skip { notice: String },
    /// List the directory and hand its entries to [`Walk::enter`], or, if
    /// the listing fails, what was listed so far to [`Walk::enter_partial`].
    List { path: String },
    /// End the run with this line: a directory could not be listed.
    Fail { notice: String },
}

/// The kind of a path argument could not be found out; the run cannot go on.
#[derive(Debug)]
pub struct StatFailure;

/// A pending path as plain values.
pub struct PendingView {
    pub path: Seq<char>,
    pub found: bool,
    pub failure: Option<Seq<char>>,
}

/// A walk as plain values.
pub struct WalkView {
    /// The paths to visit; the first one is visited next.
    pub pending: Seq<PendingView>,
    pub num_files: usize,
    pub recursive: bool,
}

/// A step as plain values.
pub enum StepView {
    Scan { path: Seq<char>, num_files: usize },
    Skip { notice: Seq<char> },
    List { path: Seq<char> },
    Fail { notice: Seq<char> },
}

impl View for Pending {
    type V = PendingView;

    open spec fn view(&self) -> PendingView {
        PendingView {
            path: self.path@,
            found: self.found,
            failure: match self.failure {
                Some(reason) => Some(reason@),
                None => None,
            },
        }
    }
}

impl View for Step {
    type V = StepView;

    open spec fn view(&self) -> StepView {
        match self {
            Step::Scan { path, num_files } => StepView::Scan { path: path@, num_files: *num_files },
            Step::Skip { notice } => StepView::Skip { notice: notice@ },
            Step::List { path } => StepView::List { path: path@ },
            Step::Fail { notice } => StepView::Fail { notice: notice@ },
        }
    }
}

impl View for Walk {
    type V = WalkView;

    closed spec fn view(&self) -> WalkView {
        WalkView {
            pending: Seq::new(
                self.pending@.len(),
                |i: int| self.pending@[self.pending@.len() - 1 - i]@,
            ),
            num_files: self.num_files,
            recursive: self.recursive,
        }
    }
}

/// The paths of a list as pending paths, in order.
pub open spec fn pending_of(paths: Seq<String>, found: bool) -> Seq<PendingView> {
    Seq::new(paths.len(), |i: int| PendingView { path: paths[i]@, found, failure: None })
}

/// The pending path that stands for a directory whose listing broke off.
pub open spec fn broken_listing(directory: Seq<char>, reason: Seq<char>) -> PendingView {
    PendingView { path: directory, found: true, failure: Some(reason) }
}

/// The line that ends a run over a directory that could not be listed.
pub open spec fn listing_notice(directory: Seq<char>, reason: Seq<char>) -> Seq<char> {
    directory + ": "@ + reason
}

/// The line that reports a directory that is not entered.
pub open spec fn directory_notice(path: Seq<char>) -> Seq<char> {
    path + ": is a directory"@
}

/// Whether a path counts as a directory, given what asking the file system
/// brought: `Some` with the answer, or `None` when the question failed.
///
/// An answer stands as it is. Without one, a path given as an argument
/// cannot be classified, which ends the run; a path found inside a
/// directory counts as a file, so that the failure shows when it is opened.
pub open spec fn classified(found: bool, stat: Option<bool>) -> Result<bool, StatFailure> {
    match stat {
        Some(is_dir) => Ok(is_dir),
        None => if found {
            Ok(false)
        } else {
            Err(StatFailure)
        },
    }
}

/// What a visit of `item` asks for.
///
/// A file is searched: under the number of path arguments if it is one of
/// them, under [`FOUND_FILE_COUNT`] if it was found inside a directory. A
/// directory is listed if it was found inside another or the run is
/// recursive; otherwise it is reported and skipped. A directory whose
/// listing broke off ends the run, whatever it is now.
pub open spec fn step_for(item: PendingView, is_dir: bool, num_files: usize, recursive: bool)
    -> StepView {
    if item.failure is Some {
        StepView::Fail { notice: listing_notice(item.path, item.failure->0) }
    } else if !is_dir {
        StepView::Scan {
            path: item.path,
            num_files: if item.found {
                FOUND_FILE_COUNT
            } else {
                num_files
            },
        }
    } else if item.found || recursive {
        StepView::List { path: item.path }
    } else {
        StepView::Skip { notice: directory_notice(item.path) }
    }
}

/// A directory whose listing broke off ends the run when its turn comes,
/// whatever the file system then says of it.
pub proof fn lemma_broken_listing_fails(
    directory: Seq<char>,
    reason: Seq<char>,
    is_dir: bool,
    num_files: usize,
    recursive: bool,
)
    ensures
        step_for(broken_listing(directory, reason), is_dir, num_files, recursive)
            == (StepView::Fail { notice: listing_notice(directory, reason) }),
{
}

impl Walk {
    /// Starts a run over the path arguments `files`, to be visited in order.
    pub fn start(files: &Vec<String>, recursive: bool) -> (walk: Walk)
        ensures
            walk@.pending == pending_of(files@, false),
            walk@.num_files == files@.len(),
            walk@.recursive == recursive,
    {
        let mut walk = Walk { pending: Vec::new(), num_files: files.len(), recursive };
        walk.push_reversed(files, false);
        assert(walk@.pending =~= pending_of(files@, false));
        walk
    }

    /// Puts `paths` in front of the paths to visit, in order.
    fn push_reversed(&mut self, paths: &Vec<String>, found: bool)
        ensures
            final(self)@.pending == pending_of(paths@, found) + old(self)@.pending,
            final(self)@.num_files == old(self)@.num_files,
            final(self)@.recursive == old(self)@.recursive,
    {
        let mut left: usize = paths.len();
        while left > 0
            invariant
                left <= paths@.len(),
                self.num_files == old(self).num_files,
                self.recursive == old(self).recursive,
                self@.pending == pending_of(paths@, found).subrange(
                    left as int,
                    paths@.len() as int,
                ) + old(self)@.pending,
            decreases left,
        {
            let ghost before = self@.pending;
            left -= 1;
            self.pending.push(Pending { path: paths[left].clone(), found, failure: None });
            assert(self@.pending =~= seq![
                PendingView { path: paths@[left as int]@, found, failure: None },
            ] + before);
            assert(self@.pending =~= pending_of(paths@, found).subrange(
                left as int,
                paths@.len() as int,
            ) + old(self)@.pending);
        }
        assert(pending_of(paths@, found).subrange(0, paths@.len() as int) =~= pending_of(
            paths@,
            found,
        ));
    }

    /// The path to visit next, if any is left. The caller asks the file
    /// system whether it is a directory, has [`Walk::classify`] decide, and
    /// hands the answer to [`Walk::visit`].
    pub fn next_path(&self) -> (next: Option<&Pending>)
        ensures
            next is Some <==> self@.pending.len() > 0,
            next matches Some(item) ==> item@ == self@.pending[0],
    {
        if self.pending.len() == 0 {
            None
        } else {
            Some(&self.pending[self.pending.len() - 1])
        }
    }

    /// Decides whether a pending path counts as a directory, from what
    /// asking the file system brought. The answer goes to [`Walk::visit`];
    /// on a failure the caller ends the run.
    pub fn classify(found: bool, stat: Option<bool>) -> (kind: Result<bool, StatFailure>)
        ensures
            kind == classified(found, stat),
    {
        match stat {
            Some(is_dir) => Ok(is_dir),
            None => if found {
                Ok(false)
            } else {
                Err(StatFailure)
            },
        }
    }

    /// Visits the next path, given whether it is a directory, and says what
    /// the caller is to do for it. The path is no longer pending afterwards.
    pub fn visit(&mut self, is_dir: bool) -> (step: Step)
        requires
            old(self)@.pending.len() > 0,
        ensures
            step@ == step_for(
                old(self)@.pending[0],
                is_dir,
                old(self)@.num_files,
                old(self)@.recursive,
            ),
            final(self)@.pending == old(self)@.pending.drop_first(),
            final(self)@.num_files == old(self)@.num_files,
            final(self)@.recursive == old(self)@.recursive,
    {
        let item = self.pending.pop().unwrap();
        assert(self@.pending =~= old(self)@.pending.drop_first());
        if let Some(reason) = item.failure {
            let mut notice = item.path;
            notice.append(": ");
            notice.append(reason.as_str());
            Step::Fail { notice }
        } else if !is_dir {
            let num_files = if item.found {
                FOUND_FILE_COUNT
            } else {
                self.num_files
            };
            Step::Scan { path: item.path, num_files }
        } else if item.found || self.recursive {
            Step::List { path: item.path }
        } else {
            let mut notice = item.path;
            notice.append(": is a directory");
            Step::Skip { notice }
        }
    }

    /// Takes the entries of the directory just listed: they are visited
    /// next, in order, before anything that was pending, as paths found
    /// inside a directory.
    pub fn enter(&mut self, entries: &Vec<String>)
        ensures
            final(self)@.pending == pending_of(entries@, true) + old(self)@.pending,
            final(self)@.num_files == old(self)@.num_files,
            final(self)@.recursive == old(self)@.recursive,
    {
        self.push_reversed(entries, true);
    }

    /// Takes the entries of a directory whose listing broke off: the
    /// entries listed before the failure are visited next, in order, as
    /// paths found inside a directory; behind them, and before anything
    /// that was pending, stands the directory itself with the reason of
    /// the failure, whose visit ends the run.
    pub fn enter_partial(&mut self, directory: String, reason: String, entries: &Vec<String>)
        ensures
            final(self)@.pending == pending_of(entries@, true) + seq![
                broken_listing(directory@, reason@),
            ] + old(self)@.pending,
            final(self)@.num_files == old(self)@.num_files,
            final(self)@.recursive == old(self)@.recursive,
    {
        let ghost before = self@.pending;
        self.pending.push(Pending { path: directory, found: true, failure: Some(reason) });
        assert(self@.pending =~= seq![broken_listing(directory@, reason@)] + before);
        self.push_reversed(entries, true);
        assert(self@.pending =~= pending_of(entries@, true) + seq![
            broken_listing(directory@, reason@),
        ] + before);
    }
}

} // verus!
