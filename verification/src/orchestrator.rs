//! Draining the queue: what to do for each item, one item after another.
//!
//! The run asks its caller for one piece of outside work at a time and is
//! told whether that work succeeded. A failure ends the work on one item,
//! never the run.

use vstd::prelude::*;
use crate::queue::Layout;

verus! {

/// The seconds to wait after each item, so as not to strain the service.
pub const PACING_SECS: u64 = 10;

/// The work in flight for the item at the run's position.
#[derive(Clone, Copy, Debug, PartialEq, Eq, Structural)]
pub enum Phase {
    /// Making sure that the item's directory exists.
    Preparing,
    /// Fetching the item's metadata and stream.
    Acquiring,
    /// Writing the item out, or handing it to the helper.
    Delivering,
    /// Removing the item's directory if the failed delivery left it empty.
    Cleaning,
    /// Waiting before the next item.
    Pacing,
    /// Nothing: the queue is drained.
    Finished,
}

/// What the run asks its caller to do.
#[derive(Clone, Copy, Debug, PartialEq, Eq, Structural)]
pub enum Action {
    /// Create the directory of the queue entry at this position, if it is
    /// not there.
    EnsureDir(usize),
    /// Acquire the queue entry at this position.
    Acquire(usize),
    /// Deliver what was acquired for the queue entry at this position.
    Deliver(usize),
    /// Remove the directory of the queue entry at this position if it is
    /// empty.
    RemoveDirIfEmpty(usize),
    /// Wait for this many seconds.
    Sleep(u64),
    /// Stop: every entry has been dealt with.
    Finish,
}

/// A run as a mathematical value.
pub struct RunSpec {
    pub total: nat,
    pub layout: Layout,
    pub position: nat,
    pub phase: Phase,
}

/// A run at the start of the item at position `i`, or finished where no
/// such item is left.
pub open spec fn at_item(total: nat, layout: Layout, i: nat) -> RunSpec {
    RunSpec {
        total,
        layout,
        position: i,
        phase: if i < total {
            Phase::Preparing
        } else {
            Phase::Finished
        },
    }
}

/// The run after its caller reports whether the work in flight succeeded.
///
/// A directory that cannot be made and a failed acquisition each end the
/// work on the item. A failed delivery does so too, after the item's
/// directory has been looked at where the layout is grouped. Whatever became
/// of the item, the pacing wait follows, and then the next item. The reports
/// on cleaning and on waiting change nothing.
pub open spec fn after(run: RunSpec, ok: bool) -> RunSpec {
    let next = at_item(run.total, run.layout, run.position + 1);
    match run.phase {
        Phase::Preparing => if ok {
            RunSpec { phase: Phase::Acquiring, ..run }
        } else {
            RunSpec { phase: Phase::Pacing, ..run }
        },
        Phase::Acquiring => if ok {
            RunSpec { phase: Phase::Delivering, ..run }
        } else {
            RunSpec { phase: Phase::Pacing, ..run }
        },
        Phase::Delivering => if !ok && run.layout == Layout::Grouped {
            RunSpec { phase: Phase::Cleaning, ..run }
        } else {
            RunSpec { phase: Phase::Pacing, ..run }
        },
        Phase::Cleaning => RunSpec { phase: Phase::Pacing, ..run },
        Phase::Pacing => next,
        Phase::Finished => run,
    }
}

/// What a run asks its caller to do.
pub open spec fn request(run: RunSpec) -> Action {
    match run.phase {
        Phase::Preparing => Action::EnsureDir(run.position as usize),
        Phase::Acquiring => Action::Acquire(run.position as usize),
        Phase::Delivering => Action::Deliver(run.position as usize),
        Phase::Cleaning => Action::RemoveDirIfEmpty(run.position as usize),
        Phase::Pacing => Action::Sleep(PACING_SECS),
        Phase::Finished => Action::Finish,
    }
}

/// A run over a queue: the position of the item being dealt with and the
/// work in flight for it.
pub struct Run {
    total: usize,
    layout: Layout,
    position: usize,
    phase: Phase,
}

impl View for Run {
    type V = RunSpec;

    closed spec fn view(&self) -> RunSpec {
        RunSpec {
            total: self.total as nat,
            layout: self.layout,
            position: self.position as nat,
            phase: self.phase,
        }
    }
}

impl Run {
    #[verifier::type_invariant]
    spec fn well_formed(self) -> bool {
        self.position <= self.total && (self.phase == Phase::Finished <==> self.position
            == self.total)
    }

    /// A run over a queue of `total` entries, at its first entry.
    pub fn start(total: usize, layout: Layout) -> (run: Self)
        ensures
            run@ == at_item(total as nat, layout, 0),
    {
        Run {
            total,
            layout,
            position: 0,
            phase: if total > 0 {
                Phase::Preparing
            } else {
                Phase::Finished
            },
        }
    }

    /// What the run asks its caller to do now.
    pub fn request(&self) -> (r: Action)
        ensures
            r == request(self@),
    {
        match self.phase {
            Phase::Preparing => Action::EnsureDir(self.position),
            Phase::Acquiring => Action::Acquire(self.position),
            Phase::Delivering => Action::Deliver(self.position),
            Phase::Cleaning => Action::RemoveDirIfEmpty(self.position),
            Phase::Pacing => Action::Sleep(PACING_SECS),
            Phase::Finished => Action::Finish,
        }
    }

    /// Whether every entry has been dealt with.
    pub fn is_finished(&self) -> (r: bool)
        ensures
            r == (self@.phase == Phase::Finished),
            r == (self@.position == self@.total),
            self@.position <= self@.total,
    {
        proof {
            use_type_invariant(self);
        }
        self.phase == Phase::Finished
    }

    /// Takes the caller's report on the work in flight, and returns what to
    /// do next.
    pub fn advance(&mut self, ok: bool) -> (r: Action)
        ensures
            final(self)@ == after(old(self)@, ok),
            r == request(final(self)@),
    {
        proof {
            use_type_invariant(&*self);
        }
        let total = self.total;
        let layout = self.layout;
        let position = self.position;
        let moved = match self.phase {
            Phase::Pacing => true,
            _ => false,
        };
        let next = if moved {
            let i = position + 1;
            Run {
                total,
                layout,
                position: i,
                phase: if i < total {
                    Phase::Preparing
                } else {
                    Phase::Finished
                },
            }
        } else {
            let phase = match self.phase {
                Phase::Preparing => if ok {
                    Phase::Acquiring
                } else {
                    Phase::Pacing
                },
                Phase::Acquiring => if ok {
                    Phase::Delivering
                } else {
                    Phase::Pacing
                },
                Phase::Delivering => match (ok, layout) {
                    (false, Layout::Grouped) => Phase::Cleaning,
                    _ => Phase::Pacing,
                },
                Phase::Cleaning => Phase::Pacing,
                Phase::Pacing => Phase::Pacing,
                Phase::Finished => Phase::Finished,
            };
            Run { total, layout, position, phase }
        };
        *self = next;
        self.request()
    }
}

/// How the outside work on one item went.
pub struct Outcome {
    /// Whether the item's directory was there or could be made.
    pub dir_ok: bool,
    /// Whether the item could be acquired.
    pub acquired: bool,
    /// Whether the item could be delivered.
    pub delivered: bool,
}

/// The reports that the caller gives while one item is dealt with.
pub open spec fn reports(layout: Layout, o: Outcome) -> Seq<bool> {
    if !o.dir_ok {
        seq![false, true]
    } else if !o.acquired {
        seq![true, false, true]
    } else if o.delivered || layout == Layout::Flat {
        seq![true, true, o.delivered, true]
    } else {
        seq![true, true, false, true, true]
    }
}

/// The reports that the caller gives while a list of items is dealt with.
pub open spec fn all_reports(layout: Layout, outcomes: Seq<Outcome>) -> Seq<bool>
    decreases outcomes.len(),
{
    if outcomes.len() == 0 {
        Seq::empty()
    } else {
        all_reports(layout, outcomes.drop_last()) + reports(layout, outcomes.last())
    }
}

/// The run after a list of reports, first to last.
pub open spec fn after_all(run: RunSpec, oks: Seq<bool>) -> RunSpec
    decreases oks.len(),
{
    if oks.len() == 0 {
        run
    } else {
        after(after_all(run, oks.drop_last()), oks.last())
    }
}

proof fn lemma_after_all_concat(run: RunSpec, a: Seq<bool>, b: Seq<bool>)
    ensures
        after_all(run, a + b) == after_all(after_all(run, a), b),
    decreases b.len(),
{
    if b.len() == 0 {
        assert(a + b == a);
    } else {
        assert((a + b).drop_last() == a + b.drop_last());
        lemma_after_all_concat(run, a, b.drop_last());
    }
}

/// However the work on an item goes, the run moves on to the next item.
pub proof fn law_item_ends(total: nat, layout: Layout, i: nat, o: Outcome)
    requires
        i < total,
    ensures
        after_all(at_item(total, layout, i), reports(layout, o)) == at_item(total, layout, i + 1),
{
    let start = at_item(total, layout, i);
    let r = reports(layout, o);
    reveal_with_fuel(after_all, 6);
    if r.len() == 2 {
        assert(r.drop_last() == seq![false]);
        assert(r.drop_last().drop_last().len() == 0);
    } else if r.len() == 3 {
        assert(r.drop_last() == seq![true, false]);
        assert(r.drop_last().drop_last() == seq![true]);
        assert(r.drop_last().drop_last().drop_last().len() == 0);
    } else if r.len() == 4 {
        assert(r.drop_last() == seq![true, true, o.delivered]);
        assert(r.drop_last().drop_last() == seq![true, true]);
        assert(r.drop_last().drop_last().drop_last() == seq![true]);
        assert(r.drop_last().drop_last().drop_last().drop_last().len() == 0);
    } else {
        assert(r.drop_last() == seq![true, true, false, true]);
        assert(r.drop_last().drop_last() == seq![true, true, false]);
        assert(r.drop_last().drop_last().drop_last() == seq![true, true]);
        assert(r.drop_last().drop_last().drop_last().drop_last() == seq![true]);
        assert(r.drop_last().drop_last().drop_last().drop_last().drop_last().len() == 0);
    }
}

/// No failure ends the run: whatever happened to the items before it, each
/// item of the queue is reached, in queue order, and after the last one the
/// run is finished.
pub proof fn law_every_item_is_reached(layout: Layout, outcomes: Seq<Outcome>, k: int)
    requires
        0 <= k <= outcomes.len(),
    ensures
        after_all(
            at_item(outcomes.len(), layout, 0),
            all_reports(layout, outcomes.take(k)),
        ) == at_item(outcomes.len(), layout, k as nat),
    decreases k,
{
    let total = outcomes.len();
    let start = at_item(total, layout, 0);
    if k > 0 {
        let done = outcomes.take(k - 1);
        law_every_item_is_reached(layout, outcomes, k - 1);
        assert(outcomes.take(k).drop_last() == done);
        lemma_after_all_concat(
            start,
            all_reports(layout, done),
            reports(layout, outcomes.take(k).last()),
        );
        law_item_ends(total, layout, (k - 1) as nat, outcomes.take(k).last());
    }
}

} // verus!
