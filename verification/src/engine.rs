//! The agent's decisions. The engine holds the fallback tree and the running
//! cycle; it says what to fetch or do next, and takes what came back.

use vstd::prelude::*;
use crate::descriptor::{descriptor_from, version_status, ResolveError, TargetJson, VersionStatus};
use crate::image::reference_of;
use crate::job::JobTree;
use crate::select::{Pick, Pixel, Progress};
use crate::session::{read_wait, wait_from};
use crate::traversal::{
    advanced, lemma_cycle_survives_resolution, settled, Outcome, Traversal, IDLE_SECONDS,
};

verus! {

/// What the engine waits for.
#[derive(Clone, Copy, Debug, PartialEq, Eq, Structural)]
pub enum Phase {
    /// Nothing: a cycle is over and the next has not begun.
    Resting,
    /// The descriptor document of the current node.
    Descriptor,
    /// The reference image that the fetched descriptor names.
    Image,
    /// A canvas snapshot.
    Board,
    /// The reply to a placement.
    Placement,
    /// Nothing any more: the protocol is incompatible.
    Stopped,
}

/// What the caller is to do next.
#[derive(Clone, Copy, Debug, PartialEq, Eq, Structural)]
pub enum Action {
    /// Fetch the document that the node's reference names.
    FetchDescriptor(usize),
    /// Fetch the image that the pending descriptor names.
    FetchImage(usize),
    /// Fetch a canvas snapshot.
    FetchBoard(usize),
    /// Acquire a session and place this pixel.
    Place(Pixel),
    /// Sleep for so many seconds, then start the next cycle.
    Sleep(u64),
    /// End the process.
    Stop,
}

/// The fallback tree, the running cycle and what the engine waits for.
pub struct Engine {
    pub tree: JobTree,
    pub cycle: Traversal,
    pub phase: Phase,
    /// The descriptor whose image is awaited.
    pub pending: Option<TargetJson>,
    /// The counts of the last survey.
    pub progress: Option<Progress>,
    /// The descriptor read last has a newer minor version than supported;
    /// false where the document read last gave no descriptor.
    pub advisory: bool,
}

impl Engine {
    /// The tree and the cycle are consistent, and while an attempt is under
    /// way the cycle has a current node.
    pub open spec fn wf(&self) -> bool {
        &&& self.tree.wf()
        &&& self.cycle.wf(&self.tree)
        &&& match self.phase {
            Phase::Resting | Phase::Stopped => true,
            Phase::Image => self.cycle.current.is_some() && self.pending.is_some(),
            _ => self.cycle.current.is_some(),
        }
    }

    /// The engine waits for what `action` asks for, and an action that names
    /// a node names the current one.
    pub open spec fn awaits(&self, action: Action) -> bool {
        match action {
            Action::FetchDescriptor(node) => self.phase == Phase::Descriptor && self.cycle.current
                == Some(node),
            Action::FetchImage(node) => self.phase == Phase::Image && self.cycle.current == Some(
                node,
            ),
            Action::FetchBoard(node) => self.phase == Phase::Board && self.cycle.current == Some(
                node,
            ),
            Action::Place(_) => self.phase == Phase::Placement,
            Action::Sleep(_) => self.phase == Phase::Resting,
            Action::Stop => self.phase == Phase::Stopped,
        }
    }

    /// An attempt is under way.
    pub open spec fn is_busy(&self) -> bool {
        self.phase != Phase::Resting && self.phase != Phase::Stopped
    }

    /// `post` and `action` are what follows when the attempt of `self` ends
    /// with `outcome`: the cycle is settled and advanced; where it yields a
    /// node, that node's descriptor is asked for; where it yields none, the
    /// engine rests for the waiting time `wait` after a placement and for
    /// the idle interval otherwise.
    pub open spec fn concludes(
        &self,
        post: &Engine,
        outcome: Outcome,
        wait: u64,
        action: Action,
    ) -> bool {
        &&& post.cycle.state() == advanced(
            settled(self.cycle.state(), &self.tree, outcome),
            &self.tree,
        )
        &&& match post.cycle.current {
            Some(node) => action == Action::FetchDescriptor(node) && post.phase
                == Phase::Descriptor,
            None => post.phase == Phase::Resting && action == Action::Sleep(
                if outcome == Outcome::Placed {
                    wait
                } else {
                    IDLE_SECONDS
                },
            ),
        }
    }

    /// An engine at rest over a tree of one blank node named `url`.
    pub fn new(url: String) -> (engine: Engine)
        ensures
            engine.wf(),
            engine.phase == Phase::Resting,
            engine.tree.jobs@.len() == 1,
            engine.tree.jobs@[0].is_blank(url@),
            engine.pending.is_none(),
            engine.progress.is_none(),
            !engine.advisory,
    {
        let tree = JobTree::new(url);
        let cycle = Traversal::begin(&tree);
        Engine {
            tree,
            cycle,
            phase: Phase::Resting,
            pending: None,
            progress: None,
            advisory: false,
        }
    }

    /// Begins a cycle at the root and asks for its descriptor.
    pub fn start(&mut self) -> (action: Action)
        requires
            old(self).wf(),
            old(self).phase == Phase::Resting,
        ensures
            final(self).wf(),
            final(self).awaits(action),
            final(self).tree == old(self).tree,
            final(self).phase == Phase::Descriptor,
            action == Action::FetchDescriptor(0),
            final(self).cycle.current == Some(0usize),
            final(self).cycle.queue@.len() == 0,
            final(self).cycle.visited@ == seq![old(self).tree.key(0)],
            final(self).cycle.keys() == seq![old(self).tree.key(0)],
    {
        self.cycle = Traversal::begin(&self.tree);
        self.pending = None;
        let ghost begun = self.cycle.state();
        self.cycle.advance(&self.tree);
        assert(begun.queue[0] == 0);
        assert(self.cycle.queue@ =~= Seq::empty());
        assert(self.cycle.visited@ =~= seq![self.tree.key(0)]);
        assert(self.cycle.keys() =~= seq![self.tree.key(0)]) by {
            assert(begun.keys.len() == 0);
            assert(!begun.keys.contains(self.tree.key(0)));
        }
        self.phase = Phase::Descriptor;
        Action::FetchDescriptor(0)
    }

    fn conclude(&mut self, outcome: Outcome, wait: u64) -> (action: Action)
        requires
            old(self).tree.wf(),
            old(self).cycle.wf(&old(self).tree),
        ensures
            final(self).wf(),
            final(self).awaits(action),
            final(self).tree == old(self).tree,
            final(self).progress == old(self).progress,
            final(self).advisory == old(self).advisory,
            final(self).pending.is_none(),
            old(self).concludes(final(self), outcome, wait, action),
    {
        self.pending = None;
        self.cycle.settle(&self.tree, outcome);
        match self.cycle.advance(&self.tree) {
            Some(node) => {
                self.phase = Phase::Descriptor;
                Action::FetchDescriptor(node)
            },
            None => {
                self.phase = Phase::Resting;
                match outcome {
                    Outcome::Placed => Action::Sleep(wait),
                    _ => Action::Sleep(IDLE_SECONDS),
                }
            },
        }
    }

    /// Takes the descriptor document fetched for the current node. A newer
    /// major version stops the engine; any other error ends the attempt as
    /// failed; either clears the advisory. Otherwise the image is asked for where the descriptor differs
    /// from the one last resolved, and a canvas snapshot where it does not.
    pub fn on_descriptor(&mut self, body: &[u8]) -> (action: Action)
        requires
            old(self).wf(),
            old(self).phase == Phase::Descriptor,
        ensures
            final(self).wf(),
            final(self).awaits(action),
            final(self).tree == old(self).tree,
            final(self).progress == old(self).progress,
            match descriptor_from(body@) {
                Err(ResolveError::VersionIncompatible) => {
                    &&& action == Action::Stop
                    &&& final(self).phase == Phase::Stopped
                    &&& final(self).cycle.state() == old(self).cycle.state()
                    &&& !final(self).advisory
                },
                Err(ResolveError::Format) => {
                    &&& old(self).concludes(final(self), Outcome::Failed, 0, action)
                    &&& !final(self).advisory
                },
                Ok(d) => {
                    let node = old(self).cycle.current.unwrap();
                    &&& final(self).cycle.state() == old(self).cycle.state()
                    &&& final(self).advisory == (version_status(d.major_version, d.minor_version)
                        == VersionStatus::MinorAhead)
                    &&& if old(self).tree.jobs@[node as int].stale(d) {
                        &&& action == Action::FetchImage(node)
                        &&& final(self).phase == Phase::Image
                        &&& final(self).pending matches Some(p) && p@ == d
                    } else {
                        &&& action == Action::FetchBoard(node)
                        &&& final(self).phase == Phase::Board
                    }
                },
            },
    {
        let node = match self.cycle.current {
            Some(node) => node,
            None => {
                return self.conclude(Outcome::Failed, 0);
            },
        };
        match self.tree.examine(node, body) {
            Ok(fetched) => {
                self.advisory = fetched.advisory;
                if fetched.stale {
                    self.pending = Some(fetched.descriptor);
                    self.phase = Phase::Image;
                    Action::FetchImage(node)
                } else {
                    self.phase = Phase::Board;
                    Action::FetchBoard(node)
                }
            },
            Err(e) => {
                self.advisory = false;
                if e.is_fatal() {
                    self.phase = Phase::Stopped;
                    Action::Stop
                } else {
                    self.conclude(Outcome::Failed, 0)
                }
            },
        }
    }

    /// Takes the reference image fetched for the pending descriptor and
    /// resolves the current node to both. An image that cannot be used ends
    /// the attempt as failed and leaves the tree as it was.
    pub fn on_image(&mut self, png: &[u8]) -> (action: Action)
        requires
            old(self).wf(),
            old(self).phase == Phase::Image,
        ensures
            final(self).wf(),
            final(self).awaits(action),
            final(self).progress == old(self).progress,
            final(self).advisory == old(self).advisory,
            final(self).pending.is_none(),
            ({
                let node = old(self).cycle.current.unwrap();
                let usable = match reference_of(png@) {
                    Some(raster) => raster.is_usable(),
                    None => false,
                };
                if usable {
                    &&& old(self).tree.resolved_to(
                        &final(self).tree,
                        node as int,
                        old(self).pending.unwrap()@,
                        reference_of(png@).unwrap(),
                    )
                    &&& final(self).cycle.state() == old(self).cycle.state()
                    &&& action == Action::FetchBoard(node)
                    &&& final(self).phase == Phase::Board
                } else {
                    &&& final(self).tree == old(self).tree
                    &&& old(self).concludes(final(self), Outcome::Failed, 0, action)
                }
            }),
    {
        let node = match self.cycle.current {
            Some(node) => node,
            None => {
                return self.conclude(Outcome::Failed, 0);
            },
        };
        let fetched = match self.pending.take() {
            Some(fetched) => fetched,
            None => {
                return self.conclude(Outcome::Failed, 0);
            },
        };
        let ghost before = self.tree;
        let ghost wanted = fetched@;
        match self.tree.install(node, fetched, png) {
            Ok(()) => {
                proof {
                    lemma_cycle_survives_resolution(
                        &self.cycle,
                        &before,
                        &self.tree,
                        node as int,
                        wanted,
                        reference_of(png@).unwrap(),
                    );
                }
                self.phase = Phase::Board;
                Action::FetchBoard(node)
            },
            Err(_) => self.conclude(Outcome::Failed, 0),
        }
    }

    /// Takes a canvas snapshot and selects on the current node's target. A
    /// pick is handed out for placement; an exhausted target ends the
    /// attempt as exhausted; a target that does not fit the canvas ends it
    /// as failed.
    pub fn on_board(&mut self, board: &[u8]) -> (action: Action)
        requires
            old(self).wf(),
            old(self).phase == Phase::Board,
        ensures
            final(self).wf(),
            final(self).awaits(action),
            final(self).tree == old(self).tree,
            final(self).advisory == old(self).advisory,
            ({
                let node = old(self).cycle.current.unwrap();
                let s = old(self).tree.jobs@[node as int].scene(board@);
                if !s.fits() {
                    &&& final(self).progress.is_none()
                    &&& old(self).concludes(final(self), Outcome::Failed, 0, action)
                } else if s.mismatch_count() == 0 {
                    &&& final(self).progress == Some(s.progress())
                    &&& old(self).concludes(final(self), Outcome::Exhausted, 0, action)
                } else {
                    &&& final(self).progress == Some(s.progress())
                    &&& final(self).cycle.state() == old(self).cycle.state()
                    &&& final(self).phase == Phase::Placement
                    &&& action matches Action::Place(p) && exists|k: int|
                        0 <= k < s.mismatch_count() && #[trigger] s.has_rank(s.nth_mismatch(k), k)
                            && p == s.pixel_at(s.nth_mismatch(k))
                }
            }),
    {
        let node = match self.cycle.current {
            Some(node) => node,
            None => {
                return self.conclude(Outcome::Failed, 0);
            },
        };
        match self.tree.job(node).select(board) {
            Some(selection) => {
                self.progress = Some(selection.progress);
                match selection.pick {
                    Pick::Paint(pixel) => {
                        self.phase = Phase::Placement;
                        Action::Place(pixel)
                    },
                    Pick::Exhausted => self.conclude(Outcome::Exhausted, 0),
                }
            },
            None => {
                self.progress = None;
                self.conclude(Outcome::Failed, 0)
            },
        }
    }

    /// Takes the reply to a placement. A reply that names a waiting time
    /// ends the attempt as placed, and the engine rests for that time; any
    /// other reply ends it as failed.
    pub fn on_placed(&mut self, reply: &[u8]) -> (action: Action)
        requires
            old(self).wf(),
            old(self).phase == Phase::Placement,
        ensures
            final(self).wf(),
            final(self).awaits(action),
            final(self).tree == old(self).tree,
            final(self).progress == old(self).progress,
            match wait_from(reply@) {
                Ok(wait) => old(self).concludes(final(self), Outcome::Placed, wait, action),
                Err(_) => old(self).concludes(final(self), Outcome::Failed, 0, action),
            },
    {
        match read_wait(reply) {
            Ok(wait) => self.conclude(Outcome::Placed, wait),
            Err(_) => self.conclude(Outcome::Failed, 0),
        }
    }

    /// Takes the news that what was asked for could not be done: a fetch, a
    /// login or a placement failed. The attempt ends as failed; the tree
    /// stays as it was.
    pub fn on_failure(&mut self) -> (action: Action)
        requires
            old(self).wf(),
            old(self).is_busy(),
        ensures
            final(self).wf(),
            final(self).awaits(action),
            final(self).tree == old(self).tree,
            final(self).progress == old(self).progress,
            old(self).concludes(final(self), Outcome::Failed, 0, action),
            final(self).phase == Phase::Resting,
            action == Action::Sleep(IDLE_SECONDS),
            final(self).cycle.queue@.len() == 0,
    {
        self.conclude(Outcome::Failed, 0)
    }
}

} // verus!
