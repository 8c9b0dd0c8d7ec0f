//! Traversal nodes: a target, the reference it was named by, and its
//! fallbacks, held in an arena and addressed by position.

use vstd::prelude::*;
use crate::canvas::{CANVAS_HEIGHT, CANVAS_WIDTH, ROW_STRIDE};
use crate::descriptor::{
    blank_descriptor, check_version, descriptor_from, get_target_json, version_status, Descriptor,
    ResolveError, TargetJson, VersionStatus,
};
use crate::image::{read_reference, reference_of, Raster};
use crate::select::{pick_random_pixel, Pick, Scene, Selection};

verus! {

/// One node: the reference that names it, the descriptor last resolved for
/// it, the quantized image, and the positions of its fallback nodes.
#[derive(Debug)]
pub struct Job {
    pub url: String,
    pub target: TargetJson,
    pub width: u32,
    pub height: u32,
    pub target_image: Vec<u8>,
    pub fallbacks: Vec<usize>,
}

/// The nodes of one run. The root stands at position 0; fallback nodes are
/// added behind it as their parents are resolved.
#[derive(Debug)]
pub struct JobTree {
    pub jobs: Vec<Job>,
}

/// A descriptor as fetched for a node, with what follows from it.
#[derive(Debug)]
pub struct Fetched {
    /// The descriptor that was read.
    pub descriptor: TargetJson,
    /// It differs from the one last resolved: the image has to be read.
    pub stale: bool,
    /// Its minor version is newer than the supported one.
    pub advisory: bool,
}

impl Job {
    /// The node is named `url` and nothing was resolved for it yet.
    pub open spec fn is_blank(&self, url: Seq<char>) -> bool {
        &&& self.url@ == url
        &&& self.target@ == blank_descriptor()
        &&& self.width == 0
        &&& self.height == 0
        &&& self.target_image@.len() == 0
        &&& self.fallbacks@.len() == 0
    }

    /// The node's target laid over a canvas snapshot.
    pub open spec fn scene(&self, board: Seq<u8>) -> Scene {
        Scene {
            board,
            x: self.target.x as int,
            y: self.target.y as int,
            width: self.width as int,
            height: self.height as int,
            image: self.target_image@,
        }
    }

    /// The descriptor `fetched` differs from the one last resolved.
    pub open spec fn stale(&self, fetched: Descriptor) -> bool {
        self.target@ != fetched
    }

    /// A node for the reference `url`, with nothing resolved.
    pub fn new(url: String) -> (job: Job)
        ensures
            job.is_blank(url@),
    {
        Job {
            url,
            target: TargetJson::blank(),
            width: 0,
            height: 0,
            target_image: Vec::new(),
            fallbacks: Vec::new(),
        }
    }

    /// Tells whether `fetched` differs from the descriptor last resolved, so
    /// that the reference image has to be read again.
    pub fn is_stale(&self, fetched: &TargetJson) -> (stale: bool)
        ensures
            stale == self.stale(fetched@),
    {
        self.target != *fetched
    }

    /// Tells whether the target lies within the canvas and `board` holds
    /// every row that it touches.
    pub fn fits(&self, board: &[u8]) -> (ok: bool)
        ensures
            ok == self.scene(board@).fits(),
    {
        let w = self.width as u64;
        let h = self.height as u64;
        let x = self.target.x;
        let y = self.target.y;
        if x > CANVAS_WIDTH as u64 || y > CANVAS_HEIGHT as u64 || x + w > CANVAS_WIDTH as u64 || y
            + h > CANVAS_HEIGHT as u64 {
            return false;
        }
        assert(w * h == self.width * self.height && w * h <= 1000000) by (nonlinear_arith)
            requires
                w == self.width,
                h == self.height,
                0 <= w <= 1000,
                0 <= h <= 1000,
        ;
        let rows: u64 = y + h;
        let stride: u64 = ROW_STRIDE as u64;
        assert(rows * stride == rows * 500 && rows * 500 <= 500000) by (nonlinear_arith)
            requires
                stride == 500,
                0 <= rows <= 1000,
        ;
        rows * stride <= board.len() as u64 && self.target_image.len() as u64 == w * h
    }

    /// Selects the next pixel to paint on `board`, or `None` where the
    /// target does not fit the canvas.
    pub fn select(&self, board: &[u8]) -> (r: Option<Selection>)
        ensures
            r.is_some() == self.scene(board@).fits(),
            r matches Some(sel) ==> {
                let s = self.scene(board@);
                &&& sel.progress == s.progress()
                &&& sel.pick == Pick::Exhausted <==> s.mismatch_count() == 0
                &&& sel.pick matches Pick::Paint(p) ==> exists|k: int|
                    0 <= k < s.mismatch_count() && #[trigger] s.has_rank(s.nth_mismatch(k), k)
                        && p == s.pixel_at(s.nth_mismatch(k))
            },
    {
        if self.fits(board) {
            Some(
                pick_random_pixel(
                    board,
                    self.target.x as u32,
                    self.target.y as u32,
                    self.width,
                    self.height,
                    self.target_image.as_slice(),
                ),
            )
        } else {
            None
        }
    }
}

impl JobTree {
    /// The tree has a root, and every fallback position names a node.
    pub open spec fn wf(&self) -> bool {
        &&& self.jobs@.len() > 0
        &&& forall|n: int, k: int|
            0 <= n < self.jobs@.len() && 0 <= k < self.jobs@[n].fallbacks@.len()
                ==> #[trigger] self.jobs@[n].fallbacks@[k] < self.jobs@.len()
    }

    /// The identity of the node at `node`: the reference that names it.
    pub open spec fn key(&self, node: int) -> Seq<char> {
        self.jobs@[node].url@
    }

    /// `post` is `self` after the node at `node` was resolved to the
    /// descriptor `fetched` and the decoded image `raster`: the node holds
    /// the descriptor and the quantized image, its fallbacks are blank nodes
    /// added behind the old ones, one for each reference in order, and every
    /// other node is as it was.
    pub open spec fn resolved_to(
        &self,
        post: &JobTree,
        node: int,
        fetched: Descriptor,
        raster: Raster,
    ) -> bool {
        let before = self.jobs@;
        let after = post.jobs@;
        let job = after[node];
        &&& 0 <= node < before.len()
        &&& after.len() == before.len() + fetched.fallbacks.len()
        &&& job.url@ == before[node].url@
        &&& job.target@ == fetched
        &&& job.width == raster.width
        &&& job.height == raster.height
        &&& raster.quantizes_into(job.target_image@)
        &&& job.fallbacks@.len() == fetched.fallbacks.len()
        &&& forall|k: int|
            0 <= k < fetched.fallbacks.len() ==> {
                &&& #[trigger] job.fallbacks@[k] == before.len() + k
                &&& after[before.len() + k].is_blank(fetched.fallbacks[k])
            }
        &&& forall|n: int| 0 <= n < before.len() && n != node ==> #[trigger] after[n] == before[n]
    }

    /// A tree of one blank node, the root, named `url`.
    pub fn new(url: String) -> (tree: JobTree)
        ensures
            tree.wf(),
            tree.jobs@.len() == 1,
            tree.jobs@[0].is_blank(url@),
    {
        let mut jobs: Vec<Job> = Vec::new();
        jobs.push(Job::new(url));
        JobTree { jobs }
    }

    /// Number of nodes.
    pub fn len(&self) -> (n: usize)
        ensures
            n == self.jobs@.len(),
    {
        self.jobs.len()
    }

    /// The node at `node`.
    pub fn job(&self, node: usize) -> (job: &Job)
        requires
            node < self.jobs@.len(),
        ensures
            *job == self.jobs@[node as int],
    {
        &self.jobs[node]
    }

    /// Resolves the node at `node` to the descriptor `fetched` and the
    /// reference image in the PNG file `png`. The node is replaced as a
    /// whole; where the image cannot be used, nothing changes.
    pub fn install(&mut self, node: usize, fetched: TargetJson, png: &[u8]) -> (r: Result<
        (),
        ResolveError,
    >)
        requires
            old(self).wf(),
            node < old(self).jobs@.len(),
        ensures
            final(self).wf(),
            match r {
                Ok(()) => match reference_of(png@) {
                    Some(raster) => raster.is_usable() && old(self).resolved_to(
                        final(self),
                        node as int,
                        fetched@,
                        raster,
                    ),
                    None => false,
                },
                Err(e) => {
                    &&& e == ResolveError::Format
                    &&& *final(self) == *old(self)
                    &&& match reference_of(png@) {
                        Some(raster) => !raster.is_usable(),
                        None => true,
                    }
                },
            },
    {
        let (width, height, image) = match read_reference(png) {
            Ok(t) => t,
            Err(e) => {
                return Err(e);
            },
        };
        let base = self.jobs.len();
        let mut kids: Vec<usize> = Vec::new();
        let mut k: usize = 0;
        while k < fetched.fallbacks.len()
            invariant
                0 <= k <= fetched.fallbacks.len(),
                base == old(self).jobs@.len(),
                node < base,
                self.jobs@.len() == base + k,
                kids@.len() == k,
                forall|j: int| 0 <= j < k ==> #[trigger] kids@[j] == base + j,
                forall|j: int| 0 <= j < base ==> #[trigger] self.jobs@[j] == old(self).jobs@[j],
                forall|j: int|
                    0 <= j < k ==> (#[trigger] self.jobs@[base + j]).is_blank(
                        fetched.fallbacks@[j]@,
                    ),
            decreases fetched.fallbacks.len() - k,
        {
            kids.push(self.jobs.len());
            self.jobs.push(Job::new(fetched.fallbacks[k].clone()));
            k += 1;
        }
        let url = self.jobs[node].url.clone();
        let ghost wanted = fetched@;
        self.jobs.set(
            node,
            Job { url, target: fetched, width, height, target_image: image, fallbacks: kids },
        );
        proof {
            let raster = reference_of(png@).unwrap();
            assert forall|j: int| 0 <= j < wanted.fallbacks.len() implies {
                &&& #[trigger] self.jobs@[node as int].fallbacks@[j] == base + j
                &&& self.jobs@[base + j].is_blank(wanted.fallbacks[j])
            } by {
                assert(self.jobs@[base + j].is_blank(wanted.fallbacks[j]));
            }
            assert(old(self).resolved_to(self, node as int, wanted, raster));
            assert forall|n: int, j: int|
                0 <= n < self.jobs@.len() && 0 <= j < self.jobs@[n].fallbacks@.len() implies
                #[trigger] self.jobs@[n].fallbacks@[j] < self.jobs@.len() by {
                if n >= base {
                    assert(self.jobs@[base + (n - base)].is_blank(wanted.fallbacks[n - base]));
                } else if n != node {
                    assert(self.jobs@[n] == old(self).jobs@[n]);
                }
            }
        }
        Ok(())
    }

    /// Reads the descriptor document fetched for the node at `node`, applies
    /// the version gate, and tells whether the node has to be resolved again.
    pub fn examine(&self, node: usize, body: &[u8]) -> (r: Result<Fetched, ResolveError>)
        requires
            node < self.jobs@.len(),
        ensures
            match r {
                Ok(f) => {
                    &&& descriptor_from(body@) == Ok::<Descriptor, ResolveError>(f.descriptor@)
                    &&& f.stale == self.jobs@[node as int].stale(f.descriptor@)
                    &&& f.advisory == (version_status(
                        f.descriptor.major_version,
                        f.descriptor.minor_version,
                    ) == VersionStatus::MinorAhead)
                },
                Err(e) => descriptor_from(body@) == Err::<Descriptor, ResolveError>(e),
            },
    {
        match get_target_json(body) {
            Ok(descriptor) => {
                let stale = self.jobs[node].is_stale(&descriptor);
                let advisory = match check_version(
                    descriptor.major_version,
                    descriptor.minor_version,
                ) {
                    VersionStatus::MinorAhead => true,
                    _ => false,
                };
                Ok(Fetched { descriptor, stale, advisory })
            },
            Err(e) => Err(e),
        }
    }

    /// Tells whether the node at `node` has to be resolved again for
    /// `fetched`.
    pub fn is_stale(&self, node: usize, fetched: &TargetJson) -> (stale: bool)
        requires
            node < self.jobs@.len(),
        ensures
            stale == self.jobs@[node as int].stale(fetched@),
    {
        self.jobs[node].is_stale(fetched)
    }
}

/// Resolving a node to a descriptor leaves it fresh for that descriptor: a
/// second resolution of the same unchanged descriptor needs no image.
pub proof fn lemma_resolution_is_idempotent(
    before: &JobTree,
    after: &JobTree,
    node: int,
    fetched: Descriptor,
    raster: Raster,
)
    requires
        before.resolved_to(after, node, fetched, raster),
    ensures
        !after.jobs@[node].stale(fetched),
{
}

/// Resolving a node keeps the identity of every node that was there.
pub proof fn lemma_resolution_keeps_keys(
    before: &JobTree,
    after: &JobTree,
    node: int,
    fetched: Descriptor,
    raster: Raster,
    n: int,
)
    requires
        before.resolved_to(after, node, fetched, raster),
        0 <= n < before.jobs@.len(),
    ensures
        after.key(n) == before.key(n),
        after.jobs@.len() >= before.jobs@.len(),
{
    if n != node {
        assert(after.jobs@[n] == before.jobs@[n]);
    }
}

} // verus!
