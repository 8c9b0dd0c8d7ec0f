//! One traversal cycle over the fallback tree: breadth first from the root,
//! each identity visited at most once.

use vstd::prelude::*;
use std::collections::VecDeque;
use crate::descriptor::{texts, Descriptor};
use crate::image::Raster;
use crate::job::{lemma_resolution_keeps_keys, JobTree};

verus! {

/// Seconds to rest after a cycle that placed no pixel.
pub const IDLE_SECONDS: u64 = 10;

/// How the attempt on the current node ended.
#[derive(Clone, Copy, Debug, PartialEq, Eq, Structural)]
pub enum Outcome {
    /// A pixel was placed.
    Placed,
    /// The node's target has nothing left to paint.
    Exhausted,
    /// Resolution, selection or placement failed.
    Failed,
}

/// The state of one cycle: the nodes still to try, front first; the
/// identities that were queued or visited, each listed once; the node under
/// work; and the identities visited so far, in order.
pub struct Traversal {
    pub queue: VecDeque<usize>,
    pub seen: Vec<String>,
    pub current: Option<usize>,
    pub visited: Ghost<Seq<Seq<char>>>,
}

/// The queue and the seen identities after `node`, named `key`, was offered:
/// it joins the back of the queue unless its identity was seen.
pub open spec fn offer(
    queue: Seq<usize>,
    seen: Seq<Seq<char>>,
    node: usize,
    key: Seq<char>,
) -> (Seq<usize>, Seq<Seq<char>>) {
    if seen.contains(key) {
        (queue, seen)
    } else {
        (queue.push(node), seen.push(key))
    }
}

/// The queue and the seen identities after the first `n` of `kids` were
/// offered in order.
pub open spec fn expand(
    queue: Seq<usize>,
    seen: Seq<Seq<char>>,
    tree: &JobTree,
    kids: Seq<usize>,
    n: int,
) -> (Seq<usize>, Seq<Seq<char>>)
    decreases n,
{
    if n <= 0 {
        (queue, seen)
    } else {
        let (q, s) = expand(queue, seen, tree, kids, n - 1);
        offer(q, s, kids[n - 1], tree.key(kids[n - 1] as int))
    }
}

/// The seen identities after `key` was marked.
pub open spec fn mark(seen: Seq<Seq<char>>, key: Seq<char>) -> Seq<Seq<char>> {
    if seen.contains(key) {
        seen
    } else {
        seen.push(key)
    }
}

/// What a cycle holds, as plain values.
pub struct CycleState {
    /// The nodes still to try, front first.
    pub queue: Seq<usize>,
    /// The identities that were queued or visited.
    pub keys: Seq<Seq<char>>,
    /// The node under work.
    pub current: Option<usize>,
    /// The identities visited so far, in order.
    pub visited: Seq<Seq<char>>,
}

/// The cycle after the front of the queue was taken as the node to work on.
pub open spec fn advanced(c: CycleState, tree: &JobTree) -> CycleState {
    if c.queue.len() == 0 {
        CycleState { current: None, ..c }
    } else {
        let node = c.queue[0];
        CycleState {
            queue: c.queue.remove(0),
            keys: mark(c.keys, tree.key(node as int)),
            current: Some(node),
            visited: c.visited.push(tree.key(node as int)),
        }
    }
}

/// The cycle after the work on the current node ended with `outcome`.
pub open spec fn settled(c: CycleState, tree: &JobTree, outcome: Outcome) -> CycleState {
    match (c.current, outcome) {
        (Some(node), Outcome::Exhausted) => {
            let kids = tree.jobs@[node as int].fallbacks@;
            let (queue, keys) = expand(c.queue, c.keys, tree, kids, kids.len() as int);
            CycleState { queue, keys, current: None, visited: c.visited }
        },
        _ => CycleState { queue: Seq::empty(), keys: c.keys, current: None, visited: c.visited },
    }
}

impl Traversal {
    /// The cycle as plain values.
    pub open spec fn state(&self) -> CycleState {
        CycleState {
            queue: self.queue@,
            keys: self.keys(),
            current: self.current,
            visited: self.visited@,
        }
    }

    /// The identities that were queued or visited in this cycle.
    pub open spec fn keys(&self) -> Seq<Seq<char>> {
        texts(self.seen@)
    }

    /// The cycle is consistent with `tree`: the queue names nodes of the
    /// tree; no two queued nodes share an identity; no identity was visited
    /// twice; the seen identities form a set, none of them listed twice;
    /// what was visited is seen and not queued again; and once the cycle is
    /// under way, what is queued is seen.
    pub open spec fn wf(&self, tree: &JobTree) -> bool {
        let queue = self.queue@;
        let keys = self.keys();
        let visited = self.visited@;
        &&& forall|i: int| 0 <= i < queue.len() ==> #[trigger] queue[i] < tree.jobs@.len()
        &&& forall|i: int, j: int|
            #![trigger queue[i], queue[j]]
            0 <= i < j < queue.len() ==> tree.key(queue[i] as int) != tree.key(queue[j] as int)
        &&& forall|i: int, j: int|
            #![trigger visited[i], visited[j]]
            0 <= i < j < visited.len() ==> visited[i] != visited[j]
        &&& forall|i: int, j: int|
            #![trigger keys[i], keys[j]]
            0 <= i < j < keys.len() ==> keys[i] != keys[j]
        &&& forall|i: int| 0 <= i < visited.len() ==> keys.contains(#[trigger] visited[i])
        &&& forall|i: int|
            0 <= i < queue.len() ==> !visited.contains(tree.key(#[trigger] queue[i] as int))
        &&& keys.len() == 0 ==> queue.len() <= 1 && self.current.is_none()
        &&& keys.len() > 0 ==> forall|i: int|
            0 <= i < queue.len() ==> keys.contains(tree.key(#[trigger] queue[i] as int))
        &&& self.current matches Some(n) ==> n < tree.jobs@.len()
    }

    /// Starts a cycle: the root alone is queued, nothing is seen.
    pub fn begin(tree: &JobTree) -> (t: Traversal)
        requires
            tree.wf(),
        ensures
            t.wf(tree),
            t.queue@ == seq![0usize],
            t.seen@.len() == 0,
            t.visited@.len() == 0,
            t.current.is_none(),
    {
        let mut queue: VecDeque<usize> = VecDeque::new();
        queue.push_back(0);
        let t = Traversal { queue, seen: Vec::new(), current: None, visited: Ghost(Seq::empty()) };
        assert(t.queue@ =~= seq![0usize]);
        assert(t.keys().len() == 0);
        t
    }

    /// Tells whether nothing is left to try in this cycle.
    pub fn is_idle(&self) -> (idle: bool)
        ensures
            idle == (self.queue@.len() == 0),
    {
        self.queue.len() == 0
    }

    /// Takes the front of the queue as the node to work on and marks its
    /// identity as seen and visited. Returns `None` where the queue is
    /// empty.
    pub fn advance(&mut self, tree: &JobTree) -> (r: Option<usize>)
        requires
            old(self).wf(tree),
        ensures
            final(self).wf(tree),
            final(self).current == r,
            final(self).state() == advanced(old(self).state(), tree),
            old(self).queue@.len() == 0 ==> final(self).seen@ == old(self).seen@,
    {
        let node = match self.queue.pop_front() {
            Some(node) => node,
            None => {
                self.current = None;
                return None;
            },
        };
        assert(self.queue@ =~= old(self).queue@.remove(0));
        let key = tree.jobs[node].url.clone();
        let ghost before = self.keys();
        assert(!old(self).visited@.contains(key@)) by {
            assert(old(self).queue@[0] == node);
        }
        if !holds(&self.seen, &key) {
            proof {
                lemma_texts_push(self.seen@, key);
            }
            self.seen.push(key);
        }
        assert(self.keys() == mark(before, tree.key(node as int)));
        self.visited = Ghost(self.visited@.push(tree.key(node as int)));
        self.current = Some(node);
        proof {
            let queue = self.queue@;
            let keys = self.keys();
            assert(keys.contains(tree.key(node as int))) by {
                if !before.contains(tree.key(node as int)) {
                    assert(keys[keys.len() - 1] == tree.key(node as int));
                }
            }
            assert forall|k: Seq<char>| before.contains(k) implies keys.contains(k) by {
                let i = choose|i: int| 0 <= i < before.len() && before[i] == k;
                assert(keys[i] == k);
            }
            assert forall|i: int| 0 <= i < queue.len() implies {
                &&& #[trigger] queue[i] == old(self).queue@[i + 1]
            } by {}
            assert forall|i: int| 0 <= i < queue.len() implies !self.visited@.contains(
                tree.key(#[trigger] queue[i] as int),
            ) by {
                assert(queue[i] == old(self).queue@[i + 1]);
                assert(old(self).queue@[0] == node);
                assert(!old(self).visited@.contains(tree.key(queue[i] as int)));
            }
            assert forall|i: int| 0 <= i < queue.len() implies keys.contains(
                tree.key(#[trigger] queue[i] as int),
            ) by {
                assert(queue[i] == old(self).queue@[i + 1]);
                assert(before.contains(tree.key(queue[i] as int)));
            }
            assert forall|i: int| 0 <= i < self.visited@.len() implies keys.contains(
                #[trigger] self.visited@[i],
            ) by {
                if i < old(self).visited@.len() {
                    assert(self.visited@[i] == old(self).visited@[i]);
                    assert(before.contains(old(self).visited@[i]));
                }
            }
        }
        Some(node)
    }

    /// Ends the work on the current node. After `Exhausted` the node's
    /// fallbacks are offered in order, and those whose identity was not seen
    /// join the back of the queue. After any other outcome the queue is
    /// emptied, which ends the cycle. Returns whether to rest before the next
    /// cycle: no pixel was placed and nothing is left to try.
    pub fn settle(&mut self, tree: &JobTree, outcome: Outcome) -> (rest: bool)
        requires
            old(self).wf(tree),
            tree.wf(),
        ensures
            final(self).wf(tree),
            final(self).state() == settled(old(self).state(), tree, outcome),
            !(old(self).current.is_some() && outcome == Outcome::Exhausted) ==> final(self).seen@
                == old(self).seen@,
            rest == (outcome != Outcome::Placed && final(self).queue@.len() == 0),
    {
        let current = self.current;
        self.current = None;
        match (current, outcome) {
            (Some(node), Outcome::Exhausted) => {
                let mut i: usize = 0;
                while i < tree.jobs[node].fallbacks.len()
                    invariant
                        tree.wf(),
                        node < tree.jobs@.len(),
                        0 <= i <= tree.jobs@[node as int].fallbacks@.len(),
                        self.wf(tree),
                        self.keys().len() > 0,
                        self.current.is_none(),
                        self.visited@ == old(self).visited@,
                        (self.queue@, self.keys()) == expand(
                            old(self).queue@,
                            old(self).keys(),
                            tree,
                            tree.jobs@[node as int].fallbacks@,
                            i as int,
                        ),
                    decreases tree.jobs@[node as int].fallbacks@.len() - i,
                {
                    let child = tree.jobs[node].fallbacks[i];
                    let key = tree.jobs[child].url.clone();
                    if !holds(&self.seen, &key) {
                        let ghost before = *self;
                        proof {
                            lemma_texts_push(self.seen@, key);
                        }
                        self.queue.push_back(child);
                        self.seen.push(key);
                        proof {
                            let queue = self.queue@;
                            let keys = self.keys();
                            let last = before.queue@.len() as int;
                            assert(keys[keys.len() - 1] == tree.key(child as int));
                            assert forall|k: Seq<char>| before.keys().contains(k) implies keys.contains(
                                k,
                            ) by {
                                let j = choose|j: int|
                                    0 <= j < before.keys().len() && before.keys()[j] == k;
                                assert(keys[j] == k);
                            }
                            assert forall|a: int| 0 <= a < queue.len() implies keys.contains(
                                tree.key(#[trigger] queue[a] as int),
                            ) by {
                                if a < last {
                                    assert(queue[a] == before.queue@[a]);
                                }
                            }
                            assert forall|a: int, b: int|
                                #![trigger queue[a], queue[b]]
                                0 <= a < b < queue.len() implies tree.key(queue[a] as int) != tree.key(
                                queue[b] as int,
                            ) by {
                                assert(queue[a] == before.queue@[a]);
                                if b < last {
                                    assert(queue[b] == before.queue@[b]);
                                } else {
                                    assert(before.keys().contains(tree.key(before.queue@[a] as int)));
                                }
                            }
                            assert forall|a: int| 0 <= a < queue.len() implies !self.visited@.contains(
                                tree.key(#[trigger] queue[a] as int),
                            ) by {
                                if a < last {
                                    assert(queue[a] == before.queue@[a]);
                                } else if self.visited@.contains(tree.key(child as int)) {
                                    let v = choose|v: int|
                                        0 <= v < self.visited@.len() && self.visited@[v] == tree.key(
                                            child as int,
                                        );
                                    assert(before.keys().contains(before.visited@[v]));
                                }
                            }
                            assert forall|v: int| 0 <= v < self.visited@.len() implies keys.contains(
                                #[trigger] self.visited@[v],
                            ) by {
                                assert(before.keys().contains(before.visited@[v]));
                            }
                        }
                    }
                    i += 1;
                }
            },
            _ => {
                self.queue.clear();
            },
        }
        match outcome {
            Outcome::Placed => false,
            _ => self.queue.len() == 0,
        }
    }
}

/// Tells whether `key` is among `seen`.
fn holds(seen: &Vec<String>, key: &String) -> (found: bool)
    ensures
        found == texts(seen@).contains(key@),
{
    let mut i: usize = 0;
    while i < seen.len()
        invariant
            0 <= i <= seen.len(),
            forall|j: int| 0 <= j < i ==> texts(seen@)[j] != key@,
        decreases seen.len() - i,
    {
        if seen[i] == *key {
            assert(texts(seen@)[i as int] == key@);
            return true;
        }
        i += 1;
    }
    false
}

proof fn lemma_texts_push(list: Seq<String>, s: String)
    ensures
        texts(list.push(s)) == texts(list).push(s@),
{
    assert(texts(list.push(s)) =~= texts(list).push(s@));
}

/// Offering fallbacks never queues an identity that was already seen: what
/// joins the queue stands behind what was there, and the seen identities
/// only grow.
pub proof fn lemma_expand_appends(
    queue: Seq<usize>,
    seen: Seq<Seq<char>>,
    tree: &JobTree,
    kids: Seq<usize>,
    n: int,
)
    requires
        0 <= n <= kids.len(),
    ensures
        ({
            let (q, s) = expand(queue, seen, tree, kids, n);
            &&& queue.len() <= q.len() <= queue.len() + n
            &&& q.subrange(0, queue.len() as int) == queue
            &&& seen.len() <= s.len()
            &&& s.subrange(0, seen.len() as int) == seen
            &&& forall|i: int|
                queue.len() <= i < q.len() ==> !seen.contains(tree.key(#[trigger] q[i] as int))
                    && kids.contains(q[i])
        }),
    decreases n,
{
    let (q, s) = expand(queue, seen, tree, kids, n);
    if n > 0 {
        lemma_expand_appends(queue, seen, tree, kids, n - 1);
        let (q0, s0) = expand(queue, seen, tree, kids, n - 1);
        let kid = kids[n - 1];
        let key = tree.key(kid as int);
        assert(q.subrange(0, queue.len() as int) =~= q0.subrange(0, queue.len() as int));
        assert(s.subrange(0, seen.len() as int) =~= s0.subrange(0, seen.len() as int));
        if !s0.contains(key) {
            assert forall|i: int| queue.len() <= i < q.len() implies !seen.contains(
                tree.key(#[trigger] q[i] as int),
            ) && kids.contains(q[i]) by {
                if i < q0.len() {
                    assert(q[i] == q0[i]);
                } else {
                    assert(q[i] == kid);
                    if seen.contains(key) {
                        let j = choose|j: int| 0 <= j < seen.len() && seen[j] == key;
                        assert(s0.subrange(0, seen.len() as int)[j] == s0[j]);
                    }
                }
            }
        }
    } else {
        assert(q.subrange(0, queue.len() as int) =~= queue);
        assert(s.subrange(0, seen.len() as int) =~= seen);
    }
}

/// A cycle stays consistent when a node of the tree is resolved in between:
/// resolution adds nodes and keeps every identity.
pub proof fn lemma_cycle_survives_resolution(
    cycle: &Traversal,
    before: &JobTree,
    after: &JobTree,
    node: int,
    fetched: Descriptor,
    raster: Raster,
)
    requires
        cycle.wf(before),
        before.resolved_to(after, node, fetched, raster),
    ensures
        cycle.wf(after),
{
    let queue = cycle.queue@;
    assert forall|i: int| 0 <= i < queue.len() implies after.key(#[trigger] queue[i] as int)
        == before.key(queue[i] as int) by {
        lemma_resolution_keeps_keys(before, after, node, fetched, raster, queue[i] as int);
    }
}

} // verus!
