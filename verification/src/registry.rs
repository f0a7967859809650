//! Liveness tracker preventing duplicate feeds per node.
//!
//! The registry records which nodes currently have an open raw-event feed.
//! Insertion is first-wins: a second registration of the same node is a
//! no-op that reports failure, so that of two racing `start` calls exactly
//! one opens a feed.  (The surrounding application serializes calls with a
//! lock, so the registry itself is a plain sequential structure.)

use vstd::prelude::*;

verus! {

/// Tracks the set of nodes with a live raw-event feed, each at most once.
#[derive(Debug)]
pub struct StreamRegistry {
    nodes: Vec<String>,
}

impl StreamRegistry {
    /// The set of node identities with a live feed.
    pub closed spec fn view(&self) -> Set<Seq<char>> {
        self.nodes@.map_values(|s: String| s@).to_set()
    }

    /// Well-formedness: each registered node is held exactly once.
    /// `new` establishes it and every method preserves it.
    pub closed spec fn wf(self) -> bool {
        forall|i: int, j: int|
            0 <= i < j < self.nodes@.len() ==> self.nodes@[i]@ != self.nodes@[j]@
    }

    /// An empty registry: no feeds are live.
    pub fn new() -> (r: Self)
        ensures
            r.wf(),
            r@ == Set::<Seq<char>>::empty(),
    {
        let r = StreamRegistry { nodes: Vec::new() };
        proof {
            assert(r@ =~= Set::<Seq<char>>::empty());
        }
        r
    }

    /// How the registry contents change on `register`: the node is added,
    /// and the call reports success only if it was absent.
    pub open spec fn register_post(
        pre: Set<Seq<char>>,
        node: Seq<char>,
        post: Set<Seq<char>>,
        won: bool,
    ) -> bool {
        &&& post == pre.insert(node)
        &&& won == !pre.contains(node)
    }

    /// Atomically insert a node if absent; report `false` without any
    /// change if it is already present.
    pub fn register(&mut self, node: &String) -> (won: bool)
        requires
            old(self).wf(),
        ensures
            final(self).wf(),
            Self::register_post(old(self)@, node@, final(self)@, won),
    {
        if self.contains_node(node) {
            proof {
                assert(self@ =~= self@.insert(node@));
            }
            false
        } else {
            let ghost pre = self.nodes@;
            let ghost prev = self@;
            self.nodes.push(node.clone());
            proof {
                let views_pre = pre.map_values(|s: String| s@);
                let views_post = self.nodes@.map_values(|s: String| s@);
                assert(views_post =~= views_pre.push(node@));
                assert forall|x: Seq<char>| views_post.to_set().contains(x) implies prev.insert(
                    node@,
                ).contains(x) by {
                    let k = choose|k: int| 0 <= k < views_post.len() && views_post[k] == x;
                    if k < views_pre.len() {
                        assert(views_pre[k] == x);
                    }
                }
                assert forall|x: Seq<char>| prev.insert(node@).contains(x) implies views_post
                    .to_set().contains(x) by {
                    if x == node@ {
                        assert(views_post[views_pre.len() as int] == x);
                    } else {
                        let k = choose|k: int| 0 <= k < views_pre.len() && views_pre[k] == x;
                        assert(views_post[k] == x);
                    }
                }
                assert(self@ =~= prev.insert(node@));
                assert forall|i: int, j: int|
                    0 <= i < j < self.nodes@.len() implies self.nodes@[i]@ != self.nodes@[j]@ by {
                    if j == pre.len() {
                        assert(views_pre[i] == pre[i]@);
                        assert(!prev.contains(node@));
                    }
                }
            }
            true
        }
    }

    /// Idempotent removal: afterwards the node has no live feed.
    pub fn deregister(&mut self, node: &String)
        requires
            old(self).wf(),
        ensures
            final(self).wf(),
            final(self)@ == old(self)@.remove(node@),
    {
        let ghost pre = self.nodes@;
        let n: usize = self.nodes.len();
        let mut i: usize = 0;
        while i < n
            invariant
                n == self.nodes@.len(),
                0 <= i <= n,
                self.nodes@ == pre,
                old(self).nodes@ == pre,
                self.wf(),
                forall|j: int| 0 <= j < i ==> pre[j]@ != node@,
            decreases n - i,
        {
            if self.node_eq(i, node) {
                self.nodes.remove(i);
                proof {
                    self.lemma_removed_view(pre, i as int, node@);
                }
                return ;
            }
            i = i + 1;
        }
        proof {
            let views = pre.map_values(|s: String| s@);
            assert(!self@.contains(node@)) by {
                if self@.contains(node@) {
                    let k = choose|k: int| 0 <= k < views.len() && views[k] == node@;
                    assert(pre[k]@ == node@);
                }
            }
            assert(self@ =~= self@.remove(node@));
        }
    }

    /// Whether a feed is currently live for the node.
    pub fn contains_node(&self, node: &String) -> (r: bool)
        ensures
            r == self@.contains(node@),
    {
        let n: usize = self.nodes.len();
        let mut i: usize = 0;
        while i < n
            invariant
                n == self.nodes@.len(),
                0 <= i <= n,
                forall|j: int| 0 <= j < i ==> self.nodes@[j]@ != node@,
            decreases n - i,
        {
            if self.node_eq(i, node) {
                proof {
                    let views = self.nodes@.map_values(|s: String| s@);
                    assert(views[i as int] == node@);
                }
                return true;
            }
            i = i + 1;
        }
        proof {
            let views = self.nodes@.map_values(|s: String| s@);
            if self@.contains(node@) {
                let k = choose|k: int| 0 <= k < views.len() && views[k] == node@;
                assert(self.nodes@[k]@ == node@);
            }
        }
        false
    }

    /// The registered nodes, one entry per live feed.
    pub fn active_nodes(&self) -> (r: Vec<String>)
        requires
            self.wf(),
        ensures
            r@.map_values(|s: String| s@).to_set() == self@,
            forall|i: int, j: int| 0 <= i < j < r@.len() ==> r@[i]@ != r@[j]@,
    {
        let r = self.nodes.clone();
        proof {
            assert(r@.map_values(|s: String| s@) =~= self.nodes@.map_values(|s: String| s@));
        }
        r
    }

    /// How many feeds are live.
    pub fn active_count(&self) -> (r: usize)
        requires
            self.wf(),
        ensures
            r == self@.len(),
    {
        proof {
            self.lemma_view_len();
        }
        self.nodes.len()
    }

    fn node_eq(&self, i: usize, node: &String) -> (r: bool)
        requires
            i < self.nodes@.len(),
        ensures
            r == (self.nodes@[i as int]@ == node@),
    {
        let entry: &String = &self.nodes[i];
        *entry == *node
    }

    proof fn lemma_removed_view(&self, pre: Seq<String>, i: int, node: Seq<char>)
        requires
            0 <= i < pre.len(),
            pre[i]@ == node,
            forall|j: int, k: int| 0 <= j < k < pre.len() ==> pre[j]@ != pre[k]@,
            self.nodes@ == pre.remove(i),
        ensures
            self.wf(),
            self@ == pre.map_values(|s: String| s@).to_set().remove(node),
    {
        let views = pre.map_values(|s: String| s@);
        let left = self.nodes@.map_values(|s: String| s@);
        assert(left =~= views.remove(i));
        assert forall|x: Seq<char>| left.to_set().contains(x) implies views.to_set().contains(x)
            && x != node by {
            let k = choose|k: int| 0 <= k < left.len() && left[k] == x;
            if k < i {
                assert(views[k] == x);
                assert(pre[k]@ == x);
            } else {
                assert(views[k + 1] == x);
                assert(pre[k + 1]@ == x);
            }
        }
        assert forall|x: Seq<char>| views.to_set().contains(x) && x != node implies left
            .to_set().contains(x) by {
            let k = choose|k: int| 0 <= k < views.len() && views[k] == x;
            if k < i {
                assert(left[k] == x);
            } else {
                assert(k != i);
                assert(left[k - 1] == x);
            }
        }
        assert(left.to_set() =~= views.to_set().remove(node));
    }

    proof fn lemma_view_len(&self)
        requires
            self.wf(),
        ensures
            self@.len() == self.nodes@.len(),
    {
        let views = self.nodes@.map_values(|s: String| s@);
        assert(views.no_duplicates());
        views.unique_seq_to_set();
    }
}

/// Two `start` attempts for the same node, in either serialization order,
/// leave exactly one winner: one call opens the feed and the other is a
/// no-op, and afterwards the node is registered once.
pub proof fn lemma_single_feed_per_node(
    pre: Set<Seq<char>>,
    node: Seq<char>,
    mid: Set<Seq<char>>,
    post: Set<Seq<char>>,
    won1: bool,
    won2: bool,
)
    requires
        !pre.contains(node),
        StreamRegistry::register_post(pre, node, mid, won1),
        StreamRegistry::register_post(mid, node, post, won2),
    ensures
        won1 && !won2,
        post.contains(node),
        post == pre.insert(node),
{
    assert(post =~= pre.insert(node));
}

} // verus!
