//! A small owned tree of values, built fluently, with depth-first traversal
//! and sibling-position reindexing.

use vstd::prelude::*;

verus! {

/// One tree node: a value, the node's index among its siblings, and its
/// children in insertion order.
#[verifier::reject_recursive_types(T)]
pub struct Node<T: Clone + Copy> {
    children: Vec<Node<T>>,
    value: T,
    index: usize,
}

impl<T: Clone + Copy> Node<T> {
    /// The node's value.
    pub closed spec fn spec_value(self) -> T {
        self.value
    }

    /// The node's index among its siblings, as last rebuilt.
    pub closed spec fn spec_index(self) -> usize {
        self.index
    }

    /// The node's children, in insertion order.
    pub closed spec fn spec_children(self) -> Seq<Node<T>> {
        self.children@
    }

    /// A node as `new` makes it: the given value, no children, index 0.
    pub open spec fn is_fresh_leaf(n: Node<T>, value: T) -> bool {
        &&& n.spec_value() == value
        &&& n.spec_index() == 0
        &&& n.spec_children().len() == 0
    }

    pub fn new(value: T) -> (r: Self)
        ensures
            Self::is_fresh_leaf(r, value),
    {
        Node { children: Vec::new(), value, index: 0 }
    }

    /// Appends one child holding `child`, fluently.
    pub fn leaf(self, child: T) -> (r: Self)
        ensures
            r.spec_value() == self.spec_value(),
            r.spec_index() == self.spec_index(),
            r.spec_children().drop_last() == self.spec_children(),
            r.spec_children().len() == self.spec_children().len() + 1,
            Self::is_fresh_leaf(r.spec_children().last(), child),
    {
        let mut this = self;
        this.children.push(Node::new(child));
        proof {
            assert(this.children@.drop_last() =~= self.spec_children());
        }
        this
    }

    /// Appends one child per value, in order, fluently.
    pub fn leaves<const N: usize>(self, children: [T; N]) -> (r: Self)
        ensures
            r.spec_value() == self.spec_value(),
            r.spec_index() == self.spec_index(),
            r.spec_children().len() == self.spec_children().len() + N,
            r.spec_children().take(self.spec_children().len() as int) == self.spec_children(),
            forall|k: int|
                0 <= k < N ==> Self::is_fresh_leaf(
                    #[trigger] r.spec_children()[self.spec_children().len() + k],
                    children@[k],
                ),
    {
        let mut this = self;
        let ghost base = self.spec_children();
        let mut k: usize = 0;
        while k < N
            invariant
                k <= N,
                this.value == self.spec_value(),
                this.index == self.spec_index(),
                this.children@.len() == base.len() + k,
                this.children@.take(base.len() as int) == base,
                forall|j: int|
                    0 <= j < k ==> Self::is_fresh_leaf(
                        #[trigger] this.children@[base.len() + j],
                        children@[j],
                    ),
            decreases N - k,
        {
            this.children.push(Node::new(children[k]));
            proof {
                assert(this.children@.take(base.len() as int) =~= base);
            }
            k += 1;
        }
        this
    }

    /// Appends one already-built child, fluently.
    pub fn node(self, child: Node<T>) -> (r: Self)
        ensures
            r.spec_value() == self.spec_value(),
            r.spec_index() == self.spec_index(),
            r.spec_children() == self.spec_children().push(child),
    {
        let mut this = self;
        this.children.push(child);
        this
    }

    /// Appends already-built children, in order, fluently.
    pub fn nodes(self, children: Vec<Node<T>>) -> (r: Self)
        ensures
            r.spec_value() == self.spec_value(),
            r.spec_index() == self.spec_index(),
            r.spec_children() == self.spec_children() + children@,
    {
        let mut this = self;
        let mut incoming = children;
        this.children.append(&mut incoming);
        this
    }

    /// Appends one child holding `child`.
    pub fn add_leaf(&mut self, child: T)
        ensures
            final(self).spec_value() == old(self).spec_value(),
            final(self).spec_index() == old(self).spec_index(),
            final(self).spec_children().drop_last() == old(self).spec_children(),
            final(self).spec_children().len() == old(self).spec_children().len() + 1,
            Self::is_fresh_leaf(final(self).spec_children().last(), child),
    {
        self.children.push(Node::new(child));
        proof {
            assert(self.children@.drop_last() =~= old(self).spec_children());
        }
    }

    /// Appends one child per value, in order.
    pub fn add_leaves<const N: usize>(&mut self, children: [T; N])
        ensures
            final(self).spec_value() == old(self).spec_value(),
            final(self).spec_index() == old(self).spec_index(),
            final(self).spec_children().len() == old(self).spec_children().len() + N,
            final(self).spec_children().take(old(self).spec_children().len() as int) == old(
                self,
            ).spec_children(),
            forall|k: int|
                0 <= k < N ==> Self::is_fresh_leaf(
                    #[trigger] final(self).spec_children()[old(self).spec_children().len() + k],
                    children@[k],
                ),
    {
        let ghost base = old(self).spec_children();
        let mut k: usize = 0;
        while k < N
            invariant
                k <= N,
                self.value == old(self).spec_value(),
                self.index == old(self).spec_index(),
                self.children@.len() == base.len() + k,
                self.children@.take(base.len() as int) == base,
                forall|j: int|
                    0 <= j < k ==> Self::is_fresh_leaf(
                        #[trigger] self.children@[base.len() + j],
                        children@[j],
                    ),
            decreases N - k,
        {
            self.children.push(Node::new(children[k]));
            proof {
                assert(self.children@.take(base.len() as int) =~= base);
            }
            k += 1;
        }
    }

    /// Appends one already-built child.
    pub fn add_node(&mut self, child: Node<T>)
        ensures
            final(self).spec_value() == old(self).spec_value(),
            final(self).spec_index() == old(self).spec_index(),
            final(self).spec_children() == old(self).spec_children().push(child),
    {
        self.children.push(child);
    }

    /// Appends already-built children, in order.
    pub fn add_nodes(&mut self, children: Vec<Node<T>>)
        ensures
            final(self).spec_value() == old(self).spec_value(),
            final(self).spec_index() == old(self).spec_index(),
            final(self).spec_children() == old(self).spec_children() + children@,
    {
        let mut incoming = children;
        self.children.append(&mut incoming);
    }

    /// `b` is `a` with every node's index rebuilt to its position among its
    /// siblings, the root's own index set to `at`.
    pub closed spec fn rebuilt_as(a: Node<T>, b: Node<T>, at: nat) -> bool
        decreases a,
    {
        &&& b.value == a.value
        &&& b.index == at
        &&& b.children@.len() == a.children@.len()
        &&& forall|i: int|
            0 <= i < a.children@.len() ==> Self::rebuilt_as(
                #[trigger] a.children@[i],
                b.children@[i],
                i as nat,
            )
    }

    /// Rewrites every node's index to its position among its siblings; the
    /// root keeps its own index.
    #[verifier::loop_isolation(false)]
    pub fn rebuild_indices(&mut self)
        ensures
            Self::rebuilt_as(*old(self), *final(self), old(self).spec_index() as nat),
    {
        let ghost orig = *self;
        let ghost orig_children = self.children@;
        let total = self.children.len();
        let mut rebuilt: Vec<Node<T>> = Vec::new();
        let mut i: usize = 0;
        while self.children.len() > 0
            invariant
                i == rebuilt@.len(),
                i + self.children@.len() == total,
                self.children@ == orig_children.skip(i as int),
                self.value == orig.spec_value(),
                self.index == orig.spec_index(),
                forall|j: int|
                    0 <= j < i ==> Self::rebuilt_as(
                        #[trigger] orig_children[j],
                        rebuilt@[j],
                        j as nat,
                    ),
            decreases self.children@.len(),
        {
            proof {
                assert(self.children@[0] == orig_children[i as int]);
                assert(self.children@.remove(0) =~= orig_children.skip(i + 1));
            }
            let child = self.children.remove(0);
            proof {
                assert(decreases_to!(orig => orig.children));
                vstd::std_specs::vec::axiom_vec_index_decreases(orig.children, i as int);
                assert(decreases_to!(orig => child));
            }
            let renumbered = reindexed(child, i);
            rebuilt.push(renumbered);
            i += 1;
        }
        self.children = rebuilt;
    }

    /// The depth-first enumeration below one node: each descendant's stored
    /// index and value, children before siblings, the node itself left out.
    pub open spec fn spec_visit(n: Node<T>) -> Seq<(usize, T)>
        decreases n,
    {
        Self::spec_visit_seq(n.spec_children())
    }

    /// The depth-first enumeration of a forest.
    pub open spec fn spec_visit_seq(s: Seq<Node<T>>) -> Seq<(usize, T)>
        decreases s, 0int,
    {
        if s.len() == 0 {
            Seq::empty()
        } else {
            seq![(s[0].spec_index(), s[0].spec_value())] + Self::spec_visit_seq(
                s[0].spec_children(),
            ) + Self::spec_visit_seq(s.skip(1))
        }
    }

    /// The depth-first enumeration below this node, children before
    /// siblings: each descendant's stored index and value, in visit order.
    #[verifier::loop_isolation(false)]
    pub fn visit(&self) -> (r: Vec<(usize, T)>)
        ensures
            r@ == Self::spec_visit(*self),
        decreases *self,
    {
        let mut r: Vec<(usize, T)> = Vec::new();
        let mut i: usize = 0;
        proof {
            assert(self.spec_children().skip(0) =~= self.spec_children());
            assert(r@ + Self::spec_visit_seq(self.spec_children()) =~= Self::spec_visit_seq(
                self.spec_children(),
            ));
        }
        while i < self.children.len()
            invariant
                i <= self.children@.len(),
                Self::spec_visit(*self) == r@ + Self::spec_visit_seq(
                    self.spec_children().skip(i as int),
                ),
            decreases self.children@.len() - i,
        {
            proof {
                assert(self.spec_children().skip(i as int)[0] == self.spec_children()[i as int]);
                assert(self.spec_children().skip(i as int).skip(1) =~= self.spec_children().skip(
                    i + 1,
                ));
            }
            let child = &self.children[i];
            let ghost old_r = r@;
            r.push((child.index, child.value));
            proof {
                assert(decreases_to!(*self => self.children));
                vstd::std_specs::vec::axiom_vec_index_decreases(self.children, i as int);
                assert(decreases_to!(*self => self.children@[i as int]));
            }
            let mut sub = child.visit();
            let ghost subv = sub@;
            r.append(&mut sub);
            proof {
                let pair = (child.spec_index(), child.spec_value());
                let tail_next = Self::spec_visit_seq(self.spec_children().skip(i + 1));
                assert(Self::spec_visit_seq(self.spec_children().skip(i as int)) == (seq![pair]
                    + subv) + tail_next);
                assert(r@ =~= (old_r + seq![pair]) + subv);
                assert(old_r + ((seq![pair] + subv) + tail_next) =~= ((old_r + seq![pair]) + subv)
                    + tail_next);
            }
            i += 1;
        }
        proof {
            assert(self.spec_children().skip(self.children@.len() as int) =~= Seq::<
                Node<T>,
            >::empty());
            assert(r@ + Seq::<(usize, T)>::empty() =~= r@);
        }
        r
    }
}

/// The node with every index below it rebuilt to sibling positions and its
/// own index set to `at`.
#[verifier::loop_isolation(false)]
fn reindexed<T: Clone + Copy>(node: Node<T>, at: usize) -> (r: Node<T>)
    ensures
        Node::<T>::rebuilt_as(node, r, at as nat),
    decreases node,
{
    let ghost orig = node;
    let Node { children, value, index: _ } = node;
    let mut remaining = children;
    let ghost orig_children = remaining@;
    let total = remaining.len();
    let mut rebuilt: Vec<Node<T>> = Vec::new();
    let mut i: usize = 0;
    while remaining.len() > 0
        invariant
            i == rebuilt@.len(),
            i + remaining@.len() == total,
            remaining@ == orig_children.skip(i as int),
            orig_children == orig.spec_children(),
            forall|j: int|
                0 <= j < i ==> Node::<T>::rebuilt_as(
                    #[trigger] orig_children[j],
                    rebuilt@[j],
                    j as nat,
                ),
        decreases remaining@.len(),
    {
        proof {
            assert(remaining@[0] == orig_children[i as int]);
            assert(remaining@.remove(0) =~= orig_children.skip(i + 1));
        }
        let child = remaining.remove(0);
        proof {
            assert(decreases_to!(orig => orig.children));
            vstd::std_specs::vec::axiom_vec_index_decreases(orig.children, i as int);
            assert(decreases_to!(orig => child));
        }
        let renumbered = reindexed(child, i);
        rebuilt.push(renumbered);
        i += 1;
    }
    Node { children: rebuilt, value, index: at }
}

} // verus!
