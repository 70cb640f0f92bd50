//! Spans of display nodes: what a view produces when it is built, and what a sequence of
//! views does with the spans of its children.
use vstd::prelude::*;

verus! {

broadcast use vstd::std_specs::vec::group_vec_axioms;

/// The display nodes that a view produced: none, one, or the nodes of several spans in
/// order. A node is written as the bits of its entity.
#[derive(Debug)]
pub enum NodeSpan {
    Empty,
    Node(u64),
    Fragment(Vec<NodeSpan>),
}

impl NodeSpan {
    /// The nodes of the span, in order.
    pub open spec fn nodes(self) -> Seq<u64>
        decreases self, 0nat,
    {
        match self {
            NodeSpan::Empty => seq![],
            NodeSpan::Node(e) => seq![e],
            NodeSpan::Fragment(v) => nodes_of(v@, v@.len()),
        }
    }
}

/// The nodes of the first `n` spans of `spans`, in order.
pub open spec fn nodes_of(spans: Seq<NodeSpan>, n: nat) -> Seq<u64>
    decreases spans, n,
{
    if n == 0 || n > spans.len() {
        seq![]
    } else {
        nodes_of(spans, (n - 1) as nat) + spans[n - 1].nodes()
    }
}

impl NodeSpan {
    /// The number of nodes in the span.
    pub fn count(&self) -> (r: usize)
        requires
            self.nodes().len() <= usize::MAX,
        ensures
            r == self.nodes().len(),
        decreases self,
    {
        match self {
            NodeSpan::Empty => 0,
            NodeSpan::Node(_) => 1,
            NodeSpan::Fragment(v) => {
                let mut total: usize = 0;
                let mut i: usize = 0;
                while i < v.len()
                    invariant
                        i <= v.len(),
                        *self == NodeSpan::Fragment(*v),
                        self.nodes() == nodes_of(v@, v@.len()),
                        self.nodes().len() <= usize::MAX,
                        total == nodes_of(v@, i as nat).len(),
                    decreases v.len() - i,
                {
                    proof {
                        lemma_nodes_of_prefix(v@, (i + 1) as nat, v@.len());
                        assert(decreases_to!(*self => v[i as int]));
                    }
                    let n = v[i].count();
                    total = total + n;
                    i = i + 1;
                }
                total
            },
        }
    }

    /// Append the nodes of the span to `out`, in order.
    pub fn flatten(&self, out: &mut Vec<u64>)
        ensures
            final(out)@ == old(out)@ + self.nodes(),
        decreases self,
    {
        match self {
            NodeSpan::Empty => {
                assert(old(out)@ + self.nodes() =~= old(out)@);
            },
            NodeSpan::Node(e) => {
                out.push(*e);
            },
            NodeSpan::Fragment(v) => {
                let mut i: usize = 0;
                while i < v.len()
                    invariant
                        i <= v.len(),
                        *self == NodeSpan::Fragment(*v),
                        self.nodes() == nodes_of(v@, v@.len()),
                        out@ == old(out)@ + nodes_of(v@, i as nat),
                    decreases v.len() - i,
                {
                    proof {
                        assert(decreases_to!(*self => v[i as int]));
                    }
                    v[i].flatten(out);
                    assert(out@ =~= old(out)@ + nodes_of(v@, (i + 1) as nat));
                    i = i + 1;
                }
            },
        }
    }
}

/// The nodes of a shorter prefix are no more than those of a longer one.
proof fn lemma_nodes_of_prefix(spans: Seq<NodeSpan>, m: nat, n: nat)
    requires
        m <= n <= spans.len(),
    ensures
        nodes_of(spans, m).len() <= nodes_of(spans, n).len(),
    decreases n - m,
{
    if m < n {
        lemma_nodes_of_prefix(spans, m, (n - 1) as nat);
    }
}

/// `count` spans that produced nothing.
pub open spec fn empty_spans(count: nat) -> Seq<NodeSpan> {
    Seq::new(count, |i: int| NodeSpan::Empty)
}

/// The spans that the children of a sequence start from when it is built again: the spans
/// stored on the sequence's node, where it has them for as many children as the sequence has
/// now, and otherwise one empty span for each child.
pub fn sequence_start_spans(stored: Option<Vec<NodeSpan>>, count: usize) -> (r: Vec<NodeSpan>)
    ensures
        match stored {
            Some(c) => r@ == if c.len() == count {
                c@
            } else {
                empty_spans(count as nat)
            },
            None => r@ == empty_spans(count as nat),
        },
{
    match stored {
        Some(c) => {
            if c.len() == count {
                return c;
            }
        },
        None => {},
    }
    let mut r: Vec<NodeSpan> = Vec::new();
    while r.len() < count
        invariant
            r.len() <= count,
            r@ == empty_spans(r.len() as nat),
        decreases count - r.len(),
    {
        r.push(NodeSpan::Empty);
        assert(r@ =~= empty_spans(r.len() as nat));
    }
    r
}

/// What a sequence does once its children have built their spans.
#[derive(Debug)]
pub enum SequenceAction {
    /// Keep the sequence's node, which stores the children's new spans.
    Keep(u64),
    /// Despawn what the sequence produced before, and spawn a node with these children.
    Spawn(Vec<u64>),
}

/// The nodes of all the spans, in order.
pub open spec fn all_nodes(spans: Seq<NodeSpan>) -> Seq<u64> {
    nodes_of(spans, spans.len())
}

/// What a sequence does once its children have built `spans`. A sequence whose previous span
/// is a node that stores spans keeps that node; otherwise it spawns a new node whose children
/// are the nodes of all the spans, in order.
pub fn finish_sequence(prev: &NodeSpan, stores_spans: bool, spans: &Vec<NodeSpan>) -> (r:
    SequenceAction)
    ensures
        match *prev {
            NodeSpan::Node(e) if stores_spans => r == SequenceAction::Keep(e),
            _ => r matches SequenceAction::Spawn(flat) && flat@ == all_nodes(spans@),
        },
{
    if let NodeSpan::Node(e) = prev {
        if stores_spans {
            return SequenceAction::Keep(*e);
        }
    }
    let mut flat: Vec<u64> = Vec::new();
    let mut i: usize = 0;
    while i < spans.len()
        invariant
            i <= spans.len(),
            flat@ == nodes_of(spans@, i as nat),
        decreases spans.len() - i,
    {
        spans[i].flatten(&mut flat);
        assert(flat@ =~= nodes_of(spans@, (i + 1) as nat));
        i = i + 1;
    }
    SequenceAction::Spawn(flat)
}

} // verus!
