use vstd::prelude::*;
use crate::error::CalculationError;
use crate::operation::{
    Operation, Sign, ValueFacts, check_domain, checked_value, operation_error,
};

verus! {

/// A node of the history tree: a value, the operation that produced it (none
/// for a value entered directly), a back-link to its parent and the links to
/// its children in insertion order.
///
/// Nodes live in the calculator's arena and are named by their index there;
/// a parent always comes before its children, so the tree has no cycle.
pub struct Node<V> {
    value: V,
    parent: Option<usize>,
    child_item: Vec<usize>,
    last_op: Option<Operation>,
}

pub struct NodeView<V> {
    pub value: V,
    pub parent: Option<usize>,
    pub children: Seq<usize>,
    pub op: Option<Operation>,
}

impl<V> View for Node<V> {
    type V = NodeView<V>;

    closed spec fn view(&self) -> NodeView<V> {
        NodeView {
            value: self.value,
            parent: self.parent,
            children: self.child_item@,
            op: self.last_op,
        }
    }
}

/// A position in the tree: its root, the current node, the linear history of
/// nodes from the root down to the farthest redoable node, and the cursor of
/// the current node in that history.
struct CalculatorState {
    root: usize,
    current: usize,
    history: Vec<usize>,
    history_index: usize,
}

pub struct StateView {
    pub root: usize,
    pub current: usize,
    pub history: Seq<usize>,
    pub cursor: usize,
}

impl View for CalculatorState {
    type V = StateView;

    closed spec fn view(&self) -> StateView {
        StateView {
            root: self.root,
            current: self.current,
            history: self.history@,
            cursor: self.history_index,
        }
    }
}

/// The calculator: an arena of history nodes, the live position in it, and a
/// stack of saved positions that `reset` pushes and `recover_cache` pops.
/// Saved positions share their nodes with the live one.
pub struct RustyCalculator<V> {
    zero: V,
    nodes: Vec<Node<V>>,
    state: CalculatorState,
    snapshots: Vec<CalculatorState>,
}

pub struct CalcView<V> {
    pub zero: V,
    pub nodes: Seq<NodeView<V>>,
    pub live: StateView,
    pub snapshots: Seq<StateView>,
}

impl<V> View for RustyCalculator<V> {
    type V = CalcView<V>;

    closed spec fn view(&self) -> CalcView<V> {
        CalcView {
            zero: self.zero,
            nodes: self.nodes@.map_values(|n: Node<V>| n@),
            live: self.state@,
            snapshots: self.snapshots@.map_values(|s: CalculatorState| s@),
        }
    }
}

/// One line of the drawing of the history tree, in depth-first order.
pub struct HistoryRow<V> {
    /// The node's value and the operation that produced it.
    pub value: V,
    pub op: Option<Operation>,
    /// For each ancestor level below the drawing's top, whether that ancestor
    /// was the last of its siblings: such a level is drawn blank, any other
    /// with a vertical guide.
    pub guides: Vec<bool>,
    /// The node is the last child of its parent (the root counts as last).
    pub last: bool,
    /// The node is the current one.
    pub current: bool,
}

pub struct RowView<V> {
    pub value: V,
    pub op: Option<Operation>,
    pub guides: Seq<bool>,
    pub last: bool,
    pub current: bool,
}

impl<V> View for HistoryRow<V> {
    type V = RowView<V>;

    open spec fn view(&self) -> RowView<V> {
        RowView {
            value: self.value,
            op: self.op,
            guides: self.guides@,
            last: self.last,
            current: self.current,
        }
    }
}

pub open spec fn rows_view<V>(rows: Seq<HistoryRow<V>>) -> Seq<RowView<V>> {
    rows.map_values(|r: HistoryRow<V>| r@)
}

/// A node with no parent, no children and no operation.
pub open spec fn root_node<V>(value: V) -> NodeView<V> {
    NodeView { value, parent: None, children: Seq::empty(), op: None }
}

/// The position of a session made of the single node `i`.
pub open spec fn single_state(i: usize) -> StateView {
    StateView { root: i, current: i, history: seq![i], cursor: 0 }
}

pub open spec fn other_than(x: usize) -> spec_fn(usize) -> bool {
    |c: usize| c != x
}

impl<V> CalcView<V> {
    /// The value of the current node.
    pub open spec fn value(self) -> V {
        self.nodes[self.live.current as int].value
    }

    /// Every child link points to a later node whose parent link points back.
    pub open spec fn tree_wf(self) -> bool {
        forall|n: int, j: int|
            #![trigger self.nodes[n].children[j]]
            0 <= n < self.nodes.len() && 0 <= j < self.nodes[n].children.len() ==> {
                let c = self.nodes[n].children[j];
                &&& n < c < self.nodes.len()
                &&& self.nodes[c as int].parent == Some(n as usize)
            }
    }

    /// The history of `s` runs from its parentless root down the tree, one
    /// parent link at a time, and its cursor names the current node.
    pub open spec fn state_wf(self, s: StateView) -> bool {
        &&& 0 < s.history.len() <= usize::MAX
        &&& s.cursor < s.history.len()
        &&& s.history[0] == s.root
        &&& s.current == s.history[s.cursor as int]
        &&& forall|i: int| 0 <= i < s.history.len() ==> #[trigger] s.history[i] < self.nodes.len()
        &&& self.nodes[s.root as int].parent is None
        &&& forall|i: int|
            0 < i < s.history.len() ==> self.nodes[#[trigger] s.history[i] as int].parent == Some(
                s.history[i - 1],
            )
    }

    pub open spec fn wf(self) -> bool {
        &&& self.tree_wf()
        &&& self.state_wf(self.live)
        &&& forall|k: int| 0 <= k < self.snapshots.len() ==> self.state_wf(#[trigger] self.snapshots[k])
    }

    /// A calculator whose only node holds `rest_state`, and which resets to
    /// `zero`.
    pub open spec fn fresh(rest_state: V, zero: V) -> Self {
        CalcView {
            zero,
            nodes: seq![root_node(rest_state)],
            live: single_state(0),
            snapshots: Seq::empty(),
        }
    }

    /// A new node holding `value` becomes the last child of the current node
    /// and the current node; history beyond the cursor gives way to it.
    pub open spec fn inserted(self, value: V, op: Option<Operation>) -> Self {
        let cur = self.live.current;
        let new = self.nodes.len() as usize;
        let parent = self.nodes[cur as int];
        CalcView {
            zero: self.zero,
            nodes: self.nodes.update(
                cur as int,
                NodeView {
                    value: parent.value,
                    parent: parent.parent,
                    children: parent.children.push(new),
                    op: parent.op,
                },
            ).push(NodeView { value, parent: Some(cur), children: Seq::empty(), op }),
            live: StateView {
                root: self.live.root,
                current: new,
                history: self.live.history.take(self.live.cursor + 1).push(new),
                cursor: (self.live.cursor + 1) as usize,
            },
            snapshots: self.snapshots,
        }
    }

    pub open spec fn with_live(self, live: StateView) -> Self {
        CalcView { zero: self.zero, nodes: self.nodes, live, snapshots: self.snapshots }
    }

    /// The live position moved to entry `cursor` of its history.
    pub open spec fn moved_to(self, cursor: int) -> Self {
        self.with_live(
            StateView {
                root: self.live.root,
                current: self.live.history[cursor],
                history: self.live.history,
                cursor: cursor as usize,
            },
        )
    }

    /// One step back along the linear history.
    pub open spec fn backwards(self) -> Self {
        self.moved_to(self.live.cursor - 1)
    }

    /// One step forward along the linear history.
    pub open spec fn forwards(self) -> Self {
        self.moved_to(self.live.cursor + 1)
    }

    /// The current node is detached from its parent's children, and the
    /// parent becomes current; the history ends at the parent.
    pub open spec fn pruned(self) -> Self {
        let p = self.live.history[self.live.cursor - 1];
        let parent = self.nodes[p as int];
        CalcView {
            zero: self.zero,
            nodes: self.nodes.update(
                p as int,
                NodeView {
                    value: parent.value,
                    parent: parent.parent,
                    children: parent.children.filter(other_than(self.live.current)),
                    op: parent.op,
                },
            ),
            live: StateView {
                root: self.live.root,
                current: p,
                history: self.live.history.take(self.live.cursor as int),
                cursor: (self.live.cursor - 1) as usize,
            },
            snapshots: self.snapshots,
        }
    }

    /// The live position is pushed on the stack of saved positions.
    pub open spec fn snapshotted(self) -> Self {
        CalcView {
            zero: self.zero,
            nodes: self.nodes,
            live: self.live,
            snapshots: self.snapshots.push(self.live),
        }
    }

    /// The live position is saved, and a new root holding zero becomes the
    /// whole live session.
    pub open spec fn after_reset(self) -> Self {
        CalcView {
            zero: self.zero,
            nodes: self.nodes.push(root_node(self.zero)),
            live: single_state(self.nodes.len() as usize),
            snapshots: self.snapshots.push(self.live),
        }
    }

    /// The most recently saved position replaces the live one and leaves the
    /// stack.
    pub open spec fn recovered(self) -> Self {
        CalcView {
            zero: self.zero,
            nodes: self.nodes,
            live: self.snapshots.last(),
            snapshots: self.snapshots.drop_last(),
        }
    }

    /// All saved positions are discarded.
    pub open spec fn cleared(self) -> Self {
        CalcView {
            zero: self.zero,
            nodes: self.nodes,
            live: self.live,
            snapshots: Seq::empty(),
        }
    }

    /// The row that draws node `n`.
    pub open spec fn row_of(self, n: int, guides: Seq<bool>, last: bool) -> RowView<V> {
        RowView {
            value: self.nodes[n].value,
            op: self.nodes[n].op,
            guides,
            last,
            current: n == self.live.current,
        }
    }

    /// The rows that draw the subtree of node `n`: its own row, then those of
    /// its children in insertion order.
    pub open spec fn rows_from(self, n: int, guides: Seq<bool>, last: bool) -> Seq<RowView<V>>
        decreases self.nodes.len() - n, 1int, 0int,
    {
        if 0 <= n < self.nodes.len() {
            seq![self.row_of(n, guides, last)] + self.child_rows(
                n,
                guides.push(last),
                self.nodes[n].children.len() as int,
            )
        } else {
            Seq::empty()
        }
    }

    /// The rows that draw the subtrees of the first `j` children of `n`.
    pub open spec fn child_rows(self, n: int, guides: Seq<bool>, j: int) -> Seq<RowView<V>>
        decreases self.nodes.len() - n, 0int, j,
    {
        if 0 <= n < self.nodes.len() && 0 < j <= self.nodes[n].children.len() {
            let c = self.nodes[n].children[j - 1] as int;
            let last = j == self.nodes[n].children.len();
            self.child_rows(n, guides, j - 1) + if n < c < self.nodes.len() {
                self.rows_from(c, guides, last)
            } else {
                Seq::empty()
            }
        } else {
            Seq::empty()
        }
    }

    /// In a well-formed calculator the current node is parentless exactly
    /// when the cursor is at the start of the history.
    pub proof fn lemma_parentless_at_start(self)
        requires
            self.wf(),
        ensures
            self.nodes[self.live.current as int].parent is None <==> self.live.cursor == 0,
            self.live.cursor > 0 ==> self.nodes[self.live.current as int].parent == Some(
                self.live.history[self.live.cursor - 1],
            ),
    {
        if self.live.cursor > 0 {
            assert(self.live.history[self.live.cursor as int] == self.live.current);
        }
    }

    pub proof fn lemma_moved_wf(self, cursor: int)
        requires
            self.wf(),
            0 <= cursor < self.live.history.len(),
        ensures
            self.moved_to(cursor).wf(),
    {
        let post = self.moved_to(cursor);
        assert forall|k: int| 0 <= k < post.snapshots.len() implies post.state_wf(
            #[trigger] post.snapshots[k],
        ) by {
            assert(self.state_wf(self.snapshots[k]));
        }
    }

    pub proof fn lemma_pruned_wf(self)
        requires
            self.wf(),
            self.live.cursor > 0,
        ensures
            self.pruned().wf(),
    {
        broadcast use vstd::seq_lib::group_seq_properties;

        let post = self.pruned();
        let h = self.live.history;
        let p = h[self.live.cursor - 1];
        let len = self.nodes.len();
        assert(h[self.live.cursor - 1] < len);
        assert forall|k: int| 0 <= k < len implies #[trigger] post.nodes[k].parent
            == self.nodes[k].parent by {}
        assert forall|n: int, j: int|
            #![trigger post.nodes[n].children[j]]
            0 <= n < post.nodes.len() && 0 <= j < post.nodes[n].children.len() implies {
                let c = post.nodes[n].children[j];
                &&& n < c < post.nodes.len()
                &&& post.nodes[c as int].parent == Some(n as usize)
            } by {
            if n == p {
                let kept = self.nodes[n].children.filter(other_than(self.live.current));
                assert(kept.contains(kept[j]));
                self.nodes[n].children.lemma_filter_contains_rev(
                    other_than(self.live.current),
                    kept[j],
                );
                let jj = choose|jj: int|
                    0 <= jj < self.nodes[n].children.len() && self.nodes[n].children[jj]
                        == kept[j];
                assert(self.nodes[n].children[jj] == kept[j]);
            } else {
                assert(post.nodes[n].children[j] == self.nodes[n].children[j]);
            }
        }
        assert forall|k: int| 0 <= k < post.snapshots.len() implies post.state_wf(
            #[trigger] post.snapshots[k],
        ) by {
            assert(self.state_wf(self.snapshots[k]));
        }
        let ph = post.live.history;
        assert forall|i: int| 0 < i < ph.len() implies post.nodes[#[trigger] ph[i] as int].parent
            == Some(ph[i - 1]) by {
            assert(ph[i] == h[i]);
            assert(h[i] < len);
        }
        assert forall|i: int| 0 <= i < ph.len() implies #[trigger] ph[i] < post.nodes.len() by {
            assert(ph[i] == h[i]);
        }
    }

    pub proof fn lemma_snapshotted_wf(self)
        requires
            self.wf(),
        ensures
            self.snapshotted().wf(),
    {
        let post = self.snapshotted();
        assert forall|k: int| 0 <= k < post.snapshots.len() implies post.state_wf(
            #[trigger] post.snapshots[k],
        ) by {
            if k < self.snapshots.len() {
                assert(self.state_wf(self.snapshots[k]));
            }
        }
    }

    pub proof fn lemma_after_reset_wf(self)
        requires
            self.wf(),
            self.nodes.len() < usize::MAX,
        ensures
            self.after_reset().wf(),
    {
        let post = self.after_reset();
        let len = self.nodes.len();
        assert forall|k: int| 0 <= k < len implies #[trigger] post.nodes[k] == self.nodes[k] by {}
        assert forall|n: int, j: int|
            #![trigger post.nodes[n].children[j]]
            0 <= n < post.nodes.len() && 0 <= j < post.nodes[n].children.len() implies {
                let c = post.nodes[n].children[j];
                &&& n < c < post.nodes.len()
                &&& post.nodes[c as int].parent == Some(n as usize)
            } by {
            if n == len {
                assert(post.nodes[n].children.len() == 0);
            } else {
                assert(post.nodes[n].children[j] == self.nodes[n].children[j]);
            }
        }
        assert forall|k: int| 0 <= k < post.snapshots.len() implies post.state_wf(
            #[trigger] post.snapshots[k],
        ) by {
            let s = post.snapshots[k];
            assert(self.state_wf(s));
            assert forall|i: int| 0 < i < s.history.len() implies post.nodes[#[trigger] s.history[i] as int].parent == Some(s.history[i - 1]) by {
                assert(s.history[i] < len);
            }
        }
        assert(post.live.history[0] == len);
    }

    pub proof fn lemma_recovered_wf(self)
        requires
            self.wf(),
            self.snapshots.len() > 0,
        ensures
            self.recovered().wf(),
    {
        let post = self.recovered();
        assert(self.state_wf(self.snapshots[self.snapshots.len() - 1]));
        assert forall|k: int| 0 <= k < post.snapshots.len() implies post.state_wf(
            #[trigger] post.snapshots[k],
        ) by {
            assert(self.state_wf(self.snapshots[k]));
        }
    }

    /// Inserting keeps the calculator well formed.
    pub proof fn lemma_inserted_wf(self, value: V, op: Option<Operation>)
        requires
            self.wf(),
            self.nodes.len() < usize::MAX,
            self.live.cursor + 1 < usize::MAX,
        ensures
            self.inserted(value, op).wf(),
    {
        let post = self.inserted(value, op);
        let cur = self.live.current;
        let len = self.nodes.len();
        assert(self.live.history[self.live.cursor as int] < len);
        assert forall|k: int| 0 <= k < len implies #[trigger] post.nodes[k].parent
            == self.nodes[k].parent by {}
        assert forall|n: int, j: int|
            #![trigger post.nodes[n].children[j]]
            0 <= n < post.nodes.len() && 0 <= j < post.nodes[n].children.len() implies {
                let c = post.nodes[n].children[j];
                &&& n < c < post.nodes.len()
                &&& post.nodes[c as int].parent == Some(n as usize)
            } by {
            if n == len {
                assert(post.nodes[n].children.len() == 0);
            } else if n == cur && j == self.nodes[n].children.len() {
                assert(post.nodes[n].children[j] == len);
                assert(post.nodes[len as int].parent == Some(cur));
            } else {
                assert(post.nodes[n].children[j] == self.nodes[n].children[j]);
                let c = self.nodes[n].children[j];
                assert(n < c < len);
                assert(post.nodes[c as int].parent == self.nodes[c as int].parent);
            }
        }
        assert(post.tree_wf());
        assert forall|k: int| 0 <= k < post.snapshots.len() implies post.state_wf(
            #[trigger] post.snapshots[k],
        ) by {
            let s = self.snapshots[k];
            assert(self.state_wf(s));
            assert forall|i: int| 0 < i < s.history.len() implies post.nodes[#[trigger] s.history[i] as int].parent == Some(s.history[i - 1]) by {
                assert(s.history[i] < len);
            }
        }
        let h = post.live.history;
        assert forall|i: int| 0 < i < h.len() implies post.nodes[#[trigger] h[i] as int].parent == Some(h[i - 1]) by {
            if i < h.len() - 1 {
                assert(h[i] == self.live.history[i]);
                assert(h[i - 1] == self.live.history[i - 1]);
                assert(self.live.history[i] < len);
            } else {
                assert(h[i] == len);
                assert(h[i - 1] == cur);
            }
        }
        assert(post.state_wf(post.live));
    }
}

impl CalculatorState {
    fn duplicate(&self) -> (r: Self)
        ensures
            r@ == self@,
    {
        let r = CalculatorState {
            root: self.root,
            current: self.current,
            history: self.history.clone(),
            history_index: self.history_index,
        };
        proof {
            assert(r.history@ =~= self.history@);
        }
        r
    }
}

/// The entries of `v` other than `x`, in order.
fn without(v: &Vec<usize>, x: usize) -> (r: Vec<usize>)
    ensures
        r@ == v@.filter(other_than(x)),
{
    let mut r: Vec<usize> = Vec::new();
    let mut i: usize = 0;
    while i < v.len()
        invariant
            i <= v.len(),
            r@ == v@.take(i as int).filter(other_than(x)),
        decreases v.len() - i,
    {
        proof {
            reveal(Seq::filter);
            assert(v@.take(i + 1).drop_last() =~= v@.take(i as int));
        }
        if v[i] != x {
            r.push(v[i]);
        }
        i += 1;
    }
    proof {
        assert(v@.take(v.len() as int) =~= v@);
    }
    r
}

impl<V: Copy> RustyCalculator<V> {
    /// A calculator whose history is a single root node holding `rest_state`;
    /// `zero` is the value of the fresh root that `reset` starts from.
    pub fn new(rest_state: V, zero: V) -> (r: Self)
        ensures
            r@ == CalcView::fresh(rest_state, zero),
            r@.value() == rest_state,
            r@.wf(),
    {
        let mut nodes: Vec<Node<V>> = Vec::new();
        nodes.push(Node { value: rest_state, parent: None, child_item: Vec::new(), last_op: None });
        let mut history: Vec<usize> = Vec::new();
        history.push(0);
        let r = RustyCalculator {
            zero,
            nodes,
            state: CalculatorState { root: 0, current: 0, history, history_index: 0 },
            snapshots: Vec::new(),
        };
        proof {
            assert(r@.nodes =~= seq![root_node(rest_state)]);
            assert(r@.live.history =~= seq![0usize]);
            assert(r@.snapshots =~= Seq::<StateView>::empty());
        }
        r
    }

    /// The value of the current node.
    pub fn result(&self) -> (r: V)
        requires
            self@.wf(),
        ensures
            r == self@.value(),
    {
        self.nodes[self.state.current].value
    }

    #[verifier::rlimit(50)]
    fn insert_node(&mut self, value: V, op: Option<Operation>) -> (r: usize)
        requires
            old(self)@.wf(),
        ensures
            final(self)@ == old(self)@.inserted(value, op),
            final(self)@.wf(),
            r == old(self)@.nodes.len(),
    {
        let ghost pre = self@;
        let new_index = self.nodes.len();
        let cur = self.state.current;
        proof {
            vstd::std_specs::vec::axiom_spec_len(&self.state.history);
        }
        self.nodes[cur].child_item.push(new_index);
        self.nodes.push(Node { value, parent: Some(cur), child_item: Vec::new(), last_op: op });
        self.state.history.truncate(self.state.history_index + 1);
        self.state.history.push(new_index);
        proof {
            vstd::std_specs::vec::axiom_spec_len(&self.nodes);
        }
        self.state.history_index = self.state.history.len() - 1;
        self.state.current = new_index;
        proof {
            let post = pre.inserted(value, op);
            assert(self@.nodes =~= post.nodes);
            assert(self@.live.history =~= post.live.history);
            assert(self@.snapshots =~= post.snapshots);
            assert(pre.nodes.len() < usize::MAX);
            pre.lemma_inserted_wf(value, op);
        }
        new_index
    }

    /// Enters `val` directly as a new current node with no operation; direct
    /// entry is not validated.
    pub fn input(&mut self, val: V)
        requires
            old(self)@.wf(),
        ensures
            final(self)@ == old(self)@.inserted(val, None),
            final(self)@.wf(),
            final(self)@.value() == val,
    {
        self.insert_node(val, None);
    }
    /// Derives a new value from the current one by `op`.
    ///
    /// The caller computes `candidate` from the current value (and the
    /// operand, for a binary operation), and reports `guard`, the sign that
    /// the operation's domain rule reads (the divisor's for `Divide`, the
    /// current value's for `SquareRoot` and `NaturalLog`), and the facts that
    /// the validator reads of `candidate`. If the domain rule or the validator
    /// rejects the step, its error comes back and nothing changes; otherwise
    /// `candidate` becomes the current node, labelled with `op`. The candidate
    /// is validated before it is recorded, so a rejected step never reaches
    /// the tree.
    pub fn apply_op(&mut self, op: Operation, guard: Sign, candidate: V, facts: ValueFacts) -> (r:
        Result<(), CalculationError>)
        requires
            old(self)@.wf(),
        ensures
            final(self)@.wf(),
            r is Err <==> operation_error(op, guard, facts) is Some,
            r is Err ==> r->Err_0 == operation_error(op, guard, facts)->0 && final(self)@ == old(
                self,
            )@,
            r is Ok ==> final(self)@ == old(self)@.inserted(candidate, Some(op)),
            r is Ok ==> final(self)@.value() == candidate,
    {
        match check_domain(op, guard) {
            Err(e) => {
                return Err(e);
            },
            Ok(()) => {},
        }
        match checked_value(candidate, facts) {
            Err(e) => Err(e),
            Ok(valid) => {
                self.insert_node(valid, Some(op));
                Ok(())
            },
        }
    }

    /// Undo: moves the cursor one step back along the linear history.
    pub fn go_backwards(&mut self) -> (r: Result<(), CalculationError>)
        requires
            old(self)@.wf(),
        ensures
            final(self)@.wf(),
            r is Err <==> old(self)@.live.cursor == 0,
            r is Err ==> r == Err::<(), CalculationError>(CalculationError::CannotGoBackwards)
                && final(self)@ == old(self)@,
            r is Ok ==> final(self)@ == old(self)@.backwards(),
    {
        if self.state.history_index == 0 {
            return Err(CalculationError::CannotGoBackwards);
        }
        proof {
            self@.lemma_moved_wf(self@.live.cursor - 1);
        }
        self.state.history_index = self.state.history_index - 1;
        self.state.current = self.state.history[self.state.history_index];
        Ok(())
    }

    /// Redo: moves the cursor one step forward along the linear history.
    pub fn go_forwards(&mut self) -> (r: Result<(), CalculationError>)
        requires
            old(self)@.wf(),
        ensures
            final(self)@.wf(),
            r is Err <==> old(self)@.live.cursor + 1 == old(self)@.live.history.len(),
            r is Err ==> r == Err::<(), CalculationError>(CalculationError::CannotGoForwards)
                && final(self)@ == old(self)@,
            r is Ok ==> final(self)@ == old(self)@.forwards(),
    {
        if self.state.history_index + 1 >= self.state.history.len() {
            return Err(CalculationError::CannotGoForwards);
        }
        proof {
            self@.lemma_moved_wf(self@.live.cursor + 1);
        }
        self.state.history_index = self.state.history_index + 1;
        self.state.current = self.state.history[self.state.history_index];
        Ok(())
    }

    /// Prunes the current node: detaches it from its parent's children and
    /// makes the parent current. The root cannot be pruned.
    pub fn delete(&mut self) -> (r: Result<(), CalculationError>)
        requires
            old(self)@.wf(),
        ensures
            final(self)@.wf(),
            r is Err <==> old(self)@.nodes[old(self)@.live.current as int].parent is None,
            r is Err <==> old(self)@.live.cursor == 0,
            r is Err ==> r == Err::<(), CalculationError>(CalculationError::CannotDeleteRoot)
                && final(self)@ == old(self)@,
            r is Ok ==> final(self)@ == old(self)@.pruned(),
    {
        proof {
            self@.lemma_parentless_at_start();
        }
        let ghost pre = self@;
        let cur = self.state.current;
        match self.nodes[cur].parent {
            None => Err(CalculationError::CannotDeleteRoot),
            Some(p) => {
                let kept = without(&self.nodes[p].child_item, cur);
                self.nodes[p].child_item = kept;
                let idx = self.state.history_index;
                self.state.history.truncate(idx);
                self.state.history_index = idx - 1;
                self.state.current = p;
                proof {
                    let post = pre.pruned();
                    assert(self@.nodes =~= post.nodes);
                    assert(self@.live.history =~= post.live.history);
                    assert(self@.snapshots =~= post.snapshots);
                    pre.lemma_pruned_wf();
                }
                Ok(())
            },
        }
    }

    /// Saves the live position on the stack of snapshots; the saved position
    /// shares its nodes with the live one.
    pub fn snapshot(&mut self)
        requires
            old(self)@.wf(),
        ensures
            final(self)@ == old(self)@.snapshotted(),
            final(self)@.wf(),
    {
        let ghost pre = self@;
        let saved = self.state.duplicate();
        self.snapshots.push(saved);
        proof {
            assert(self@.snapshots =~= pre.snapshotted().snapshots);
            pre.lemma_snapshotted_wf();
        }
    }

    /// Discards every snapshot; the live position is untouched.
    pub fn clear_cache(&mut self)
        requires
            old(self)@.wf(),
        ensures
            final(self)@ == old(self)@.cleared(),
            final(self)@.wf(),
    {
        self.snapshots.clear();
        proof {
            assert(self@.snapshots =~= Seq::<StateView>::empty());
        }
    }

    /// Replaces the live position by the most recent snapshot, which leaves
    /// the stack.
    pub fn recover_cache(&mut self) -> (r: Result<(), CalculationError>)
        requires
            old(self)@.wf(),
        ensures
            final(self)@.wf(),
            r is Err <==> old(self)@.snapshots.len() == 0,
            r is Err ==> r == Err::<(), CalculationError>(CalculationError::NoSnapshotAvailable)
                && final(self)@ == old(self)@,
            r is Ok ==> final(self)@ == old(self)@.recovered(),
    {
        let ghost pre = self@;
        match self.snapshots.pop() {
            Some(saved) => {
                self.state = saved;
                proof {
                    assert(self@.snapshots =~= pre.recovered().snapshots);
                    pre.lemma_recovered_wf();
                }
                Ok(())
            },
            None => Err(CalculationError::NoSnapshotAvailable),
        }
    }

    /// Saves the live position as a snapshot, then starts a new session from
    /// a fresh root holding zero.
    pub fn reset(&mut self)
        requires
            old(self)@.wf(),
        ensures
            final(self)@ == old(self)@.after_reset(),
            final(self)@.wf(),
            final(self)@.value() == old(self)@.zero,
    {
        let ghost pre = self@;
        self.snapshot();
        let new_root = self.nodes.len();
        self.nodes.push(
            Node { value: self.zero, parent: None, child_item: Vec::new(), last_op: None },
        );
        proof {
            vstd::std_specs::vec::axiom_spec_len(&self.nodes);
        }
        let mut history: Vec<usize> = Vec::new();
        history.push(new_root);
        self.state = CalculatorState {
            root: new_root,
            current: new_root,
            history,
            history_index: 0,
        };
        proof {
            let post = pre.after_reset();
            assert(self@.nodes =~= post.nodes);
            assert(self@.live.history =~= post.live.history);
            assert(self@.snapshots =~= post.snapshots);
            assert(pre.nodes.len() < usize::MAX);
            pre.lemma_after_reset_wf();
        }
    }
    /// Appends the rows that draw the subtree of node `n`.
    fn render_from(
        &self,
        n: usize,
        guides: &Vec<bool>,
        last: bool,
        rows: &mut Vec<HistoryRow<V>>,
    )
        requires
            self@.wf(),
            n < self@.nodes.len(),
        ensures
            rows_view(final(rows)@) == rows_view(old(rows)@) + self@.rows_from(
                n as int,
                guides@,
                last,
            ),
        decreases self@.nodes.len() - n,
    {
        let ghost base = rows_view(rows@);
        let node = &self.nodes[n];
        rows.push(
            HistoryRow {
                value: node.value,
                op: node.last_op,
                guides: guides.clone(),
                last,
                current: n == self.state.current,
            },
        );
        let mut below = guides.clone();
        below.push(last);
        proof {
            assert(rows_view(rows@) =~= base + seq![self@.row_of(n as int, guides@, last)]);
            assert(below@ =~= guides@.push(last));
        }
        let count = node.child_item.len();
        let mut j: usize = 0;
        while j < count
            invariant
                self@.wf(),
                n < self@.nodes.len(),
                node == self.nodes@[n as int],
                count == self@.nodes[n as int].children.len(),
                j <= count,
                below@ == guides@.push(last),
                rows_view(rows@) == base + seq![self@.row_of(n as int, guides@, last)]
                    + self@.child_rows(n as int, guides@.push(last), j as int),
            decreases count - j,
        {
            let c = node.child_item[j];
            proof {
                assert(self@.nodes[n as int].children[j as int] == c);
            }
            let ghost before = rows_view(rows@);
            self.render_from(c, &below, j + 1 == count, rows);
            proof {
                let v = self@;
                assert(n < c < v.nodes.len());
                assert(v.child_rows(n as int, below@, j + 1) == v.child_rows(n as int, below@, j as int)
                    + v.rows_from(c as int, below@, j + 1 == count));
                assert(rows_view(rows@) =~= base + seq![v.row_of(n as int, guides@, last)]
                    + v.child_rows(n as int, guides@.push(last), j + 1));
            }
            j += 1;
        }
    }

    /// The drawing of the whole live tree, from its root, depth first, each
    /// node's children in insertion order; the current node's row is marked.
    pub fn show_history(&self) -> (r: Vec<HistoryRow<V>>)
        requires
            self@.wf(),
        ensures
            rows_view(r@) == self@.rows_from(self@.live.root as int, Seq::empty(), true),
    {
        let mut rows: Vec<HistoryRow<V>> = Vec::new();
        let top: Vec<bool> = Vec::new();
        proof {
            assert(self@.live.history[0] < self@.nodes.len());
            assert(rows_view(rows@) =~= Seq::<RowView<V>>::empty());
        }
        self.render_from(self.state.root, &top, true, &mut rows);
        proof {
            assert(top@ =~= Seq::<bool>::empty());
            assert(rows_view(rows@) =~= self@.rows_from(self@.live.root as int, Seq::empty(), true));
        }
        rows
    }
}

} // verus!
