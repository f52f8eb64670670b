use vstd::prelude::*;

verus! {

use crate::adapt::Desc;

// ---------------------------------------------------------------------------
// Compiled operators.
//
// A compiled operator is a tree: leaves carry one kernel invocation (its
// resolved kind, raw arguments and inversion flag), inner nodes are
// pipelines.  Execution threads a host-provided kernel through the tree; the
// engine fixes which leaves run, in which order, and with which direction,
// and `sched` states that order exactly.
// ---------------------------------------------------------------------------

/// One canonical step of a definition: a name and its key/value arguments.
pub struct Step {
    pub name: String,
    pub args: Vec<(String, String)>,
}

/// The view of an argument list.
pub open spec fn args_view(a: Seq<(String, String)>) -> Seq<(Seq<char>, Seq<char>)>
    decreases a.len(),
{
    if a.len() == 0 {
        Seq::empty()
    } else {
        seq![(a[0].0@, a[0].1@)] + args_view(a.drop_first())
    }
}

/// The view of a step.
pub struct StepV {
    pub name: Seq<char>,
    pub args: Seq<(Seq<char>, Seq<char>)>,
}

pub open spec fn step_view(s: &Step) -> StepV {
    StepV { name: s.name@, args: args_view(s.args@) }
}

pub open spec fn steps_view(ss: Seq<Step>) -> Seq<StepV>
    decreases ss.len(),
{
    if ss.len() == 0 {
        Seq::empty()
    } else {
        seq![step_view(&ss[0])] + steps_view(ss.drop_first())
    }
}

/// Every index of an argument-list view matches the viewed pair.
pub proof fn lemma_args_view_index(a: Seq<(String, String)>)
    ensures
        args_view(a).len() == a.len(),
        forall|j: int| 0 <= j < a.len() ==> args_view(a)[j] == (a[j].0@, a[j].1@),
    decreases a.len(),
{
    if a.len() > 0 {
        lemma_args_view_index(a.drop_first());
        assert forall|j: int| 0 <= j < a.len() implies args_view(a)[j] == (a[j].0@, a[j].1@) by {
            if j > 0 {
                assert(a.drop_first()[j - 1] == a[j]);
            }
        }
    }
}

/// Every index of a step-list view matches the viewed step.
pub proof fn lemma_steps_view_index(ss: Seq<Step>)
    ensures
        steps_view(ss).len() == ss.len(),
        forall|j: int| 0 <= j < ss.len() ==> steps_view(ss)[j] == step_view(&ss[j]),
    decreases ss.len(),
{
    if ss.len() > 0 {
        lemma_steps_view_index(ss.drop_first());
        assert forall|j: int| 0 <= j < ss.len() implies steps_view(ss)[j] == step_view(&ss[j]) by {
            if j > 0 {
                assert(ss.drop_first()[j - 1] == ss[j]);
            }
        }
    }
}

/// The kind of a leaf operator: a builtin kernel, or an operator the user
/// registered under its name.
#[derive(Clone, Copy, PartialEq, Eq, Structural, Debug)]
pub enum Kind {
    Cart,
    Helmert,
    Tmerc,
    Utm,
    Noop,
    Addone,
    Molodensky,
    Adapt(Desc),
    Custom,
}

/// One compiled leaf operator.
pub struct Leaf {
    pub kind: Kind,
    pub name: String,
    pub args: Vec<(String, String)>,
    pub inverted: bool,
}

/// The view of a leaf.
pub struct LeafV {
    pub kind: Kind,
    pub name: Seq<char>,
    pub args: Seq<(Seq<char>, Seq<char>)>,
    pub inverted: bool,
}

pub open spec fn leaf_view(l: &Leaf) -> LeafV {
    LeafV { kind: l.kind, name: l.name@, args: args_view(l.args@), inverted: l.inverted }
}

/// A compiled operator: one leaf, or a pipeline of sub-operators with its own
/// inversion flag.
pub enum OpNode {
    Leaf(Leaf),
    Pipe(Vec<OpNode>, bool),
}

/// The view of a compiled operator.
pub enum OpV {
    Leaf(LeafV),
    Pipe(Seq<OpV>, bool),
}

pub open spec fn op_view(n: &OpNode) -> OpV
    decreases n,
{
    match n {
        OpNode::Leaf(l) => OpV::Leaf(leaf_view(l)),
        OpNode::Pipe(steps, inv) => OpV::Pipe(ops_view(steps@), *inv),
    }
}

pub open spec fn ops_view(ss: Seq<OpNode>) -> Seq<OpV>
    decreases ss,
{
    if ss.len() == 0 {
        Seq::empty()
    } else {
        seq![op_view(&ss[0])] + ops_view(ss.drop_first())
    }
}

// ---------------------------------------------------------------------------
// The kernel interface
// ---------------------------------------------------------------------------

/// A host-provided set of operator kernels.  The engine hands a kernel the
/// compiled leaf, the operand batch and the effective direction; the kernel
/// transforms the operands in place and reports how many of them it
/// transformed successfully — a count that cannot exceed the batch.  A
/// kernel never changes the size of the batch — in return, the engine
/// promises the same of every whole operation.
pub trait OperatorKernel<T> {
    fn apply(&self, leaf: &Leaf, operands: &mut Vec<T>, forward: bool) -> (n: usize)
        ensures
            final(operands)@.len() == old(operands)@.len(),
            n <= old(operands)@.len(),
    ;
}

/// The direction a leaf kernel is invoked with: the caller's direction
/// composed with the leaf's own inversion flag — except for the adapter,
/// whose construction already swapped its descriptors, so its flag must not
/// be applied a second time.
pub open spec fn leaf_dir(l: LeafV, forward: bool) -> bool {
    match l.kind {
        Kind::Adapt(_) => forward,
        _ => forward != l.inverted,
    }
}

/// One kernel invocation of a schedule.
pub struct Call {
    pub leaf: LeafV,
    pub forward: bool,
}

/// The exact sequence of kernel invocations an operator performs when run in
/// direction `forward`: a leaf is one invocation; a pipeline composes its own
/// flag with the caller's direction and runs its children in order when the
/// effective direction is forward, in reverse order otherwise.
pub open spec fn sched(op: OpV, forward: bool) -> Seq<Call>
    decreases op,
{
    match op {
        OpV::Leaf(l) => seq![Call { leaf: l, forward: leaf_dir(l, forward) }],
        OpV::Pipe(steps, inv) => sched_list(steps, forward != inv),
    }
}

pub open spec fn sched_list(steps: Seq<OpV>, e: bool) -> Seq<Call>
    decreases steps,
{
    if steps.len() == 0 {
        Seq::empty()
    } else if e {
        sched(steps[0], true) + sched_list(steps.drop_first(), e)
    } else {
        sched_list(steps.drop_first(), e) + sched(steps[0], false)
    }
}

/// A schedule with every invocation's direction flipped.
pub open spec fn flip_all(cs: Seq<Call>) -> Seq<Call> {
    cs.map_values(|c: Call| Call { leaf: c.leaf, forward: !c.forward })
}

proof fn lemma_flip_all_concat(a: Seq<Call>, b: Seq<Call>)
    ensures
        flip_all(a + b) == flip_all(a) + flip_all(b),
{
    assert(flip_all(a + b) =~= flip_all(a) + flip_all(b));
}

proof fn lemma_reverse_concat(a: Seq<Call>, b: Seq<Call>)
    ensures
        (a + b).reverse() == b.reverse() + a.reverse(),
{
    assert((a + b).reverse() =~= b.reverse() + a.reverse());
}

/// Running an operator in one direction performs exactly the invocations of
/// the other direction, in reverse order and each with its direction
/// flipped: the inverse of a pipeline is the reversed pipeline of the
/// inverted steps.
pub proof fn lemma_pipeline_inverse(op: OpV, forward: bool)
    ensures
        sched(op, !forward) == flip_all(sched(op, forward).reverse()),
    decreases op,
{
    match op {
        OpV::Leaf(l) => {
            assert(sched(op, !forward) =~= flip_all(sched(op, forward).reverse()));
        },
        OpV::Pipe(steps, inv) => {
            lemma_pipeline_inverse_list(steps, forward != inv);
            assert(!forward != inv == !(forward != inv));
        },
    }
}

proof fn lemma_pipeline_inverse_list(steps: Seq<OpV>, e: bool)
    ensures
        sched_list(steps, !e) == flip_all(sched_list(steps, e).reverse()),
    decreases steps,
{
    if steps.len() == 0 {
        assert(sched_list(steps, !e) =~= flip_all(sched_list(steps, e).reverse()));
    } else {
        let head = steps[0];
        let tail = steps.drop_first();
        lemma_pipeline_inverse(head, true);
        lemma_pipeline_inverse(head, false);
        lemma_pipeline_inverse_list(tail, e);
        if e {
            // sched_list(steps, e) == sched(head, true) + sched_list(tail, e)
            lemma_reverse_concat(sched(head, true), sched_list(tail, e));
            lemma_flip_all_concat(sched_list(tail, e).reverse(), sched(head, true).reverse());
            assert(sched_list(steps, !e) == sched_list(tail, !e) + sched(head, false));
            assert(sched(head, false) == flip_all(sched(head, true).reverse()));
        } else {
            // sched_list(steps, e) == sched_list(tail, e) + sched(head, false)
            lemma_reverse_concat(sched_list(tail, e), sched(head, false));
            lemma_flip_all_concat(sched(head, false).reverse(), sched_list(tail, e).reverse());
            assert(sched_list(steps, !e) == sched(head, true) + sched_list(tail, !e));
            assert(sched(head, true) == flip_all(sched(head, false).reverse()));
        }
    }
}

// ---------------------------------------------------------------------------
// Execution
// ---------------------------------------------------------------------------

/// A pipeline node with no steps.
pub open spec fn empty_pipe(op: &OpNode) -> bool {
    match op {
        OpNode::Pipe(steps, _) => steps@.len() == 0,
        OpNode::Leaf(_) => false,
    }
}

/// The effective direction for one leaf, as `leaf_dir` states it.
fn leaf_direction(l: &Leaf, forward: bool) -> (d: bool)
    ensures
        d == leaf_dir(leaf_view(l), forward),
{
    if matches!(l.kind, Kind::Adapt(_)) {
        forward
    } else {
        forward != l.inverted
    }
}

/// The smaller of two success counts.
fn smaller(a: usize, b: usize) -> (r: usize)
    ensures
        r == vstd::math::min(a as int, b as int),
{
    if a < b {
        a
    } else {
        b
    }
}

/// Runs one compiled operator over the whole batch, in the given direction,
/// with the host's kernels: a leaf invokes its kernel once with the
/// direction `leaf_dir` states, a pipeline composes its own flag and
/// delegates to the pipeline kernels below.  Stated here: the batch keeps
/// its size, and an empty pipeline performs nothing and answers
/// `usize::MAX`.  The counts the kernels answer are the host's own.
pub fn run_node<T: Copy, K: OperatorKernel<T>>(
    k: &K,
    op: &OpNode,
    operands: &mut Vec<T>,
    forward: bool,
) -> (n: usize)
    ensures
        final(operands)@.len() == old(operands)@.len(),
        n == usize::MAX || n <= old(operands)@.len(),
        empty_pipe(op) ==> n == usize::MAX && final(operands)@ == old(operands)@,
    decreases op, 1int,
{
    match op {
        OpNode::Leaf(leaf) => {
            let dir = leaf_direction(leaf, forward);
            k.apply(leaf, operands, dir)
        },
        OpNode::Pipe(steps, inv) => {
            let e = forward != *inv;
            if e {
                pipeline_fwd(k, steps, operands)
            } else {
                pipeline_inv(k, steps, operands)
            }
        },
    }
}

/// The forward pipeline kernel: each step run in declared order, forward,
/// accumulating the smallest per-step success count.  Stated here: the batch
/// keeps its size, and an empty step list leaves it untouched and answers
/// `usize::MAX`; what each step's kernels answer is the host's own.
pub fn pipeline_fwd<T: Copy, K: OperatorKernel<T>>(
    k: &K,
    steps: &Vec<OpNode>,
    operands: &mut Vec<T>,
) -> (n: usize)
    ensures
        final(operands)@.len() == old(operands)@.len(),
        n == usize::MAX || n <= old(operands)@.len(),
        steps@.len() == 0 ==> n == usize::MAX && final(operands)@ == old(operands)@,
    decreases steps, 0int,
{
    let mut n: usize = usize::MAX;
    let mut j: usize = 0;
    while j < steps.len()
        invariant
            j <= steps@.len(),
            operands@.len() == old(operands)@.len(),
            n == usize::MAX || n <= old(operands)@.len(),
            steps@.len() == 0 ==> n == usize::MAX && operands@ == old(operands)@,
        decreases steps@.len() - j,
    {
        let m = run_node(k, &steps[j], operands, true);
        n = smaller(n, m);
        j = j + 1;
    }
    n
}

/// The inverse pipeline kernel: each step run in reverse declared order,
/// inverse, accumulating the smallest per-step success count.  Stated here:
/// the batch keeps its size, and an empty step list leaves it untouched and
/// answers `usize::MAX`; what each step's kernels answer is the host's own.
pub fn pipeline_inv<T: Copy, K: OperatorKernel<T>>(
    k: &K,
    steps: &Vec<OpNode>,
    operands: &mut Vec<T>,
) -> (n: usize)
    ensures
        final(operands)@.len() == old(operands)@.len(),
        n == usize::MAX || n <= old(operands)@.len(),
        steps@.len() == 0 ==> n == usize::MAX && final(operands)@ == old(operands)@,
    decreases steps, 0int,
{
    let mut n: usize = usize::MAX;
    let mut j: usize = steps.len();
    while j > 0
        invariant
            j <= steps@.len(),
            operands@.len() == old(operands)@.len(),
            n == usize::MAX || n <= old(operands)@.len(),
            steps@.len() == 0 ==> n == usize::MAX && operands@ == old(operands)@,
        decreases j,
    {
        j = j - 1;
        let m = run_node(k, &steps[j], operands, false);
        n = smaller(n, m);
    }
    n
}

} // verus!
