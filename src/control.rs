use vstd::prelude::*;
use crate::types::Type;

verus! {

/// The result types of a block: at most one, held inline in a `SmallVec`. Verus refuses to
/// declare `SmallVec` itself (its parameter is bound by a trait of smallvec), so the vector
/// sits in this struct, hidden from it.
#[verifier::external_body]
#[derive(Debug)]
pub struct ResultTypes {
    inner: smallvec::SmallVec<[Type; 1]>,
}

/// What a list of result types holds.
pub uninterp spec fn result_types(v: ResultTypes) -> Seq<Type>;

/// Relies on smallvec::SmallVec::new: a new vector is empty.
#[verifier::external_body]
fn results_new() -> (r: ResultTypes)
    ensures
        result_types(r).len() == 0,
{
    ResultTypes { inner: smallvec::SmallVec::new() }
}

/// Relies on smallvec::SmallVec::push: the item is appended at the end.
#[verifier::external_body]
fn results_push(v: &mut ResultTypes, t: Type)
    requires
        result_types(*old(v)).len() < usize::MAX,
    ensures
        result_types(*final(v)) == result_types(*old(v)).push(t),
{
    v.inner.push(t)
}

/// Relies on smallvec::SmallVec::len: the number of items.
#[verifier::external_body]
fn results_len(v: &ResultTypes) -> (r: usize)
    ensures
        r == result_types(*v).len(),
{
    v.inner.len()
}

/// The result types of a block whose type is `ty`: none, or that one.
fn block_results(ty: Option<Type>) -> (r: ResultTypes)
    ensures
        result_types(r) == (match ty {
            Some(t) => seq![t],
            None => Seq::<Type>::empty(),
        }),
{
    let mut r = results_new();
    if let Some(t) = ty {
        results_push(&mut r, t);
        assert(result_types(r) =~= seq![t]);
    } else {
        assert(result_types(r) =~= Seq::<Type>::empty());
    }
    r
}

/// A label of the assembler, named by its number.
#[derive(Debug, Clone, Copy, PartialEq, Eq, Structural)]
pub struct DynamicLabel(pub usize);

/// Where an `if` block stands.
#[derive(Debug, Clone, Copy, PartialEq, Eq, Structural)]
pub enum IfElseState {
    /// Not an `if` block.
    Plain,
    /// In the true branch, with the label of the else branch still to bind.
    If(DynamicLabel),
    Else,
}

/// Where a frame stands, without the label of a pending else branch.
#[derive(Debug, Clone, Copy, PartialEq, Eq, Structural)]
pub enum Branch {
    NotIf,
    InIf,
    InElse,
}

pub open spec fn branch_of(s: IfElseState) -> Branch {
    match s {
        IfElseState::Plain => Branch::NotIf,
        IfElseState::If(_) => Branch::InIf,
        IfElseState::Else => Branch::InElse,
    }
}

/// A block, loop or if that the code generator is inside.
#[derive(Debug)]
pub struct ControlFrame {
    pub label: DynamicLabel,
    pub loop_like: bool,
    pub if_else: IfElseState,
    pub results: ResultTypes,
    pub value_stack_depth: usize,
}

/// The operators that steer unreachable code: those that open a block, `Else`, `End`, and
/// every other one.
#[derive(Debug, Clone, Copy, PartialEq, Eq, Structural)]
pub enum OpClass {
    Opens,
    Else,
    End,
    Other,
}

/// The unreachable depth after an operator seen in unreachable code: opening a block goes one
/// level deeper, `End` one level up, and `Else` leaves the region only when it closes the true
/// branch of an `if` at depth one.
pub open spec fn spec_unreachable_step(depth: nat, op: OpClass, top_is_if: bool) -> nat {
    match op {
        OpClass::Opens => depth + 1,
        OpClass::End => (depth - 1) as nat,
        OpClass::Else => if depth == 1 && top_is_if {
            0
        } else {
            depth
        },
        OpClass::Other => depth,
    }
}

/// Steps the unreachable depth over one operator. Returns the new depth, and whether the
/// operator is then translated (only when the depth comes back to zero).
pub fn unreachable_step(depth: usize, op: OpClass, top_is_if: bool) -> (r: (usize, bool))
    requires
        depth > 0,
        depth < usize::MAX,
    ensures
        r.0 == spec_unreachable_step(depth as nat, op, top_is_if),
        r.1 == (r.0 == 0),
{
    let d = match op {
        OpClass::Opens => depth + 1,
        OpClass::End => depth - 1,
        OpClass::Else => {
            if depth == 1 && top_is_if {
                0
            } else {
                depth
            }
        },
        OpClass::Other => depth,
    };
    (d, d == 0)
}

/// The unreachable depth after the operators `ops`, from `depth`; it stays zero once it
/// reaches zero, for from there on the operators are translated.
pub open spec fn unreachable_run(depth: nat, ops: Seq<OpClass>) -> nat
    decreases ops.len(),
{
    if ops.len() == 0 || depth == 0 {
        depth
    } else {
        unreachable_run(spec_unreachable_step(depth, ops[0], false), ops.drop_first())
    }
}

/// Whether `ops` is a run of properly nested blocks: every opening matched by a later `End`,
/// no `End` without its opening.
pub open spec fn balanced_from(open: nat, ops: Seq<OpClass>) -> bool
    decreases ops.len(),
{
    if ops.len() == 0 {
        open == 0
    } else {
        match ops[0] {
            OpClass::Opens => balanced_from(open + 1, ops.drop_first()),
            OpClass::End => open > 0 && balanced_from((open - 1) as nat, ops.drop_first()),
            _ => balanced_from(open, ops.drop_first()),
        }
    }
}

/// Whole blocks met in unreachable code are skipped whole: after properly nested operators
/// without `Else`, the depth is what it was, and the region does not end inside them.
pub proof fn lemma_unreachable_skips_blocks(depth: nat, open: nat, ops: Seq<OpClass>)
    requires
        depth > 0,
        balanced_from(open, ops),
        forall|i: int| 0 <= i < ops.len() ==> ops[i] != OpClass::Else,
    ensures
        unreachable_run(depth + open, ops) == depth,
    decreases ops.len(),
{
    if ops.len() > 0 {
        let rest = ops.drop_first();
        assert forall|i: int| 0 <= i < rest.len() implies rest[i] != OpClass::Else by {
            assert(rest[i] == ops[i + 1]);
        }
        match ops[0] {
            OpClass::Opens => {
                lemma_unreachable_skips_blocks(depth, open + 1, rest);
            },
            OpClass::End => {
                lemma_unreachable_skips_blocks(depth, (open - 1) as nat, rest);
            },
            _ => {
                lemma_unreachable_skips_blocks(depth, open, rest);
            },
        }
    }
}

/// The control part of a function's code generation: how deep the value stack is, which
/// blocks are open, and how deep into unreachable code the operators are.
#[derive(Debug)]
pub struct FunctionState {
    value_depth: usize,
    control_stack: Vec<ControlFrame>,
    unreachable_depth: usize,
    next_label: usize,
}

impl FunctionState {
    pub closed spec fn depth(&self) -> nat {
        self.value_depth as nat
    }

    pub closed spec fn frames(&self) -> Seq<(nat, nat, bool, Branch)> {
        self.control_stack@.map_values(
            |f: ControlFrame|
                (f.value_stack_depth as nat, result_types(f.results).len(), f.loop_like, branch_of(f.if_else)),
        )
    }

    pub closed spec fn unreachable(&self) -> nat {
        self.unreachable_depth as nat
    }

    /// The depth that the innermost frame entered with.
    pub open spec fn top_entry(&self) -> nat {
        self.frames().last().0
    }

    /// Frames enter at increasing depths, none above the current depth, each with at most
    /// one result.
    pub open spec fn wf(&self) -> bool {
        &&& forall|i: int, j: int|
            0 <= i < j < self.frames().len() ==> self.frames()[i].0 <= self.frames()[j].0
        &&& forall|i: int| 0 <= i < self.frames().len() ==> self.frames()[i].0 <= self.depth()
        &&& forall|i: int| 0 <= i < self.frames().len() ==> #[trigger] self.frames()[i].1 <= 1
    }

    /// The state at the start of a function's body: the outer frame, entered with an empty
    /// value stack.
    pub fn new(ret: Option<Type>) -> (r: Self)
        ensures
            r.wf(),
            r.depth() == 0,
            r.unreachable() == 0,
            r.frames() == seq![(0nat, if ret is Some { 1nat } else { 0 }, false, Branch::NotIf)],
    {
        let results = block_results(ret);
        let mut control_stack: Vec<ControlFrame> = Vec::new();
        control_stack.push(
            ControlFrame {
                label: DynamicLabel(0),
                loop_like: false,
                if_else: IfElseState::Plain,
                results,
                value_stack_depth: 0,
            },
        );
        let r = FunctionState { value_depth: 0, control_stack, unreachable_depth: 0, next_label: 1 };
        assert(r.frames() =~= seq![(0nat, result_types(r.control_stack@[0].results).len(), false, Branch::NotIf)]);
        r
    }

    pub fn value_depth(&self) -> (r: usize)
        ensures
            r == self.depth(),
    {
        self.value_depth
    }

    pub fn frame_count(&self) -> (r: usize)
        ensures
            r == self.frames().len(),
    {
        self.control_stack.len()
    }

    /// The depth the innermost frame entered with, and its number of results.
    pub fn top_frame(&self) -> (r: (usize, usize))
        requires
            self.frames().len() > 0,
        ensures
            r.0 == self.frames().last().0,
            r.1 == self.frames().last().1,
    {
        let n = self.control_stack.len();
        let f = &self.control_stack[n - 1];
        (f.value_stack_depth, results_len(&f.results))
    }

    /// Frame `i`: the depth it entered with, its number of results, and whether it is a loop.
    pub fn frame_at(&self, i: usize) -> (r: (usize, usize, bool))
        requires
            i < self.frames().len(),
        ensures
            r.0 == self.frames()[i as int].0,
            r.1 == self.frames()[i as int].1,
            r.2 == self.frames()[i as int].2,
    {
        let f = &self.control_stack[i];
        (f.value_stack_depth, results_len(&f.results), f.loop_like)
    }

    pub fn unreachable_depth(&self) -> (r: usize)
        ensures
            r == self.unreachable(),
    {
        self.unreachable_depth
    }

    fn fresh_label(&mut self) -> (r: DynamicLabel)
        ensures
            final(self).value_depth == old(self).value_depth,
            final(self).control_stack == old(self).control_stack,
            final(self).unreachable_depth == old(self).unreachable_depth,
    {
        let l = DynamicLabel(self.next_label);
        if self.next_label < usize::MAX {
            self.next_label = self.next_label + 1;
        }
        l
    }

    /// An operator that pops `pops` values and pushes `pushes`, within the innermost block.
    pub fn operate(&mut self, pops: usize, pushes: usize)
        requires
            old(self).wf(),
            old(self).frames().len() > 0,
            old(self).unreachable() == 0,
            old(self).top_entry() + pops <= old(self).depth(),
            old(self).depth() + pushes <= usize::MAX,
        ensures
            final(self).wf(),
            final(self).depth() == old(self).depth() - pops + pushes,
            final(self).frames() == old(self).frames(),
            final(self).unreachable() == 0,
            (final(self).depth(), final(self).frames()) == step(
                (old(self).depth(), old(self).frames()),
                CtrlOp::Operate(pops, pushes),
            ),
    {
        self.value_depth = self.value_depth - pops + pushes;
    }

    /// Opens a block, a loop, or (after popping its condition) an if.
    pub fn open(&mut self, kind: OpenKind, ty: Option<Type>)
        requires
            old(self).wf(),
            old(self).frames().len() > 0,
            old(self).unreachable() == 0,
            kind == OpenKind::If ==> old(self).top_entry() < old(self).depth(),
        ensures
            final(self).wf(),
            final(self).unreachable() == 0,
            final(self).depth() == old(self).depth() - if kind == OpenKind::If {
                1int
            } else {
                0
            },
            final(self).frames().drop_last() == old(self).frames(),
            final(self).frames().last().0 == final(self).depth(),
            final(self).frames().last().1 == if ty is Some {
                1nat
            } else {
                0
            },
            final(self).frames().last().2 == (kind == OpenKind::Loop),
            (final(self).frames().last().3 == Branch::InIf) == (kind == OpenKind::If),
            (final(self).depth(), final(self).frames()) == step(
                (old(self).depth(), old(self).frames()),
                CtrlOp::Open(kind, ty is Some),
            ),
    {
        let results = block_results(ty);
        let label = self.fresh_label();
        if kind == OpenKind::If {
            self.value_depth = self.value_depth - 1;
        }
        let if_else = if kind == OpenKind::If {
            IfElseState::If(self.fresh_label())
        } else {
            IfElseState::Plain
        };
        let ghost before = self.control_stack@;
        self.control_stack.push(
            ControlFrame {
                label,
                loop_like: kind == OpenKind::Loop,
                if_else,
                results,
                value_stack_depth: self.value_depth,
            },
        );
        proof {
            assert(self.control_stack@.drop_last() =~= before);
            assert(self.frames().drop_last() =~= old(self).frames());
            let f = self.frames();
            let o = old(self).frames();
            assert(f.len() == o.len() + 1);
            assert forall|i: int| 0 <= i < o.len() implies f[i] == o[i] by {
                assert(f.drop_last()[i] == f[i]);
            }
            assert(f[o.len() as int].0 == self.value_depth);
            assert forall|i: int, j: int| 0 <= i < j < f.len() implies f[i].0 <= f[j].0 by {
                if j == o.len() {
                    assert(o[i].0 <= o.last().0);
                }
            }
        }
    }

    /// `Else`: the true branch ends with its results in place; the value stack goes back to
    /// the depth the `if` entered with.
    pub fn else_(&mut self)
        requires
            old(self).wf(),
            old(self).frames().len() > 0,
            old(self).unreachable() == 0,
            old(self).frames().last().3 == Branch::InIf,
        ensures
            final(self).wf(),
            final(self).unreachable() == 0,
            final(self).depth() == old(self).top_entry(),
            final(self).frames().drop_last() == old(self).frames().drop_last(),
            final(self).frames().last() == (
                old(self).frames().last().0,
                old(self).frames().last().1,
                old(self).frames().last().2,
                Branch::InElse,
            ),
            (final(self).depth(), final(self).frames()) == step(
                (old(self).depth(), old(self).frames()),
                CtrlOp::Else,
            ),
    {
        let n = self.control_stack.len();
        let mut frame = self.control_stack.pop().unwrap();
        let ghost rest = self.control_stack@;
        self.value_depth = frame.value_stack_depth;
        frame.if_else = IfElseState::Else;
        self.control_stack.push(frame);
        proof {
            assert(self.control_stack@.drop_last() =~= rest);
            assert(old(self).control_stack@.drop_last() =~= rest);
            assert(self.frames().drop_last() =~= old(self).frames().drop_last());
            let f = self.frames();
            let o = old(self).frames();
            assert(f.len() == o.len());
            assert forall|i: int| 0 <= i < o.len() implies f[i].0 == o[i].0 && f[i].1 == o[i].1 by {
                if i < o.len() - 1 {
                    assert(f.drop_last()[i] == f[i]);
                    assert(o.drop_last()[i] == o[i]);
                }
            }
        }
    }

    /// `End`: closes the innermost block. The value stack goes back to the depth the block
    /// entered with, and its results, if any, are pushed back. Returns whether that was the
    /// function's outer frame.
    pub fn end(&mut self) -> (r: bool)
        requires
            old(self).wf(),
            old(self).frames().len() > 0,
            old(self).unreachable() == 0,
            old(self).top_entry() + old(self).frames().last().1 <= usize::MAX,
        ensures
            final(self).wf(),
            final(self).unreachable() == 0,
            r == (old(self).frames().len() == 1),
            final(self).frames() == old(self).frames().drop_last(),
            final(self).depth() == old(self).top_entry() + old(self).frames().last().1,
            (final(self).depth(), final(self).frames()) == step(
                (old(self).depth(), old(self).frames()),
                CtrlOp::End,
            ),
    {
        let frame = self.control_stack.pop().unwrap();
        proof {
            assert(self.control_stack@ =~= old(self).control_stack@.drop_last());
            assert(self.frames() =~= old(self).frames().drop_last());
        }
        self.value_depth = frame.value_stack_depth + results_len(&frame.results);
        self.control_stack.len() == 0
    }

    /// `Br`, `Return` and `Unreachable`: what follows is unreachable up to the end of the
    /// block.
    pub fn enter_unreachable(&mut self)
        requires
            old(self).wf(),
        ensures
            final(self).wf(),
            final(self).unreachable() == 1,
            final(self).depth() == old(self).depth(),
            final(self).frames() == old(self).frames(),
    {
        self.unreachable_depth = 1;
        assert(self.frames() == old(self).frames());
    }

    /// Steps over an operator in unreachable code. Returns whether the operator ends the
    /// unreachable region and is then translated.
    pub fn skip(&mut self, op: OpClass) -> (r: bool)
        requires
            old(self).wf(),
            old(self).unreachable() > 0,
            old(self).unreachable() < usize::MAX,
            old(self).frames().len() > 0,
        ensures
            final(self).wf(),
            final(self).depth() == old(self).depth(),
            final(self).frames() == old(self).frames(),
            final(self).unreachable() == spec_unreachable_step(
                old(self).unreachable(),
                op,
                old(self).frames().last().3 == Branch::InIf,
            ),
            r == (final(self).unreachable() == 0),
    {
        let n = self.control_stack.len();
        let top_is_if = match self.control_stack[n - 1].if_else {
            IfElseState::If(_) => true,
            _ => false,
        };
        let (d, go) = unreachable_step(self.unreachable_depth, op, top_is_if);
        self.unreachable_depth = d;
        go
    }
}

/// What opens a block.
#[derive(Debug, Clone, Copy, PartialEq, Eq, Structural)]
pub enum OpenKind {
    Block,
    Loop,
    If,
}

/// An operator as the value stack and the control stack see it.
#[derive(Debug, Clone, Copy, PartialEq, Eq, Structural)]
pub enum CtrlOp {
    /// Pops the first number of values, then pushes the second.
    Operate(usize, usize),
    /// Opens a block of that kind, with one result or none.
    Open(OpenKind, bool),
    Else,
    End,
}

/// The depth of the value stack and the open frames, each as (entry depth, number of
/// results, loop-like, if-else state).
pub type Shape = (nat, Seq<(nat, nat, bool, Branch)>);

/// Whether `op` is well typed in `st`, as validation guarantees: it pops only values of the
/// innermost block, and a block ends, or an if's true branch, with exactly its results.
pub open spec fn valid_step(st: Shape, op: CtrlOp) -> bool {
    let (depth, frames) = st;
    frames.len() > 0 && {
        let top = frames.last();
        match op {
            CtrlOp::Operate(pops, _) => top.0 + pops <= depth,
            CtrlOp::Open(kind, _) => kind == OpenKind::If ==> top.0 < depth,
            CtrlOp::Else => top.3 == Branch::InIf && depth == top.0 + top.1,
            CtrlOp::End => depth == top.0 + top.1,
        }
    }
}

/// What `op` does to `st`.
pub open spec fn step(st: Shape, op: CtrlOp) -> Shape {
    let (depth, frames) = st;
    let top = frames.last();
    match op {
        CtrlOp::Operate(pops, pushes) => ((depth - pops + pushes) as nat, frames),
        CtrlOp::Open(kind, one) => {
            let d: nat = if kind == OpenKind::If {
                (depth - 1) as nat
            } else {
                depth
            };
            (
                d,
                frames.push(
                    (
                        d,
                        if one {
                            1nat
                        } else {
                            0
                        },
                        kind == OpenKind::Loop,
                        if kind == OpenKind::If {
                            Branch::InIf
                        } else {
                            Branch::NotIf
                        },
                    ),
                ),
            )
        },
        CtrlOp::Else => (top.0, frames.drop_last().push((top.0, top.1, top.2, Branch::InElse))),
        CtrlOp::End => (top.0 + top.1, frames.drop_last()),
    }
}

/// The shape after the operators `ops`, or none if one of them is not well typed.
pub open spec fn run(st: Shape, ops: Seq<CtrlOp>) -> Option<Shape>
    decreases ops.len(),
{
    if ops.len() == 0 {
        Some(st)
    } else if valid_step(st, ops[0]) {
        run(step(st, ops[0]), ops.drop_first())
    } else {
        None
    }
}

/// The shape at the start of a function body with `results` results.
pub open spec fn start_shape(results: nat) -> Shape {
    (0, seq![(0nat, results, false, Branch::NotIf)])
}

/// Value-stack soundness: a well-typed function body, run from an empty value stack until its
/// outer frame closes, leaves exactly its declared results on the value stack: what it pushed
/// minus what it popped is the number of results.
pub proof fn lemma_value_stack_soundness(results: nat, ops: Seq<CtrlOp>)
    requires
        run(start_shape(results), ops) matches Some(fin) && fin.1.len() == 0,
    ensures
        (run(start_shape(results), ops)->0).0 == results,
{
    lemma_run_outer(start_shape(results), results, ops);
}

proof fn lemma_run_outer(st: Shape, results: nat, ops: Seq<CtrlOp>)
    requires
        st.1.len() > 0,
        st.1[0] == (0nat, results, false, Branch::NotIf),
        run(st, ops) matches Some(fin) && fin.1.len() == 0,
    ensures
        (run(st, ops)->0).0 == results,
    decreases ops.len(),
{
    let op = ops[0];
    let next = step(st, op);
    if next.1.len() == 0 {
        assert(op == CtrlOp::End);
        if ops.drop_first().len() > 0 {
            assert(!valid_step(next, ops.drop_first()[0]));
        }
    } else {
        match op {
            CtrlOp::Else => {
                if st.1.len() == 1 {
                    assert(st.1.last() == st.1[0]);
                } else {
                    assert(next.1[0] == st.1.drop_last()[0]);
                }
            },
            CtrlOp::End => {
                assert(next.1[0] == st.1[0]);
            },
            CtrlOp::Open(_, _) => {
                assert(next.1[0] == st.1[0]);
            },
            _ => {},
        }
        lemma_run_outer(next, results, ops.drop_first());
    }
}

} // verus!
