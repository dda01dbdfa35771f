//! The interpreter's general laws, each proved from the contracts of the
//! functions it speaks of.

use vstd::prelude::*;

use crate::bits;
use crate::building::Building;
use crate::instruction::{
    exec_rel, op_outcome, setlike, wrote_slot, Instruction, InstructionExecuteResult, Operator,
    ValueArg,
};
use crate::value::{val_equiv, utf16_of, BuildingRef, LazyUtf16String, Value};
use crate::variable::{Variable, VarHandle};
use crate::vm::{cycle_rel, cycle_step, decide_finish, VmCycleResult, VmError, VmFinishReason, VM};

verus! {

/// Handle stability: a handle issued against a store addresses the same
/// slot, with the same name, in every later store, because stores only
/// grow at the end. `n` is any store whose prefix is the issuing store.
pub proof fn lemma_handle_stability(o: Seq<Variable>, n: Seq<Variable>, h: int)
    requires
        0 <= h < o.len(),
        n.len() >= o.len(),
        n.take(o.len() as int) == o,
    ensures
        n[h] == o[h],
        n[h].name@ == o[h].name@,
{
    assert(n.take(o.len() as int)[h] == n[h]);
}

/// Constant immutability: a write through the constness check into a
/// constant slot fails with `ConstantMutation` naming the slot, and
/// leaves every slot unchanged. Construction makes every builtin except
/// `@counter` and `@unit` constant, and every device-named slot constant,
/// so this covers writing to any of them.
pub proof fn lemma_constant_immutable(
    o: Seq<Variable>,
    n: Seq<Variable>,
    h: int,
    x: Value,
    r: Result<InstructionExecuteResult, VmError>,
)
    requires
        0 <= h < o.len(),
        o[h].constant,
        setlike(o, n, h, x, r),
    ensures
        n == o,
        r matches Err(VmError::ConstantMutation(nm)) && nm@ == o[h].name@,
{
}

/// Where the program counter lands when an instruction of this shape
/// cannot have written it: these instructions write at most their
/// destination slot, and that slot is not the counter's.
pub open spec fn counter_untouched(ins: Instruction, pc: VarHandle) -> bool {
    match ins {
        Instruction::Print(_) => true,
        Instruction::PrintChar(_) => true,
        Instruction::Format(_) => true,
        Instruction::PrintFlush(_) => true,
        Instruction::Wait(_) => true,
        Instruction::Stop => true,
        Instruction::Read(d, _, _) => d.0 != pc.0,
        Instruction::GetLink(d, _) => d.0 != pc.0,
        Instruction::Sensor(d, _, _) => d.0 != pc.0,
        Instruction::SetVar(d, _) => d.0 != pc.0,
        Instruction::Op(_, d, _, _) => d.0 != pc.0,
        _ => false,
    }
}

/// The counter fetched at the start of a cycle, as an integer.
pub open spec fn fetched_pc(pre: VM) -> int {
    bits::round_i64_b(pre.variables.vars@[pre.pc_handle.0 as int].value->Num_0) as int
}

/// The index the cycle executes: the fetched counter, wrapped to 0 when
/// it points past the end.
pub open spec fn executed_index(pre: VM) -> int {
    if fetched_pc(pre) >= pre.code@.len() {
        0int
    } else {
        fetched_pc(pre)
    }
}

/// Program-counter arithmetic: after a successful cycle whose instruction
/// did not write `@counter`, the counter holds exactly the executed index
/// plus one (the fetched counter, wrapped to 0 past the end, plus one).
#[verifier::rlimit(100)]
pub proof fn lemma_pc_arithmetic(pre: VM, post: VM, c: VmCycleResult)
    requires
        pre.wf(),
        pre.code@.len() < 0x20_0000_0000_0000,
        cycle_rel(pre, post, Ok(c)),
        pre.variables.vars@[pre.pc_handle.0 as int].value is Num,
        bits::near_int_b(pre.variables.vars@[pre.pc_handle.0 as int].value->Num_0),
        fetched_pc(pre) >= 0,
        counter_untouched(pre.code@[executed_index(pre)], pre.pc_handle),
    ensures
        post.variables.vars@[pre.pc_handle.0 as int].value matches Value::Num(b) && b
            == bits::u64_to_bits((executed_index(pre) + 1) as u64) && bits::round_i64_b(b)
            == executed_index(pre) + 1,
{
    let epc = executed_index(pre);
    let wrap = fetched_pc(pre) >= pre.code@.len();
    assert(cycle_step(pre, post, epc, wrap, Ok(c)));
    let mid = choose|mid: Seq<Variable>|
        #[trigger] wrote_slot(
            pre.variables.vars@,
            mid,
            pre.pc_handle.0 as int,
            Value::Num(bits::u64_to_bits((epc + 1) as u64)),
        ) && c.pc_wrap == wrap && exec_rel(
            pre.code@[epc],
            pre.pc_handle,
            mid,
            pre.print_buffer@,
            pre.buildings@,
            post.variables.vars@,
            post.print_buffer@,
            post.buildings@,
            Ok(InstructionExecuteResult { halt: c.halt }),
        );
    let h = pre.pc_handle.0 as int;
    assert(mid[h].value is Num && mid[h].value->Num_0 == bits::u64_to_bits((epc + 1) as u64));
    assert(post.variables.vars@[h].value == mid[h].value) by {
        match pre.code@[epc] {
            Instruction::Read(d, _, _) => {
                assert(d.0 != pre.pc_handle.0);
            },
            Instruction::GetLink(d, _) => {
                assert(d.0 != pre.pc_handle.0);
            },
            Instruction::Sensor(d, _, _) => {
                assert(d.0 != pre.pc_handle.0);
            },
            Instruction::SetVar(d, _) => {
                assert(d.0 != pre.pc_handle.0);
            },
            Instruction::Op(_, d, _, _) => {
                assert(d.0 != pre.pc_handle.0);
            },
            _ => {},
        }
    }
    assert(epc + 1 <= 0x20_0000_0000_0000);
    bits::lemma_small_u64_roundtrip((epc + 1) as u64);
}

/// Print-buffer round trip, first half: `print` appends exactly the
/// printed value's rendering to the buffer, so the buffer accumulates the
/// concatenation of everything printed since the last flush.
pub proof fn lemma_print_accumulates(
    a: ValueArg,
    pc: VarHandle,
    ov: Seq<Variable>,
    ob: Seq<char>,
    od: Seq<Building>,
    nv: Seq<Variable>,
    nb: Seq<char>,
    nd: Seq<Building>,
    t: InstructionExecuteResult,
)
    requires
        exec_rel(Instruction::Print(a), pc, ov, ob, od, nv, nb, nd, Ok(t)),
    ensures
        nb == ob.add(crate::building::display_value_b(a.eval_s(ov), od)),
        nv == ov,
        nd == od,
{
}

/// Print-buffer round trip, second half: a flush into a message display
/// moves the whole accumulated buffer into the display's text and leaves
/// the buffer empty.
pub proof fn lemma_print_flush_round_trip(
    a: ValueArg,
    pc: VarHandle,
    ov: Seq<Variable>,
    ob: Seq<char>,
    od: Seq<Building>,
    nv: Seq<Variable>,
    nb: Seq<char>,
    nd: Seq<Building>,
    t: InstructionExecuteResult,
    di: usize,
)
    requires
        exec_rel(Instruction::PrintFlush(a), pc, ov, ob, od, nv, nb, nd, Ok(t)),
        a.eval_s(ov) == Value::Building(BuildingRef::Device(di)),
        (di as int) < od.len(),
        od[di as int] is Message,
    ensures
        nd[di as int] is Message,
        nd[di as int]->Message_0.text@ == ob,
        nb == Seq::<char>::empty(),
        nv == ov,
{
}

/// The string-indexing law of `read`: reading a string at an in-range
/// index yields the UTF-16 code unit of the string's text at that index,
/// as a number.
pub proof fn lemma_read_string_indexing(
    dst: VarHandle,
    src: ValueArg,
    idx: ValueArg,
    pc: VarHandle,
    ov: Seq<Variable>,
    ob: Seq<char>,
    od: Seq<Building>,
    nv: Seq<Variable>,
    nb: Seq<char>,
    nd: Seq<Building>,
    t: InstructionExecuteResult,
    l: LazyUtf16String,
)
    requires
        exec_rel(Instruction::Read(dst, src, idx), pc, ov, ob, od, nv, nb, nd, Ok(t)),
        src.eval_s(ov) == Value::Str(l),
        l.wf(),
        0 <= dst.0 < ov.len(),
    ensures
        idx.eval_s(ov) matches Value::Num(q) && {
            let i = bits::round_i64_b(q) as usize;
            &&& bits::near_int_b(q)
            &&& 0 <= bits::round_i64_b(q)
            &&& (i as int) < utf16_of(l.text()).len()
            &&& val_equiv(
                nv[dst.0 as int].value,
                Value::Num(bits::u64_to_bits(utf16_of(l.text())[i as int] as u64)),
            )
        },
{
}

/// The memory round trip: writing a number into a cell and then reading
/// the same index back yields that number.
pub proof fn lemma_memory_round_trip(
    w: (ValueArg, ValueArg, ValueArg),
    rd: (VarHandle, ValueArg, ValueArg),
    pc: VarHandle,
    s0: (Seq<Variable>, Seq<char>, Seq<Building>),
    s1: (Seq<Variable>, Seq<char>, Seq<Building>),
    s2: (Seq<Variable>, Seq<char>, Seq<Building>),
    t1: InstructionExecuteResult,
    t2: InstructionExecuteResult,
    di: usize,
    i: usize,
)
    requires
        exec_rel(
            Instruction::Write(w.0, w.1, w.2),
            pc,
            s0.0,
            s0.1,
            s0.2,
            s1.0,
            s1.1,
            s1.2,
            Ok(t1),
        ),
        exec_rel(
            Instruction::Read(rd.0, rd.1, rd.2),
            pc,
            s1.0,
            s1.1,
            s1.2,
            s2.0,
            s2.1,
            s2.2,
            Ok(t2),
        ),
        w.1.eval_s(s0.0) == Value::Building(BuildingRef::Device(di)),
        rd.1.eval_s(s1.0) == Value::Building(BuildingRef::Device(di)),
        (di as int) < s0.2.len(),
        s0.2[di as int] is Memory,
        w.2.eval_s(s0.0) matches Value::Num(q) && (bits::round_i64_b(q) as usize) == i
            && bits::round_i64_b(q) >= 0,
        rd.2.eval_s(s1.0) matches Value::Num(q) && (bits::round_i64_b(q) as usize) == i
            && bits::round_i64_b(q) >= 0,
        0 <= rd.0.0 < s1.0.len(),
    ensures
        w.0.eval_s(s0.0) matches Value::Num(x) && val_equiv(
            s2.0[rd.0.0 as int].value,
            Value::Num(x),
        ),
{
    assert(s1.2[di as int]->Memory_0.data@[i as int] == w.0.eval_s(s0.0)->Num_0);
}

/// Termination priority: a halt ends the run with `Halt` whatever the
/// wrap flag says, and a wrap with wrap-termination on ends it with
/// `PcWrap` rather than letting the budget run out to `InsLimit`.
pub proof fn lemma_termination_priority(c: VmCycleResult, end_on_wrap: bool)
    ensures
        c.halt ==> decide_finish(c, end_on_wrap) == Some(VmFinishReason::Halt),
        !c.halt && c.pc_wrap && end_on_wrap ==> decide_finish(c, end_on_wrap) == Some(
            VmFinishReason::PcWrap,
        ),
        decide_finish(c, end_on_wrap) is None ==> !c.halt && !(c.pc_wrap && end_on_wrap),
{
}

/// The operators whose results are booleans.
pub open spec fn boolean_operator(op: Operator) -> bool {
    match op {
        Operator::Not => true,
        Operator::Land => true,
        Operator::LessThan => true,
        Operator::LessThanEq => true,
        Operator::GreaterThan => true,
        Operator::GreaterThanEq => true,
        Operator::StrictEqual => true,
        Operator::Equal => true,
        Operator::NotEqual => true,
        _ => false,
    }
}

/// The shape of the per-cycle decision, spelled out: a cycle the run
/// passes over neither halted nor wrap-terminated; a cycle decided as
/// `PcWrap` wrapped with wrap-termination on and did not halt; and a
/// halting cycle is always decided as `Halt`. Applied across `run_rel`'s
/// trace, an `InsLimit` run had no halting or wrap-terminating cycle in
/// its whole budget, and a `PcWrap` run's deciding cycle did not halt.
pub proof fn lemma_decision_shape(c: VmCycleResult, end_on_wrap: bool)
    ensures
        decide_finish(c, end_on_wrap) is None ==> !c.halt && !(c.pc_wrap && end_on_wrap),
        decide_finish(c, end_on_wrap) == Some(VmFinishReason::PcWrap) ==> !c.halt && c.pc_wrap
            && end_on_wrap,
        decide_finish(c, end_on_wrap) == Some(VmFinishReason::Halt) <==> c.halt,
{
}

/// Termination priority at the run level: a trace in which some cycle
/// halted, or wrapped with wrap-termination on, is decisive, so a run
/// related by `run_exhausts` — the only way `InsLimit` comes back — had
/// no such cycle anywhere in its budget. Together with
/// `lemma_termination_priority`, which orders `Halt` above `PcWrap` at
/// the deciding cycle itself, this is the whole priority order.
pub proof fn lemma_run_termination_priority(outs: Seq<VmCycleResult>, end_on_wrap: bool, k: int)
    requires
        0 <= k < outs.len(),
        outs[k].halt || (outs[k].pc_wrap && end_on_wrap),
    ensures
        !(forall|i: int|
            0 <= i < outs.len() ==> #[trigger] decide_finish(outs[i], end_on_wrap) is None),
{
    assert(!(decide_finish(outs[k], end_on_wrap) is None));
}

/// Boolean normalisation: every comparison and logical operator yields
/// exactly the number 1.0 or the number 0.0.
pub proof fn lemma_boolean_normalisation(
    op: Operator,
    a: Value,
    b: Value,
    bs: Seq<Building>,
    v: Value,
)
    requires
        op_outcome(op, a, b, bs, Ok(v)),
        boolean_operator(op),
    ensures
        v == Value::Num(bits::ONE_BITS) || v == Value::Num(bits::ZERO_BITS),
{
}

/// The code units a string value carries are exactly the UTF-16 encoding
/// of its text, computed once; every reading by index shares them.
pub proof fn lemma_code_units_shared(l: LazyUtf16String)
    requires
        l.wf(),
    ensures
        l.units() == utf16_of(l.text()),
{
}

} // verus!
