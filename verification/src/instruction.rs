//! Parsed instructions and their execution. Each non-empty source line
//! becomes one instruction; parsing interns variable names into the store
//! once, and execution addresses slots by the handles fixed then.

use vstd::prelude::*;

use crate::building::Building;
use crate::value::{val_equiv, Value};
use crate::variable::{find_name, has_name, Variable, Variables, VarHandle};
use crate::vm::VmError;

verus! {

/// The operators of the `op` instruction.
#[derive(Debug, Clone, Copy)]
pub enum Operator {
    Add,
    Sub,
    Mul,
    Div,
    Idiv,
    Mod,
    Pow,
    Not,
    Land,
    LessThan,
    LessThanEq,
    GreaterThan,
    GreaterThanEq,
    StrictEqual,
    Equal,
    NotEqual,
    Shl,
    Shr,
    Or,
    And,
    Xor,
    Flip,
    Max,
    Min,
    Abs,
    Log,
    Log10,
    Floor,
    Ceil,
    Sqrt,
    Angle,
    Length,
    Sin,
    Cos,
    Tan,
    Asin,
    Acos,
    Atan,
    Rand,
}

/// The keyword of each operator, in the camel-case form the language uses.
pub open spec fn operator_word(op: Operator) -> Seq<char> {
    match op {
        Operator::Add => "add"@,
        Operator::Sub => "sub"@,
        Operator::Mul => "mul"@,
        Operator::Div => "div"@,
        Operator::Idiv => "idiv"@,
        Operator::Mod => "mod"@,
        Operator::Pow => "pow"@,
        Operator::Not => "not"@,
        Operator::Land => "land"@,
        Operator::LessThan => "lessThan"@,
        Operator::LessThanEq => "lessThanEq"@,
        Operator::GreaterThan => "greaterThan"@,
        Operator::GreaterThanEq => "greaterThanEq"@,
        Operator::StrictEqual => "strictEqual"@,
        Operator::Equal => "equal"@,
        Operator::NotEqual => "notEqual"@,
        Operator::Shl => "shl"@,
        Operator::Shr => "shr"@,
        Operator::Or => "or"@,
        Operator::And => "and"@,
        Operator::Xor => "xor"@,
        Operator::Flip => "flip"@,
        Operator::Max => "max"@,
        Operator::Min => "min"@,
        Operator::Abs => "abs"@,
        Operator::Log => "log"@,
        Operator::Log10 => "log10"@,
        Operator::Floor => "floor"@,
        Operator::Ceil => "ceil"@,
        Operator::Sqrt => "sqrt"@,
        Operator::Angle => "angle"@,
        Operator::Length => "length"@,
        Operator::Sin => "sin"@,
        Operator::Cos => "cos"@,
        Operator::Tan => "tan"@,
        Operator::Asin => "asin"@,
        Operator::Acos => "acos"@,
        Operator::Atan => "atan"@,
        Operator::Rand => "rand"@,
    }
}

/// Whether some operator spells `w`.
pub open spec fn some_operator(w: Seq<char>) -> bool {
    exists|op: Operator| operator_word(op) == w
}

/// Looks an operator keyword up.
pub fn parse_operator(w: &str) -> (r: Option<Operator>)
    ensures
        match r {
            Some(op) => operator_word(op) == w@,
            None => !some_operator(w@),
        },
{
    proof {
        reveal_strlit("add");
        reveal_strlit("sub");
        reveal_strlit("mul");
        reveal_strlit("div");
        reveal_strlit("idiv");
        reveal_strlit("mod");
        reveal_strlit("pow");
        reveal_strlit("not");
        reveal_strlit("land");
        reveal_strlit("lessThan");
        reveal_strlit("lessThanEq");
        reveal_strlit("greaterThan");
        reveal_strlit("greaterThanEq");
        reveal_strlit("strictEqual");
        reveal_strlit("equal");
        reveal_strlit("notEqual");
        reveal_strlit("shl");
        reveal_strlit("shr");
        reveal_strlit("or");
        reveal_strlit("and");
        reveal_strlit("xor");
        reveal_strlit("flip");
        reveal_strlit("max");
        reveal_strlit("min");
        reveal_strlit("abs");
        reveal_strlit("log");
        reveal_strlit("log10");
        reveal_strlit("floor");
        reveal_strlit("ceil");
        reveal_strlit("sqrt");
        reveal_strlit("angle");
        reveal_strlit("length");
        reveal_strlit("sin");
        reveal_strlit("cos");
        reveal_strlit("tan");
        reveal_strlit("asin");
        reveal_strlit("acos");
        reveal_strlit("atan");
        reveal_strlit("rand");
    }
    let r: Option<Operator> = if crate::text::str_eq(w, "add") {
        Some(Operator::Add)
    } else if crate::text::str_eq(w, "sub") {
        Some(Operator::Sub)
    } else if crate::text::str_eq(w, "mul") {
        Some(Operator::Mul)
    } else if crate::text::str_eq(w, "div") {
        Some(Operator::Div)
    } else if crate::text::str_eq(w, "idiv") {
        Some(Operator::Idiv)
    } else if crate::text::str_eq(w, "mod") {
        Some(Operator::Mod)
    } else if crate::text::str_eq(w, "pow") {
        Some(Operator::Pow)
    } else if crate::text::str_eq(w, "not") {
        Some(Operator::Not)
    } else if crate::text::str_eq(w, "land") {
        Some(Operator::Land)
    } else if crate::text::str_eq(w, "lessThan") {
        Some(Operator::LessThan)
    } else if crate::text::str_eq(w, "lessThanEq") {
        Some(Operator::LessThanEq)
    } else if crate::text::str_eq(w, "greaterThan") {
        Some(Operator::GreaterThan)
    } else if crate::text::str_eq(w, "greaterThanEq") {
        Some(Operator::GreaterThanEq)
    } else if crate::text::str_eq(w, "strictEqual") {
        Some(Operator::StrictEqual)
    } else if crate::text::str_eq(w, "equal") {
        Some(Operator::Equal)
    } else if crate::text::str_eq(w, "notEqual") {
        Some(Operator::NotEqual)
    } else if crate::text::str_eq(w, "shl") {
        Some(Operator::Shl)
    } else if crate::text::str_eq(w, "shr") {
        Some(Operator::Shr)
    } else if crate::text::str_eq(w, "or") {
        Some(Operator::Or)
    } else if crate::text::str_eq(w, "and") {
        Some(Operator::And)
    } else if crate::text::str_eq(w, "xor") {
        Some(Operator::Xor)
    } else if crate::text::str_eq(w, "flip") {
        Some(Operator::Flip)
    } else if crate::text::str_eq(w, "max") {
        Some(Operator::Max)
    } else if crate::text::str_eq(w, "min") {
        Some(Operator::Min)
    } else if crate::text::str_eq(w, "abs") {
        Some(Operator::Abs)
    } else if crate::text::str_eq(w, "log") {
        Some(Operator::Log)
    } else if crate::text::str_eq(w, "log10") {
        Some(Operator::Log10)
    } else if crate::text::str_eq(w, "floor") {
        Some(Operator::Floor)
    } else if crate::text::str_eq(w, "ceil") {
        Some(Operator::Ceil)
    } else if crate::text::str_eq(w, "sqrt") {
        Some(Operator::Sqrt)
    } else if crate::text::str_eq(w, "angle") {
        Some(Operator::Angle)
    } else if crate::text::str_eq(w, "length") {
        Some(Operator::Length)
    } else if crate::text::str_eq(w, "sin") {
        Some(Operator::Sin)
    } else if crate::text::str_eq(w, "cos") {
        Some(Operator::Cos)
    } else if crate::text::str_eq(w, "tan") {
        Some(Operator::Tan)
    } else if crate::text::str_eq(w, "asin") {
        Some(Operator::Asin)
    } else if crate::text::str_eq(w, "acos") {
        Some(Operator::Acos)
    } else if crate::text::str_eq(w, "atan") {
        Some(Operator::Atan)
    } else if crate::text::str_eq(w, "rand") {
        Some(Operator::Rand)
    } else {
        None
    };
    proof {
        if r is None {
            assert forall|op: Operator| operator_word(op) != w@ by {
                match op {
                    Operator::Add => assert(operator_word(op) == "add"@),
                    Operator::Sub => assert(operator_word(op) == "sub"@),
                    Operator::Mul => assert(operator_word(op) == "mul"@),
                    Operator::Div => assert(operator_word(op) == "div"@),
                    Operator::Idiv => assert(operator_word(op) == "idiv"@),
                    Operator::Mod => assert(operator_word(op) == "mod"@),
                    Operator::Pow => assert(operator_word(op) == "pow"@),
                    Operator::Not => assert(operator_word(op) == "not"@),
                    Operator::Land => assert(operator_word(op) == "land"@),
                    Operator::LessThan => assert(operator_word(op) == "lessThan"@),
                    Operator::LessThanEq => assert(operator_word(op) == "lessThanEq"@),
                    Operator::GreaterThan => assert(operator_word(op) == "greaterThan"@),
                    Operator::GreaterThanEq => assert(operator_word(op) == "greaterThanEq"@),
                    Operator::StrictEqual => assert(operator_word(op) == "strictEqual"@),
                    Operator::Equal => assert(operator_word(op) == "equal"@),
                    Operator::NotEqual => assert(operator_word(op) == "notEqual"@),
                    Operator::Shl => assert(operator_word(op) == "shl"@),
                    Operator::Shr => assert(operator_word(op) == "shr"@),
                    Operator::Or => assert(operator_word(op) == "or"@),
                    Operator::And => assert(operator_word(op) == "and"@),
                    Operator::Xor => assert(operator_word(op) == "xor"@),
                    Operator::Flip => assert(operator_word(op) == "flip"@),
                    Operator::Max => assert(operator_word(op) == "max"@),
                    Operator::Min => assert(operator_word(op) == "min"@),
                    Operator::Abs => assert(operator_word(op) == "abs"@),
                    Operator::Log => assert(operator_word(op) == "log"@),
                    Operator::Log10 => assert(operator_word(op) == "log10"@),
                    Operator::Floor => assert(operator_word(op) == "floor"@),
                    Operator::Ceil => assert(operator_word(op) == "ceil"@),
                    Operator::Sqrt => assert(operator_word(op) == "sqrt"@),
                    Operator::Angle => assert(operator_word(op) == "angle"@),
                    Operator::Length => assert(operator_word(op) == "length"@),
                    Operator::Sin => assert(operator_word(op) == "sin"@),
                    Operator::Cos => assert(operator_word(op) == "cos"@),
                    Operator::Tan => assert(operator_word(op) == "tan"@),
                    Operator::Asin => assert(operator_word(op) == "asin"@),
                    Operator::Acos => assert(operator_word(op) == "acos"@),
                    Operator::Atan => assert(operator_word(op) == "atan"@),
                    Operator::Rand => assert(operator_word(op) == "rand"@),
                }
            }
        }
    }
    r
}

/// An expression argument: a literal value, or a variable read through
/// its handle.
#[derive(Debug)]
pub enum ValueArg {
    Value(Value),
    Variable(VarHandle),
}

impl ValueArg {
    /// A literal's value stands on its own; a variable argument needs a
    /// live handle.
    pub open spec fn valid(&self, nvars: int) -> bool {
        match self {
            ValueArg::Value(v) => v.valid(0),
            ValueArg::Variable(h) => (h.0 as int) < nvars,
        }
    }

    /// What evaluating the argument denotes: the literal, or the current
    /// slot value.
    pub open spec fn eval_s(&self, vars: Seq<Variable>) -> Value {
        match self {
            ValueArg::Value(v) => *v,
            ValueArg::Variable(h) => vars[h.0 as int].value,
        }
    }

    /// Evaluates the argument; this never fails.
    pub fn eval(&self, vars: &Variables) -> (r: Value)
        requires
            self.valid(vars.vars@.len() as int),
        ensures
            val_equiv(r, self.eval_s(vars.vars@)),
    {
        match self {
            ValueArg::Value(v) => v.duplicate(),
            ValueArg::Variable(h) => h.val(vars),
        }
    }
}

/// What one parsed line is.
#[derive(Debug)]
pub struct InstructionExecuteResult {
    pub halt: bool,
}

/// A parsed instruction: pre-resolved handles for destinations and
/// variable reads, immediate values for literals.
#[derive(Debug)]
pub enum Instruction {
    Read(VarHandle, ValueArg, ValueArg),
    Write(ValueArg, ValueArg, ValueArg),
    Print(ValueArg),
    PrintChar(ValueArg),
    Format(ValueArg),
    PrintFlush(ValueArg),
    GetLink(VarHandle, ValueArg),
    Sensor(VarHandle, ValueArg, ValueArg),
    SetVar(VarHandle, ValueArg),
    Op(Operator, VarHandle, ValueArg, ValueArg),
    Wait(ValueArg),
    Stop,
    End,
    Jump(ValueArg, String, ValueArg, ValueArg),
}

impl Instruction {
    /// Every handle lives in the store and every literal is well formed.
    pub open spec fn valid(&self, nvars: int) -> bool {
        match self {
            Instruction::Read(d, a, b) => (d.0 as int) < nvars && a.valid(nvars) && b.valid(nvars),
            Instruction::Write(a, b, c) => a.valid(nvars) && b.valid(nvars) && c.valid(nvars),
            Instruction::Print(a) => a.valid(nvars),
            Instruction::PrintChar(a) => a.valid(nvars),
            Instruction::Format(a) => a.valid(nvars),
            Instruction::PrintFlush(a) => a.valid(nvars),
            Instruction::GetLink(d, a) => (d.0 as int) < nvars && a.valid(nvars),
            Instruction::Sensor(d, a, b) => (d.0 as int) < nvars && a.valid(nvars) && b.valid(
                nvars,
            ),
            Instruction::SetVar(d, a) => (d.0 as int) < nvars && a.valid(nvars),
            Instruction::Op(_, d, a, b) => (d.0 as int) < nvars && a.valid(nvars) && b.valid(
                nvars,
            ),
            Instruction::Wait(a) => a.valid(nvars),
            Instruction::Stop => true,
            Instruction::End => true,
            Instruction::Jump(a, _, b, c) => a.valid(nvars) && b.valid(nvars) && c.valid(nvars),
        }
    }
}

// ---------------------------------------------------------------------
// The lexer.
// ---------------------------------------------------------------------

/// One step of the field splitter. A space outside quotes emits the text
/// from `start` to here; the first character after such a space begins the
/// next field; a double quote toggles quote mode without splitting. A
/// last field that did not end at the line's end is emitted too.
pub open spec fn split_step(
    s: Seq<char>,
    i: int,
    start: int,
    next_start: bool,
    quotes: bool,
    acc: Seq<Seq<char>>,
) -> Seq<Seq<char>>
    decreases s.len() - i,
{
    if i >= s.len() {
        if start != s.len() {
            acc.push(s.subrange(start, s.len() as int))
        } else {
            acc
        }
    } else {
        let c = s[i];
        let q2 = if c == '"' {
            !quotes
        } else {
            quotes
        };
        if c == ' ' && !quotes {
            split_step(s, i + 1, start, true, q2, acc.push(s.subrange(start, i)))
        } else if next_start {
            split_step(s, i + 1, i, false, q2, acc)
        } else {
            split_step(s, i + 1, start, false, q2, acc)
        }
    }
}

/// The fields of one source line.
pub open spec fn split_line_s(s: Seq<char>) -> Seq<Seq<char>> {
    split_step(s, 0, 0, false, false, Seq::empty())
}

fn subchars(cs: &Vec<char>, a: usize, b: usize) -> (r: Vec<char>)
    requires
        a <= b <= cs@.len(),
    ensures
        r@ == cs@.subrange(a as int, b as int),
{
    let mut out: Vec<char> = Vec::new();
    let mut i: usize = a;
    while i < b
        invariant
            a <= i <= b <= cs@.len(),
            out@ == cs@.subrange(a as int, i as int),
        decreases b - i,
    {
        proof {
            assert(cs@.subrange(a as int, i + 1) == cs@.subrange(a as int, i as int).push(
                cs@[i as int],
            ));
        }
        out.push(cs[i]);
        i = i + 1;
    }
    out
}

impl Instruction {
    /// Splits a line into fields: spaces separate, double quotes keep
    /// spaces inside a field, the surrounding quotes stay in the field.
    pub fn split_line(line: &str) -> (r: Vec<String>)
        ensures
            r@.map_values(|t: String| t@) == split_line_s(line@),
    {
        let cs = crate::text::chars_of(line);
        let n: usize = cs.len();
        let mut segments: Vec<String> = Vec::new();
        let mut start: usize = 0;
        let mut next_start: bool = false;
        let mut quotes: bool = false;
        let mut i: usize = 0;
        proof {
            assert(segments@.map_values(|t: String| t@) =~= Seq::<Seq<char>>::empty());
        }
        while i < n
            invariant
                n == cs@.len(),
                i <= n,
                start <= i,
                split_line_s(line@) == split_step(
                    cs@,
                    i as int,
                    start as int,
                    next_start,
                    quotes,
                    segments@.map_values(|t: String| t@),
                ),
                line@ == cs@,
            decreases n - i,
        {
            let c: char = cs[i];
            let ghost pre = segments@;
            if c == ' ' && !quotes {
                let seg = subchars(&cs, start, i);
                let t = crate::text::string_from_chars(&seg);
                segments.push(t);
                next_start = true;
                proof {
                    assert(segments@.map_values(|t: String| t@) =~= pre.map_values(
                        |t: String| t@,
                    ).push(cs@.subrange(start as int, i as int)));
                }
            } else if next_start {
                next_start = false;
                start = i;
            }
            if c == '"' {
                quotes = !quotes;
            }
            i = i + 1;
        }
        if start != n {
            let ghost pre = segments@;
            let seg = subchars(&cs, start, n);
            let t = crate::text::string_from_chars(&seg);
            segments.push(t);
            proof {
                assert(segments@.map_values(|t: String| t@) =~= pre.map_values(
                    |t: String| t@,
                ).push(cs@.subrange(start as int, n as int)));
            }
        }
        segments
    }
}

// ---------------------------------------------------------------------
// The parser.
// ---------------------------------------------------------------------

/// A token that is a double-quoted string literal.
pub open spec fn quote_tok(t: Seq<char>) -> bool {
    t.len() >= 1 && t[0] == '"' && t.last() == '"'
}

/// An expression token the parser can take: everything except a lone
/// double quote, whose quote stripping would be out of range.
pub open spec fn in_tok_ok(t: Seq<char>) -> bool {
    !(t.len() == 1 && t[0] == '"')
}

/// How interning a name relates the store before to the store after: the
/// handle of the first slot of that name, or a fresh mutable null slot.
pub open spec fn intern_rel(o: Seq<Variable>, n: Seq<Variable>, t: Seq<char>, h: VarHandle) -> bool {
    if has_name(o, t) {
        n == o && h.0 == find_name(o, t)
    } else {
        &&& n.len() == o.len() + 1
        &&& n.take(o.len() as int) == o
        &&& n.last().name@ == t
        &&& n.last().value is Null
        &&& !n.last().constant
        &&& h.0 == o.len()
    }
}

/// How parsing an expression token relates stores and the argument: a
/// quoted token is a string literal with the quotes stripped, a token of
/// the float grammar is a numeric literal, anything else is a variable
/// reference, interned.
pub open spec fn in_rel(o: Seq<Variable>, n: Seq<Variable>, t: Seq<char>, a: ValueArg) -> bool {
    if quote_tok(t) {
        &&& n == o
        &&& a matches ValueArg::Value(Value::Str(l))
        &&& (a matches ValueArg::Value(Value::Str(l)) ==> l.text() == t.subrange(
            1,
            t.len() - 1,
        ) && l.wf())
    } else if crate::numext::token_num(t) is Some {
        n == o && a == ValueArg::Value(Value::Num(crate::numext::token_num(t).unwrap()))
    } else {
        &&& a matches ValueArg::Variable(h)
        &&& (a matches ValueArg::Variable(h) ==> intern_rel(o, n, t, h))
    }
}

/// Whether a line's tokens fit some instruction's shape: a known opcode,
/// enough arguments, expression tokens that can be taken, and for `op` a
/// known operator.
pub open spec fn line_shape_ok(line: Seq<char>) -> bool {
    let ts = split_line_s(line);
    if ts.len() == 0 {
        true
    } else if ts[0] == "read"@ {
        ts.len() >= 4 && in_tok_ok(ts[2]) && in_tok_ok(ts[3])
    } else if ts[0] == "write"@ {
        ts.len() >= 4 && in_tok_ok(ts[1]) && in_tok_ok(ts[2]) && in_tok_ok(ts[3])
    } else if ts[0] == "print"@ || ts[0] == "printchar"@ || ts[0] == "format"@ || ts[0]
        == "printflush"@ || ts[0] == "wait"@ {
        ts.len() >= 2 && in_tok_ok(ts[1])
    } else if ts[0] == "getlink"@ {
        ts.len() >= 3 && in_tok_ok(ts[2])
    } else if ts[0] == "sensor"@ {
        ts.len() >= 4 && in_tok_ok(ts[2]) && in_tok_ok(ts[3])
    } else if ts[0] == "set"@ {
        ts.len() >= 3 && in_tok_ok(ts[2])
    } else if ts[0] == "op"@ {
        ts.len() >= 5 && some_operator(ts[1]) && in_tok_ok(ts[3]) && in_tok_ok(ts[4])
    } else if ts[0] == "stop"@ || ts[0] == "end"@ {
        true
    } else if ts[0] == "jump"@ {
        ts.len() >= 5 && in_tok_ok(ts[1]) && in_tok_ok(ts[3]) && in_tok_ok(ts[4])
    } else {
        false
    }
}

/// A destination then one expression argument, stores threaded.
pub open spec fn chain_da(
    o: Seq<Variable>,
    n: Seq<Variable>,
    t1: Seq<char>,
    t2: Seq<char>,
    d: VarHandle,
    a: ValueArg,
) -> bool {
    exists|v1: Seq<Variable>| #[trigger] intern_rel(o, v1, t1, d) && in_rel(v1, n, t2, a)
}

/// A destination then two expression arguments, stores threaded.
pub open spec fn chain_dab(
    o: Seq<Variable>,
    n: Seq<Variable>,
    t1: Seq<char>,
    t2: Seq<char>,
    t3: Seq<char>,
    d: VarHandle,
    a: ValueArg,
    b: ValueArg,
) -> bool {
    exists|v1: Seq<Variable>, v2: Seq<Variable>|
        #[trigger] intern_rel(o, v1, t1, d) && #[trigger] in_rel(v1, v2, t2, a) && in_rel(
            v2,
            n,
            t3,
            b,
        )
}

/// How a parsed instruction relates to its line's tokens, with the store
/// threaded left to right through the argument slots.
pub open spec fn line_parses(
    o: Seq<Variable>,
    n: Seq<Variable>,
    ts: Seq<Seq<char>>,
    ins: Instruction,
) -> bool {
    match ins {
        Instruction::Read(d, a, b) => ts[0] == "read"@ && chain_dab(
            o,
            n,
            ts[1],
            ts[2],
            ts[3],
            d,
            a,
            b,
        ),
        Instruction::Write(a, b, c) => ts[0] == "write"@ && exists|v1: Seq<Variable>, v2: Seq<
            Variable,
        >|
            #[trigger] in_rel(o, v1, ts[1], a) && #[trigger] in_rel(v1, v2, ts[2], b) && in_rel(
                v2,
                n,
                ts[3],
                c,
            ),
        Instruction::Print(a) => ts[0] == "print"@ && in_rel(o, n, ts[1], a),
        Instruction::PrintChar(a) => ts[0] == "printchar"@ && in_rel(o, n, ts[1], a),
        Instruction::Format(a) => ts[0] == "format"@ && in_rel(o, n, ts[1], a),
        Instruction::PrintFlush(a) => ts[0] == "printflush"@ && in_rel(o, n, ts[1], a),
        Instruction::GetLink(d, a) => ts[0] == "getlink"@ && chain_da(o, n, ts[1], ts[2], d, a),
        Instruction::Sensor(d, a, b) => ts[0] == "sensor"@ && chain_dab(
            o,
            n,
            ts[1],
            ts[2],
            ts[3],
            d,
            a,
            b,
        ),
        Instruction::SetVar(d, a) => ts[0] == "set"@ && chain_da(o, n, ts[1], ts[2], d, a),
        Instruction::Op(op, d, a, b) => ts[0] == "op"@ && operator_word(op) == ts[1] && chain_dab(
            o,
            n,
            ts[2],
            ts[3],
            ts[4],
            d,
            a,
            b,
        ),
        Instruction::Wait(a) => ts[0] == "wait"@ && in_rel(o, n, ts[1], a),
        Instruction::Stop => ts[0] == "stop"@ && n == o,
        Instruction::End => ts[0] == "end"@ && n == o,
        Instruction::Jump(a, imm, b, c) => ts[0] == "jump"@ && imm@ == ts[2] && exists|
            v1: Seq<Variable>,
            v2: Seq<Variable>,
        |
            #[trigger] in_rel(o, v1, ts[1], a) && #[trigger] in_rel(v1, v2, ts[3], b) && in_rel(
                v2,
                n,
                ts[4],
                c,
            ),
    }
}

/// What one source line parses to.
#[derive(Debug)]
pub enum ParsedLine {
    Empty,
    Ins(Instruction),
    Bad,
}

/// Parses an expression token, interning a variable reference. Fails only
/// on a lone double quote, a fatal flaw of the program: its quote
/// stripping has nothing to strip.
fn parse_in(tok: &String, vars: &mut Variables) -> (r: Option<ValueArg>)
    requires
        old(vars).wf(),
    ensures
        final(vars).wf(),
        final(vars).vars@.len() >= old(vars).vars@.len(),
        final(vars).vars@.take(old(vars).vars@.len() as int) == old(vars).vars@,
        forall|i: int|
            old(vars).vars@.len() <= i < final(vars).vars@.len()
                ==> ((#[trigger] final(vars).vars@[i]).value is Null
                && !final(vars).vars@[i].constant),
        match r {
            Some(a) => in_tok_ok(tok@) && in_rel(old(vars).vars@, final(vars).vars@, tok@, a)
                && a.valid(final(vars).vars@.len() as int),
            None => !in_tok_ok(tok@) && final(vars).vars@ == old(vars).vars@,
        },
{
    let cs = crate::text::chars_of(tok.as_str());
    let n: usize = cs.len();
    let is_quote: bool = n >= 1 && cs[0] == '"' && cs[n - 1] == '"';
    if is_quote {
        if n == 1 {
            return None;
        }
        let inner = subchars(&cs, 1, n - 1);
        let s = crate::text::string_from_chars(&inner);
        let l = crate::value::LazyUtf16String::new(s);
        Some(ValueArg::Value(Value::Str(l)))
    } else {
        match crate::numext::parse_num_token(&cs) {
            Some(b) => Some(ValueArg::Value(Value::Num(b))),
            None => {
                let h = vars.handle(tok.as_str());
                Some(ValueArg::Variable(h))
            },
        }
    }
}

impl Instruction {
    /// Parses one line: nothing for a blank line, an instruction, or the
    /// mark of a malformed line (an unknown opcode, too few arguments, a
    /// lone-quote token, or an unknown operator), which is fatal to the
    /// whole program.
    #[verifier::rlimit(100)]
    pub fn parse(line: &str, vars: &mut Variables) -> (r: ParsedLine)
        requires
            old(vars).wf(),
        ensures
            final(vars).wf(),
            final(vars).vars@.len() >= old(vars).vars@.len(),
            final(vars).vars@.take(old(vars).vars@.len() as int) == old(vars).vars@,
            forall|i: int|
                old(vars).vars@.len() <= i < final(vars).vars@.len()
                    ==> ((#[trigger] final(vars).vars@[i]).value is Null
                    && !final(vars).vars@[i].constant),
            (r is Empty) == (split_line_s(line@).len() == 0),
            r is Empty ==> final(vars).vars@ == old(vars).vars@,
            (r is Bad) == (split_line_s(line@).len() > 0 && !line_shape_ok(line@)),
            match r {
                ParsedLine::Ins(ins) => ins.valid(final(vars).vars@.len() as int) && line_parses(
                    old(vars).vars@,
                    final(vars).vars@,
                    split_line_s(line@),
                    ins,
                ),
                _ => true,
            },
    {
        proof {
            reveal_strlit("read");
            reveal_strlit("write");
            reveal_strlit("print");
            reveal_strlit("printchar");
            reveal_strlit("format");
            reveal_strlit("printflush");
            reveal_strlit("getlink");
            reveal_strlit("sensor");
            reveal_strlit("set");
            reveal_strlit("op");
            reveal_strlit("wait");
            reveal_strlit("stop");
            reveal_strlit("end");
            reveal_strlit("jump");
        }
        let toks: Vec<String> = Instruction::split_line(line);
        let ghost ts = split_line_s(line@);
        proof {
            assert(toks@.map_values(|t: String| t@) == ts);
            assert(toks@.len() == ts.len());
        }
        if toks.len() == 0 {
            return ParsedLine::Empty;
        }
        proof {
            assert(toks@[0]@ == ts[0]);
        }
        let w: &String = &toks[0];
        if crate::text::str_eq(w.as_str(), "read") {
            if toks.len() < 4 {
                return ParsedLine::Bad;
            }
            proof {
                assert(toks@[1]@ == ts[1] && toks@[2]@ == ts[2] && toks@[3]@ == ts[3]);
            }
            let d = vars.handle(toks[1].as_str());
            let ghost v1 = vars.vars@;
            let a = match parse_in(&toks[2], vars) {
                Some(a) => a,
                None => return ParsedLine::Bad,
            };
            let ghost v2 = vars.vars@;
            let b = match parse_in(&toks[3], vars) {
                Some(b) => b,
                None => return ParsedLine::Bad,
            };
            proof {
                assert(intern_rel(old(vars).vars@, v1, ts[1], d) && in_rel(v1, v2, ts[2], a)
                    && in_rel(v2, vars.vars@, ts[3], b));
                assert(chain_dab(old(vars).vars@, vars.vars@, ts[1], ts[2], ts[3], d, a, b));
                assert(line_parses(old(vars).vars@, vars.vars@, ts, Instruction::Read(d, a, b)));
            }
            ParsedLine::Ins(Instruction::Read(d, a, b))
        } else if crate::text::str_eq(w.as_str(), "write") {
            if toks.len() < 4 {
                return ParsedLine::Bad;
            }
            proof {
                assert(toks@[1]@ == ts[1] && toks@[2]@ == ts[2] && toks@[3]@ == ts[3]);
            }
            let a = match parse_in(&toks[1], vars) {
                Some(a) => a,
                None => return ParsedLine::Bad,
            };
            let ghost v1 = vars.vars@;
            let b = match parse_in(&toks[2], vars) {
                Some(b) => b,
                None => return ParsedLine::Bad,
            };
            let ghost v2 = vars.vars@;
            let c = match parse_in(&toks[3], vars) {
                Some(c) => c,
                None => return ParsedLine::Bad,
            };
            proof {
                assert(in_rel(old(vars).vars@, v1, ts[1], a) && in_rel(v1, v2, ts[2], b) && in_rel(
                    v2,
                    vars.vars@,
                    ts[3],
                    c,
                ));
                assert(line_parses(old(vars).vars@, vars.vars@, ts, Instruction::Write(a, b, c)));
            }
            ParsedLine::Ins(Instruction::Write(a, b, c))
        } else if crate::text::str_eq(w.as_str(), "print") {
            if toks.len() < 2 {
                return ParsedLine::Bad;
            }
            proof {
                assert(toks@[1]@ == ts[1]);
            }
            match parse_in(&toks[1], vars) {
                Some(a) => ParsedLine::Ins(Instruction::Print(a)),
                None => ParsedLine::Bad,
            }
        } else if crate::text::str_eq(w.as_str(), "printchar") {
            if toks.len() < 2 {
                return ParsedLine::Bad;
            }
            proof {
                assert(toks@[1]@ == ts[1]);
            }
            match parse_in(&toks[1], vars) {
                Some(a) => ParsedLine::Ins(Instruction::PrintChar(a)),
                None => ParsedLine::Bad,
            }
        } else if crate::text::str_eq(w.as_str(), "format") {
            if toks.len() < 2 {
                return ParsedLine::Bad;
            }
            proof {
                assert(toks@[1]@ == ts[1]);
            }
            match parse_in(&toks[1], vars) {
                Some(a) => ParsedLine::Ins(Instruction::Format(a)),
                None => ParsedLine::Bad,
            }
        } else if crate::text::str_eq(w.as_str(), "printflush") {
            if toks.len() < 2 {
                return ParsedLine::Bad;
            }
            proof {
                assert(toks@[1]@ == ts[1]);
            }
            match parse_in(&toks[1], vars) {
                Some(a) => ParsedLine::Ins(Instruction::PrintFlush(a)),
                None => ParsedLine::Bad,
            }
        } else if crate::text::str_eq(w.as_str(), "getlink") {
            if toks.len() < 3 {
                return ParsedLine::Bad;
            }
            proof {
                assert(toks@[1]@ == ts[1] && toks@[2]@ == ts[2]);
            }
            let d = vars.handle(toks[1].as_str());
            let ghost v1 = vars.vars@;
            match parse_in(&toks[2], vars) {
                Some(a) => {
                    proof {
                        assert(intern_rel(old(vars).vars@, v1, ts[1], d) && in_rel(
                            v1,
                            vars.vars@,
                            ts[2],
                            a,
                        ));
                        assert(chain_da(old(vars).vars@, vars.vars@, ts[1], ts[2], d, a));
                        assert(line_parses(
                            old(vars).vars@,
                            vars.vars@,
                            ts,
                            Instruction::GetLink(d, a),
                        ));
                    }
                    ParsedLine::Ins(Instruction::GetLink(d, a))
                },
                None => ParsedLine::Bad,
            }
        } else if crate::text::str_eq(w.as_str(), "sensor") {
            if toks.len() < 4 {
                return ParsedLine::Bad;
            }
            proof {
                assert(toks@[1]@ == ts[1] && toks@[2]@ == ts[2] && toks@[3]@ == ts[3]);
            }
            let d = vars.handle(toks[1].as_str());
            let ghost v1 = vars.vars@;
            let a = match parse_in(&toks[2], vars) {
                Some(a) => a,
                None => return ParsedLine::Bad,
            };
            let ghost v2 = vars.vars@;
            let b = match parse_in(&toks[3], vars) {
                Some(b) => b,
                None => return ParsedLine::Bad,
            };
            proof {
                assert(intern_rel(old(vars).vars@, v1, ts[1], d) && in_rel(v1, v2, ts[2], a)
                    && in_rel(v2, vars.vars@, ts[3], b));
                assert(chain_dab(old(vars).vars@, vars.vars@, ts[1], ts[2], ts[3], d, a, b));
                assert(line_parses(old(vars).vars@, vars.vars@, ts, Instruction::Sensor(d, a, b)));
            }
            ParsedLine::Ins(Instruction::Sensor(d, a, b))
        } else if crate::text::str_eq(w.as_str(), "set") {
            if toks.len() < 3 {
                return ParsedLine::Bad;
            }
            proof {
                assert(toks@[1]@ == ts[1] && toks@[2]@ == ts[2]);
            }
            let d = vars.handle(toks[1].as_str());
            let ghost v1 = vars.vars@;
            match parse_in(&toks[2], vars) {
                Some(a) => {
                    proof {
                        assert(intern_rel(old(vars).vars@, v1, ts[1], d) && in_rel(
                            v1,
                            vars.vars@,
                            ts[2],
                            a,
                        ));
                        assert(chain_da(old(vars).vars@, vars.vars@, ts[1], ts[2], d, a));
                        assert(line_parses(
                            old(vars).vars@,
                            vars.vars@,
                            ts,
                            Instruction::SetVar(d, a),
                        ));
                    }
                    ParsedLine::Ins(Instruction::SetVar(d, a))
                },
                None => ParsedLine::Bad,
            }
        } else if crate::text::str_eq(w.as_str(), "op") {
            if toks.len() < 5 {
                return ParsedLine::Bad;
            }
            proof {
                assert(toks@[1]@ == ts[1] && toks@[2]@ == ts[2] && toks@[3]@ == ts[3] && toks@[4]@
                    == ts[4]);
            }
            let op = match parse_operator(toks[1].as_str()) {
                Some(op) => op,
                None => return ParsedLine::Bad,
            };
            let d = vars.handle(toks[2].as_str());
            let ghost v1 = vars.vars@;
            let a = match parse_in(&toks[3], vars) {
                Some(a) => a,
                None => return ParsedLine::Bad,
            };
            let ghost v2 = vars.vars@;
            let b = match parse_in(&toks[4], vars) {
                Some(b) => b,
                None => return ParsedLine::Bad,
            };
            proof {
                assert(intern_rel(old(vars).vars@, v1, ts[2], d) && in_rel(v1, v2, ts[3], a)
                    && in_rel(v2, vars.vars@, ts[4], b));
                assert(chain_dab(old(vars).vars@, vars.vars@, ts[2], ts[3], ts[4], d, a, b));
                assert(line_parses(old(vars).vars@, vars.vars@, ts, Instruction::Op(op, d, a, b)));
            }
            ParsedLine::Ins(Instruction::Op(op, d, a, b))
        } else if crate::text::str_eq(w.as_str(), "wait") {
            if toks.len() < 2 {
                return ParsedLine::Bad;
            }
            proof {
                assert(toks@[1]@ == ts[1]);
            }
            match parse_in(&toks[1], vars) {
                Some(a) => ParsedLine::Ins(Instruction::Wait(a)),
                None => ParsedLine::Bad,
            }
        } else if crate::text::str_eq(w.as_str(), "stop") {
            ParsedLine::Ins(Instruction::Stop)
        } else if crate::text::str_eq(w.as_str(), "end") {
            ParsedLine::Ins(Instruction::End)
        } else if crate::text::str_eq(w.as_str(), "jump") {
            if toks.len() < 5 {
                return ParsedLine::Bad;
            }
            proof {
                assert(toks@[1]@ == ts[1] && toks@[2]@ == ts[2] && toks@[3]@ == ts[3] && toks@[4]@
                    == ts[4]);
            }
            let a = match parse_in(&toks[1], vars) {
                Some(a) => a,
                None => return ParsedLine::Bad,
            };
            let imm: String = toks[2].clone();
            let ghost v1 = vars.vars@;
            let b = match parse_in(&toks[3], vars) {
                Some(b) => b,
                None => return ParsedLine::Bad,
            };
            let ghost v2 = vars.vars@;
            let c = match parse_in(&toks[4], vars) {
                Some(c) => c,
                None => return ParsedLine::Bad,
            };
            proof {
                assert(in_rel(old(vars).vars@, v1, ts[1], a) && in_rel(v1, v2, ts[3], b) && in_rel(
                    v2,
                    vars.vars@,
                    ts[4],
                    c,
                ));
                assert(line_parses(old(vars).vars@, vars.vars@, ts, Instruction::Jump(a, imm, b, c)));
            }
            ParsedLine::Ins(Instruction::Jump(a, imm, b, c))
        } else {
            ParsedLine::Bad
        }
    }

    /// Whether every line of a program fits some instruction's shape; the
    /// construction of a machine asks for this and refuses anything else.
    pub fn line_ok(line: &str) -> (r: bool)
        ensures
            r == line_shape_ok(line@),
    {
        let mut scratch = Variables::new();
        let p = Instruction::parse(line, &mut scratch);
        match p {
            ParsedLine::Bad => false,
            _ => true,
        }
    }
}

// ---------------------------------------------------------------------
// The operators.
// ---------------------------------------------------------------------

/// Truncated signed division, as the `/` of machine integers rounds.
pub open spec fn tdiv_i64(x: int, y: int) -> int {
    let ax = if x >= 0 {
        x
    } else {
        -x
    };
    let ay = if y >= 0 {
        y
    } else {
        -y
    };
    let q = ax / ay;
    if (x >= 0) == (y >= 0) {
        q
    } else {
        -q
    }
}

/// The error when one of two operands fails its coercion to a number; the
/// first operand is coerced first.
pub open spec fn num2_fail(
    r: Result<Value, VmError>,
    a: Value,
    b: Value,
    bs: Seq<Building>,
) -> bool {
    if !(a is Num) {
        r matches Err(e) && crate::building::is_invalid_cast(e, a, bs, "num"@)
    } else {
        &&& !(b is Num)
        &&& r matches Err(e) && crate::building::is_invalid_cast(e, b, bs, "num"@)
    }
}

/// A binary numeric operation: both operands coerce or the result is `v`.
pub open spec fn bin_num(
    r: Result<Value, VmError>,
    a: Value,
    b: Value,
    bs: Seq<Building>,
    v: u64,
) -> bool {
    if a is Num && b is Num {
        r == Ok::<Value, VmError>(Value::Num(v))
    } else {
        num2_fail(r, a, b, bs)
    }
}

/// A unary numeric operation on the first operand alone.
pub open spec fn un_num(r: Result<Value, VmError>, a: Value, bs: Seq<Building>, v: u64) -> bool {
    if a is Num {
        r == Ok::<Value, VmError>(Value::Num(v))
    } else {
        r matches Err(e) && crate::building::is_invalid_cast(e, a, bs, "num"@)
    }
}

/// The exact outcome of each operator on two evaluated operands. The
/// booleans are 1.0 and 0.0; the bitwise family works on the truncated
/// 64-bit integers; the trigonometric family takes and yields degrees.
pub open spec fn op_outcome(
    op: Operator,
    a: Value,
    b: Value,
    bs: Seq<Building>,
    r: Result<Value, VmError>,
) -> bool {
    let x = a->Num_0;
    let y = b->Num_0;
    let xi = crate::bits::trunc_i64_b(x);
    let yi = crate::bits::trunc_i64_b(y);
    match op {
        Operator::Add => bin_num(r, a, b, bs, crate::numext::add_bits(x, y)),
        Operator::Sub => bin_num(r, a, b, bs, crate::numext::sub_bits(x, y)),
        Operator::Mul => bin_num(r, a, b, bs, crate::numext::mul_bits(x, y)),
        Operator::Div => if a is Num && b is Num {
            if crate::bits::is_zero_b(y) {
                r matches Err(VmError::DivisionByZero)
            } else {
                r == Ok::<Value, VmError>(Value::Num(crate::numext::div_bits(x, y)))
            }
        } else {
            num2_fail(r, a, b, bs)
        },
        Operator::Idiv => if a is Num && b is Num {
            if yi == 0 || (xi == i64::MIN && yi == -1) {
                r matches Err(VmError::DivisionByZero)
            } else {
                r == Ok::<Value, VmError>(
                    Value::Num(crate::bits::i64_to_bits(tdiv_i64(xi as int, yi as int) as i64)),
                )
            }
        } else {
            num2_fail(r, a, b, bs)
        },
        Operator::Mod => bin_num(r, a, b, bs, crate::numext::fmod_bits(x, y)),
        Operator::Pow => bin_num(r, a, b, bs, crate::numext::pow_bits(x, y)),
        Operator::Not => un_num(
            r,
            a,
            bs,
            if crate::bits::is_falsy_b(x) {
                crate::bits::ONE_BITS
            } else {
                crate::bits::ZERO_BITS
            },
        ),
        Operator::Land => bin_num(
            r,
            a,
            b,
            bs,
            if crate::bits::is_truthy_b(x) && crate::bits::is_truthy_b(y) {
                crate::bits::ONE_BITS
            } else {
                crate::bits::ZERO_BITS
            },
        ),
        Operator::LessThan => bin_num(
            r,
            a,
            b,
            bs,
            if crate::bits::num_lt_b(x, y) {
                crate::bits::ONE_BITS
            } else {
                crate::bits::ZERO_BITS
            },
        ),
        Operator::LessThanEq => bin_num(
            r,
            a,
            b,
            bs,
            if crate::bits::num_le_b(x, y) {
                crate::bits::ONE_BITS
            } else {
                crate::bits::ZERO_BITS
            },
        ),
        Operator::GreaterThan => bin_num(
            r,
            a,
            b,
            bs,
            if crate::bits::num_lt_b(y, x) {
                crate::bits::ONE_BITS
            } else {
                crate::bits::ZERO_BITS
            },
        ),
        Operator::GreaterThanEq => bin_num(
            r,
            a,
            b,
            bs,
            if crate::bits::num_le_b(y, x) {
                crate::bits::ONE_BITS
            } else {
                crate::bits::ZERO_BITS
            },
        ),
        Operator::StrictEqual => r == Ok::<Value, VmError>(
            Value::Num(
                if crate::value::val_eq_b(a, b) {
                    crate::bits::ONE_BITS
                } else {
                    crate::bits::ZERO_BITS
                },
            ),
        ),
        Operator::Equal => r == Ok::<Value, VmError>(
            Value::Num(
                if crate::value::val_eq_b(a, b) {
                    crate::bits::ONE_BITS
                } else {
                    crate::bits::ZERO_BITS
                },
            ),
        ),
        Operator::NotEqual => r == Ok::<Value, VmError>(
            Value::Num(
                if crate::value::val_eq_b(a, b) {
                    crate::bits::ZERO_BITS
                } else {
                    crate::bits::ONE_BITS
                },
            ),
        ),
        Operator::Shl => bin_num(
            r,
            a,
            b,
            bs,
            crate::bits::i64_to_bits(
                (((xi as u64) << (((yi as u64) & 63) as u64)) as i64),
            ),
        ),
        Operator::Shr => bin_num(
            r,
            a,
            b,
            bs,
            crate::bits::i64_to_bits((xi >> (((yi as u64) & 63) as u64)) as i64),
        ),
        Operator::Or => bin_num(
            r,
            a,
            b,
            bs,
            crate::bits::i64_to_bits((((xi as u64) | (yi as u64)) as i64)),
        ),
        Operator::And => bin_num(
            r,
            a,
            b,
            bs,
            crate::bits::i64_to_bits((((xi as u64) & (yi as u64)) as i64)),
        ),
        Operator::Xor => bin_num(
            r,
            a,
            b,
            bs,
            crate::bits::i64_to_bits((((xi as u64) ^ (yi as u64)) as i64)),
        ),
        Operator::Flip => un_num(r, a, bs, crate::bits::i64_to_bits(((!(xi as u64)) as i64))),
        Operator::Max => bin_num(r, a, b, bs, crate::bits::max_b(x, y)),
        Operator::Min => bin_num(r, a, b, bs, crate::bits::min_b(x, y)),
        Operator::Abs => un_num(r, a, bs, crate::bits::abs_b(x)),
        Operator::Log => un_num(r, a, bs, crate::numext::ln_bits(x)),
        Operator::Log10 => un_num(r, a, bs, crate::numext::log10_bits(x)),
        Operator::Floor => un_num(r, a, bs, crate::bits::floor_b(x)),
        Operator::Ceil => un_num(r, a, bs, crate::bits::ceil_b(x)),
        Operator::Sqrt => un_num(r, a, bs, crate::numext::sqrt_bits(x)),
        Operator::Angle => bin_num(
            r,
            a,
            b,
            bs,
            crate::numext::mul_bits(
                crate::numext::atan2_bits(y, x),
                crate::numext::RAD_TO_DEG_BITS,
            ),
        ),
        Operator::Length => bin_num(
            r,
            a,
            b,
            bs,
            crate::numext::sqrt_bits(
                crate::numext::add_bits(
                    crate::numext::mul_bits(x, x),
                    crate::numext::mul_bits(y, y),
                ),
            ),
        ),
        Operator::Sin => un_num(
            r,
            a,
            bs,
            crate::numext::sin_bits(crate::numext::mul_bits(x, crate::numext::DEG_TO_RAD_BITS)),
        ),
        Operator::Cos => un_num(
            r,
            a,
            bs,
            crate::numext::cos_bits(crate::numext::mul_bits(x, crate::numext::DEG_TO_RAD_BITS)),
        ),
        Operator::Tan => un_num(
            r,
            a,
            bs,
            crate::numext::tan_bits(crate::numext::mul_bits(x, crate::numext::DEG_TO_RAD_BITS)),
        ),
        Operator::Asin => un_num(
            r,
            a,
            bs,
            crate::numext::mul_bits(crate::numext::asin_bits(x), crate::numext::RAD_TO_DEG_BITS),
        ),
        Operator::Acos => un_num(
            r,
            a,
            bs,
            crate::numext::mul_bits(crate::numext::acos_bits(x), crate::numext::RAD_TO_DEG_BITS),
        ),
        Operator::Atan => un_num(
            r,
            a,
            bs,
            crate::numext::mul_bits(crate::numext::atan_bits(x), crate::numext::RAD_TO_DEG_BITS),
        ),
        Operator::Rand => if a is Num {
            &&& r matches Ok(Value::Num(v))
            &&& (r matches Ok(Value::Num(v)) ==> exists|n: u32|
                n < u32::MAX && v == crate::numext::mul_bits(
                    #[trigger] crate::numext::div_bits(
                        crate::bits::u64_to_bits(n as u64),
                        crate::numext::U32_MAX_BITS,
                    ),
                    x,
                ))
        } else {
            r matches Err(e) && crate::building::is_invalid_cast(e, a, bs, "num"@)
        },
    }
}

/// Validity against a store only grows with the store.
pub proof fn lemma_ins_valid_mono(ins: Instruction, n1: int, n2: int)
    requires
        ins.valid(n1),
        n1 <= n2,
    ensures
        ins.valid(n2),
{
}

/// An operator's outcome fits any operands equivalent to the evaluated
/// ones.
pub proof fn lemma_op_outcome_equiv(
    op: Operator,
    a1: Value,
    b1: Value,
    a2: Value,
    b2: Value,
    bs: Seq<Building>,
    r: Result<Value, VmError>,
)
    requires
        crate::value::val_equiv(a1, a2),
        crate::value::val_equiv(b1, b2),
        op_outcome(op, a1, b1, bs, r),
    ensures
        op_outcome(op, a2, b2, bs, r),
{
    crate::building::lemma_display_equiv(a1, a2, bs);
    crate::building::lemma_display_equiv(b1, b2, bs);
    crate::value::lemma_val_eq_equiv(a1, a2, b1, b2);
}

/// Evaluates both operands as numbers, first one first.
fn two_nums(a: &Value, b: &Value, bs: &Vec<Building>) -> (r: Result<(u64, u64), VmError>)
    ensures
        match r {
            Ok(p) => *a matches Value::Num(x) && *b matches Value::Num(y) && p == (x, y),
            Err(e) => num2_fail(Err(e), *a, *b, bs@),
        },
{
    let x = crate::building::value_as_num(a, bs)?;
    let y = crate::building::value_as_num(b, bs)?;
    Ok((x, y))
}

/// Computes one operator application on evaluated operands.
pub fn apply_op(op: Operator, a: &Value, b: &Value, bs: &Vec<Building>) -> (r: Result<
    Value,
    VmError,
>)
    ensures
        op_outcome(op, *a, *b, bs@, r),
{
    match op {
        Operator::Add => {
            let p = two_nums(a, b, bs)?;
            Ok(Value::Num(crate::numext::ext_add(p.0, p.1)))
        },
        Operator::Sub => {
            let p = two_nums(a, b, bs)?;
            Ok(Value::Num(crate::numext::ext_sub(p.0, p.1)))
        },
        Operator::Mul => {
            let p = two_nums(a, b, bs)?;
            Ok(Value::Num(crate::numext::ext_mul(p.0, p.1)))
        },
        Operator::Div => {
            let p = two_nums(a, b, bs)?;
            if p.1 & crate::bits::MAG_MASK == 0 {
                Err(VmError::DivisionByZero)
            } else {
                Ok(Value::Num(crate::numext::ext_div(p.0, p.1)))
            }
        },
        Operator::Idiv => {
            let p = two_nums(a, b, bs)?;
            let xi: i64 = crate::bits::f64_trunc_i64(p.0);
            let yi: i64 = crate::bits::f64_trunc_i64(p.1);
            if yi == 0 || (xi == i64::MIN && yi == -1) {
                Err(VmError::DivisionByZero)
            } else {
                let ax: u64 = if xi >= 0 {
                    xi as u64
                } else if xi == i64::MIN {
                    0x8000_0000_0000_0000u64
                } else {
                    (-xi) as u64
                };
                let ay: u64 = if yi >= 0 {
                    yi as u64
                } else if yi == i64::MIN {
                    0x8000_0000_0000_0000u64
                } else {
                    (-yi) as u64
                };
                let q: u64 = ax / ay;
                let qi: i64 = if (xi >= 0) == (yi >= 0) {
                    proof {
                        assert(tdiv_i64(xi as int, yi as int) == ax as int / ay as int);
                    }
                    if q > 0x7fff_ffff_ffff_ffffu64 {
                        proof {
                            if ay >= 2 {
                                vstd::arithmetic::div_mod::lemma_div_is_ordered_by_denominator(
                                    ax as int,
                                    2,
                                    ay as int,
                                );
                                vstd::arithmetic::div_mod::lemma_div_decreases(ax as int, 2);
                                assert(ax as int / 2 <= 0x4000_0000_0000_0000);
                                assert(false);
                            } else {
                                assert(ay == 1);
                                vstd::arithmetic::div_mod::lemma_div_basics(ax as int);
                                assert(q == ax);
                                assert(ax == 0x8000_0000_0000_0000u64);
                                assert(xi == i64::MIN && yi <= -1);
                                assert(yi == -1);
                                assert(false);
                            }
                        }
                        i64::MAX
                    } else {
                        q as i64
                    }
                } else {
                    proof {
                        assert(tdiv_i64(xi as int, yi as int) == -(ax as int / ay as int));
                        vstd::arithmetic::div_mod::lemma_div_is_ordered_by_denominator(
                            ax as int,
                            1,
                            ay as int,
                        );
                        assert(q <= ax);
                    }
                    if q >= 0x8000_0000_0000_0000u64 {
                        proof {
                            assert(q == 0x8000_0000_0000_0000u64);
                        }
                        i64::MIN
                    } else if q == 0 {
                        0i64
                    } else {
                        -((q - 1) as i64) - 1
                    }
                };
                Ok(Value::Num(crate::bits::f64_from_i64(qi)))
            }
        },
        Operator::Mod => {
            let p = two_nums(a, b, bs)?;
            Ok(Value::Num(crate::numext::ext_fmod(p.0, p.1)))
        },
        Operator::Pow => {
            let p = two_nums(a, b, bs)?;
            Ok(Value::Num(crate::numext::num_pow(p.0, p.1)))
        },
        Operator::Not => {
            let x = crate::building::value_as_num(a, bs)?;
            Ok(
                Value::Num(
                    if crate::bits::f64_is_falsy(x) {
                        crate::bits::ONE_BITS
                    } else {
                        crate::bits::ZERO_BITS
                    },
                ),
            )
        },
        Operator::Land => {
            let p = two_nums(a, b, bs)?;
            Ok(
                Value::Num(
                    if crate::bits::f64_is_truthy(p.0) && crate::bits::f64_is_truthy(p.1) {
                        crate::bits::ONE_BITS
                    } else {
                        crate::bits::ZERO_BITS
                    },
                ),
            )
        },
        Operator::LessThan => {
            let p = two_nums(a, b, bs)?;
            Ok(
                Value::Num(
                    if crate::bits::f64_lt(p.0, p.1) {
                        crate::bits::ONE_BITS
                    } else {
                        crate::bits::ZERO_BITS
                    },
                ),
            )
        },
        Operator::LessThanEq => {
            let p = two_nums(a, b, bs)?;
            Ok(
                Value::Num(
                    if crate::bits::f64_le(p.0, p.1) {
                        crate::bits::ONE_BITS
                    } else {
                        crate::bits::ZERO_BITS
                    },
                ),
            )
        },
        Operator::GreaterThan => {
            let p = two_nums(a, b, bs)?;
            Ok(
                Value::Num(
                    if crate::bits::f64_lt(p.1, p.0) {
                        crate::bits::ONE_BITS
                    } else {
                        crate::bits::ZERO_BITS
                    },
                ),
            )
        },
        Operator::GreaterThanEq => {
            let p = two_nums(a, b, bs)?;
            Ok(
                Value::Num(
                    if crate::bits::f64_le(p.1, p.0) {
                        crate::bits::ONE_BITS
                    } else {
                        crate::bits::ZERO_BITS
                    },
                ),
            )
        },
        Operator::StrictEqual => {
            Ok(
                Value::Num(
                    if crate::value::val_eq(a, b) {
                        crate::bits::ONE_BITS
                    } else {
                        crate::bits::ZERO_BITS
                    },
                ),
            )
        },
        Operator::Equal => {
            Ok(
                Value::Num(
                    if crate::value::val_eq(a, b) {
                        crate::bits::ONE_BITS
                    } else {
                        crate::bits::ZERO_BITS
                    },
                ),
            )
        },
        Operator::NotEqual => {
            Ok(
                Value::Num(
                    if crate::value::val_eq(a, b) {
                        crate::bits::ZERO_BITS
                    } else {
                        crate::bits::ONE_BITS
                    },
                ),
            )
        },
        Operator::Shl => {
            let p = two_nums(a, b, bs)?;
            let xi: i64 = crate::bits::f64_trunc_i64(p.0);
            let yi: i64 = crate::bits::f64_trunc_i64(p.1);
            let s: u64 = (yi as u64) & 63;
            proof {
                assert((yi as u64) & 63 < 64u64) by (bit_vector);
            }
            let v: i64 = #[verifier::truncate] (((xi as u64) << s) as i64);
            Ok(Value::Num(crate::bits::f64_from_i64(v)))
        },
        Operator::Shr => {
            let p = two_nums(a, b, bs)?;
            let xi: i64 = crate::bits::f64_trunc_i64(p.0);
            let yi: i64 = crate::bits::f64_trunc_i64(p.1);
            let s: u64 = (yi as u64) & 63;
            proof {
                assert((yi as u64) & 63 < 64u64) by (bit_vector);
            }
            let v: i64 = xi >> s;
            Ok(Value::Num(crate::bits::f64_from_i64(v)))
        },
        Operator::Or => {
            let p = two_nums(a, b, bs)?;
            let xi: i64 = crate::bits::f64_trunc_i64(p.0);
            let yi: i64 = crate::bits::f64_trunc_i64(p.1);
            Ok(Value::Num(crate::bits::f64_from_i64(#[verifier::truncate] (((xi as u64) | (yi as u64)) as i64))))
        },
        Operator::And => {
            let p = two_nums(a, b, bs)?;
            let xi: i64 = crate::bits::f64_trunc_i64(p.0);
            let yi: i64 = crate::bits::f64_trunc_i64(p.1);
            Ok(Value::Num(crate::bits::f64_from_i64(#[verifier::truncate] (((xi as u64) & (yi as u64)) as i64))))
        },
        Operator::Xor => {
            let p = two_nums(a, b, bs)?;
            let xi: i64 = crate::bits::f64_trunc_i64(p.0);
            let yi: i64 = crate::bits::f64_trunc_i64(p.1);
            Ok(Value::Num(crate::bits::f64_from_i64(#[verifier::truncate] (((xi as u64) ^ (yi as u64)) as i64))))
        },
        Operator::Flip => {
            let x = crate::building::value_as_num(a, bs)?;
            let xi: i64 = crate::bits::f64_trunc_i64(x);
            Ok(Value::Num(crate::bits::f64_from_i64(#[verifier::truncate] ((!(xi as u64)) as i64))))
        },
        Operator::Max => {
            let p = two_nums(a, b, bs)?;
            Ok(Value::Num(crate::bits::f64_max(p.0, p.1)))
        },
        Operator::Min => {
            let p = two_nums(a, b, bs)?;
            Ok(Value::Num(crate::bits::f64_min(p.0, p.1)))
        },
        Operator::Abs => {
            let x = crate::building::value_as_num(a, bs)?;
            Ok(Value::Num(crate::bits::f64_abs(x)))
        },
        Operator::Log => {
            let x = crate::building::value_as_num(a, bs)?;
            Ok(Value::Num(crate::numext::num_ln(x)))
        },
        Operator::Log10 => {
            let x = crate::building::value_as_num(a, bs)?;
            Ok(Value::Num(crate::numext::num_log10(x)))
        },
        Operator::Floor => {
            let x = crate::building::value_as_num(a, bs)?;
            Ok(Value::Num(crate::bits::f64_floor(x)))
        },
        Operator::Ceil => {
            let x = crate::building::value_as_num(a, bs)?;
            Ok(Value::Num(crate::bits::f64_ceil(x)))
        },
        Operator::Sqrt => {
            let x = crate::building::value_as_num(a, bs)?;
            Ok(Value::Num(crate::numext::num_sqrt(x)))
        },
        Operator::Angle => {
            let p = two_nums(a, b, bs)?;
            let t = crate::numext::num_atan2(p.1, p.0);
            Ok(Value::Num(crate::numext::ext_mul(t, crate::numext::RAD_TO_DEG_BITS)))
        },
        Operator::Length => {
            let p = two_nums(a, b, bs)?;
            let m1 = crate::numext::ext_mul(p.0, p.0);
            let m2 = crate::numext::ext_mul(p.1, p.1);
            Ok(Value::Num(crate::numext::num_sqrt(crate::numext::ext_add(m1, m2))))
        },
        Operator::Sin => {
            let x = crate::building::value_as_num(a, bs)?;
            let rad = crate::numext::ext_mul(x, crate::numext::DEG_TO_RAD_BITS);
            Ok(Value::Num(crate::numext::num_sin(rad)))
        },
        Operator::Cos => {
            let x = crate::building::value_as_num(a, bs)?;
            let rad = crate::numext::ext_mul(x, crate::numext::DEG_TO_RAD_BITS);
            Ok(Value::Num(crate::numext::num_cos(rad)))
        },
        Operator::Tan => {
            let x = crate::building::value_as_num(a, bs)?;
            let rad = crate::numext::ext_mul(x, crate::numext::DEG_TO_RAD_BITS);
            Ok(Value::Num(crate::numext::num_tan(rad)))
        },
        Operator::Asin => {
            let x = crate::building::value_as_num(a, bs)?;
            let t = crate::numext::num_asin(x);
            Ok(Value::Num(crate::numext::ext_mul(t, crate::numext::RAD_TO_DEG_BITS)))
        },
        Operator::Acos => {
            let x = crate::building::value_as_num(a, bs)?;
            let t = crate::numext::num_acos(x);
            Ok(Value::Num(crate::numext::ext_mul(t, crate::numext::RAD_TO_DEG_BITS)))
        },
        Operator::Atan => {
            let x = crate::building::value_as_num(a, bs)?;
            let t = crate::numext::num_atan(x);
            Ok(Value::Num(crate::numext::ext_mul(t, crate::numext::RAD_TO_DEG_BITS)))
        },
        Operator::Rand => {
            let x = crate::building::value_as_num(a, bs)?;
            Ok(Value::Num(crate::numext::num_rand(x)))
        },
    }
}

// ---------------------------------------------------------------------
// Execution.
// ---------------------------------------------------------------------

/// Every slot value is structurally valid against the device count.
pub open spec fn all_valid(v: Seq<Variable>, ndev: int) -> bool {
    forall|i: int| 0 <= i < v.len() ==> (#[trigger] v[i].value).valid(ndev)
}

/// The stores agree in length, names and constness: execution never adds,
/// removes or renames slots.
pub open spec fn vars_frame(o: Seq<Variable>, n: Seq<Variable>) -> bool {
    &&& n.len() == o.len()
    &&& (forall|i: int| 0 <= i < o.len() ==> (#[trigger] n[i]).name@ == o[i].name@)
    &&& (forall|i: int| 0 <= i < o.len() ==> (#[trigger] n[i]).constant == o[i].constant)
}

/// The device lists agree in length, kinds, names and memory sizes.
pub open spec fn devs_frame(o: Seq<Building>, n: Seq<Building>) -> bool {
    &&& n.len() == o.len()
    &&& (forall|i: int|
        0 <= i < o.len() ==> (#[trigger] n[i]).name_s() == o[i].name_s() && (n[i] is Memory
            <==> o[i] is Memory) && (n[i] is Memory ==> n[i]->Memory_0.data@.len()
            == o[i]->Memory_0.data@.len()))
}

/// Exactly the slot `h` changed, to a value equivalent to `x`.
pub open spec fn wrote_slot(o: Seq<Variable>, n: Seq<Variable>, h: int, x: Value) -> bool {
    &&& n.len() == o.len()
    &&& (forall|i: int| 0 <= i < o.len() && i != h ==> #[trigger] n[i] == o[i])
    &&& crate::value::val_equiv(n[h].value, x)
}

/// The outcome of writing `x` into slot `h` through the constness check.
pub open spec fn setlike(
    o: Seq<Variable>,
    n: Seq<Variable>,
    h: int,
    x: Value,
    r: Result<InstructionExecuteResult, VmError>,
) -> bool {
    if o[h].constant {
        &&& n == o
        &&& r matches Err(VmError::ConstantMutation(nm)) && nm@ == o[h].name@
    } else {
        &&& wrote_slot(o, n, h, x)
        &&& r matches Ok(t) && !t.halt
    }
}

/// Exactly the memory cell `i` changed, with `data[idx]` set to `b`.
pub open spec fn wrote_mem(o: Seq<Building>, n: Seq<Building>, i: int, idx: int, b: u64) -> bool {
    &&& n.len() == o.len()
    &&& (forall|j: int| 0 <= j < o.len() && j != i ==> #[trigger] n[j] == o[j])
    &&& o[i] is Memory
    &&& n[i] is Memory
    &&& n[i]->Memory_0.name@ == o[i]->Memory_0.name@
    &&& n[i]->Memory_0.data@ == o[i]->Memory_0.data@.update(idx, b)
}

/// Exactly the message display `i` changed, its text replaced.
pub open spec fn wrote_msg(o: Seq<Building>, n: Seq<Building>, i: int, text: Seq<char>) -> bool {
    &&& n.len() == o.len()
    &&& (forall|j: int| 0 <= j < o.len() && j != i ==> #[trigger] n[j] == o[j])
    &&& o[i] is Message
    &&& n[i] is Message
    &&& n[i]->Message_0.name@ == o[i]->Message_0.name@
    &&& n[i]->Message_0.text@ == text
}

/// What a taken jump does: the target coerces to a number, which is
/// written into the counter slot; a target of any other kind fails the
/// coercion and changes nothing.
pub open spec fn jump_taken(
    ov: Seq<Variable>,
    nv: Seq<Variable>,
    pc: VarHandle,
    dv: Value,
    od: Seq<Building>,
    r: Result<InstructionExecuteResult, VmError>,
) -> bool {
    match dv {
        Value::Num(x) => setlike(ov, nv, pc.0 as int, Value::Num(x), r),
        _ => nv == ov && (r matches Err(e) && crate::building::is_invalid_cast(e, dv, od, "num"@)),
    }
}

/// The whole relation of one instruction: how the store, the print buffer
/// and the devices after execution relate to the ones before, and what is
/// returned, case by case.
pub open spec fn exec_rel(
    ins: Instruction,
    pc: VarHandle,
    ov: Seq<Variable>,
    ob: Seq<char>,
    od: Seq<Building>,
    nv: Seq<Variable>,
    nb: Seq<char>,
    nd: Seq<Building>,
    r: Result<InstructionExecuteResult, VmError>,
) -> bool {
    match ins {
        Instruction::Read(dst, src, idx) => {
            let sv = src.eval_s(ov);
            let iv = idx.eval_s(ov);
            &&& nb == ob
            &&& match sv {
                Value::Str(l) => {
                    &&& nd == od
                    &&& match r {
                        Err(e) => nv == ov && (crate::building::index_outcome(
                            Err(e),
                            iv,
                            od,
                            l.units().len() as int,
                            "string"@,
                        ) || (ov[dst.0 as int].constant && (e
                            matches VmError::ConstantMutation(nm) && nm@ == ov[dst.0
                            as int].name@))),
                        _ => {
                            &&& iv matches Value::Num(q)
                            &&& (iv matches Value::Num(q) ==> {
                                let t = crate::bits::round_i64_b(q) as usize;
                                &&& crate::bits::near_int_b(q)
                                &&& crate::bits::round_i64_b(q) >= 0
                                &&& (t as int) < l.units().len()
                                &&& setlike(
                                    ov,
                                    nv,
                                    dst.0 as int,
                                    Value::Num(crate::bits::u64_to_bits(l.units()[t as int] as u64)),
                                    r,
                                )
                            })
                        },
                    }
                },
                Value::Building(crate::value::BuildingRef::This) => {
                    &&& nd == od
                    &&& match iv {
                        Value::Str(nm) => if has_name(ov, nm.text()) {
                            setlike(ov, nv, dst.0 as int, ov[find_name(ov, nm.text())].value, r)
                        } else {
                            &&& nv == ov
                            &&& r matches Err(VmError::VariableNotFound(s)) && s@ == nm.text()
                        },
                        _ => nv == ov && (r matches Err(e) && crate::building::is_invalid_cast(
                            e,
                            iv,
                            od,
                            "str"@,
                        )),
                    }
                },
                Value::Building(crate::value::BuildingRef::Device(di)) => match od[di as int] {
                    Building::Memory(m) => {
                        &&& nd == od
                        &&& match r {
                            Err(e) => nv == ov && (crate::building::index_outcome(
                                Err(e),
                                iv,
                                od,
                                m.data@.len() as int,
                                "memory cell"@,
                            ) || (ov[dst.0 as int].constant && (e
                                matches VmError::ConstantMutation(nm) && nm@ == ov[dst.0
                                as int].name@))),
                            _ => {
                                &&& iv matches Value::Num(q)
                                &&& (iv matches Value::Num(q) ==> {
                                    let t = crate::bits::round_i64_b(q) as usize;
                                    &&& crate::bits::near_int_b(q)
                                    &&& crate::bits::round_i64_b(q) >= 0
                                    &&& (t as int) < m.data@.len()
                                    &&& setlike(
                                        ov,
                                        nv,
                                        dst.0 as int,
                                        Value::Num(m.data@[t as int]),
                                        r,
                                    )
                                })
                            },
                        }
                    },
                    Building::Message(m) => {
                        &&& nv == ov
                        &&& nd == od
                        &&& r matches Err(VmError::InvalidBuildingType(act, nm)) && act@
                            == "read from"@ && nm@ == m.name@
                    },
                },
                _ => {
                    &&& nv == ov
                    &&& nd == od
                    &&& r matches Err(e) && crate::building::is_invalid_cast(e, sv, od, "Building"@)
                },
            }
        },
        Instruction::Write(src, dsta, idx) => {
            let dv = dsta.eval_s(ov);
            let iv = idx.eval_s(ov);
            let xv = src.eval_s(ov);
            &&& nb == ob
            &&& match dv {
                Value::Building(crate::value::BuildingRef::This) => {
                    &&& nd == od
                    &&& match iv {
                        Value::Str(nm) => if has_name(ov, nm.text()) {
                            let h2 = find_name(ov, nm.text());
                            if ov[h2].constant {
                                &&& nv == ov
                                &&& r matches Err(VmError::ConstantMutation(s)) && s@
                                    == ov[h2].name@
                            } else {
                                &&& wrote_slot(ov, nv, h2, xv)
                                &&& r matches Ok(t) && !t.halt
                            }
                        } else {
                            &&& nv == ov
                            &&& r matches Err(VmError::VariableNotFound(s)) && s@ == nm.text()
                        },
                        _ => nv == ov && (r matches Err(e) && crate::building::is_invalid_cast(
                            e,
                            iv,
                            od,
                            "str"@,
                        )),
                    }
                },
                Value::Building(crate::value::BuildingRef::Device(di)) => {
                    &&& nv == ov
                    &&& match od[di as int] {
                        Building::Memory(m) => match r {
                            Err(e) => nd == od && (crate::building::index_outcome(
                                Err(e),
                                iv,
                                od,
                                m.data@.len() as int,
                                "memory cell"@,
                            ) || (crate::building::is_invalid_cast(e, xv, od, "num"@) && !(xv
                                is Num))),
                            _ => {
                                &&& iv matches Value::Num(q)
                                &&& xv is Num
                                &&& (iv matches Value::Num(q) ==> {
                                    let t = crate::bits::round_i64_b(q) as usize;
                                    &&& crate::bits::near_int_b(q)
                                    &&& crate::bits::round_i64_b(q) >= 0
                                    &&& (t as int) < m.data@.len()
                                    &&& wrote_mem(od, nd, di as int, t as int, xv->Num_0)
                                    &&& r matches Ok(t2) && !t2.halt
                                })
                            },
                        },
                        Building::Message(m) => {
                            &&& nd == od
                            &&& r matches Err(VmError::InvalidBuildingType(act, nm)) && act@
                                == "write into"@ && nm@ == m.name@
                        },
                    }
                },
                _ => {
                    &&& nv == ov
                    &&& nd == od
                    &&& r matches Err(e) && crate::building::is_invalid_cast(e, dv, od, "Building"@)
                },
            }
        },
        Instruction::Print(a) => {
            &&& nv == ov
            &&& nd == od
            &&& nb == ob.add(crate::building::display_value_b(a.eval_s(ov), od))
            &&& r matches Ok(t) && !t.halt
        },
        Instruction::PrintChar(a) => {
            let v = a.eval_s(ov);
            &&& nv == ov
            &&& nd == od
            &&& match v {
                Value::Num(q) => if !crate::bits::near_int_b(q) {
                    &&& nb == ob
                    &&& r matches Err(e) && crate::building::is_invalid_cast(e, v, od, "int"@)
                } else {
                    let u = crate::bits::round_i64_b(q) as u16;
                    if 0xd800 <= u < 0xe000 {
                        &&& nb == ob
                        &&& r matches Err(VmError::InvalidCharacter(c)) && c == u
                    } else {
                        &&& nb.len() == ob.len() + 1
                        &&& nb.take(ob.len() as int) == ob
                        &&& nb.last() as u32 == u as u32
                        &&& r matches Ok(t) && !t.halt
                    }
                },
                _ => {
                    &&& nb == ob
                    &&& r matches Err(e) && crate::building::is_invalid_cast(e, v, od, "num"@)
                },
            }
        },
        Instruction::Format(_a) => {
            &&& nv == ov
            &&& nb == ob
            &&& nd == od
            &&& r matches Err(VmError::InvalidFormat(m)) && m@ == "not implemented"@
        },
        Instruction::PrintFlush(a) => {
            let v = a.eval_s(ov);
            &&& nv == ov
            &&& match v {
                Value::Building(crate::value::BuildingRef::This) => {
                    &&& nb == Seq::<char>::empty()
                    &&& nd == od
                    &&& r matches Err(VmError::InvalidBuildingType(act, nm)) && act@
                        == "print flush into"@ && nm@ == "@this"@
                },
                Value::Building(crate::value::BuildingRef::Device(di)) => {
                    &&& nb == Seq::<char>::empty()
                    &&& match od[di as int] {
                        Building::Message(_m) => {
                            &&& wrote_msg(od, nd, di as int, ob)
                            &&& r matches Ok(t) && !t.halt
                        },
                        Building::Memory(m) => {
                            &&& nd == od
                            &&& r matches Err(VmError::InvalidBuildingType(act, nm)) && act@
                                == "print flush into"@ && nm@ == m.name@
                        },
                    }
                },
                _ => {
                    &&& nb == ob
                    &&& nd == od
                    &&& r matches Err(e) && crate::building::is_invalid_cast(e, v, od, "Building"@)
                },
            }
        },
        Instruction::GetLink(dst, idx) => {
            let iv = idx.eval_s(ov);
            &&& nb == ob
            &&& nd == od
            &&& match r {
                Err(e) => nv == ov && (crate::building::index_outcome(
                    Err(e),
                    iv,
                    od,
                    od.len() as int,
                    "get link"@,
                ) || (ov[dst.0 as int].constant && (e matches VmError::ConstantMutation(nm) && nm@
                    == ov[dst.0 as int].name@))),
                _ => {
                    &&& iv matches Value::Num(q)
                    &&& (iv matches Value::Num(q) ==> {
                        let t = crate::bits::round_i64_b(q) as usize;
                        &&& crate::bits::near_int_b(q)
                        &&& crate::bits::round_i64_b(q) >= 0
                        &&& (t as int) < od.len()
                        &&& setlike(
                            ov,
                            nv,
                            dst.0 as int,
                            Value::Building(crate::value::BuildingRef::Device(t)),
                            r,
                        )
                    })
                },
            }
        },
        Instruction::Sensor(dst, src, prop) => {
            let sv = src.eval_s(ov);
            let pv = prop.eval_s(ov);
            &&& nb == ob
            &&& nd == od
            &&& match pv {
                Value::Property(p) => match sv {
                    Value::Str(l) => if p.view() == "size"@ {
                        setlike(
                            ov,
                            nv,
                            dst.0 as int,
                            Value::Num(crate::bits::u64_to_bits(l.units().len() as u64)),
                            r,
                        )
                    } else {
                        setlike(ov, nv, dst.0 as int, Value::Null, r)
                    },
                    Value::Building(crate::value::BuildingRef::This) => {
                        &&& nv == ov
                        &&& r matches Err(VmError::InvalidBuildingType(act, nm)) && act@
                            == "sense from"@ && nm@ == "@this"@
                    },
                    Value::Building(crate::value::BuildingRef::Device(di)) => match od[di as int] {
                        Building::Memory(m) => if p.view() == "memoryCapacity"@ || p.view()
                            == "size"@ {
                            setlike(
                                ov,
                                nv,
                                dst.0 as int,
                                Value::Num(crate::bits::u64_to_bits(m.data@.len() as u64)),
                                r,
                            )
                        } else {
                            setlike(ov, nv, dst.0 as int, Value::Null, r)
                        },
                        Building::Message(m) => {
                            &&& nv == ov
                            &&& r matches Err(VmError::InvalidBuildingType(act, nm)) && act@
                                == "sense from"@ && nm@ == m.name@
                        },
                    },
                    _ => setlike(ov, nv, dst.0 as int, Value::Null, r),
                },
                _ => {
                    &&& nv == ov
                    &&& r matches Err(e) && crate::building::is_invalid_cast(e, pv, od, "Property"@)
                },
            }
        },
        Instruction::SetVar(dst, a) => {
            &&& nb == ob
            &&& nd == od
            &&& setlike(ov, nv, dst.0 as int, a.eval_s(ov), r)
        },
        Instruction::Op(op, dst, aa, ba) => {
            let av = aa.eval_s(ov);
            let bv = ba.eval_s(ov);
            &&& nb == ob
            &&& nd == od
            &&& match r {
                Ok(t) => !t.halt && !ov[dst.0 as int].constant && exists|val: Value|
                    #[trigger] op_outcome(op, av, bv, od, Ok(val)) && wrote_slot(
                        ov,
                        nv,
                        dst.0 as int,
                        val,
                    ),
                Err(e) => (op_outcome(op, av, bv, od, Err(e)) && nv == ov) || (ov[dst.0
                    as int].constant && nv == ov && (e matches VmError::ConstantMutation(nm) && nm@
                    == ov[dst.0 as int].name@) && exists|val: Value|
                    #[trigger] op_outcome(op, av, bv, od, Ok(val))),
            }
        },
        Instruction::Wait(a) => {
            let v = a.eval_s(ov);
            &&& nv == ov
            &&& nb == ob
            &&& nd == od
            &&& match v {
                Value::Num(_) => r matches Ok(t) && !t.halt,
                _ => r matches Err(e) && crate::building::is_invalid_cast(e, v, od, "num"@),
            }
        },
        Instruction::Stop => {
            &&& nv == ov
            &&& nb == ob
            &&& nd == od
            &&& r matches Ok(t) && t.halt
        },
        Instruction::End => {
            &&& nb == ob
            &&& nd == od
            &&& setlike(ov, nv, pc.0 as int, Value::Num(crate::bits::ZERO_BITS), r)
        },
        Instruction::Jump(dsta, imm, aa, ba) => {
            let dv = dsta.eval_s(ov);
            let av = aa.eval_s(ov);
            let bv = ba.eval_s(ov);
            &&& nb == ob
            &&& nd == od
            &&& if imm@ == "always"@ {
                jump_taken(ov, nv, pc, dv, od, r)
            } else if imm@ == "equal"@ || imm@ == "strictEqual"@ {
                if crate::value::val_eq_b(av, bv) {
                    jump_taken(ov, nv, pc, dv, od, r)
                } else {
                    nv == ov && (r matches Ok(t) && !t.halt)
                }
            } else if imm@ == "notEqual"@ {
                if !crate::value::val_eq_b(av, bv) {
                    jump_taken(ov, nv, pc, dv, od, r)
                } else {
                    nv == ov && (r matches Ok(t) && !t.halt)
                }
            } else if imm@ == "lessThan"@ || imm@ == "lessThanEq"@ || imm@ == "greaterThan"@ || imm@
                == "greaterThanEq"@ {
                if av is Num && bv is Num {
                    let x = av->Num_0;
                    let y = bv->Num_0;
                    let c = if imm@ == "lessThan"@ {
                        crate::bits::num_lt_b(x, y)
                    } else if imm@ == "lessThanEq"@ {
                        crate::bits::num_le_b(x, y)
                    } else if imm@ == "greaterThan"@ {
                        crate::bits::num_lt_b(y, x)
                    } else {
                        crate::bits::num_le_b(y, x)
                    };
                    if c {
                        jump_taken(ov, nv, pc, dv, od, r)
                    } else {
                        nv == ov && (r matches Ok(t) && !t.halt)
                    }
                } else {
                    nv == ov && num2_fail(
                        if r is Ok {
                            Ok(Value::Null)
                        } else {
                            Err(r->Err_0)
                        },
                        av,
                        bv,
                        od,
                    ) && r is Err
                }
            } else {
                &&& nv == ov
                &&& r matches Err(VmError::InvalidOperation(s)) && s@ == imm@
            }
        },
    }
}

impl Instruction {
    /// Executes one instruction against the store, the print buffer and
    /// the device list; `pc` is the handle of `@counter`, which `end` and
    /// `jump` write.
    #[verifier::rlimit(100)]
    pub fn execute(
        &self,
        vars: &mut Variables,
        print_buffer: &mut crate::vm::PrintBuffer,
        buildings: &mut Vec<Building>,
        pc: VarHandle,
    ) -> (r: Result<InstructionExecuteResult, VmError>)
        requires
            self.valid(old(vars).vars@.len() as int),
            pc.0 < old(vars).vars@.len(),
            all_valid(old(vars).vars@, old(buildings)@.len() as int),
        ensures
            exec_rel(
                *self,
                pc,
                old(vars).vars@,
                old(print_buffer)@,
                old(buildings)@,
                final(vars).vars@,
                final(print_buffer)@,
                final(buildings)@,
                r,
            ),
            vars_frame(old(vars).vars@, final(vars).vars@),
            devs_frame(old(buildings)@, final(buildings)@),
            all_valid(final(vars).vars@, final(buildings)@.len() as int),
    {
        match self {
            Instruction::Read(dst, src, idx) => {
                let sv = src.eval(vars);
                let iv = idx.eval(vars);
                proof {
                    crate::value::lemma_valid_equiv(
                        sv,
                        src.eval_s(vars.vars@),
                        buildings@.len() as int,
                    );
                }
                match &sv {
                    Value::Str(l) => {
                        let len: usize = l.as_utf_16().len();
                        let i = match crate::building::value_as_index(
                            &iv,
                            buildings,
                            len,
                            "string",
                        ) {
                            Ok(i) => i,
                            Err(e) => {
                                proof {
                                    crate::building::lemma_index_equiv(
                                        Err(e),
                                        iv,
                                        idx.eval_s(vars.vars@),
                                        buildings@,
                                        len as int,
                                        "string"@,
                                    );
                                }
                                return Err(e);
                            },
                        };
                        let u: u16 = l.as_utf_16()[i];
                        let b: u64 = crate::bits::f64_from_u64(u as u64);
                        match dst.set(vars, Value::Num(b)) {
                            Ok(_) => Ok(InstructionExecuteResult { halt: false }),
                            Err(e) => Err(e),
                        }
                    },
                    Value::Building(crate::value::BuildingRef::This) => {
                        let nm = match crate::building::value_as_str(&iv, buildings) {
                            Ok(nm) => nm,
                            Err(e) => {
                                proof {
                                    crate::building::lemma_cast_equiv(
                                        e,
                                        iv,
                                        idx.eval_s(vars.vars@),
                                        buildings@,
                                        "str"@,
                                    );
                                }
                                return Err(e);
                            },
                        };
                        match vars.get_handle(nm.as_string_ref().as_str()) {
                            Some(h2) => {
                                proof {
                                    crate::variable::lemma_find_name(vars.vars@, nm.text());
                                }
                                let v2 = h2.val(vars);
                                proof {
                                    crate::value::lemma_valid_equiv(
                                        v2,
                                        vars.vars@[h2.0 as int].value,
                                        buildings@.len() as int,
                                    );
                                }
                                match dst.set(vars, v2) {
                                    Ok(_) => Ok(InstructionExecuteResult { halt: false }),
                                    Err(e) => Err(e),
                                }
                            },
                            None => Err(VmError::VariableNotFound(nm.clone_string())),
                        }
                    },
                    Value::Building(crate::value::BuildingRef::Device(di)) => {
                        let which: bool = match &buildings[*di] {
                            Building::Memory(_) => true,
                            Building::Message(_) => false,
                        };
                        if which {
                            let len: usize = match &buildings[*di] {
                                Building::Memory(m) => m.data.len(),
                                Building::Message(_) => 0,
                            };
                            let i = match crate::building::value_as_index(
                                &iv,
                                buildings,
                                len,
                                "memory cell",
                            ) {
                                Ok(i) => i,
                                Err(e) => {
                                    proof {
                                        crate::building::lemma_index_equiv(
                                            Err(e),
                                            iv,
                                            idx.eval_s(vars.vars@),
                                            buildings@,
                                            len as int,
                                            "memory cell"@,
                                        );
                                    }
                                    return Err(e);
                                },
                            };
                            let b: u64 = match &buildings[*di] {
                                Building::Memory(m) => m.data[i],
                                Building::Message(_) => 0,
                            };
                            match dst.set(vars, Value::Num(b)) {
                                Ok(_) => Ok(InstructionExecuteResult { halt: false }),
                                Err(e) => Err(e),
                            }
                        } else {
                            let nm: String = match &buildings[*di] {
                                Building::Message(m) => m.name.clone(),
                                Building::Memory(m) => m.name.clone(),
                            };
                            proof {
                                reveal_strlit("read from");
                            }
                            Err(VmError::InvalidBuildingType("read from", nm))
                        }
                    },
                    _ => {
                        proof {
                            reveal_strlit("Building");
                        }
                        let m = crate::building::display_value(&sv, buildings);
                        proof {
                            crate::building::lemma_display_equiv(
                                sv,
                                src.eval_s(vars.vars@),
                                buildings@,
                            );
                        }
                        Err(
                            VmError::InvalidCast(
                                crate::text::string_from_chars(&m),
                                sv.kind_name(),
                                "Building",
                            ),
                        )
                    },
                }
            },
            Instruction::Write(src, dsta, idx) => {
                let dv = dsta.eval(vars);
                let iv = idx.eval(vars);
                let xv = src.eval(vars);
                proof {
                    crate::value::lemma_valid_equiv(
                        dv,
                        dsta.eval_s(vars.vars@),
                        buildings@.len() as int,
                    );
                }
                match &dv {
                    Value::Building(crate::value::BuildingRef::This) => {
                        let nm = match crate::building::value_as_str(&iv, buildings) {
                            Ok(nm) => nm,
                            Err(e) => {
                                proof {
                                    crate::building::lemma_cast_equiv(
                                        e,
                                        iv,
                                        idx.eval_s(vars.vars@),
                                        buildings@,
                                        "str"@,
                                    );
                                }
                                return Err(e);
                            },
                        };
                        match vars.get_handle(nm.as_string_ref().as_str()) {
                            Some(h2) => {
                                proof {
                                    crate::variable::lemma_find_name(vars.vars@, nm.text());
                                    crate::value::lemma_valid_equiv(
                                        xv,
                                        src.eval_s(old(vars).vars@),
                                        buildings@.len() as int,
                                    );
                                }
                                match h2.set(vars, xv) {
                                    Ok(_) => Ok(InstructionExecuteResult { halt: false }),
                                    Err(e) => Err(e),
                                }
                            },
                            None => Err(VmError::VariableNotFound(nm.clone_string())),
                        }
                    },
                    Value::Building(crate::value::BuildingRef::Device(di)) => {
                        let which: bool = match &buildings[*di] {
                            Building::Memory(_) => true,
                            Building::Message(_) => false,
                        };
                        if which {
                            let len: usize = match &buildings[*di] {
                                Building::Memory(m) => m.data.len(),
                                Building::Message(_) => 0,
                            };
                            let i = match crate::building::value_as_index(
                                &iv,
                                buildings,
                                len,
                                "memory cell",
                            ) {
                                Ok(i) => i,
                                Err(e) => {
                                    proof {
                                        crate::building::lemma_index_equiv(
                                            Err(e),
                                            iv,
                                            idx.eval_s(vars.vars@),
                                            buildings@,
                                            len as int,
                                            "memory cell"@,
                                        );
                                    }
                                    return Err(e);
                                },
                            };
                            let b = match crate::building::value_as_num(&xv, buildings) {
                                Ok(b) => b,
                                Err(e) => {
                                    proof {
                                        crate::building::lemma_cast_equiv(
                                            e,
                                            xv,
                                            src.eval_s(vars.vars@),
                                            buildings@,
                                            "num"@,
                                        );
                                    }
                                    return Err(e);
                                },
                            };
                            let ghost preb = buildings@;
                            let cell: &mut Building = &mut buildings[*di];
                            match cell {
                                Building::Memory(m) => {
                                    m.data[i] = b;
                                },
                                Building::Message(_) => {},
                            }
                            proof {
                                assert(buildings@ =~= preb.update(
                                    *di as int,
                                    buildings@[*di as int],
                                ));
                            }
                            Ok(InstructionExecuteResult { halt: false })
                        } else {
                            let nm: String = match &buildings[*di] {
                                Building::Message(m) => m.name.clone(),
                                Building::Memory(m) => m.name.clone(),
                            };
                            proof {
                                reveal_strlit("write into");
                            }
                            Err(VmError::InvalidBuildingType("write into", nm))
                        }
                    },
                    _ => {
                        proof {
                            reveal_strlit("Building");
                        }
                        let m = crate::building::display_value(&dv, buildings);
                        proof {
                            crate::building::lemma_display_equiv(
                                dv,
                                dsta.eval_s(vars.vars@),
                                buildings@,
                            );
                        }
                        Err(
                            VmError::InvalidCast(
                                crate::text::string_from_chars(&m),
                                dv.kind_name(),
                                "Building",
                            ),
                        )
                    },
                }
            },
            Instruction::Print(a) => {
                let v = a.eval(vars);
                let text = crate::building::display_value(&v, buildings);
                proof {
                    crate::building::lemma_display_equiv(v, a.eval_s(vars.vars@), buildings@);
                }
                print_buffer.write_chars(&text);
                Ok(InstructionExecuteResult { halt: false })
            },
            Instruction::PrintChar(a) => {
                let v = a.eval(vars);
                let n = match crate::building::value_as_int(&v, buildings) {
                    Ok(n) => n,
                    Err(e) => {
                        proof {
                            crate::building::lemma_cast_equiv(
                                e,
                                v,
                                a.eval_s(vars.vars@),
                                buildings@,
                                if v is Num {
                                    "int"@
                                } else {
                                    "num"@
                                },
                            );
                        }
                        return Err(e);
                    },
                };
                let u: u16 = #[verifier::truncate] (n as u16);
                match print_buffer.write_utf_16(u) {
                    Ok(_) => Ok(InstructionExecuteResult { halt: false }),
                    Err(e) => Err(e),
                }
            },
            Instruction::Format(a) => {
                let v = a.eval(vars);
                let _text = crate::building::display_value(&v, buildings);
                let m: &str = "not implemented";
                proof {
                    reveal_strlit("not implemented");
                }
                Err(VmError::InvalidFormat(m.to_owned()))
            },
            Instruction::PrintFlush(a) => {
                let v = a.eval(vars);
                proof {
                    crate::value::lemma_valid_equiv(
                        v,
                        a.eval_s(vars.vars@),
                        buildings@.len() as int,
                    );
                }
                match &v {
                    Value::Building(crate::value::BuildingRef::This) => {
                        let _t = print_buffer.take();
                        proof {
                            reveal_strlit("print flush into");
                            reveal_strlit("@this");
                        }
                        let nm: &str = "@this";
                        Err(VmError::InvalidBuildingType("print flush into", nm.to_owned()))
                    },
                    Value::Building(crate::value::BuildingRef::Device(di)) => {
                        let text = print_buffer.take();
                        let ghost preb = buildings@;
                        let cell: &mut Building = &mut buildings[*di];
                        match cell {
                            Building::Message(m) => {
                                m.text = text;
                                proof {
                                    assert(buildings@ =~= preb.update(
                                        *di as int,
                                        buildings@[*di as int],
                                    ));
                                }
                                Ok(InstructionExecuteResult { halt: false })
                            },
                            Building::Memory(m) => {
                                let nm = m.name.clone();
                                proof {
                                    assert(buildings@ =~= preb);
                                    reveal_strlit("print flush into");
                                }
                                Err(VmError::InvalidBuildingType("print flush into", nm))
                            },
                        }
                    },
                    _ => {
                        proof {
                            reveal_strlit("Building");
                        }
                        let m = crate::building::display_value(&v, buildings);
                        proof {
                            crate::building::lemma_display_equiv(
                                v,
                                a.eval_s(vars.vars@),
                                buildings@,
                            );
                        }
                        Err(
                            VmError::InvalidCast(
                                crate::text::string_from_chars(&m),
                                v.kind_name(),
                                "Building",
                            ),
                        )
                    },
                }
            },
            Instruction::GetLink(dst, idx) => {
                let iv = idx.eval(vars);
                let len: usize = buildings.len();
                let i = match crate::building::value_as_index(&iv, buildings, len, "get link") {
                    Ok(i) => i,
                    Err(e) => {
                        proof {
                            crate::building::lemma_index_equiv(
                                Err(e),
                                iv,
                                idx.eval_s(vars.vars@),
                                buildings@,
                                len as int,
                                "get link"@,
                            );
                        }
                        return Err(e);
                    },
                };
                match dst.set(vars, Value::Building(crate::value::BuildingRef::Device(i))) {
                    Ok(_) => Ok(InstructionExecuteResult { halt: false }),
                    Err(e) => Err(e),
                }
            },
            Instruction::Sensor(dst, src, prop) => {
                let pv = prop.eval(vars);
                let sv = src.eval(vars);
                let p = match crate::building::value_as_property(&pv, buildings) {
                    Ok(p) => p,
                    Err(e) => {
                        proof {
                            crate::building::lemma_cast_equiv(
                                e,
                                pv,
                                prop.eval_s(vars.vars@),
                                buildings@,
                                "Property"@,
                            );
                        }
                        return Err(e);
                    },
                };
                proof {
                    crate::value::lemma_valid_equiv(
                        sv,
                        src.eval_s(vars.vars@),
                        buildings@.len() as int,
                    );
                    reveal_strlit("size");
                    reveal_strlit("memoryCapacity");
                    reveal_strlit("sense from");
                    reveal_strlit("@this");
                }
                let sensed: Value = match &sv {
                    Value::Str(l) => {
                        if crate::text::str_eq(p.name(), "size") {
                            Value::Num(crate::bits::f64_from_u64(l.as_utf_16().len() as u64))
                        } else {
                            Value::Null
                        }
                    },
                    Value::Building(crate::value::BuildingRef::This) => {
                        let nm: &str = "@this";
                        return Err(VmError::InvalidBuildingType("sense from", nm.to_owned()));
                    },
                    Value::Building(crate::value::BuildingRef::Device(di)) => {
                        match &buildings[*di] {
                            Building::Memory(m) => {
                                if crate::text::str_eq(p.name(), "memoryCapacity")
                                    || crate::text::str_eq(p.name(), "size") {
                                    Value::Num(crate::bits::f64_from_u64(m.data.len() as u64))
                                } else {
                                    Value::Null
                                }
                            },
                            Building::Message(m) => {
                                return Err(
                                    VmError::InvalidBuildingType("sense from", m.name.clone()),
                                );
                            },
                        }
                    },
                    _ => Value::Null,
                };
                match dst.set(vars, sensed) {
                    Ok(_) => Ok(InstructionExecuteResult { halt: false }),
                    Err(e) => Err(e),
                }
            },
            Instruction::SetVar(dst, a) => {
                let v = a.eval(vars);
                proof {
                    crate::value::lemma_valid_equiv(
                        v,
                        a.eval_s(vars.vars@),
                        buildings@.len() as int,
                    );
                }
                match dst.set(vars, v) {
                    Ok(_) => Ok(InstructionExecuteResult { halt: false }),
                    Err(e) => Err(e),
                }
            },
            Instruction::Op(op, dst, aa, ba) => {
                let av = aa.eval(vars);
                let bv = ba.eval(vars);
                let out = match apply_op(*op, &av, &bv, buildings) {
                    Ok(out) => out,
                    Err(e) => {
                        proof {
                            lemma_op_outcome_equiv(
                                *op,
                                av,
                                bv,
                                aa.eval_s(vars.vars@),
                                ba.eval_s(vars.vars@),
                                buildings@,
                                Err(e),
                            );
                        }
                        return Err(e);
                    },
                };
                proof {
                    lemma_op_outcome_equiv(
                        *op,
                        av,
                        bv,
                        aa.eval_s(vars.vars@),
                        ba.eval_s(vars.vars@),
                        buildings@,
                        Ok(out),
                    );
                    crate::value::lemma_valid_equiv(out, out, buildings@.len() as int);
                    assert(out.valid(buildings@.len() as int)) by {
                        match out {
                            Value::Str(_) => assert(false),
                            Value::Building(_) => assert(false),
                            _ => {},
                        }
                    }
                }
                match dst.set(vars, out) {
                    Ok(_) => Ok(InstructionExecuteResult { halt: false }),
                    Err(e) => Err(e),
                }
            },
            Instruction::Wait(a) => {
                let v = a.eval(vars);
                match crate::building::value_as_num(&v, buildings) {
                    Ok(_) => Ok(InstructionExecuteResult { halt: false }),
                    Err(e) => {
                        proof {
                            crate::building::lemma_cast_equiv(
                                e,
                                v,
                                a.eval_s(vars.vars@),
                                buildings@,
                                "num"@,
                            );
                        }
                        Err(e)
                    },
                }
            },
            Instruction::Stop => Ok(InstructionExecuteResult { halt: true }),
            Instruction::End => {
                match pc.set(vars, Value::Num(crate::bits::ZERO_BITS)) {
                    Ok(_) => Ok(InstructionExecuteResult { halt: false }),
                    Err(e) => Err(e),
                }
            },
            Instruction::Jump(dsta, imm, aa, ba) => {
                proof {
                    reveal_strlit("always");
                    reveal_strlit("equal");
                    reveal_strlit("strictEqual");
                    reveal_strlit("notEqual");
                    reveal_strlit("lessThan");
                    reveal_strlit("lessThanEq");
                    reveal_strlit("greaterThan");
                    reveal_strlit("greaterThanEq");
                }
                let cond: bool = if crate::text::str_eq(imm.as_str(), "always") {
                    true
                } else {
                    let av = aa.eval(vars);
                    let bv = ba.eval(vars);
                    proof {
                        crate::value::lemma_val_eq_equiv(
                            av,
                            aa.eval_s(vars.vars@),
                            bv,
                            ba.eval_s(vars.vars@),
                        );
                    }
                    if crate::text::str_eq(imm.as_str(), "equal") || crate::text::str_eq(
                        imm.as_str(),
                        "strictEqual",
                    ) {
                        crate::value::val_eq(&av, &bv)
                    } else if crate::text::str_eq(imm.as_str(), "notEqual") {
                        !crate::value::val_eq(&av, &bv)
                    } else {
                        let lt = crate::text::str_eq(imm.as_str(), "lessThan");
                        let le = crate::text::str_eq(imm.as_str(), "lessThanEq");
                        let gt = crate::text::str_eq(imm.as_str(), "greaterThan");
                        let ge = crate::text::str_eq(imm.as_str(), "greaterThanEq");
                        if lt || le || gt || ge {
                            let x = match crate::building::value_as_num(&av, buildings) {
                                Ok(x) => x,
                                Err(e) => {
                                    proof {
                                        crate::building::lemma_cast_equiv(
                                            e,
                                            av,
                                            aa.eval_s(vars.vars@),
                                            buildings@,
                                            "num"@,
                                        );
                                    }
                                    return Err(e);
                                },
                            };
                            let y = match crate::building::value_as_num(&bv, buildings) {
                                Ok(y) => y,
                                Err(e) => {
                                    proof {
                                        crate::building::lemma_cast_equiv(
                                            e,
                                            bv,
                                            ba.eval_s(vars.vars@),
                                            buildings@,
                                            "num"@,
                                        );
                                    }
                                    return Err(e);
                                },
                            };
                            if lt {
                                crate::bits::f64_lt(x, y)
                            } else if le {
                                crate::bits::f64_le(x, y)
                            } else if gt {
                                crate::bits::f64_lt(y, x)
                            } else {
                                crate::bits::f64_le(y, x)
                            }
                        } else {
                            return Err(VmError::InvalidOperation(imm.clone()));
                        }
                    }
                };
                if cond {
                    let dv = dsta.eval(vars);
                    let x = match crate::building::value_as_num(&dv, buildings) {
                        Ok(x) => x,
                        Err(e) => {
                            proof {
                                crate::building::lemma_cast_equiv(
                                    e,
                                    dv,
                                    dsta.eval_s(vars.vars@),
                                    buildings@,
                                    "num"@,
                                );
                            }
                            return Err(e);
                        },
                    };
                    match pc.set(vars, Value::Num(x)) {
                        Ok(_) => Ok(InstructionExecuteResult { halt: false }),
                        Err(e) => Err(e),
                    }
                } else {
                    Ok(InstructionExecuteResult { halt: false })
                }
            },
        }
    }
}

} // verus!
