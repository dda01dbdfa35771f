//! The virtual machine's error type, its print buffer, and the machine
//! itself: construction from source text, the single-step cycle and the
//! run driver.

use vstd::prelude::*;

use crate::text::{dec_digits, dec_digits_i64};

verus! {

/// Everything that can go wrong inside the interpreter. Each variant
/// carries what its message needs, so rendering looks nothing up.
#[derive(Debug)]
pub enum VmError {
    InvalidCast(String, &'static str, &'static str),
    InvalidBuildingType(&'static str, String),
    VariableNotFound(String),
    ConstantMutation(String),
    EmptyCode,
    CodeTooLong(usize, usize),
    InvalidCharacter(u16),
    NegativeIndex(i64, &'static str),
    IndexTooHigh(usize, usize, &'static str),
    PcResError(Box<VmError>),
    InvalidFormat(String),
    NoProperty(String, &'static str, &'static str),
    InvalidOperation(String),
    DivisionByZero,
}

/// An error together with the position of the failing instruction, when
/// one was executing.
#[derive(Debug)]
pub struct PosVmError(pub VmError, pub Option<usize>);

/// The rendered message of an error, without any prefix.
pub open spec fn error_msg(e: VmError) -> Seq<char>
    decreases e,
{
    match e {
        VmError::InvalidCast(v, f, t) => "Cannot cast value '"@.add(v@).add(
            "' of type '"@,
        ).add(f@).add("' to type '"@).add(t@).add("'"@),
        VmError::InvalidBuildingType(action, name) => "Cannot "@.add(action@).add(
            " building '"@,
        ).add(name@).add("'"@),
        VmError::VariableNotFound(name) => "Variable not found: '"@.add(name@).add("'"@),
        VmError::ConstantMutation(name) => "Cannot mutate constant variable '"@.add(name@).add(
            "'"@,
        ),
        VmError::EmptyCode => "Program is empty"@,
        VmError::CodeTooLong(len, limit) => "Program has too many instructions ("@.add(
            dec_digits(len as u64),
        ).add(" > "@).add(dec_digits(limit as u64)).add(")"@),
        VmError::InvalidCharacter(ch) => "Invalid UTF-16 character: "@.add(dec_digits(ch as u64)),
        VmError::NegativeIndex(idx, device) => "Negative index ("@.add(dec_digits_i64(idx)).add(
            ") for "@,
        ).add(device@),
        VmError::IndexTooHigh(idx, limit, device) => "Index out of range ("@.add(
            dec_digits(idx as u64),
        ).add(" >= "@).add(dec_digits(limit as u64)).add(") for "@).add(device@),
        VmError::PcResError(inner) => error_msg(*inner),
        VmError::InvalidFormat(msg) => "Invalid format - "@.add(msg@),
        VmError::NoProperty(v, t, p) => "Value '"@.add(v@).add("' of type '"@).add(t@).add(
            "' has no property '"@,
        ).add(p@).add("'"@),
        VmError::InvalidOperation(op) => "Invalid operation: '"@.add(op@).add("'"@),
        VmError::DivisionByZero => "Division by zero"@,
    }
}

/// The message with the prefix the interpreter's reporting uses when no
/// instruction position is attached.
pub open spec fn error_display(e: VmError) -> Seq<char> {
    match e {
        VmError::PcResError(_) => "Error during program counter resolution: "@.add(error_msg(e)),
        _ => "Error: "@.add(error_msg(e)),
    }
}

/// The full message of a positioned error.
pub open spec fn pos_error_display(e: PosVmError) -> Seq<char> {
    match e.1 {
        Some(pos) => "Error at instruction "@.add(dec_digits(pos as u64)).add(": "@).add(
            error_msg(e.0),
        ),
        None => error_display(e.0),
    }
}

impl VmError {
    pub fn to_pos(self) -> (r: PosVmError)
        ensures
            r.0 == self,
            r.1 is None,
    {
        PosVmError(self, None)
    }

    pub fn with_pos(self, pos: usize) -> (r: PosVmError)
        ensures
            r.0 == self,
            r.1 == Some(pos),
    {
        PosVmError(self, Some(pos))
    }

    pub fn to_pc_res(self) -> (r: VmError)
        ensures
            r == VmError::PcResError(Box::new(self)),
    {
        VmError::PcResError(Box::new(self))
    }

    /// Renders the message without a prefix.
    pub fn print(&self) -> (r: String)
        ensures
            r@ == error_msg(*self),
        decreases *self,
    {
        let mut out: Vec<char> = Vec::new();
        match self {
            VmError::InvalidCast(v, f, t) => {
                crate::text::append_str(&mut out, "Cannot cast value '");
                crate::text::append_str(&mut out, v.as_str());
                crate::text::append_str(&mut out, "' of type '");
                crate::text::append_str(&mut out, f);
                crate::text::append_str(&mut out, "' to type '");
                crate::text::append_str(&mut out, t);
                crate::text::append_str(&mut out, "'");
            },
            VmError::InvalidBuildingType(action, name) => {
                crate::text::append_str(&mut out, "Cannot ");
                crate::text::append_str(&mut out, action);
                crate::text::append_str(&mut out, " building '");
                crate::text::append_str(&mut out, name.as_str());
                crate::text::append_str(&mut out, "'");
            },
            VmError::VariableNotFound(name) => {
                crate::text::append_str(&mut out, "Variable not found: '");
                crate::text::append_str(&mut out, name.as_str());
                crate::text::append_str(&mut out, "'");
            },
            VmError::ConstantMutation(name) => {
                crate::text::append_str(&mut out, "Cannot mutate constant variable '");
                crate::text::append_str(&mut out, name.as_str());
                crate::text::append_str(&mut out, "'");
            },
            VmError::EmptyCode => {
                crate::text::append_str(&mut out, "Program is empty");
            },
            VmError::CodeTooLong(len, limit) => {
                crate::text::append_str(&mut out, "Program has too many instructions (");
                let d1 = crate::text::format_u64(*len as u64);
                crate::text::append_chars(&mut out, &d1);
                crate::text::append_str(&mut out, " > ");
                let d2 = crate::text::format_u64(*limit as u64);
                crate::text::append_chars(&mut out, &d2);
                crate::text::append_str(&mut out, ")");
            },
            VmError::InvalidCharacter(ch) => {
                crate::text::append_str(&mut out, "Invalid UTF-16 character: ");
                let d = crate::text::format_u64(*ch as u64);
                crate::text::append_chars(&mut out, &d);
            },
            VmError::NegativeIndex(idx, device) => {
                crate::text::append_str(&mut out, "Negative index (");
                let d = crate::text::format_i64(*idx);
                crate::text::append_chars(&mut out, &d);
                crate::text::append_str(&mut out, ") for ");
                crate::text::append_str(&mut out, device);
            },
            VmError::IndexTooHigh(idx, limit, device) => {
                crate::text::append_str(&mut out, "Index out of range (");
                let d1 = crate::text::format_u64(*idx as u64);
                crate::text::append_chars(&mut out, &d1);
                crate::text::append_str(&mut out, " >= ");
                let d2 = crate::text::format_u64(*limit as u64);
                crate::text::append_chars(&mut out, &d2);
                crate::text::append_str(&mut out, ") for ");
                crate::text::append_str(&mut out, device);
            },
            VmError::PcResError(inner) => {
                let s = inner.print();
                crate::text::append_str(&mut out, s.as_str());
            },
            VmError::InvalidFormat(msg) => {
                crate::text::append_str(&mut out, "Invalid format - ");
                crate::text::append_str(&mut out, msg.as_str());
            },
            VmError::NoProperty(v, t, p) => {
                crate::text::append_str(&mut out, "Value '");
                crate::text::append_str(&mut out, v.as_str());
                crate::text::append_str(&mut out, "' of type '");
                crate::text::append_str(&mut out, t);
                crate::text::append_str(&mut out, "' has no property '");
                crate::text::append_str(&mut out, p);
                crate::text::append_str(&mut out, "'");
            },
            VmError::InvalidOperation(op) => {
                crate::text::append_str(&mut out, "Invalid operation: '");
                crate::text::append_str(&mut out, op.as_str());
                crate::text::append_str(&mut out, "'");
            },
            VmError::DivisionByZero => {
                crate::text::append_str(&mut out, "Division by zero");
            },
        }
        crate::text::string_from_chars(&out)
    }

    /// The message with its prefix, as the interpreter reports an error
    /// that carries no instruction position.
    pub fn display_message(&self) -> (r: String)
        ensures
            r@ == error_display(*self),
    {
        let mut out: Vec<char> = Vec::new();
        match self {
            VmError::PcResError(_) => {
                crate::text::append_str(&mut out, "Error during program counter resolution: ");
            },
            _ => {
                crate::text::append_str(&mut out, "Error: ");
            },
        }
        let m = self.print();
        crate::text::append_str(&mut out, m.as_str());
        crate::text::string_from_chars(&out)
    }
}

impl PosVmError {
    /// The full message, naming the failing instruction when known.
    pub fn display_message(&self) -> (r: String)
        ensures
            r@ == pos_error_display(*self),
    {
        match &self.1 {
            Some(pos) => {
                let mut out: Vec<char> = Vec::new();
                crate::text::append_str(&mut out, "Error at instruction ");
                let d = crate::text::format_u64(*pos as u64);
                crate::text::append_chars(&mut out, &d);
                crate::text::append_str(&mut out, ": ");
                let m = self.0.print();
                crate::text::append_str(&mut out, m.as_str());
                crate::text::string_from_chars(&out)
            },
            None => self.0.display_message(),
        }
    }
}

/// What one cycle reports: whether the program counter wrapped past the
/// end before this instruction, and whether a `stop` executed.
#[derive(Debug)]
pub struct VmCycleResult {
    pub pc_wrap: bool,
    pub halt: bool,
}

/// Why a run ended.
#[derive(Debug)]
pub enum VmFinishReason {
    PcWrap,
    Halt,
    InsLimit,
}

/// The accumulating print buffer, drained by `printflush`.
#[derive(Debug)]
pub struct PrintBuffer {
    data: Vec<char>,
}

impl PrintBuffer {
    pub closed spec fn view(&self) -> Seq<char> {
        self.data@
    }

    pub fn new() -> (r: Self)
        ensures
            r@ == Seq::<char>::empty(),
    {
        PrintBuffer { data: Vec::new() }
    }

    pub fn write(&mut self, string: &str)
        ensures
            final(self)@ == old(self)@.add(string@),
    {
        crate::text::append_str(&mut self.data, string);
    }

    pub fn write_chars(&mut self, add: &Vec<char>)
        ensures
            final(self)@ == old(self)@.add(add@),
    {
        crate::text::append_chars(&mut self.data, add);
    }

    /// Appends the one UTF-16 code unit; an unpaired surrogate cannot
    /// stand alone and is rejected.
    pub fn write_utf_16(&mut self, ch: u16) -> (r: Result<(), VmError>)
        ensures
            (0xd800 <= ch < 0xe000) ==> (final(self)@ == old(self)@ && (r matches Err(
                VmError::InvalidCharacter(c),
            ) && c == ch)),
            !(0xd800 <= ch < 0xe000) ==> (r is Ok && final(self)@.len() == old(self)@.len() + 1
                && final(self)@.take(old(self)@.len() as int) == old(self)@ && final(self)@.last()
                as u32 == ch as u32),
    {
        if 0xd800 <= ch && ch < 0xe000 {
            Err(VmError::InvalidCharacter(ch))
        } else {
            let c = crate::text::char_from_u16(ch);
            self.data.push(c);
            proof {
                assert(final(self)@.take(old(self)@.len() as int) =~= old(self)@);
            }
            Ok(())
        }
    }

    /// Reserved: the `format` instruction is not implemented.
    pub fn format(&self, _string: &str) -> (r: Result<(), VmError>)
        ensures
            r matches Err(VmError::InvalidFormat(m)) && m@ == "not implemented"@,
    {
        let m: &str = "not implemented";
        proof {
            reveal_strlit("not implemented");
        }
        Err(VmError::InvalidFormat(m.to_owned()))
    }

    /// Hands the whole contents over and leaves the buffer empty.
    pub fn take(&mut self) -> (r: String)
        ensures
            r@ == old(self)@,
            final(self)@ == Seq::<char>::empty(),
    {
        let r = crate::text::string_from_chars(&self.data);
        self.data = Vec::new();
        r
    }
}

// ---------------------------------------------------------------------
// The machine.
// ---------------------------------------------------------------------

/// The names of the built-in variables, in the order construction
/// installs them. All are constants except `@counter` (the program
/// counter) and `@unit`.
pub open spec fn builtin_names() -> Seq<Seq<char>> {
    seq![
        "@counter"@,
        "@this"@,
        "@thisx"@,
        "@thisy"@,
        "@ipt"@,
        "@timescale"@,
        "@links"@,
        "@unit"@,
        "@time"@,
        "@tick"@,
        "@second"@,
        "@minute"@,
        "@waveNumber"@,
        "@waveTime"@,
        "@mapw"@,
        "@maph"@,
        "null"@,
        "true"@,
        "false"@,
        "@pi"@,
        "@e"@,
        "@degToRad"@,
        "@radToDeg"@,
        "blockCount"@,
        "unitCount"@,
        "itemCount"@,
        "liquidCount"@,
        "@memoryCapacity"@,
        "@size"@,
    ]
}

/// Whether a device list can be attached: device names are unique and
/// collide with no builtin. Installing a duplicate name is a flaw of the
/// setup, not of the running program, and construction refuses it.
pub open spec fn devices_ok(bs: Seq<crate::building::Building>) -> bool {
    &&& (forall|i: int, j: int|
        0 <= i < j < bs.len() ==> (#[trigger] bs[i].name_s()) != (#[trigger] bs[j].name_s()))
    &&& (forall|i: int| 0 <= i < bs.len() ==> !builtin_names().contains(#[trigger] bs[i].name_s()))
}

/// The source split at newlines; every line, empty ones included.
pub open spec fn lines_rec(s: Seq<char>, cur: Seq<char>, acc: Seq<Seq<char>>) -> Seq<Seq<char>>
    decreases s.len(),
{
    if s.len() == 0 {
        acc.push(cur)
    } else if s[0] == '\n' {
        lines_rec(s.skip(1), Seq::empty(), acc.push(cur))
    } else {
        lines_rec(s.skip(1), cur.push(s[0]), acc)
    }
}

pub open spec fn lines_of(s: Seq<char>) -> Seq<Seq<char>> {
    lines_rec(s, Seq::empty(), Seq::empty())
}

/// Whether every line of the program fits some instruction shape.
pub open spec fn program_ok(s: Seq<char>) -> bool {
    forall|i: int|
        0 <= i < lines_of(s).len() ==> crate::instruction::line_shape_ok(#[trigger] lines_of(s)[i])
}

/// The lines that hold an instruction: those with at least one token, in
/// source order.
pub open spec fn nonempty_lines(ls: Seq<Seq<char>>) -> Seq<Seq<char>>
    decreases ls.len(),
{
    if ls.len() == 0 {
        Seq::empty()
    } else if crate::instruction::split_line_s(ls.last()).len() > 0 {
        nonempty_lines(ls.drop_last()).push(ls.last())
    } else {
        nonempty_lines(ls.drop_last())
    }
}

/// How many lines hold an instruction.
pub open spec fn count_nonempty(ls: Seq<Seq<char>>) -> int {
    nonempty_lines(ls).len() as int
}

/// Splits source text at newlines.
pub fn split_newlines(code: &str) -> (r: Vec<String>)
    ensures
        r@.map_values(|t: String| t@) == lines_of(code@),
{
    let cs = crate::text::chars_of(code);
    let n: usize = cs.len();
    let mut acc: Vec<String> = Vec::new();
    let mut cur: Vec<char> = Vec::new();
    let mut i: usize = 0;
    proof {
        assert(acc@.map_values(|t: String| t@) =~= Seq::<Seq<char>>::empty());
        assert(cs@.skip(0) =~= cs@);
        assert(cur@ =~= Seq::<char>::empty());
    }
    while i < n
        invariant
            n == cs@.len(),
            i <= n,
            code@ == cs@,
            lines_of(code@) == lines_rec(cs@.skip(i as int), cur@, acc@.map_values(|t: String| t@)),
        decreases n - i,
    {
        let c: char = cs[i];
        let ghost pre = acc@;
        let ghost precur = cur@;
        proof {
            assert(cs@.skip(i as int)[0] == cs@[i as int]);
            assert(cs@.skip(i as int).skip(1) =~= cs@.skip(i + 1));
        }
        if c == '\n' {
            let t = crate::text::string_from_chars(&cur);
            acc.push(t);
            cur = Vec::new();
            proof {
                assert(acc@.map_values(|t: String| t@) =~= pre.map_values(|t: String| t@).push(
                    precur,
                ));
                assert(cur@ =~= Seq::<char>::empty());
            }
        } else {
            cur.push(c);
        }
        i = i + 1;
    }
    let t = crate::text::string_from_chars(&cur);
    acc.push(t);
    proof {
        assert(cs@.skip(n as int).len() == 0);
    }
    acc
}

/// Whether the program text can be constructed into a machine: every line
/// fits an instruction's shape. A parse failure is fatal: no machine is
/// built from such text.
pub fn program_well_formed(code: &str) -> (r: bool)
    ensures
        r == program_ok(code@),
{
    let lines = split_newlines(code);
    let n: usize = lines.len();
    let mut i: usize = 0;
    while i < n
        invariant
            n == lines@.len(),
            lines@.map_values(|t: String| t@) == lines_of(code@),
            i <= n,
            forall|j: int|
                0 <= j < i ==> crate::instruction::line_shape_ok(#[trigger] lines_of(code@)[j]),
        decreases n - i,
    {
        proof {
            assert(lines@[i as int]@ == lines_of(code@)[i as int]);
        }
        if !crate::instruction::Instruction::line_ok(lines[i].as_str()) {
            return false;
        }
        i = i + 1;
    }
    true
}

/// The machine: the variable store (which holds the program counter as
/// the ordinary slot `@counter`), the parsed program, the print buffer
/// and the attached devices.
#[derive(Debug)]
pub struct VM {
    pub pc_handle: crate::variable::VarHandle,
    pub variables: crate::variable::Variables,
    pub code: Vec<crate::instruction::Instruction>,
    pub print_buffer: PrintBuffer,
    pub buildings: Vec<crate::building::Building>,
}

/// The initial values of the 29 built-in slots, as construction seeds
/// them: the counter, the position, time and world counts at zero, the
/// processor self-reference, `@ipt` at a thousand, the unit scale, the
/// link count, the null/true/false words, the mathematical constants and
/// conversion factors, and the two property words.
pub open spec fn builtin_values(vars: Seq<crate::variable::Variable>, links: u64) -> bool {
    &&& vars[0].value == crate::value::Value::Num(crate::bits::ZERO_BITS)
    &&& vars[1].value == crate::value::Value::Building(crate::value::BuildingRef::This)
    &&& vars[2].value == crate::value::Value::Num(crate::bits::ZERO_BITS)
    &&& vars[3].value == crate::value::Value::Num(crate::bits::ZERO_BITS)
    &&& vars[4].value == crate::value::Value::Num(crate::bits::u64_to_bits(1000))
    &&& vars[5].value == crate::value::Value::Num(crate::bits::ONE_BITS)
    &&& vars[6].value == crate::value::Value::Num(links)
    &&& vars[7].value is Null
    &&& vars[8].value == crate::value::Value::Num(crate::bits::ZERO_BITS)
    &&& vars[9].value == crate::value::Value::Num(crate::bits::ZERO_BITS)
    &&& vars[10].value == crate::value::Value::Num(crate::bits::ZERO_BITS)
    &&& vars[11].value == crate::value::Value::Num(crate::bits::ZERO_BITS)
    &&& vars[12].value == crate::value::Value::Num(crate::bits::ZERO_BITS)
    &&& vars[13].value == crate::value::Value::Num(crate::bits::ZERO_BITS)
    &&& vars[14].value == crate::value::Value::Num(crate::bits::ZERO_BITS)
    &&& vars[15].value == crate::value::Value::Num(crate::bits::ZERO_BITS)
    &&& vars[16].value is Null
    &&& vars[17].value == crate::value::Value::Num(crate::bits::ONE_BITS)
    &&& vars[18].value == crate::value::Value::Num(crate::bits::ZERO_BITS)
    &&& vars[19].value == crate::value::Value::Num(crate::numext::PI_BITS)
    &&& vars[20].value == crate::value::Value::Num(crate::numext::E_BITS)
    &&& vars[21].value == crate::value::Value::Num(crate::numext::DEG_TO_RAD_BITS)
    &&& vars[22].value == crate::value::Value::Num(crate::numext::RAD_TO_DEG_BITS)
    &&& vars[23].value == crate::value::Value::Num(crate::bits::ZERO_BITS)
    &&& vars[24].value == crate::value::Value::Num(crate::bits::ZERO_BITS)
    &&& vars[25].value == crate::value::Value::Num(crate::bits::ZERO_BITS)
    &&& vars[26].value == crate::value::Value::Num(crate::bits::ZERO_BITS)
    &&& (vars[27].value matches crate::value::Value::Property(p) && p.view()
        == "memoryCapacity"@)
    &&& (vars[28].value matches crate::value::Value::Property(p) && p.view() == "size"@)
}

/// One store per step of the parse: each instruction's line parses from
/// the store the lines before it left, so every handle is resolved
/// against the machine's real store as it stood at that line.
pub open spec fn code_parse_chain(
    ss: Seq<Seq<crate::variable::Variable>>,
    lines: Seq<Seq<char>>,
    code: Seq<crate::instruction::Instruction>,
) -> bool {
    &&& ss.len() == code.len() + 1
    &&& lines.len() == code.len()
    &&& (forall|j: int|
        0 <= j < code.len() ==> #[trigger] crate::instruction::line_parses(
            ss[j],
            ss[j + 1],
            crate::instruction::split_line_s(lines[j]),
            code[j],
        ))
}

/// The program parses store-threaded from `s0` to `sk`.
pub open spec fn code_parses_from(
    s0: Seq<crate::variable::Variable>,
    sk: Seq<crate::variable::Variable>,
    lines: Seq<Seq<char>>,
    code: Seq<crate::instruction::Instruction>,
) -> bool {
    exists|ss: Seq<Seq<crate::variable::Variable>>|
        #[trigger] code_parse_chain(ss, lines, code) && ss[0] == s0 && ss.last() == sk
}

/// What construction yields: a well-formed machine whose counter is slot
/// 0 at zero, whose builtins stand in their fixed order (constant except
/// `@counter` and `@unit`), whose device slots are constant and bound in
/// list order, whose program is exactly the parse of the non-empty lines
/// in source order, and whose print buffer is empty.
pub open spec fn constructed(
    vm: VM,
    code: Seq<char>,
    code_len_limit: usize,
    buildings: Seq<crate::building::Building>,
) -> bool {
    &&& vm.wf()
    &&& vm.pc_handle.0 == 0
    &&& vm.buildings@ == buildings
    &&& vm.print_buffer@ == Seq::<char>::empty()
    &&& vm.variables.vars@.len() >= 29 + buildings.len()
    &&& (forall|i: int|
        0 <= i < 29 ==> (#[trigger] vm.variables.vars@[i]).name@ == builtin_names()[i])
    &&& (forall|i: int|
        0 <= i < 29 ==> ((#[trigger] vm.variables.vars@[i]).constant <==> (i != 0 && i != 7)))
    &&& builtin_values(
        vm.variables.vars@,
        crate::bits::u64_to_bits(buildings.len() as u64),
    )
    &&& (forall|i: int|
        0 <= i < buildings.len() ==> {
            &&& (#[trigger] vm.variables.vars@[29 + i]).name@ == buildings[i].name_s()
            &&& vm.variables.vars@[29 + i].constant
            &&& vm.variables.vars@[29 + i].value == crate::value::Value::Building(
                crate::value::BuildingRef::Device(i as usize),
            )
        })
    &&& (forall|k: int|
        29 + buildings.len() <= k < vm.variables.vars@.len() ==> ((#[trigger] vm.variables.vars@[k]).value
            is Null && !vm.variables.vars@[k].constant))
    &&& vm.code@.len() == count_nonempty(lines_of(code))
    &&& 1 <= vm.code@.len() <= code_len_limit
    &&& code_parses_from(
        vm.variables.vars@.take(29 + buildings.len() as int),
        vm.variables.vars@,
        nonempty_lines(lines_of(code)),
        vm.code@,
    )
}

/// The cycle budget of a run: the given limit, or the whole machine range
/// when none is given.
pub open spec fn run_budget(limit: Option<usize>) -> int {
    match limit {
        Some(l) => l as int,
        None => usize::MAX as int,
    }
}

/// A chain of machines stepped by successful cycles: `vms` holds the
/// machine before and after each cycle, `outs` what each cycle reported.
pub open spec fn steps_ok(vms: Seq<VM>, outs: Seq<VmCycleResult>) -> bool {
    &&& vms.len() == outs.len() + 1
    &&& (forall|i: int|
        0 <= i < outs.len() ==> #[trigger] cycle_rel(vms[i], vms[i + 1], Ok(outs[i])))
}

/// The run ended with a decision: a chain of cycles from `pre` to `post`
/// within the budget, none decisive before the last, whose last outcome
/// decides `reason`.
pub open spec fn run_finishes(
    pre: VM,
    post: VM,
    limit: Option<usize>,
    end_on_wrap: bool,
    reason: VmFinishReason,
) -> bool {
    exists|vms: Seq<VM>, outs: Seq<VmCycleResult>|
        {
            &&& #[trigger] steps_ok(vms, outs)
            &&& vms[0] == pre
            &&& vms.last() == post
            &&& 1 <= outs.len() <= run_budget(limit)
            &&& (forall|i: int|
                0 <= i < outs.len() - 1 ==> #[trigger] decide_finish(outs[i], end_on_wrap)
                    is None)
            &&& decide_finish(outs.last(), end_on_wrap) == Some(reason)
        }
}

/// The run exhausted its budget: exactly that many cycles, none decisive.
pub open spec fn run_exhausts(pre: VM, post: VM, limit: Option<usize>, end_on_wrap: bool) -> bool {
    exists|vms: Seq<VM>, outs: Seq<VmCycleResult>|
        {
            &&& #[trigger] steps_ok(vms, outs)
            &&& vms[0] == pre
            &&& vms.last() == post
            &&& outs.len() == run_budget(limit)
            &&& (forall|i: int|
                0 <= i < outs.len() ==> #[trigger] decide_finish(outs[i], end_on_wrap) is None)
        }
}

/// The run stopped on a failing cycle: a chain of non-decisive cycles
/// inside the budget, then one more cycle from the chain's end into
/// `post` with this error, returned unchanged and at once.
pub open spec fn run_fails(
    pre: VM,
    post: VM,
    limit: Option<usize>,
    end_on_wrap: bool,
    p: PosVmError,
) -> bool {
    exists|vms: Seq<VM>, outs: Seq<VmCycleResult>|
        {
            &&& #[trigger] steps_ok(vms, outs)
            &&& vms[0] == pre
            &&& outs.len() < run_budget(limit)
            &&& (forall|i: int|
                0 <= i < outs.len() ==> #[trigger] decide_finish(outs[i], end_on_wrap) is None)
            &&& cycle_rel(vms.last(), post, Err(p))
        }
}

/// How a whole run relates the machine before to the machine after and to
/// what it returns: `Halt` and `PcWrap` come from the first decisive
/// cycle, `InsLimit` from a budget that ran out with no decision, and an
/// error from the first failing cycle.
pub open spec fn run_rel(
    pre: VM,
    post: VM,
    limit: Option<usize>,
    end_on_wrap: bool,
    r: Result<VmFinishReason, PosVmError>,
) -> bool {
    match r {
        Ok(VmFinishReason::InsLimit) => run_exhausts(pre, post, limit, end_on_wrap),
        Ok(reason) => run_finishes(pre, post, limit, end_on_wrap, reason),
        Err(p) => run_fails(pre, post, limit, end_on_wrap, p),
    }
}

impl VM {
    /// The default ceiling on the number of instructions in a program.
    pub const DEFAULT_CODE_LEN_LIMIT: usize = 1000;

    /// Construction establishes this and every cycle preserves it.
    pub open spec fn wf(&self) -> bool {
        &&& self.variables.wf()
        &&& (self.pc_handle.0 as int) < self.variables.vars@.len()
        &&& self.variables.vars@[self.pc_handle.0 as int].name@ == "@counter"@
        &&& !self.variables.vars@[self.pc_handle.0 as int].constant
        &&& crate::instruction::all_valid(self.variables.vars@, self.buildings@.len() as int)
        &&& (forall|i: int|
            0 <= i < self.code@.len() ==> (#[trigger] self.code@[i]).valid(
                self.variables.vars@.len() as int,
            ))
        &&& self.code@.len() >= 1
    }
}

/// Whether `s` is one of the built-in variable names.
pub fn is_builtin_name(s: &str) -> (r: bool)
    ensures
        r == builtin_names().contains(s@),
{
    proof {
        reveal_strlit("@counter");
        reveal_strlit("@this");
        reveal_strlit("@thisx");
        reveal_strlit("@thisy");
        reveal_strlit("@ipt");
        reveal_strlit("@timescale");
        reveal_strlit("@links");
        reveal_strlit("@unit");
        reveal_strlit("@time");
        reveal_strlit("@tick");
        reveal_strlit("@second");
        reveal_strlit("@minute");
        reveal_strlit("@waveNumber");
        reveal_strlit("@waveTime");
        reveal_strlit("@mapw");
        reveal_strlit("@maph");
        reveal_strlit("null");
        reveal_strlit("true");
        reveal_strlit("false");
        reveal_strlit("@pi");
        reveal_strlit("@e");
        reveal_strlit("@degToRad");
        reveal_strlit("@radToDeg");
        reveal_strlit("blockCount");
        reveal_strlit("unitCount");
        reveal_strlit("itemCount");
        reveal_strlit("liquidCount");
        reveal_strlit("@memoryCapacity");
        reveal_strlit("@size");
    }
    let r = crate::text::str_eq(s, "@counter") || crate::text::str_eq(s, "@this")
        || crate::text::str_eq(s, "@thisx") || crate::text::str_eq(s, "@thisy")
        || crate::text::str_eq(s, "@ipt") || crate::text::str_eq(s, "@timescale")
        || crate::text::str_eq(s, "@links") || crate::text::str_eq(s, "@unit")
        || crate::text::str_eq(s, "@time") || crate::text::str_eq(s, "@tick")
        || crate::text::str_eq(s, "@second") || crate::text::str_eq(s, "@minute")
        || crate::text::str_eq(s, "@waveNumber") || crate::text::str_eq(s, "@waveTime")
        || crate::text::str_eq(s, "@mapw") || crate::text::str_eq(s, "@maph")
        || crate::text::str_eq(s, "null") || crate::text::str_eq(s, "true") || crate::text::str_eq(
        s,
        "false",
    ) || crate::text::str_eq(s, "@pi") || crate::text::str_eq(s, "@e") || crate::text::str_eq(
        s,
        "@degToRad",
    ) || crate::text::str_eq(s, "@radToDeg") || crate::text::str_eq(s, "blockCount")
        || crate::text::str_eq(s, "unitCount") || crate::text::str_eq(s, "itemCount")
        || crate::text::str_eq(s, "liquidCount") || crate::text::str_eq(s, "@memoryCapacity")
        || crate::text::str_eq(s, "@size");
    proof {
        if r {
            assert(builtin_names().contains(s@));
        } else {
            assert(forall|i: int| 0 <= i < 29 ==> builtin_names()[i] != s@);
        }
    }
    r
}

/// Whether a device list can be attached to a machine.
pub fn devices_admissible(bs: &Vec<crate::building::Building>) -> (r: bool)
    ensures
        r == devices_ok(bs@),
{
    let n: usize = bs.len();
    let mut i: usize = 0;
    while i < n
        invariant
            n == bs@.len(),
            i <= n,
            forall|a: int, b: int|
                0 <= a < b < i ==> (#[trigger] bs@[a].name_s()) != (#[trigger] bs@[b].name_s()),
            forall|a: int| 0 <= a < i ==> !builtin_names().contains(#[trigger] bs@[a].name_s()),
        decreases n - i,
    {
        if is_builtin_name(bs[i].name()) {
            return false;
        }
        let mut j: usize = 0;
        while j < i
            invariant
                i < n == bs@.len(),
                j <= i,
                forall|a: int| 0 <= a < j ==> (#[trigger] bs@[a].name_s()) != bs@[i as int].name_s(),
            decreases i - j,
        {
            if crate::text::str_eq(bs[j].name(), bs[i].name()) {
                return false;
            }
            j = j + 1;
        }
        i = i + 1;
    }
    true
}

#[verifier::rlimit(100)]
/// Installs the built-in variables into an empty store: 29 slots in the
/// order of `builtin_names`, all constant except `@counter` and `@unit`.
/// `links` is the double bit pattern of the device count.
fn install_builtins(vars: &mut crate::variable::Variables, links: u64)
    requires
        old(vars).vars@.len() == 0,
    ensures
        final(vars).wf(),
        final(vars).vars@.len() == 29,
        forall|i: int| 0 <= i < 29 ==> (#[trigger] final(vars).vars@[i]).name@ == builtin_names()[i],
        forall|i: int|
            0 <= i < 29 ==> ((#[trigger] final(vars).vars@[i]).constant <==> (i != 0 && i != 7)),
        builtin_values(final(vars).vars@, links),
        crate::instruction::all_valid(final(vars).vars@, 0),
{
    proof {
        reveal_strlit("@counter");
        reveal_strlit("@this");
        reveal_strlit("@thisx");
        reveal_strlit("@thisy");
        reveal_strlit("@ipt");
        reveal_strlit("@timescale");
        reveal_strlit("@links");
        reveal_strlit("@unit");
        reveal_strlit("@time");
        reveal_strlit("@tick");
        reveal_strlit("@second");
        reveal_strlit("@minute");
        reveal_strlit("@waveNumber");
        reveal_strlit("@waveTime");
        reveal_strlit("@mapw");
        reveal_strlit("@maph");
        reveal_strlit("null");
        reveal_strlit("true");
        reveal_strlit("false");
        reveal_strlit("@pi");
        reveal_strlit("@e");
        reveal_strlit("@degToRad");
        reveal_strlit("@radToDeg");
        reveal_strlit("blockCount");
        reveal_strlit("unitCount");
        reveal_strlit("itemCount");
        reveal_strlit("liquidCount");
        reveal_strlit("@memoryCapacity");
        reveal_strlit("@size");
        reveal_strlit("memoryCapacity");
        reveal_strlit("size");
        assert("@counter"@ =~= seq!['@', 'c', 'o', 'u', 'n', 't', 'e', 'r']);
        assert("@this"@ =~= seq!['@', 't', 'h', 'i', 's']);
        assert("@thisx"@ =~= seq!['@', 't', 'h', 'i', 's', 'x']);
        assert("@thisy"@ =~= seq!['@', 't', 'h', 'i', 's', 'y']);
        assert("@ipt"@ =~= seq!['@', 'i', 'p', 't']);
        assert("@timescale"@ =~= seq!['@', 't', 'i', 'm', 'e', 's', 'c', 'a', 'l', 'e']);
        assert("@links"@ =~= seq!['@', 'l', 'i', 'n', 'k', 's']);
        assert("@unit"@ =~= seq!['@', 'u', 'n', 'i', 't']);
        assert("@time"@ =~= seq!['@', 't', 'i', 'm', 'e']);
        assert("@tick"@ =~= seq!['@', 't', 'i', 'c', 'k']);
        assert("@second"@ =~= seq!['@', 's', 'e', 'c', 'o', 'n', 'd']);
        assert("@minute"@ =~= seq!['@', 'm', 'i', 'n', 'u', 't', 'e']);
        assert("@waveNumber"@ =~= seq!['@', 'w', 'a', 'v', 'e', 'N', 'u', 'm', 'b', 'e', 'r']);
        assert("@waveTime"@ =~= seq!['@', 'w', 'a', 'v', 'e', 'T', 'i', 'm', 'e']);
        assert("@mapw"@ =~= seq!['@', 'm', 'a', 'p', 'w']);
        assert("@maph"@ =~= seq!['@', 'm', 'a', 'p', 'h']);
        assert("null"@ =~= seq!['n', 'u', 'l', 'l']);
        assert("true"@ =~= seq!['t', 'r', 'u', 'e']);
        assert("false"@ =~= seq!['f', 'a', 'l', 's', 'e']);
        assert("@pi"@ =~= seq!['@', 'p', 'i']);
        assert("@e"@ =~= seq!['@', 'e']);
        assert("@degToRad"@ =~= seq!['@', 'd', 'e', 'g', 'T', 'o', 'R', 'a', 'd']);
        assert("@radToDeg"@ =~= seq!['@', 'r', 'a', 'd', 'T', 'o', 'D', 'e', 'g']);
        assert("blockCount"@ =~= seq!['b', 'l', 'o', 'c', 'k', 'C', 'o', 'u', 'n', 't']);
        assert("unitCount"@ =~= seq!['u', 'n', 'i', 't', 'C', 'o', 'u', 'n', 't']);
        assert("itemCount"@ =~= seq!['i', 't', 'e', 'm', 'C', 'o', 'u', 'n', 't']);
        assert("liquidCount"@ =~= seq!['l', 'i', 'q', 'u', 'i', 'd', 'C', 'o', 'u', 'n', 't']);
        assert("@memoryCapacity"@ =~= seq!['@', 'm', 'e', 'm', 'o', 'r', 'y', 'C', 'a', 'p', 'a', 'c', 'i', 't', 'y']);
        assert("@size"@ =~= seq!['@', 's', 'i', 'z', 'e']);
    }
    let thousand: u64 = crate::bits::f64_from_u64(1000);
    let z = crate::value::Value::Num(crate::bits::ZERO_BITS);
    proof {
        crate::variable::lemma_find_name(vars.vars@, "@counter"@);
    }
    seed(vars, "@counter", crate::value::Value::Num(crate::bits::ZERO_BITS), false);
    proof {
        crate::variable::lemma_find_name(vars.vars@, "@this"@);
    }
    seed(vars, "@this", crate::value::Value::Building(crate::value::BuildingRef::This), true);
    proof {
        crate::variable::lemma_find_name(vars.vars@, "@thisx"@);
    }
    seed(vars, "@thisx", crate::value::Value::Num(crate::bits::ZERO_BITS), true);
    proof {
        crate::variable::lemma_find_name(vars.vars@, "@thisy"@);
    }
    seed(vars, "@thisy", crate::value::Value::Num(crate::bits::ZERO_BITS), true);
    proof {
        crate::variable::lemma_find_name(vars.vars@, "@ipt"@);
    }
    seed(vars, "@ipt", crate::value::Value::Num(thousand), true);
    proof {
        crate::variable::lemma_find_name(vars.vars@, "@timescale"@);
    }
    seed(vars, "@timescale", crate::value::Value::Num(crate::bits::ONE_BITS), true);
    proof {
        crate::variable::lemma_find_name(vars.vars@, "@links"@);
    }
    seed(vars, "@links", crate::value::Value::Num(links), true);
    proof {
        crate::variable::lemma_find_name(vars.vars@, "@unit"@);
    }
    seed(vars, "@unit", crate::value::Value::Null, false);
    proof {
        crate::variable::lemma_find_name(vars.vars@, "@time"@);
    }
    seed(vars, "@time", crate::value::Value::Num(crate::bits::ZERO_BITS), true);
    proof {
        crate::variable::lemma_find_name(vars.vars@, "@tick"@);
    }
    seed(vars, "@tick", crate::value::Value::Num(crate::bits::ZERO_BITS), true);
    proof {
        crate::variable::lemma_find_name(vars.vars@, "@second"@);
    }
    seed(vars, "@second", crate::value::Value::Num(crate::bits::ZERO_BITS), true);
    proof {
        crate::variable::lemma_find_name(vars.vars@, "@minute"@);
    }
    seed(vars, "@minute", crate::value::Value::Num(crate::bits::ZERO_BITS), true);
    proof {
        crate::variable::lemma_find_name(vars.vars@, "@waveNumber"@);
    }
    seed(vars, "@waveNumber", crate::value::Value::Num(crate::bits::ZERO_BITS), true);
    proof {
        crate::variable::lemma_find_name(vars.vars@, "@waveTime"@);
    }
    seed(vars, "@waveTime", crate::value::Value::Num(crate::bits::ZERO_BITS), true);
    proof {
        crate::variable::lemma_find_name(vars.vars@, "@mapw"@);
    }
    seed(vars, "@mapw", crate::value::Value::Num(crate::bits::ZERO_BITS), true);
    proof {
        crate::variable::lemma_find_name(vars.vars@, "@maph"@);
    }
    seed(vars, "@maph", crate::value::Value::Num(crate::bits::ZERO_BITS), true);
    proof {
        crate::variable::lemma_find_name(vars.vars@, "null"@);
    }
    seed(vars, "null", crate::value::Value::Null, true);
    proof {
        crate::variable::lemma_find_name(vars.vars@, "true"@);
    }
    seed(vars, "true", crate::value::Value::Num(crate::bits::ONE_BITS), true);
    proof {
        crate::variable::lemma_find_name(vars.vars@, "false"@);
    }
    seed(vars, "false", crate::value::Value::Num(crate::bits::ZERO_BITS), true);
    proof {
        crate::variable::lemma_find_name(vars.vars@, "@pi"@);
    }
    seed(vars, "@pi", crate::value::Value::Num(crate::numext::PI_BITS), true);
    proof {
        crate::variable::lemma_find_name(vars.vars@, "@e"@);
    }
    seed(vars, "@e", crate::value::Value::Num(crate::numext::E_BITS), true);
    proof {
        crate::variable::lemma_find_name(vars.vars@, "@degToRad"@);
    }
    seed(vars, "@degToRad", crate::value::Value::Num(crate::numext::DEG_TO_RAD_BITS), true);
    proof {
        crate::variable::lemma_find_name(vars.vars@, "@radToDeg"@);
    }
    seed(vars, "@radToDeg", crate::value::Value::Num(crate::numext::RAD_TO_DEG_BITS), true);
    proof {
        crate::variable::lemma_find_name(vars.vars@, "blockCount"@);
    }
    seed(vars, "blockCount", z, true);
    proof {
        crate::variable::lemma_find_name(vars.vars@, "unitCount"@);
    }
    seed(vars, "unitCount", crate::value::Value::Num(crate::bits::ZERO_BITS), true);
    proof {
        crate::variable::lemma_find_name(vars.vars@, "itemCount"@);
    }
    seed(vars, "itemCount", crate::value::Value::Num(crate::bits::ZERO_BITS), true);
    proof {
        crate::variable::lemma_find_name(vars.vars@, "liquidCount"@);
    }
    seed(vars, "liquidCount", crate::value::Value::Num(crate::bits::ZERO_BITS), true);
    proof {
        crate::variable::lemma_find_name(vars.vars@, "@memoryCapacity"@);
    }
    seed(
        vars,
        "@memoryCapacity",
        crate::value::Value::Property(crate::value::Property::new("memoryCapacity")),
        true,
    );
    proof {
        crate::variable::lemma_find_name(vars.vars@, "@size"@);
    }
    seed(vars, "@size", crate::value::Value::Property(crate::value::Property::new("size")), true);
}

/// What ends a run after a cycle with this outcome: a halt ends it with
/// `Halt` whatever else happened; failing that, a wrap ends it with
/// `PcWrap` when wrap-termination is on; otherwise the run continues
/// (and only the cycle budget can end it, with `InsLimit`).
pub open spec fn decide_finish(c: VmCycleResult, end_on_wrap: bool) -> Option<VmFinishReason> {
    if c.halt {
        Some(VmFinishReason::Halt)
    } else if c.pc_wrap && end_on_wrap {
        Some(VmFinishReason::PcWrap)
    } else {
        None
    }
}

/// The unchanged-machine relation: store, buffer and devices as before.
pub open spec fn same_state(pre: VM, post: VM) -> bool {
    &&& post.variables.vars@ == pre.variables.vars@
    &&& post.print_buffer@ == pre.print_buffer@
    &&& post.buildings@ == pre.buildings@
}

/// One fetch-advance-execute step. The counter is read and taken as an
/// integer (a failure is tagged as program-counter resolution and carries
/// no position); a negative value is rejected; a value past the end wraps
/// to 0; the counter is then set to the executed index plus one, before
/// the instruction at the index runs; an execution error carries the
/// index.
pub open spec fn cycle_rel(pre: VM, post: VM, r: Result<VmCycleResult, PosVmError>) -> bool {
    let cv = pre.variables.vars@[pre.pc_handle.0 as int].value;
    if !(cv is Num) {
        &&& same_state(pre, post)
        &&& r matches Err(p) && p.1 is None && (p.0 matches VmError::PcResError(inner)
            && crate::building::is_invalid_cast(*inner, cv, pre.buildings@, "num"@))
    } else if !crate::bits::near_int_b(cv->Num_0) {
        &&& same_state(pre, post)
        &&& r matches Err(p) && p.1 is None && (p.0 matches VmError::PcResError(inner)
            && crate::building::is_invalid_cast(*inner, cv, pre.buildings@, "int"@))
    } else if crate::bits::round_i64_b(cv->Num_0) < 0 {
        &&& same_state(pre, post)
        &&& r matches Err(p) && p.1 is None && (p.0 matches VmError::NegativeIndex(n, d) && n
            == crate::bits::round_i64_b(cv->Num_0) && d@ == "program counter"@)
    } else {
        let pcv = crate::bits::round_i64_b(cv->Num_0);
        let wrap = pcv as int >= pre.code@.len();
        let epc = if wrap {
            0int
        } else {
            pcv as int
        };
        cycle_step(pre, post, epc, wrap, r)
    }
}

/// The advance-and-execute tail of a cycle: through some middle store in
/// which only the counter was set to the executed index plus one, the
/// instruction at that index relates the states.
pub open spec fn cycle_step(
    pre: VM,
    post: VM,
    epc: int,
    wrap: bool,
    r: Result<VmCycleResult, PosVmError>,
) -> bool {
    exists|mid: Seq<crate::variable::Variable>|
        #[trigger] crate::instruction::wrote_slot(
            pre.variables.vars@,
            mid,
            pre.pc_handle.0 as int,
            crate::value::Value::Num(crate::bits::u64_to_bits((epc + 1) as u64)),
        ) && match r {
            Ok(c) => c.pc_wrap == wrap && crate::instruction::exec_rel(
                pre.code@[epc],
                pre.pc_handle,
                mid,
                pre.print_buffer@,
                pre.buildings@,
                post.variables.vars@,
                post.print_buffer@,
                post.buildings@,
                Ok(crate::instruction::InstructionExecuteResult { halt: c.halt }),
            ),
            Err(p) => p.1 == Some(epc as usize) && crate::instruction::exec_rel(
                pre.code@[epc],
                pre.pc_handle,
                mid,
                pre.print_buffer@,
                pre.buildings@,
                post.variables.vars@,
                post.print_buffer@,
                post.buildings@,
                Err(p.0),
            ),
        }
}

impl VM {
    /// Constructs a machine: seeds the builtins, installs one constant
    /// device slot per attached device, parses every line, and refuses an
    /// empty or over-long program.
    #[verifier::rlimit(100)]
    pub fn new(
        code: &str,
        code_len_limit: usize,
        buildings: Vec<crate::building::Building>,
    ) -> (r: Result<VM, VmError>)
        requires
            program_ok(code@),
            devices_ok(buildings@),
        ensures
            match r {
                Ok(vm) => constructed(vm, code@, code_len_limit, buildings@),
                Err(e) => {
                    &&& (e is EmptyCode <==> count_nonempty(lines_of(code@)) == 0)
                    &&& (e matches VmError::CodeTooLong(n, l) ==> n == count_nonempty(
                        lines_of(code@),
                    ) && l == code_len_limit && n > l)
                    &&& (e is EmptyCode || e matches VmError::CodeTooLong(_, _))
                },
            },
    {
        let nd: usize = buildings.len();
        let links: u64 = crate::bits::f64_from_u64(nd as u64);
        let mut vars = crate::variable::Variables::new();
        install_builtins(&mut vars, links);
        let ghost seeded = vars.vars@;
        proof {
            assert forall|k: int|
                0 <= k < vars.vars@.len() implies (#[trigger] vars.vars@[k].value).valid(
                nd as int,
            ) by {
                crate::value::lemma_value_valid_mono(vars.vars@[k].value, 0, nd as int);
            }
        }
        let mut i: usize = 0;
        while i < nd
            invariant
                nd == buildings@.len(),
                i <= nd,
                vars.wf(),
                vars.vars@.len() == 29 + i,
                vars.vars@.take(29) == seeded,
                seeded.len() == 29,
                forall|k: int| 0 <= k < 29 ==> (#[trigger] vars.vars@[k]) == seeded[k],
                forall|k: int| 0 <= k < 29 ==> (#[trigger] seeded[k]).name@ == builtin_names()[k],
                devices_ok(buildings@),
                forall|k: int|
                    0 <= k < i ==> {
                        &&& (#[trigger] vars.vars@[29 + k]).name@ == buildings@[k].name_s()
                        &&& vars.vars@[29 + k].constant
                        &&& vars.vars@[29 + k].value == crate::value::Value::Building(
                            crate::value::BuildingRef::Device(k as usize),
                        )
                    },
                crate::instruction::all_valid(seeded, 0),
                crate::instruction::all_valid(vars.vars@, buildings@.len() as int),
            decreases nd - i,
        {
            proof {
                crate::variable::lemma_find_name(vars.vars@, buildings@[i as int].name_s());
                if crate::variable::has_name(vars.vars@, buildings@[i as int].name_s()) {
                    let f = crate::variable::find_name(vars.vars@, buildings@[i as int].name_s());
                    if f < 29 {
                        assert(builtin_names().contains(buildings@[i as int].name_s())) by {
                            assert(builtin_names()[f] == buildings@[i as int].name_s());
                        }
                        assert(false);
                    } else {
                        assert(vars.vars@[29 + (f - 29)].name@ == buildings@[f - 29].name_s());
                        assert(vars.vars@[f].name@ == buildings@[i as int].name_s());
                        assert(buildings@[f - 29].name_s() == buildings@[i as int].name_s());
                        assert(false);
                    }
                }
            }
            let name: String = buildings[i].name().to_owned();
            let var = crate::variable::Variable::new_const(
                name,
                crate::value::Value::Building(crate::value::BuildingRef::Device(i)),
                true,
            );
            vars.insert(var);
            proof {
                assert(vars.vars@.take(29) =~= seeded);
            }
            i = i + 1;
        }
        let ghost based = vars.vars@;
        let lines = split_newlines(code);
        let nl: usize = lines.len();
        let mut prog: Vec<crate::instruction::Instruction> = Vec::new();
        let ghost mut ss: Seq<Seq<crate::variable::Variable>> = seq![based];
        let mut j: usize = 0;
        proof {
            assert(lines_of(code@).take(0) =~= Seq::<Seq<char>>::empty());
        }
        while j < nl
            invariant
                nl == lines@.len(),
                j <= nl,
                lines@.map_values(|t: String| t@) == lines_of(code@),
                program_ok(code@),
                vars.wf(),
                vars.vars@.len() >= based.len(),
                vars.vars@.take(based.len() as int) == based,
                based.len() == 29 + buildings@.len(),
                forall|k: int| 0 <= k < based.len() ==> (#[trigger] vars.vars@[k]) == based[k],
                forall|k: int|
                    based.len() <= k < vars.vars@.len() ==> (#[trigger] vars.vars@[k]).value
                        is Null && !vars.vars@[k].constant,
                prog@.len() == count_nonempty(lines_of(code@).take(j as int)),
                forall|k: int|
                    0 <= k < prog@.len() ==> (#[trigger] prog@[k]).valid(
                        vars.vars@.len() as int,
                    ),
                ss.len() == prog@.len() + 1,
                ss[0] == based,
                ss.last() == vars.vars@,
                forall|t: int|
                    0 <= t < prog@.len() ==> #[trigger] crate::instruction::line_parses(
                        ss[t],
                        ss[t + 1],
                        crate::instruction::split_line_s(
                            nonempty_lines(lines_of(code@).take(j as int))[t],
                        ),
                        prog@[t],
                    ),
                crate::instruction::all_valid(vars.vars@, buildings@.len() as int),
            decreases nl - j,
        {
            proof {
                assert(lines@[j as int]@ == lines_of(code@)[j as int]);
                assert(lines_of(code@).take(j + 1).drop_last() =~= lines_of(code@).take(j as int));
            }
            let ghost prevars = vars.vars@;
            let p = crate::instruction::Instruction::parse(lines[j].as_str(), &mut vars);
            proof {
                assert forall|k: int| 0 <= k < prog@.len() implies (#[trigger] prog@[k]).valid(
                    vars.vars@.len() as int,
                ) by {
                    crate::instruction::lemma_ins_valid_mono(
                        prog@[k],
                        prevars.len() as int,
                        vars.vars@.len() as int,
                    );
                }
                assert forall|k: int| 0 <= k < prevars.len() implies #[trigger] vars.vars@[k]
                    == prevars[k] by {
                    assert(vars.vars@.take(prevars.len() as int)[k] == vars.vars@[k]);
                }
                assert forall|k: int|
                    based.len() <= k < vars.vars@.len() implies ((#[trigger] vars.vars@[k]).value
                    is Null && !vars.vars@[k].constant) by {
                    if k < prevars.len() {
                        assert(vars.vars@[k] == prevars[k]);
                    }
                }
                assert forall|k: int|
                    0 <= k < vars.vars@.len() implies (#[trigger] vars.vars@[k].value).valid(
                    buildings@.len() as int,
                ) by {
                    if k < prevars.len() {
                        assert(vars.vars@[k] == prevars[k]);
                    }
                }
            }
            match p {
                crate::instruction::ParsedLine::Empty => {
                    proof {
                        assert(nonempty_lines(lines_of(code@).take(j + 1)) =~= nonempty_lines(
                            lines_of(code@).take(j as int),
                        ));
                    }
                },
                crate::instruction::ParsedLine::Ins(ins) => {
                    proof {
                        let press = ss;
                        assert(crate::instruction::line_parses(
                            prevars,
                            vars.vars@,
                            crate::instruction::split_line_s(lines_of(code@)[j as int]),
                            ins,
                        ));
                        assert(nonempty_lines(lines_of(code@).take(j + 1)) =~= nonempty_lines(
                            lines_of(code@).take(j as int),
                        ).push(lines_of(code@)[j as int]));
                        ss = ss.push(vars.vars@);
                        assert forall|t: int|
                            0 <= t < prog@.len() + 1 implies #[trigger] crate::instruction::line_parses(
                            ss[t],
                            ss[t + 1],
                            crate::instruction::split_line_s(
                                nonempty_lines(lines_of(code@).take(j + 1))[t],
                            ),
                            prog@.push(ins)[t],
                        ) by {
                            if t < prog@.len() {
                                assert(ss[t] == press[t] && ss[t + 1] == press[t + 1]);
                                assert(nonempty_lines(lines_of(code@).take(j + 1))[t]
                                    == nonempty_lines(lines_of(code@).take(j as int))[t]);
                                assert(prog@.push(ins)[t] == prog@[t]);
                            } else {
                                assert(ss[t] == prevars && ss[t + 1] == vars.vars@);
                            }
                        }
                    }
                    prog.push(ins);
                },
                crate::instruction::ParsedLine::Bad => {
                    // Unreachable: every line's shape was required to fit.
                    proof {
                        assert(crate::instruction::line_shape_ok(lines_of(code@)[j as int]));
                        assert(false);
                    }
                    return Err(VmError::EmptyCode);
                },
            }
            j = j + 1;
        }
        proof {
            assert(lines_of(code@).take(nl as int) == lines_of(code@));
        }
        if prog.len() == 0 {
            return Err(VmError::EmptyCode);
        }
        if prog.len() > code_len_limit {
            return Err(VmError::CodeTooLong(prog.len(), code_len_limit));
        }
        proof {
            assert(vars.vars@.take(based.len() as int) =~= based);
            assert(code_parse_chain(ss, nonempty_lines(lines_of(code@)), prog@));
            assert(code_parses_from(
                vars.vars@.take(29 + buildings@.len() as int),
                vars.vars@,
                nonempty_lines(lines_of(code@)),
                prog@,
            ));
            assert(builtin_values(vars.vars@, links));
        }
        let vm = VM {
            pc_handle: crate::variable::VarHandle(0),
            variables: vars,
            code: prog,
            print_buffer: PrintBuffer::new(),
            buildings,
        };
        proof {
            reveal_strlit("@counter");
        }
        Ok(vm)
    }

    /// Reads a variable's current value by name.
    pub fn get_val(&self, name: &str) -> (r: Result<crate::value::Value, VmError>)
        ensures
            match r {
                Ok(v) => crate::variable::has_name(self.variables.vars@, name@)
                    && crate::value::val_equiv(
                    v,
                    self.variables.vars@[crate::variable::find_name(
                        self.variables.vars@,
                        name@,
                    )].value,
                ),
                Err(e) => !crate::variable::has_name(self.variables.vars@, name@) && (e
                    matches VmError::VariableNotFound(s) && s@ == name@),
            },
    {
        match self.variables.get_handle(name) {
            Some(h) => {
                proof {
                    crate::variable::lemma_find_name(self.variables.vars@, name@);
                }
                Ok(h.val(&self.variables))
            },
            None => Err(VmError::VariableNotFound(name.to_owned())),
        }
    }

    /// Runs one cycle.
    pub fn cycle(&mut self) -> (r: Result<VmCycleResult, PosVmError>)
        requires
            old(self).wf(),
        ensures
            final(self).wf(),
            final(self).code@ == old(self).code@,
            final(self).pc_handle == old(self).pc_handle,
            final(self).buildings@.len() == old(self).buildings@.len(),
            crate::instruction::vars_frame(old(self).variables.vars@, final(self).variables.vars@),
            crate::instruction::devs_frame(old(self).buildings@, final(self).buildings@),
            cycle_rel(*old(self), *final(self), r),
    {
        let cv = self.pc_handle.val(&self.variables);
        let pcv: i64 = match crate::building::value_as_int(&cv, &self.buildings) {
            Ok(p) => p,
            Err(e) => {
                proof {
                    crate::building::lemma_cast_equiv(
                        e,
                        cv,
                        self.variables.vars@[self.pc_handle.0 as int].value,
                        self.buildings@,
                        if cv is Num {
                            "int"@
                        } else {
                            "num"@
                        },
                    );
                }
                let p = e.to_pc_res().to_pos();
                proof {
                    assert(cycle_rel(*old(self), *self, Err(p)));
                }
                return Err(p);
            },
        };
        if pcv < 0 {
            proof {
                reveal_strlit("program counter");
            }
            let p = VmError::NegativeIndex(pcv, "program counter").to_pos();
            proof {
                assert(cycle_rel(*old(self), *self, Err(p)));
            }
            return Err(p);
        }
        let len: usize = self.code.len();
        let wrap: bool = (pcv as u64) >= (len as u64);
        let epc: usize = if wrap {
            0
        } else {
            pcv as usize
        };
        let nextb: u64 = crate::bits::f64_from_u64((epc + 1) as u64);
        match self.pc_handle.set(&mut self.variables, crate::value::Value::Num(nextb)) {
            Ok(_) => {},
            Err(_) => {
                // Unreachable: the counter's slot is never constant.
                proof {
                    assert(false);
                }
                return Err(VmError::EmptyCode.to_pos());
            },
        }
        let ghost mid = self.variables.vars@;
        proof {
            let cvs = old(self).variables.vars@[old(self).pc_handle.0 as int].value;
            assert(cvs is Num);
            assert(crate::bits::near_int_b(cvs->Num_0));
            assert(crate::bits::round_i64_b(cvs->Num_0) == pcv);
            assert(wrap == (pcv as int >= old(self).code@.len()));
            assert(crate::instruction::wrote_slot(
                old(self).variables.vars@,
                mid,
                self.pc_handle.0 as int,
                crate::value::Value::Num(crate::bits::u64_to_bits((epc + 1) as u64)),
            ));
            assert(crate::instruction::all_valid(mid, self.buildings@.len() as int));
        }
        let r2 = self.code[epc].execute(
            &mut self.variables,
            &mut self.print_buffer,
            &mut self.buildings,
            self.pc_handle,
        );
        match r2 {
            Ok(res) => {
                let out = VmCycleResult { pc_wrap: wrap, halt: res.halt };
                proof {
                    assert(crate::instruction::exec_rel(
                        old(self).code@[epc as int],
                        self.pc_handle,
                        mid,
                        old(self).print_buffer@,
                        old(self).buildings@,
                        self.variables.vars@,
                        self.print_buffer@,
                        self.buildings@,
                        Ok(crate::instruction::InstructionExecuteResult { halt: out.halt }),
                    ));
                    assert(cycle_step(*old(self), *self, epc as int, wrap, Ok(out)));
                    assert(cycle_rel(*old(self), *self, Ok(out)));
                }
                Ok(out)
            },
            Err(e) => {
                let p = e.with_pos(epc);
                proof {
                    assert(crate::instruction::exec_rel(
                        old(self).code@[epc as int],
                        self.pc_handle,
                        mid,
                        old(self).print_buffer@,
                        old(self).buildings@,
                        self.variables.vars@,
                        self.print_buffer@,
                        self.buildings@,
                        Err(p.0),
                    ));
                    assert(cycle_step(*old(self), *self, epc as int, wrap, Err(p)));
                    assert(cycle_rel(*old(self), *self, Err(p)));
                }
                Err(p)
            },
        }
    }

    /// Which reason ends the run after a cycle: a halt always wins; a
    /// wrap ends the run only when asked to; otherwise the run goes on.
    pub fn finish_decision(c: &VmCycleResult, end_on_wrap: bool) -> (r: Option<VmFinishReason>)
        ensures
            r == decide_finish(*c, end_on_wrap),
    {
        if c.halt {
            Some(VmFinishReason::Halt)
        } else if c.pc_wrap && end_on_wrap {
            Some(VmFinishReason::PcWrap)
        } else {
            None
        }
    }

    /// Runs cycles until a `stop`, a wrap (when `end_on_wrap` asks for
    /// it), the cycle budget, or an error.
    pub fn run(&mut self, limit: Option<usize>, end_on_wrap: bool) -> (r: Result<
        VmFinishReason,
        PosVmError,
    >)
        requires
            old(self).wf(),
        ensures
            final(self).wf(),
            final(self).code@ == old(self).code@,
            final(self).pc_handle == old(self).pc_handle,
            crate::instruction::vars_frame(old(self).variables.vars@, final(self).variables.vars@),
            crate::instruction::devs_frame(old(self).buildings@, final(self).buildings@),
            run_rel(*old(self), *final(self), limit, end_on_wrap, r),
            r == Ok::<VmFinishReason, PosVmError>(VmFinishReason::PcWrap) ==> end_on_wrap,
    {
        let budget: usize = match limit {
            Some(l) => l,
            None => usize::MAX,
        };
        let ghost mut vms: Seq<VM> = seq![*old(self)];
        let ghost mut outs: Seq<VmCycleResult> = Seq::empty();
        let mut k: usize = 0;
        while k < budget
            invariant
                self.wf(),
                self.code@ == old(self).code@,
                self.pc_handle == old(self).pc_handle,
                crate::instruction::vars_frame(old(self).variables.vars@, self.variables.vars@),
                crate::instruction::devs_frame(old(self).buildings@, self.buildings@),
                budget as int == run_budget(limit),
                k <= budget,
                outs.len() == k,
                steps_ok(vms, outs),
                vms[0] == *old(self),
                vms.last() == *self,
                forall|i: int|
                    0 <= i < outs.len() ==> #[trigger] decide_finish(outs[i], end_on_wrap) is None,
            decreases budget - k,
        {
            let ghost pre = *self;
            let c = match self.cycle() {
                Ok(c) => c,
                Err(p) => {
                    proof {
                        assert(cycle_rel(vms.last(), *self, Err(p)));
                        assert(run_fails(*old(self), *self, limit, end_on_wrap, p));
                    }
                    return Err(p);
                },
            };
            let ghost preouts = outs;
            proof {
                let prevms = vms;
                vms = vms.push(*self);
                outs = outs.push(c);
                assert(vms.last() == *self);
                assert(vms[0] == *old(self));
                assert forall|i: int| 0 <= i < outs.len() implies #[trigger] cycle_rel(
                    vms[i],
                    vms[i + 1],
                    Ok(outs[i]),
                ) by {
                    if i < preouts.len() {
                        assert(vms[i] == prevms[i] && vms[i + 1] == prevms[i + 1] && outs[i]
                            == preouts[i]);
                    } else {
                        assert(vms[i] == pre && vms[i + 1] == *self && outs[i] == c);
                    }
                }
                assert(steps_ok(vms, outs));
            }
            match Self::finish_decision(&c, end_on_wrap) {
                Some(reason) => {
                    proof {
                        assert(decide_finish(outs.last(), end_on_wrap) == Some(reason));
                        assert forall|i: int|
                            0 <= i < outs.len() - 1 implies #[trigger] decide_finish(
                            outs[i],
                            end_on_wrap,
                        ) is None by {
                            assert(outs[i] == preouts[i]);
                        }
                        assert(run_finishes(*old(self), *self, limit, end_on_wrap, reason));
                    }
                    return Ok(reason);
                },
                None => {
                    proof {
                        assert forall|i: int| 0 <= i < outs.len() implies #[trigger] decide_finish(
                            outs[i],
                            end_on_wrap,
                        ) is None by {
                            if i == outs.len() - 1 {
                                assert(outs[i] == c);
                            }
                        }
                    }
                },
            }
            k = k + 1;
        }
        proof {
            assert(run_exhausts(*old(self), *self, limit, end_on_wrap));
        }
        Ok(VmFinishReason::InsLimit)
    }

    /// Hands the print buffer over when the machine is done.
    pub fn into_print_buffer(self) -> (r: PrintBuffer)
        ensures
            r@ == self.print_buffer@,
    {
        self.print_buffer
    }
}

/// Installs one built-in slot; the caller keeps the names distinct.
fn seed(vars: &mut crate::variable::Variables, name: &'static str, value: crate::value::Value, constant: bool)
    requires
        old(vars).wf(),
        !crate::variable::has_name(old(vars).vars@, name@),
    ensures
        final(vars).wf(),
        final(vars).vars@.len() == old(vars).vars@.len() + 1,
        forall|i: int| 0 <= i < old(vars).vars@.len() ==> final(vars).vars@[i] == old(vars).vars@[i],
        final(vars).vars@.last().name@ == name@,
        final(vars).vars@.last().value == value,
        final(vars).vars@.last().constant == constant,
{
    let var = crate::variable::Variable::new_const(name.to_owned(), value, constant);
    vars.insert(var);
}

} // verus!
