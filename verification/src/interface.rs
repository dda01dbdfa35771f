//! The envelope around the machine: plain option and output records, and
//! the one entry point that builds the devices, runs the program and
//! harvests the results. Reading and writing any outside representation
//! of these records is the caller's business.

use vstd::prelude::*;

use crate::building::Building;
use crate::vm::{
    builtin_names, count_nonempty, devices_ok, lines_of, program_ok, PosVmError, VmError,
    VmFinishReason, VM,
};

verus! {

/// What kind of device to attach.
#[derive(Debug)]
pub enum Device {
    Message,
    Memory(usize),
}

/// A device's final state: a display's text, or a memory cell's numbers
/// as their bit patterns.
#[derive(Debug)]
pub enum DeviceState {
    Message(String),
    Memory(Vec<u64>),
}

/// Where a failure arose: at an instruction, nowhere in particular, or
/// while resolving the program counter.
#[derive(Debug)]
pub enum ErrorPos {
    Instruction(usize),
    Absent,
    PcFetch,
}

/// What the interpreter is asked to run.
#[derive(Debug)]
pub struct Options {
    pub code: String,
    pub code_len_limit: Option<usize>,
    pub instruction_limit: Option<usize>,
    pub end_on_wrap: bool,
    pub devices: Vec<(String, Device)>,
}

/// What a run returns.
#[derive(Debug)]
pub enum Output {
    Success { finish_reason: VmFinishReason, devices: Vec<(String, DeviceState)>, print_buffer: String },
    Failure { pos: ErrorPos, msg: String },
}

/// The device names an option record may carry: unique among themselves
/// and apart from every builtin.
pub open spec fn option_devices_ok(ds: Seq<(String, Device)>) -> bool {
    &&& (forall|i: int, j: int| 0 <= i < j < ds.len() ==> (#[trigger] ds[i].0@) != (#[trigger] ds[j].0@))
    &&& (forall|i: int| 0 <= i < ds.len() ==> !builtin_names().contains(#[trigger] ds[i].0@))
}

/// Whether an option record can be run without the construction aborting:
/// every line fits an instruction shape, the program is neither empty nor
/// over the length limit, and the device names are admissible. Outside
/// these bounds no run is attempted.
pub open spec fn options_ok(o: Options) -> bool {
    &&& program_ok(o.code@)
    &&& option_devices_ok(o.devices@)
    &&& 1 <= count_nonempty(lines_of(o.code@))
    &&& count_nonempty(lines_of(o.code@)) <= (match o.code_len_limit {
        Some(l) => l as int,
        None => 1000int,
    })
}

/// Checks `options_ok` at run time, for callers that take programs from
/// outside.
pub fn options_admissible(o: &Options) -> (r: bool)
    ensures
        r == options_ok(*o),
{
    if !crate::vm::program_well_formed(o.code.as_str()) {
        return false;
    }
    let nd: usize = o.devices.len();
    let mut i: usize = 0;
    while i < nd
        invariant
            nd == o.devices@.len(),
            i <= nd,
            forall|a: int, b: int|
                0 <= a < b < i ==> (#[trigger] o.devices@[a].0@) != (#[trigger] o.devices@[b].0@),
            forall|a: int| 0 <= a < i ==> !builtin_names().contains(#[trigger] o.devices@[a].0@),
        decreases nd - i,
    {
        if crate::vm::is_builtin_name(o.devices[i].0.as_str()) {
            return false;
        }
        let mut j: usize = 0;
        while j < i
            invariant
                i < nd == o.devices@.len(),
                j <= i,
                forall|a: int| 0 <= a < j ==> (#[trigger] o.devices@[a].0@) != o.devices@[i as int].0@,
            decreases i - j,
        {
            if crate::text::str_eq(o.devices[j].0.as_str(), o.devices[i].0.as_str()) {
                return false;
            }
            j = j + 1;
        }
        i = i + 1;
    }
    let limit: usize = match o.code_len_limit {
        Some(l) => l,
        None => 1000,
    };
    let count = count_program_lines(o.code.as_str());
    1 <= count && count <= limit
}

/// Counts the lines that hold an instruction.
fn count_program_lines(code: &str) -> (r: usize)
    ensures
        r == count_nonempty(lines_of(code@)),
        count_nonempty(lines_of(code@)) >= 0,
{
    let lines = crate::vm::split_newlines(code);
    let n: usize = lines.len();
    let mut i: usize = 0;
    let mut count: usize = 0;
    proof {
        assert(lines_of(code@).take(0) =~= Seq::<Seq<char>>::empty());
    }
    while i < n
        invariant
            n == lines@.len(),
            lines@.map_values(|t: String| t@) == lines_of(code@),
            i <= n,
            count <= i,
            count == count_nonempty(lines_of(code@).take(i as int)),
        decreases n - i,
    {
        proof {
            assert(lines@[i as int]@ == lines_of(code@)[i as int]);
            assert(lines_of(code@).take(i + 1).drop_last() =~= lines_of(code@).take(i as int));
        }
        let toks = crate::instruction::Instruction::split_line(lines[i].as_str());
        if toks.len() > 0 {
            count = count + 1;
        }
        i = i + 1;
    }
    proof {
        assert(lines_of(code@).take(n as int) == lines_of(code@));
    }
    count
}

/// The starting state of one requested device: a display with empty text,
/// or a memory cell of the asked capacity holding zeros.
pub open spec fn device_start(b: Building, d: Device) -> bool {
    match d {
        Device::Message => b is Message && b->Message_0.text@.len() == 0,
        Device::Memory(c) => {
            &&& b is Memory
            &&& b->Memory_0.data@.len() == c
            &&& (forall|t: int|
                0 <= t < b->Memory_0.data@.len() ==> (#[trigger] b->Memory_0.data@[t])
                    == crate::bits::ZERO_BITS)
        },
    }
}

/// The devices a run starts with: one building per requested device, of
/// its kind, under its name, in its starting state, in list order.
pub open spec fn devices_built(bs: Seq<Building>, ds: Seq<(String, Device)>) -> bool {
    &&& bs.len() == ds.len()
    &&& (forall|i: int| 0 <= i < ds.len() ==> (#[trigger] bs[i]).name_s() == ds[i].0@)
    &&& (forall|i: int| 0 <= i < ds.len() ==> device_start(#[trigger] bs[i], ds[i].1))
}

/// A snapshot reads a device's final state off faithfully.
pub open spec fn snapshot_of(st: DeviceState, b: Building) -> bool {
    match st {
        DeviceState::Message(t) => b is Message && t@ == b->Message_0.text@,
        DeviceState::Memory(d) => b is Memory && d@ == b->Memory_0.data@,
    }
}

/// Where a failure is reported: at its instruction when one was executing,
/// at the counter fetch when decoding `@counter` failed, else nowhere.
pub open spec fn pos_of(pos: ErrorPos, p: PosVmError) -> bool {
    match pos {
        ErrorPos::Instruction(i) => p.1 == Some(i),
        ErrorPos::PcFetch => p.1 is None && p.0 is PcResError,
        ErrorPos::Absent => p.1 is None && !(p.0 is PcResError),
    }
}

/// The code-length ceiling a request asks for.
pub open spec fn limit_of(o: Options) -> usize {
    match o.code_len_limit {
        Some(l) => l,
        None => 1000,
    }
}

/// The run behind a successful output: some machine built from exactly
/// the request whose run finished with this reason, the device snapshots
/// read off the final machine in list order, and the print buffer the
/// final machine's buffer.
pub open spec fn output_success(
    options: Options,
    finish_reason: VmFinishReason,
    devices: Seq<(String, DeviceState)>,
    print_buffer: Seq<char>,
) -> bool {
    exists|bs: Seq<Building>, vm0: VM, vm1: VM|
        {
            &&& #[trigger] devices_built(bs, options.devices@)
            &&& #[trigger] crate::vm::constructed(vm0, options.code@, limit_of(options), bs)
            &&& #[trigger] crate::vm::run_rel(
                vm0,
                vm1,
                options.instruction_limit,
                options.end_on_wrap,
                Ok(finish_reason),
            )
            &&& vm1.buildings@.len() == options.devices@.len()
            &&& devices.len() == options.devices@.len()
            &&& (forall|i: int|
                0 <= i < devices.len() ==> (#[trigger] devices[i]).0@ == options.devices@[i].0@
                    && snapshot_of(devices[i].1, vm1.buildings@[i]))
            &&& print_buffer == vm1.print_buffer@
        }
}

/// The run behind a failed output: some machine built from exactly the
/// request whose run stopped on this error, reported with its position
/// and its rendered message.
pub open spec fn output_failure(options: Options, pos: ErrorPos, msg: Seq<char>) -> bool {
    exists|bs: Seq<Building>, vm0: VM, vm1: VM, p: PosVmError|
        {
            &&& #[trigger] devices_built(bs, options.devices@)
            &&& #[trigger] crate::vm::constructed(vm0, options.code@, limit_of(options), bs)
            &&& #[trigger] crate::vm::run_rel(
                vm0,
                vm1,
                options.instruction_limit,
                options.end_on_wrap,
                Err(p),
            )
            &&& pos_of(pos, p)
            &&& msg == crate::vm::pos_error_display(p)
        }
}

/// Builds the machine from an option record, runs it, and returns either
/// the device snapshots with the accumulated print buffer, or the failure
/// with its position, rendered as the interpreter reports it.
pub fn run_from_options(options: Options) -> (r: Output)
    requires
        options_ok(options),
    ensures
        match r {
            Output::Success { finish_reason, devices, print_buffer } => output_success(
                options,
                finish_reason,
                devices@,
                print_buffer@,
            ),
            Output::Failure { pos, msg } => output_failure(options, pos, msg@),
        },
{
    let ghost opt0 = options;
    let Options { code, code_len_limit, instruction_limit, end_on_wrap, devices } = options;
    let nd: usize = devices.len();
    let mut buildings: Vec<Building> = Vec::new();
    let mut names: Vec<String> = Vec::new();
    let mut i: usize = 0;
    while i < nd
        invariant
            nd == devices@.len(),
            i <= nd,
            buildings@.len() == i,
            names@.len() == i,
            forall|k: int| 0 <= k < i ==> (#[trigger] buildings@[k].name_s()) == devices@[k].0@,
            forall|k: int| 0 <= k < i ==> device_start(#[trigger] buildings@[k], devices@[k].1),
            forall|k: int| 0 <= k < i ==> (#[trigger] names@[k]@) == devices@[k].0@,
            option_devices_ok(devices@),
        decreases nd - i,
    {
        let name: String = devices[i].0.clone();
        names.push(devices[i].0.clone());
        match &devices[i].1 {
            Device::Message => {
                buildings.push(Building::Message(crate::building::MessageBuilding::new(name)));
            },
            Device::Memory(capacity) => {
                buildings.push(
                    Building::Memory(crate::building::MemoryBuilding::new(name, *capacity)),
                );
            },
        }
        i = i + 1;
    }
    let ghost bsg = buildings@;
    proof {
        assert(devices_ok(buildings@));
        assert(devices_built(bsg, opt0.devices@));
    }
    let limit: usize = match code_len_limit {
        Some(l) => l,
        None => 1000,
    };
    let mut vm = match VM::new(code.as_str(), limit, buildings) {
        Ok(vm) => vm,
        Err(_e) => {
            // Unreachable: the requirement keeps the program non-empty
            // and within the limit.
            proof {
                assert(false);
            }
            return Output::Failure { pos: ErrorPos::Absent, msg: String::new() };
        },
    };
    proof {
        assert(crate::vm::constructed(vm, opt0.code@, limit_of(opt0), bsg));
    }
    let ghost vm0g = vm;
    match vm.run(instruction_limit, end_on_wrap) {
        Ok(finish_reason) => {
            let ghost vm1g = vm;
            proof {
                assert(crate::vm::run_rel(
                    vm0g,
                    vm1g,
                    opt0.instruction_limit,
                    opt0.end_on_wrap,
                    Ok(finish_reason),
                ));
                assert(vm.buildings@.len() == nd);
            }
            let mut out: Vec<(String, DeviceState)> = Vec::new();
            let n2: usize = vm.buildings.len();
            let mut k: usize = 0;
            while k < n2
                invariant
                    n2 == vm.buildings@.len(),
                    vm.buildings@ == vm1g.buildings@,
                    n2 == nd == devices@.len(),
                    names@.len() == nd,
                    k <= n2,
                    out@.len() == k,
                    forall|t: int| 0 <= t < nd ==> (#[trigger] names@[t]@) == devices@[t].0@,
                    forall|t: int| 0 <= t < k ==> (#[trigger] out@[t].0@) == devices@[t].0@,
                    forall|t: int|
                        0 <= t < k ==> snapshot_of((#[trigger] out@[t]).1, vm1g.buildings@[t]),
                decreases n2 - k,
            {
                let state: DeviceState = match &vm.buildings[k] {
                    Building::Message(m) => DeviceState::Message(m.get_text()),
                    Building::Memory(m) => DeviceState::Memory(m.get_data()),
                };
                out.push((names[k].clone(), state));
                k = k + 1;
            }
            let mut pb = vm.into_print_buffer();
            let print_buffer = pb.take();
            proof {
                assert(print_buffer@ == vm1g.print_buffer@);
                assert(output_success(opt0, finish_reason, out@, print_buffer@));
            }
            Output::Success { finish_reason, devices: out, print_buffer }
        },
        Err(err) => {
            let ghost vm1g = vm;
            let ghost perr = err;
            let msg = err.display_message();
            let PosVmError(inner, pos0) = err;
            let pos: ErrorPos = match pos0 {
                Some(p) => ErrorPos::Instruction(p),
                None => match &inner {
                    VmError::PcResError(_) => ErrorPos::PcFetch,
                    _ => ErrorPos::Absent,
                },
            };
            proof {
                assert(crate::vm::run_rel(
                    vm0g,
                    vm1g,
                    opt0.instruction_limit,
                    opt0.end_on_wrap,
                    Err(perr),
                ));
                assert(pos_of(pos, perr));
                assert(output_failure(opt0, pos, msg@));
            }
            Output::Failure { pos, msg }
        },
    }
}

} // verus!
