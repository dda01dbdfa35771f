use mlog_emulator::interface::{
    options_admissible, run_from_options, Device, DeviceState, ErrorPos, Options, Output,
};
use mlog_emulator::vm::VmFinishReason;

fn run_with(code: &str, devices: Vec<(String, Device)>) -> Output {
    let options = Options {
        code: code.to_string(),
        code_len_limit: None,
        instruction_limit: Some(1000),
        end_on_wrap: true,
        devices,
    };
    assert!(options_admissible(&options));
    run_from_options(options)
}

fn one_message(code: &str) -> Output {
    run_with(code, vec![("m1".to_string(), Device::Message)])
}

fn message_text(out: &Output, name: &str) -> String {
    match out {
        Output::Success { devices, .. } => {
            for (n, st) in devices {
                if n == name {
                    match st {
                        DeviceState::Message(t) => return t.clone(),
                        DeviceState::Memory(_) => panic!("memory, not a display"),
                    }
                }
            }
            panic!("no device of that name");
        },
        Output::Failure { msg, .. } => panic!("unexpected failure: {}", msg),
    }
}

#[test]
fn plain_print() {
    let out = one_message("set x 1\nprint x\nprint \"abc\"\nprintflush m1");
    match &out {
        Output::Success { finish_reason, print_buffer, .. } => {
            assert!(matches!(finish_reason, VmFinishReason::PcWrap));
            assert_eq!(print_buffer, "");
        },
        Output::Failure { msg, .. } => panic!("unexpected failure: {}", msg),
    }
    assert_eq!(message_text(&out, "m1"), "1abc");
}

#[test]
fn arithmetic_print() {
    let out = one_message("op add y 2 3\nprint y\nprintflush m1");
    assert_eq!(message_text(&out, "m1"), "5");
}

#[test]
fn conditional_jump() {
    let out = one_message("set i 0\nop add i i 1\njump 1 lessThan i 3\nprint i\nprintflush m1");
    assert_eq!(message_text(&out, "m1"), "3");
}

#[test]
fn memory_round_trip() {
    let out = run_with(
        "write 7 c1 2\nread v c1 2\nprint v\nprintflush m1",
        vec![("m1".to_string(), Device::Message), ("c1".to_string(), Device::Memory(4))],
    );
    assert_eq!(message_text(&out, "m1"), "7");
    match &out {
        Output::Success { devices, .. } => {
            match &devices[1].1 {
                DeviceState::Memory(data) => {
                    assert_eq!(data.len(), 4);
                    assert_eq!(f64::from_bits(data[2]), 7.0);
                    assert_eq!(f64::from_bits(data[0]), 0.0);
                },
                DeviceState::Message(_) => panic!("display, not memory"),
            }
        },
        Output::Failure { msg, .. } => panic!("unexpected failure: {}", msg),
    }
}

#[test]
fn string_indexing() {
    let out = one_message("read n \"AB\" 1\nprint n\nprintflush m1");
    assert_eq!(message_text(&out, "m1"), "66");
}

#[test]
fn division_by_zero() {
    let out = one_message("op div q 1 0");
    match out {
        Output::Failure { pos, msg } => {
            assert!(matches!(pos, ErrorPos::Instruction(0)));
            assert!(msg.ends_with("Division by zero"));
            assert_eq!(msg, "Error at instruction 0: Division by zero");
        },
        Output::Success { .. } => panic!("expected a failure"),
    }
}

#[test]
fn halt_dominates_wrap() {
    let out = one_message("stop");
    match out {
        Output::Success { finish_reason, .. } => {
            assert!(matches!(finish_reason, VmFinishReason::Halt));
        },
        Output::Failure { msg, .. } => panic!("unexpected failure: {}", msg),
    }
}

#[test]
fn instruction_limit_reached() {
    let options = Options {
        code: "set x 1\nend".to_string(),
        code_len_limit: None,
        instruction_limit: Some(7),
        end_on_wrap: true,
        devices: vec![],
    };
    assert!(options_admissible(&options));
    match run_from_options(options) {
        Output::Success { finish_reason, .. } => {
            assert!(matches!(finish_reason, VmFinishReason::InsLimit));
        },
        Output::Failure { msg, .. } => panic!("unexpected failure: {}", msg),
    }
}

#[test]
fn constant_mutation_rejected() {
    let out = one_message("set true 2");
    match out {
        Output::Failure { pos, msg } => {
            assert!(matches!(pos, ErrorPos::Instruction(0)));
            assert_eq!(msg, "Error at instruction 0: Cannot mutate constant variable 'true'");
        },
        Output::Success { .. } => panic!("expected a failure"),
    }
}

#[test]
fn device_slot_is_constant() {
    let out = one_message("set m1 3");
    match out {
        Output::Failure { msg, .. } => {
            assert_eq!(msg, "Error at instruction 0: Cannot mutate constant variable 'm1'");
        },
        Output::Success { .. } => panic!("expected a failure"),
    }
}

#[test]
fn counter_is_writable() {
    // `set @counter 3` jumps over the line that would print `skipped`.
    let out = one_message("set @counter 2\nprint \"skipped\"\nprint \"ok\"\nprintflush m1");
    assert_eq!(message_text(&out, "m1"), "ok");
}

#[test]
fn jump_always_and_end() {
    let out = one_message("jump 2 always a b\nprint \"skipped\"\nprint \"ok\"\nprintflush m1");
    assert_eq!(message_text(&out, "m1"), "ok");
}

#[test]
fn negative_memory_index() {
    let out = run_with(
        "write 1 c1 -1",
        vec![("m1".to_string(), Device::Message), ("c1".to_string(), Device::Memory(2))],
    );
    match out {
        Output::Failure { msg, .. } => {
            assert_eq!(msg, "Error at instruction 0: Negative index (-1) for memory cell");
        },
        Output::Success { .. } => panic!("expected a failure"),
    }
}

#[test]
fn memory_index_too_high() {
    let out = run_with(
        "write 1 c1 2",
        vec![("m1".to_string(), Device::Message), ("c1".to_string(), Device::Memory(2))],
    );
    match out {
        Output::Failure { msg, .. } => {
            assert_eq!(msg, "Error at instruction 0: Index out of range (2 >= 2) for memory cell");
        },
        Output::Success { .. } => panic!("expected a failure"),
    }
}

#[test]
fn invalid_cast_message() {
    let out = one_message("op add x \"a\" 1");
    match out {
        Output::Failure { msg, .. } => {
            assert_eq!(
                msg,
                "Error at instruction 0: Cannot cast value 'a' of type 'str' to type 'num'"
            );
        },
        Output::Success { .. } => panic!("expected a failure"),
    }
}

#[test]
fn unknown_jump_comparator() {
    let out = one_message("jump 0 near a b");
    match out {
        Output::Failure { msg, .. } => {
            assert_eq!(msg, "Error at instruction 0: Invalid operation: 'near'");
        },
        Output::Success { .. } => panic!("expected a failure"),
    }
}

#[test]
fn printchar_appends_code_unit() {
    let out = one_message("printchar 66\nprintchar 67\nprintflush m1");
    assert_eq!(message_text(&out, "m1"), "BC");
}

#[test]
fn printchar_rejects_surrogate() {
    let out = one_message("printchar 55296");
    match out {
        Output::Failure { msg, .. } => {
            assert_eq!(msg, "Error at instruction 0: Invalid UTF-16 character: 55296");
        },
        Output::Success { .. } => panic!("expected a failure"),
    }
}

#[test]
fn format_is_reserved() {
    let out = one_message("format 1");
    match out {
        Output::Failure { msg, .. } => {
            assert_eq!(msg, "Error at instruction 0: Invalid format - not implemented");
        },
        Output::Success { .. } => panic!("expected a failure"),
    }
}

#[test]
fn sensor_string_size() {
    let out = one_message("sensor n \"hey\" @size\nprint n\nprintflush m1");
    assert_eq!(message_text(&out, "m1"), "3");
}

#[test]
fn sensor_memory_capacity() {
    let out = run_with(
        "sensor n c1 @memoryCapacity\nprint n\nprintflush m1",
        vec![("m1".to_string(), Device::Message), ("c1".to_string(), Device::Memory(6))],
    );
    assert_eq!(message_text(&out, "m1"), "6");
}

#[test]
fn getlink_and_links_count() {
    let out = run_with(
        "print @links\nprint \" \"\ngetlink d 0\nsensor n d @size\nprint n\nprintflush m1",
        vec![("m1".to_string(), Device::Message), ("c1".to_string(), Device::Memory(5))],
    );
    // Link 0 is the display, and a display cannot be sensed.
    match out {
        Output::Failure { msg, .. } => {
            assert_eq!(msg, "Error at instruction 3: Cannot sense from building 'm1'");
        },
        Output::Success { .. } => panic!("expected a failure"),
    }
}

#[test]
fn getlink_second_device() {
    let out = run_with(
        "getlink d 1\nsensor n d @size\nprint @links\nprint n\nprintflush m1",
        vec![("m1".to_string(), Device::Message), ("c1".to_string(), Device::Memory(5))],
    );
    assert_eq!(message_text(&out, "m1"), "25");
}

#[test]
fn read_write_through_this() {
    let out = one_message("set x 41\nwrite 42 @this \"x\"\nread y @this \"x\"\nprint y\nprintflush m1");
    assert_eq!(message_text(&out, "m1"), "42");
}

#[test]
fn this_variable_not_found() {
    let out = one_message("read y @this \"nosuch\"");
    match out {
        Output::Failure { msg, .. } => {
            assert_eq!(msg, "Error at instruction 0: Variable not found: 'nosuch'");
        },
        Output::Success { .. } => panic!("expected a failure"),
    }
}

#[test]
fn pc_fetch_failure_position() {
    let out = one_message("set @counter \"oops\"");
    match out {
        Output::Failure { pos, msg } => {
            assert!(matches!(pos, ErrorPos::PcFetch));
            assert_eq!(
                msg,
                "Error during program counter resolution: Cannot cast value 'oops' of type 'str' to type 'num'"
            );
        },
        Output::Success { .. } => panic!("expected a failure"),
    }
}

#[test]
fn negative_counter_rejected() {
    let out = one_message("set @counter -5");
    match out {
        Output::Failure { pos, msg } => {
            assert!(matches!(pos, ErrorPos::Absent));
            assert_eq!(msg, "Error: Negative index (-5) for program counter");
        },
        Output::Success { .. } => panic!("expected a failure"),
    }
}

#[test]
fn empty_program_is_rejected() {
    let options = Options {
        code: "\n\n".to_string(),
        code_len_limit: None,
        instruction_limit: Some(10),
        end_on_wrap: true,
        devices: vec![],
    };
    assert!(!options_admissible(&options));
}

#[test]
fn over_long_program_is_rejected() {
    let options = Options {
        code: "stop\nstop\nstop".to_string(),
        code_len_limit: Some(2),
        instruction_limit: Some(10),
        end_on_wrap: true,
        devices: vec![],
    };
    assert!(!options_admissible(&options));
}

#[test]
fn lazy_string_shares_units() {
    let s = mlog_emulator::value::LazyUtf16String::new("hi".to_string());
    let a: Vec<u16> = s.as_utf_16().clone();
    let b: Vec<u16> = s.as_utf_16().clone();
    assert_eq!(a, b);
    assert_eq!(a, vec![104u16, 105u16]);
}

#[test]
fn handle_is_stable_across_interning() {
    let mut vars = mlog_emulator::variable::Variables::new();
    let h1 = vars.handle("alpha");
    let h2 = vars.handle("beta");
    let h1b = vars.handle("alpha");
    assert_eq!(h1.0, h1b.0);
    assert_ne!(h1.0, h2.0);
    assert_eq!(h1.get(&vars).name(), "alpha");
}

#[test]
fn equality_works_on_strings_and_kinds() {
    let out = one_message(
        "op equal a \"ab\" \"ab\"\nop strictEqual b \"ab\" \"cd\"\nop equal c 1 \"1\"\nprint a\nprint b\nprint c\nprintflush m1",
    );
    assert_eq!(message_text(&out, "m1"), "100");
}

#[test]
fn sensor_on_plain_value_yields_null() {
    let out = one_message("sensor n 5 @size\nprint n\nprintflush m1");
    assert_eq!(message_text(&out, "m1"), "null");
}

#[test]
fn wait_checks_its_argument() {
    let ok = one_message("wait 0.5\nprint \"ok\"\nprintflush m1");
    assert_eq!(message_text(&ok, "m1"), "ok");
    let bad = one_message("wait \"x\"");
    match bad {
        Output::Failure { msg, .. } => {
            assert_eq!(
                msg,
                "Error at instruction 0: Cannot cast value 'x' of type 'str' to type 'num'"
            );
        },
        Output::Success { .. } => panic!("expected a failure"),
    }
}

#[test]
fn fractional_counter_fails_at_fetch() {
    let out = one_message("set @counter 1.5");
    match out {
        Output::Failure { pos, msg } => {
            assert!(matches!(pos, ErrorPos::PcFetch));
            assert_eq!(
                msg,
                "Error during program counter resolution: Cannot cast value '1.5' of type 'num' to type 'int'"
            );
        },
        Output::Success { .. } => panic!("expected a failure"),
    }
}

#[test]
fn jump_comparators_branch_both_ways() {
    let taken = one_message("jump 2 notEqual 1 2\nprint \"a\"\nprint \"b\"\nprintflush m1");
    assert_eq!(message_text(&taken, "m1"), "b");
    let not_taken = one_message("jump 2 greaterThan 1 2\nprint \"a\"\nprint \"b\"\nprintflush m1");
    assert_eq!(message_text(&not_taken, "m1"), "ab");
}

#[test]
fn jump_target_must_be_a_number() {
    let out = one_message("jump x always a b");
    match out {
        Output::Failure { pos, msg } => {
            assert!(matches!(pos, ErrorPos::Instruction(0)));
            assert_eq!(
                msg,
                "Error at instruction 0: Cannot cast value 'null' of type 'null' to type 'num'"
            );
        },
        Output::Success { .. } => panic!("expected a failure"),
    }
}
