use mlog_emulator::instruction::Instruction;
use mlog_emulator::vm::VmError;

#[test]
fn it_works() {
    let result = mlog_emulator::add(2, 2);
    assert_eq!(result, 4);
}

#[test]
fn test_instruction_split_line() {
    assert_eq!(Instruction::split_line("a b c"), vec!["a", "b", "c"]);
    assert_eq!(Instruction::split_line("a \"b c d\" ef g"), vec!["a", "\"b c d\"", "ef", "g"]);
    assert_eq!(Instruction::split_line("va"), vec!["va"]);
    assert!(Instruction::split_line("").is_empty());
}

#[test]
fn instruction_test_instruction_split_line() {
    assert_eq!(Instruction::split_line("a b c"), vec!["a", "b", "c"]);
    assert_eq!(Instruction::split_line("a \"b c d\" ef g"), vec!["a", "\"b c d\"", "ef", "g"]);
    assert_eq!(Instruction::split_line("va"), vec!["va"]);
    assert!(Instruction::split_line("").is_empty());
}

#[test]
fn public_value_accessors() {
    let s = mlog_emulator::value::LazyUtf16String::new("AB".to_string());
    assert_eq!(s.as_string_ref(), "AB");
    assert_eq!(s.clone_string(), "AB");
    assert_eq!(s.to_utf_16(), vec![65u16, 66u16]);
    let p = mlog_emulator::value::Property::new("size");
    assert_eq!(p.name(), "size");
}

#[test]
fn error_messages_render() {
    let e = VmError::CodeTooLong(12, 10);
    assert_eq!(e.print(), "Program has too many instructions (12 > 10)");
    assert_eq!(e.display_message(), "Error: Program has too many instructions (12 > 10)");
    let e2 = VmError::DivisionByZero.with_pos(3);
    assert_eq!(e2.display_message(), "Error at instruction 3: Division by zero");
    let e3 = VmError::EmptyCode.to_pc_res().to_pos();
    assert_eq!(
        e3.display_message(),
        "Error during program counter resolution: Program is empty"
    );
}
