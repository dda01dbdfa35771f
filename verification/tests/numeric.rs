use mlog_emulator::bits;
use mlog_emulator::interface::{options_admissible, run_from_options, Device, Options, Output};
use mlog_emulator::numext;
use mlog_emulator::vm::VM;

fn vm_value(code: &str, name: &str) -> f64 {
    let mut vm = VM::new(code, 1000, vec![]).expect("construction");
    vm.run(Some(10000), true).expect("run");
    match vm.get_val(name).expect("value") {
        mlog_emulator::value::Value::Num(b) => f64::from_bits(b),
        _ => panic!("not a number"),
    }
}

fn op_result(op: &str, a: &str, b: &str) -> f64 {
    vm_value(&format!("op {} x {} {}", op, a, b), "x")
}

#[test]
fn builtin_constants_match_std() {
    assert_eq!(numext::PI_BITS, std::f64::consts::PI.to_bits());
    assert_eq!(numext::E_BITS, std::f64::consts::E.to_bits());
    assert_eq!(numext::DEG_TO_RAD_BITS, (std::f64::consts::PI / 180.0).to_bits());
    assert_eq!(numext::RAD_TO_DEG_BITS, (180.0 / std::f64::consts::PI).to_bits());
    assert_eq!(numext::HALF_PI_BITS, std::f64::consts::FRAC_PI_2.to_bits());
    assert_eq!(numext::QUARTER_PI_BITS, std::f64::consts::FRAC_PI_4.to_bits());
    assert_eq!(numext::THREE_QUARTER_PI_BITS, (3.0 * std::f64::consts::PI / 4.0).to_bits());
    assert_eq!(numext::U32_MAX_BITS, (u32::MAX as f64).to_bits());
    assert_eq!(bits::EPSILON_BITS, f64::EPSILON.to_bits());
    assert_eq!(bits::ONE_BITS, 1.0f64.to_bits());
    assert_eq!(bits::INF_BITS, f64::INFINITY.to_bits());
    assert_eq!(vm_value("set x @pi", "x"), std::f64::consts::PI);
    assert_eq!(vm_value("set x @degToRad", "x"), std::f64::consts::PI / 180.0);
    assert_eq!(vm_value("set x @ipt", "x"), 1000.0);
}

#[test]
fn arithmetic_matches_ieee() {
    assert_eq!(op_result("add", "2.5", "0.125"), 2.5 + 0.125);
    assert_eq!(op_result("add", "0.1", "0.2"), 0.1 + 0.2);
    assert_eq!(op_result("sub", "1", "3"), -2.0);
    assert_eq!(op_result("mul", "1e300", "1e300"), f64::INFINITY);
    assert_eq!(op_result("mul", "-3.5", "2"), -7.0);
    assert_eq!(op_result("div", "1", "3"), 1.0 / 3.0);
    assert_eq!(op_result("div", "-7", "2"), -3.5);
    assert_eq!(op_result("mod", "7.5", "2"), 7.5 % 2.0);
    assert_eq!(op_result("mod", "-7.5", "2"), -7.5 % 2.0);
    assert_eq!(op_result("idiv", "7", "2"), 3.0);
    assert_eq!(op_result("idiv", "-7", "2"), (-7i64 / 2) as f64);
    assert!(op_result("div", "0", "3") == 0.0);
}

#[test]
fn division_semantics() {
    // Integer division by zero fails; float division only fails on an
    // exactly zero divisor.
    let out_err = run_from_options(Options {
        code: "op idiv q 1 0".to_string(),
        code_len_limit: None,
        instruction_limit: Some(10),
        end_on_wrap: true,
        devices: vec![],
    });
    match out_err {
        Output::Failure { msg, .. } => assert!(msg.ends_with("Division by zero")),
        Output::Success { .. } => panic!("expected a failure"),
    }
    assert_eq!(op_result("div", "1", "0.5"), 2.0);
}

#[test]
fn bitwise_matches_machine_integers() {
    assert_eq!(op_result("shl", "3", "4"), ((3i64 << 4) as f64));
    assert_eq!(op_result("shr", "-16", "2"), ((-16i64 >> 2) as f64));
    assert_eq!(op_result("or", "12", "10"), ((12i64 | 10) as f64));
    assert_eq!(op_result("and", "12", "10"), ((12i64 & 10) as f64));
    assert_eq!(op_result("xor", "12", "10"), ((12i64 ^ 10) as f64));
    assert_eq!(op_result("flip", "5", "0"), ((!5i64) as f64));
}

#[test]
fn comparisons_are_boolean() {
    assert_eq!(op_result("lessThan", "1", "2"), 1.0);
    assert_eq!(op_result("lessThan", "2", "2"), 0.0);
    assert_eq!(op_result("lessThanEq", "2", "2"), 1.0);
    assert_eq!(op_result("greaterThan", "3", "2"), 1.0);
    assert_eq!(op_result("greaterThanEq", "1", "2"), 0.0);
    assert_eq!(op_result("equal", "2", "2"), 1.0);
    assert_eq!(op_result("notEqual", "2", "2"), 0.0);
    assert_eq!(op_result("strictEqual", "2", "3"), 0.0);
    assert_eq!(op_result("land", "1", "2"), 1.0);
    assert_eq!(op_result("land", "1", "0"), 0.0);
    assert_eq!(op_result("not", "0", "0"), 1.0);
    assert_eq!(op_result("not", "2", "0"), 0.0);
    // NaN equals nothing, the two zeros are equal.
    assert_eq!(vm_value("op mul n 0.5 0\nop mul m -1 n\nop equal x n m", "x"), 1.0);
    assert_eq!(vm_value("op mul a 1e300 1e300\nop sub n a a\nop equal x n n", "x"), 0.0);
}

#[test]
fn simple_math_functions() {
    assert_eq!(op_result("max", "2", "3"), 3.0);
    assert_eq!(op_result("min", "2", "3"), 2.0);
    assert_eq!(op_result("abs", "-2.5", "0"), 2.5);
    assert_eq!(op_result("floor", "2.7", "0"), 2.0);
    assert_eq!(op_result("floor", "-2.2", "0"), -3.0);
    assert_eq!(op_result("ceil", "2.2", "0"), 3.0);
    assert_eq!(op_result("ceil", "-2.7", "0"), -2.0);
}

#[test]
fn trig_identities_within_epsilon() {
    let eps = 1e-9;
    assert!(op_result("sin", "0", "0").abs() < eps);
    assert!((op_result("cos", "0", "0") - 1.0).abs() < eps);
    assert!((op_result("sin", "90", "0") - 1.0).abs() < eps);
    assert!((op_result("tan", "45", "0") - 1.0).abs() < eps);
    assert!(op_result("angle", "1", "0").abs() < eps);
    assert!((op_result("angle", "0", "1") - 90.0).abs() < eps);
    assert!((op_result("length", "3", "4") - 5.0).abs() < eps);
    assert!((op_result("asin", "1", "0") - 90.0).abs() < eps);
    assert!((op_result("acos", "0", "0") - 90.0).abs() < eps);
    assert!((op_result("atan", "1", "0") - 45.0).abs() < eps);
}

#[test]
fn roots_logs_and_powers() {
    let eps = 1e-12;
    assert!((op_result("sqrt", "25", "0") - 5.0).abs() < eps);
    assert!((op_result("log", "1", "0")).abs() < eps);
    assert!((op_result("log10", "1000", "0") - 3.0).abs() < eps);
    assert!((op_result("pow", "2", "10") - 1024.0).abs() < eps);
    assert!((op_result("pow", "-2", "3") - -8.0).abs() < eps);
    assert_eq!(op_result("pow", "2", "0"), 1.0);
    assert!(op_result("sqrt", "-1", "0").is_nan());
    assert!(op_result("log", "-1", "0").is_nan());
    assert_eq!(op_result("log", "0", "0"), f64::NEG_INFINITY);
}

#[test]
fn rand_stays_in_range() {
    for _ in 0..16 {
        let x = op_result("rand", "10", "0");
        assert!(0.0 <= x && x < 10.0);
    }
}

#[test]
fn numeric_literals_parse_like_rust() {
    assert_eq!(op_result("add", "1e3", ".5"), 1000.5);
    assert_eq!(op_result("add", "5.", "-0.25"), 4.75);
    assert_eq!(vm_value("set x 1e-3", "x"), 0.001);
    assert_eq!(vm_value("set x -2.5E2", "x"), -250.0);
    // A malformed number is a variable name, so it starts out null and
    // fails a numeric coercion.
    let out = run_from_options(Options {
        code: "op add x 1..2 1".to_string(),
        code_len_limit: None,
        instruction_limit: Some(10),
        end_on_wrap: true,
        devices: vec![],
    });
    match out {
        Output::Failure { msg, .. } => {
            assert_eq!(
                msg,
                "Error at instruction 0: Cannot cast value 'null' of type 'null' to type 'num'"
            );
        },
        Output::Success { .. } => panic!("expected a failure"),
    }
}

#[test]
fn integral_values_print_like_rust() {
    fn printed(code: &str) -> String {
        let options = Options {
            code: code.to_string(),
            code_len_limit: None,
            instruction_limit: Some(100),
            end_on_wrap: true,
            devices: vec![],
        };
        assert!(options_admissible(&options));
        match run_from_options(options) {
            Output::Success { print_buffer, .. } => print_buffer,
            Output::Failure { msg, .. } => panic!("unexpected failure: {}", msg),
        }
    }
    // Each program ends in `stop`: a wrap would re-run the first line.
    assert_eq!(printed("print 5\nstop"), "5");
    assert_eq!(printed("print -17\nstop"), "-17");
    assert_eq!(printed("print 0\nstop"), "0");
    assert_eq!(printed("op div x 1 0.5\nprint x\nstop"), "2");
    assert_eq!(printed("print 9007199254740992\nstop"), "9007199254740992");
    assert_eq!(printed("print 1e25\nstop"), "10000000000000000000000000");
    assert_eq!(printed("print null\nstop"), "null");
    assert_eq!(printed("print true\nstop"), "1");
    assert_eq!(printed("op div x 1 0.25\nprint x\nstop"), "4");
    assert_eq!(printed("op mul x 1e300 1e300\nprint x\nstop"), "inf");
    assert_eq!(printed("op mul x 1e300 1e300\nop sub y x x\nprint y\nstop"), "NaN");
    assert_eq!(printed("print \"a b\"\nstop"), "a b");
}

#[test]
fn fractional_values_print_round_trip() {
    fn printed_num(code: &str) -> f64 {
        let options = Options {
            code: code.to_string(),
            code_len_limit: None,
            instruction_limit: Some(100),
            end_on_wrap: true,
            devices: vec![],
        };
        match run_from_options(options) {
            Output::Success { print_buffer, .. } => print_buffer.parse::<f64>().expect("parses"),
            Output::Failure { msg, .. } => panic!("unexpected failure: {}", msg),
        }
    }
    assert_eq!(printed_num("print 2.5\nstop"), 2.5);
    assert_eq!(printed_num("print 0.1\nstop"), 0.1);
    assert_eq!(printed_num("op div x 1 3\nprint x\nstop"), 1.0 / 3.0);
    assert_eq!(printed_num("print -0.125\nstop"), -0.125);
}

#[test]
fn as_int_accepts_near_integers() {
    // The value 0.9999999999999999 is within machine epsilon of 1, so it
    // passes the integer test and rounds to the nearest integer, 1.
    let out = run_from_options(Options {
        code: "read n \"AB\" 0.9999999999999999\nprint n\nstop".to_string(),
        code_len_limit: None,
        instruction_limit: Some(10),
        end_on_wrap: true,
        devices: vec![],
    });
    match out {
        Output::Success { print_buffer, .. } => assert_eq!(print_buffer, "66"),
        Output::Failure { msg, .. } => panic!("unexpected failure: {}", msg),
    }
}

#[test]
fn as_int_rejects_fractions() {
    let out = run_from_options(Options {
        code: "read n \"AB\" 0.5".to_string(),
        code_len_limit: None,
        instruction_limit: Some(10),
        end_on_wrap: true,
        devices: vec![],
    });
    match out {
        Output::Failure { msg, .. } => {
            assert_eq!(
                msg,
                "Error at instruction 0: Cannot cast value '0.5' of type 'num' to type 'int'"
            );
        },
        Output::Success { .. } => panic!("expected a failure"),
    }
}

#[test]
fn fractions_print_shortest() {
    fn printed(code: &str) -> String {
        let options = Options {
            code: code.to_string(),
            code_len_limit: None,
            instruction_limit: Some(100),
            end_on_wrap: true,
            devices: vec![],
        };
        match run_from_options(options) {
            Output::Success { print_buffer, .. } => print_buffer,
            Output::Failure { msg, .. } => panic!("unexpected failure: {}", msg),
        }
    }
    assert_eq!(printed("print 2.5\nstop"), "2.5");
    assert_eq!(printed("print 0.1\nstop"), "0.1");
    assert_eq!(printed("op div x 1 3\nprint x\nstop"), "0.3333333333333333");
    assert_eq!(printed("print -0.125\nstop"), "-0.125");
    assert_eq!(printed("print 0.0001\nstop"), "0.0001");
    assert_eq!(printed("print 0.00000015\nstop"), "0.00000015");
    assert_eq!(printed("print -1.5e-7\nstop"), "-0.00000015");
}
