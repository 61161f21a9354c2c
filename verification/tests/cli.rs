use ktnack::args::{get_env_arg_cmds, ArgCommand, ArgsParse};
use ktnack::base::{NAME, VERSION};
use ktnack::cmds::{cmd_handle_cmd, cmd_version, dispatch, not_found_line, Dispatch};
use ktnack::ltypes::{LOpType, LValue, LValueType, Loop};

fn args(items: &[&str]) -> Vec<String> {
    items.iter().map(|s| s.to_string()).collect()
}

fn run(file: &str) -> ArgCommand {
    ArgCommand::Run(file.to_string())
}

#[test]
fn the_first_argument_is_passed_over() {
    assert_eq!(get_env_arg_cmds(&args(&["ktnack"])), vec![]);
    assert_eq!(get_env_arg_cmds(&args(&[])), vec![]);
    assert_eq!(get_env_arg_cmds(&args(&["-v"])), vec![]);
}

#[test]
fn arguments_stand_for_commands() {
    assert_eq!(get_env_arg_cmds(&args(&["ktnack", "prog.ktnck"])), vec![run("prog.ktnck")]);
    assert_eq!(get_env_arg_cmds(&args(&["ktnack", "-v"])), vec![ArgCommand::Version]);
    assert_eq!(get_env_arg_cmds(&args(&["ktnack", "--version"])), vec![ArgCommand::Version]);
    assert_eq!(get_env_arg_cmds(&args(&["ktnack", "-V"])), vec![run("-V")]);
    assert_eq!(
        get_env_arg_cmds(&args(&["ktnack", "a", "-v"])),
        vec![run("a"), ArgCommand::Version]
    );
}

#[test]
fn each_kind_of_command_appears_once() {
    assert_eq!(
        get_env_arg_cmds(&args(&["ktnack", "-v", "a", "--version", "b", "-v", "c"])),
        vec![ArgCommand::Version, run("a")]
    );
}

#[test]
fn adding_says_whether_the_command_was_new() {
    let mut parse = ArgsParse::new();
    assert!(parse.add(run("a")));
    assert!(!parse.add(run("b")));
    assert!(parse.add(ArgCommand::Version));
    assert!(!parse.add(ArgCommand::Version));
    assert!(!parse.add(run("a")));
    assert_eq!(parse.complete(), vec![run("a"), ArgCommand::Version]);
    assert_eq!(ArgsParse::new().complete(), vec![]);
}

#[test]
fn the_version_line() {
    assert_eq!(NAME, "Ktnack");
    assert_eq!(cmd_version(), format!("{} Version: v{}", NAME, VERSION));
    assert_eq!(cmd_version(), "Ktnack Version: v0.1.0");
}

#[test]
fn only_the_version_needs_no_program() {
    assert_eq!(cmd_handle_cmd(&ArgCommand::Version), Some("Ktnack Version: v0.1.0".to_string()));
    assert_eq!(cmd_handle_cmd(&run("prog")), None);
}

#[test]
fn without_commands_there_is_a_line_to_say_so() {
    assert_eq!(
        dispatch(&vec![]),
        Dispatch { lines: vec!["No Ktnack file specified!".to_string()], run: None }
    );
}

#[test]
fn commands_are_dispatched() {
    assert_eq!(dispatch(&vec![run("p")]), Dispatch { lines: vec![], run: Some("p".to_string()) });
    assert_eq!(
        dispatch(&vec![ArgCommand::Version]),
        Dispatch { lines: vec!["Ktnack Version: v0.1.0".to_string()], run: None }
    );
    assert_eq!(
        dispatch(&vec![run("p"), ArgCommand::Version]),
        Dispatch { lines: vec!["Ktnack Version: v0.1.0".to_string()], run: Some("p".to_string()) }
    );
    assert_eq!(
        dispatch(&vec![run("p"), run("q")]),
        Dispatch { lines: vec![], run: Some("q".to_string()) }
    );
}

#[test]
fn a_missing_file_has_its_line() {
    assert_eq!(not_found_line("dir/prog.ktnck"), "Ktnack file not found: dir/prog.ktnck");
}

#[test]
fn values_have_a_textual_form() {
    assert_eq!(LValue::Number(5).to_string(), "Val(5)");
    assert_eq!(LValue::Number(-5).to_string(), "Val(-5)");
    assert_eq!(LValue::Text("hi".to_string()).to_string(), "Val(\"\"hi\"\")");
    assert_eq!(LValue::Text("a\"b\\c\n".to_string()).to_string(), "Val(\"\"a\\\"b\\\\c\\n\"\")");
    assert_eq!(LValue::Text("".to_string()).to_string(), "Val(\"\"\"\")");
}

#[test]
fn operations_have_a_textual_form() {
    assert_eq!(LOpType::Nop("lex:x".to_string()).to_string(), "Nop(lex:x)");
    assert_eq!(LOpType::Push(LValue::Number(7)).to_string(), "Push(Val(7))");
    assert_eq!(LOpType::Push(LValue::Text("t".to_string())).to_string(), "Push(Val(\"\"t\"\"))");
    assert_eq!(LOpType::If(3).to_string(), "If(block:3)");
    assert_eq!(LOpType::Else(4).to_string(), "Else(block:4)");
    assert_eq!(LOpType::Do(5).to_string(), "Do(end:5)");
    assert_eq!(LOpType::End(u64::MAX).to_string(), "End(block:18446744073709551615)");
    assert_eq!(LOpType::Puts(true).to_string(), "Puts(nl:true)");
    assert_eq!(LOpType::Puts(false).to_string(), "Puts(nl:false)");
    let plain = [
        (LOpType::Add, "Add"), (LOpType::Sub, "Sub"), (LOpType::Mul, "Mul"),
        (LOpType::Div, "Div"), (LOpType::Mod, "Mod"), (LOpType::Shl, "Shl"),
        (LOpType::Shr, "Shr"), (LOpType::Bor, "Bor"), (LOpType::Band, "Band"),
        (LOpType::Log, "Log"), (LOpType::Swap, "Swap"), (LOpType::Dup, "Dup"),
        (LOpType::Over, "Over"), (LOpType::While, "While"), (LOpType::Greater, "Greater"),
        (LOpType::Less, "Less"), (LOpType::GreaterEqual, "GreaterEqual"),
        (LOpType::LessEqual, "LessEqual"), (LOpType::Equal, "Equal"),
        (LOpType::NotEqual, "NotEqual"), (LOpType::Drop, "Drop"), (LOpType::Mem, "Mem"),
        (LOpType::Load, "Load"), (LOpType::Store, "Store"),
    ];
    for (op, expected) in plain.iter() {
        assert_eq!(op.to_string(), *expected);
    }
}

#[test]
fn tokens_have_a_textual_form() {
    assert_eq!(LValueType::Nothing.to_string(), "_");
    assert_eq!(LValueType::Text("a b".to_string()).to_string(), "T\"a b\"");
    assert_eq!(LValueType::Symbol("dup".to_string()).to_string(), "Sdup");
    assert_eq!(LValueType::Number(-12).to_string(), "i-12");
    assert_eq!(LValueType::Char(97).to_string(), "c97");
}

#[test]
fn copies_are_equal() {
    let values = [LValue::Number(1), LValue::Text("x".to_string())];
    for value in values.iter() {
        assert_eq!(&value.clone(), value);
    }
    let ops = [
        LOpType::Nop("r".to_string()),
        LOpType::Push(LValue::Text("x".to_string())),
        LOpType::If(3),
        LOpType::Puts(true),
        LOpType::Mem,
    ];
    for op in ops.iter() {
        assert_eq!(&op.clone(), op);
    }
    let tokens = [
        LValueType::Number(1),
        LValueType::Text("x".to_string()),
        LValueType::Char(2),
        LValueType::Symbol("s".to_string()),
        LValueType::Nothing,
    ];
    for token in tokens.iter() {
        assert_eq!(&token.clone(), token);
    }
}

#[test]
fn a_loop_span() {
    let span = Loop::new(1, 5, 12);
    assert_eq!(span.to_string(), "Loop(start:1,cond:5,end:12)");
    assert_eq!(span.clone(), span);
}

#[test]
fn a_text_value_stands_between_quotes_of_its_own() {
    assert_eq!(ktnack::ltypes::text_value_form("\"a b\""), "Val(\"\"a b\"\")");
    assert_eq!(ktnack::ltypes::text_value_form(""), "Val(\"\")");
}
