use ktnack::ltypes::{LOpType, LValue, LValueType};
use ktnack::src::{load_and_lex_code, parse_values, MacroStatus};
use ktnack::strings::ScanError;

/// The program of `text` as it is stored: in reverse.
fn lex(text: &str) -> Vec<LOpType> {
    load_and_lex_code(text).expect("the text scans").0
}

/// The program of `text` in the order of the instruction pointers.
fn in_order(text: &str) -> Vec<LOpType> {
    let mut program = lex(text);
    program.reverse();
    program
}

fn push(n: i64) -> LOpType {
    LOpType::Push(LValue::Number(n))
}

fn nop(reason: &str) -> LOpType {
    LOpType::Nop(reason.to_string())
}

fn targets_in_range(program: &Vec<LOpType>) -> bool {
    program.iter().all(|op| match op {
        LOpType::If(t) | LOpType::Else(t) | LOpType::Do(t) | LOpType::End(t) => {
            *t <= program.len() as u64
        }
        _ => true,
    })
}

#[test]
fn values_are_pushed() {
    assert_eq!(
        in_order("7 -3 'a' \"hi there\""),
        vec![push(7), push(-3), push(97), LOpType::Push(LValue::Text("hi there".to_string()))]
    );
    assert_eq!(in_order(""), vec![]);
}

#[test]
fn words_have_their_operations() {
    assert_eq!(
        in_order("+ - * / % << >> | & . s dup over > < >= <= = != drop S L @ P p"),
        vec![
            LOpType::Add, LOpType::Sub, LOpType::Mul, LOpType::Div, LOpType::Mod,
            LOpType::Shl, LOpType::Shr, LOpType::Bor, LOpType::Band, LOpType::Log,
            LOpType::Swap, LOpType::Dup, LOpType::Over, LOpType::Greater, LOpType::Less,
            LOpType::GreaterEqual, LOpType::LessEqual, LOpType::Equal, LOpType::NotEqual,
            LOpType::Drop, LOpType::Store, LOpType::Load, LOpType::Mem,
            LOpType::Puts(true), LOpType::Puts(false),
        ]
    );
}

#[test]
fn words_have_long_names_too() {
    assert_eq!(
        in_order("add sub mul div mod shl shr bor band log swap store load mem"),
        vec![
            LOpType::Add, LOpType::Sub, LOpType::Mul, LOpType::Div, LOpType::Mod,
            LOpType::Shl, LOpType::Shr, LOpType::Bor, LOpType::Band, LOpType::Log,
            LOpType::Swap, LOpType::Store, LOpType::Load, LOpType::Mem,
        ]
    );
}

#[test]
fn unknown_symbols_do_nothing() {
    assert_eq!(in_order("foo DUP"), vec![nop("lex:foo"), nop("lex:DUP")]);
    assert_eq!(in_order("\"open text"), vec![nop("lex:\"open text")]);
}

#[test]
fn the_end_of_stream_token_does_nothing() {
    assert_eq!(parse_values(&vec![LValueType::Nothing]), vec![nop("Invalid token type!")]);
}

#[test]
fn if_jumps_behind_its_end() {
    assert_eq!(
        in_order("1 if 2 . end 3"),
        vec![push(1), LOpType::If(5), push(2), LOpType::Log, LOpType::End(5), push(3)]
    );
}

#[test]
fn if_jumps_behind_its_else_and_else_behind_the_end() {
    assert_eq!(
        in_order("0 if 1 . else 2 . end"),
        vec![
            push(0), LOpType::If(5), push(1), LOpType::Log,
            LOpType::Else(8), push(2), LOpType::Log, LOpType::End(8),
        ]
    );
}

#[test]
fn do_leaves_the_loop_and_end_goes_back_to_while() {
    assert_eq!(
        in_order("1 while dup 5 <= do dup . 1 + end drop"),
        vec![
            push(1), LOpType::While, LOpType::Dup, push(5), LOpType::LessEqual,
            LOpType::Do(11), LOpType::Dup, LOpType::Log, push(1), LOpType::Add,
            LOpType::End(1), LOpType::Drop,
        ]
    );
}

#[test]
fn blocks_nest() {
    assert_eq!(
        in_order("while 1 do 2 if 3 else 4 end end"),
        vec![
            LOpType::While, push(1), LOpType::Do(10),
            push(2), LOpType::If(7), push(3), LOpType::Else(9), push(4), LOpType::End(9),
            LOpType::End(0),
        ]
    );
}

#[test]
fn blocks_left_open_keep_the_target_zero() {
    assert_eq!(in_order("1 if 2"), vec![push(1), LOpType::If(0), push(2)]);
    assert_eq!(in_order("if else"), vec![LOpType::If(2), LOpType::Else(0)]);
    assert_eq!(in_order("while 1 do"), vec![LOpType::While, push(1), LOpType::Do(0)]);
}

#[test]
fn closing_words_without_a_block_do_nothing() {
    assert_eq!(in_order("end"), vec![nop("end/stack:empty")]);
    assert_eq!(in_order("else"), vec![nop("else/stack:empty")]);
    assert_eq!(in_order("do"), vec![nop("do/stack:empty")]);
    assert_eq!(
        in_order("1 if end end"),
        vec![push(1), LOpType::If(3), LOpType::End(3), nop("end/stack:empty")]
    );
}

#[test]
fn closing_words_on_the_wrong_block_do_nothing() {
    assert_eq!(in_order("while end"), vec![LOpType::While, nop("end/sym:While")]);
    assert_eq!(in_order("while else"), vec![LOpType::While, nop("else/sym:While")]);
    assert_eq!(
        in_order("if else else"),
        vec![LOpType::If(2), LOpType::Else(0), nop("else/sym:Else(block:0)")]
    );
    assert_eq!(
        in_order("while do else"),
        vec![LOpType::While, LOpType::Do(0), nop("else/sym:Do(end:0)")]
    );
}

#[test]
fn a_wrong_closing_word_still_closes_the_block() {
    assert_eq!(
        in_order("1 if while else end"),
        vec![push(1), LOpType::If(5), LOpType::While, nop("else/sym:While"), LOpType::End(5)]
    );
}

#[test]
fn do_takes_any_open_block_for_the_head_of_its_loop() {
    assert_eq!(
        in_order("1 if 2 do 5 + end"),
        vec![push(1), LOpType::If(0), push(2), LOpType::Do(7), push(5), LOpType::Add, LOpType::End(1)]
    );
}

#[test]
fn macros_are_expanded_before_parsing() {
    assert_eq!(
        in_order("macro sq dup * end 7 sq ."),
        vec![push(7), LOpType::Dup, LOpType::Mul, LOpType::Log]
    );
}

#[test]
fn a_macro_without_its_end_gives_an_empty_program() {
    assert_eq!(in_order("1 2 macro m 3"), vec![]);
}

#[test]
fn a_refused_character_literal_gives_no_program() {
    assert_eq!(load_and_lex_code("1 'ab' +"), Err(ScanError::CharLiteral("'ab'".to_string())));
}

#[test]
fn every_target_lies_in_the_program() {
    let samples = [
        "0 if 1 . else 2 . end",
        "1 while dup 5 <= do dup . 1 + end drop",
        "if if if else end end do do end else end end end while while do end",
        "end else do while if",
        "do do do end end end",
        "while do else end if else end",
    ];
    for sample in samples {
        let program = in_order(sample);
        assert!(targets_in_range(&program), "{:?}", sample);
    }
}

#[test]
fn no_jump_lands_on_an_operation_behind_a_pushed_number() {
    let samples = [
        "1 if 2 + else 3 - end 4 *",
        "1 while 2 + dup 5 <= do 3 * end 4 /",
        "1 2 + if 3 % end 5 + else 6 - do 7 *",
    ];
    for sample in samples {
        let program = in_order(sample);
        for op in program.iter() {
            if let LOpType::If(t) | LOpType::Else(t) | LOpType::Do(t) | LOpType::End(t) = op {
                let t = *t as usize;
                let folded = t >= 1
                    && t < program.len()
                    && matches!(program[t - 1], LOpType::Push(LValue::Number(_)))
                    && matches!(
                        program[t],
                        LOpType::Add | LOpType::Sub | LOpType::Mul | LOpType::Div | LOpType::Mod
                    );
                assert!(!folded, "{:?}", sample);
            }
        }
    }
}

#[test]
fn parsing_is_a_function_of_the_tokens() {
    let tokens = vec![
        LValueType::Number(1),
        LValueType::Symbol("if".to_string()),
        LValueType::Symbol("else".to_string()),
        LValueType::Symbol("end".to_string()),
    ];
    assert_eq!(parse_values(&tokens), parse_values(&tokens));
    assert_eq!(
        parse_values(&tokens),
        vec![LOpType::End(4), LOpType::Else(4), LOpType::If(3), push(1)]
    );
}

#[test]
fn the_program_is_stored_in_reverse() {
    assert_eq!(lex("2 3 + ."), vec![LOpType::Log, LOpType::Add, push(3), push(2)]);
    assert_eq!(
        lex("1 while dup 5 <= do dup . 1 + end drop"),
        vec![
            LOpType::Drop, LOpType::End(1), LOpType::Add, push(1), LOpType::Log, LOpType::Dup,
            LOpType::Do(11), LOpType::LessEqual, push(5), LOpType::Dup, LOpType::While, push(1),
        ]
    );
    assert_eq!(
        lex("0 if 1 . else 2 . end"),
        vec![
            LOpType::End(8), LOpType::Log, push(2), LOpType::Else(8),
            LOpType::Log, push(1), LOpType::If(5), push(0),
        ]
    );
    assert_eq!(
        lex("macro sq dup * end 7 sq ."),
        vec![LOpType::Log, LOpType::Mul, LOpType::Dup, push(7)]
    );
    assert_eq!(lex("1 foo 2"), vec![push(2), nop("lex:foo"), push(1)]);
    assert_eq!(lex("1 end 2"), vec![push(2), nop("end/stack:empty"), push(1)]);
    assert_eq!(
        lex("1 if 2 . end"),
        vec![LOpType::End(5), LOpType::Log, push(2), LOpType::If(5), push(1)]
    );
    assert_eq!(
        lex("\"hi there\" P 'A' ."),
        vec![
            LOpType::Log,
            push(65),
            LOpType::Puts(true),
            LOpType::Push(LValue::Text("hi there".to_string())),
        ]
    );
    assert_eq!(lex(""), vec![]);
}

#[test]
fn the_operation_of_each_token_stands_at_its_place_from_the_end() {
    let tokens = vec![
        LValueType::Number(1),
        LValueType::Symbol("dup".to_string()),
        LValueType::Text("t".to_string()),
        LValueType::Symbol("+".to_string()),
        LValueType::Symbol("what".to_string()),
    ];
    let program = parse_values(&tokens);
    assert_eq!(program.len(), tokens.len());
    assert_eq!(program[4], push(1));
    assert_eq!(program[3], LOpType::Dup);
    assert_eq!(program[2], LOpType::Push(LValue::Text("t".to_string())));
    assert_eq!(program[1], LOpType::Add);
    assert_eq!(program[0], nop("lex:what"));
}

#[test]
fn the_way_the_preprocessing_ended_comes_with_the_program() {
    assert_eq!(
        load_and_lex_code("macro sq dup * end 7 sq ."),
        Ok((vec![LOpType::Log, LOpType::Mul, LOpType::Dup, push(7)], MacroStatus::Expanded))
    );
    assert_eq!(load_and_lex_code(""), Ok((vec![], MacroStatus::Expanded)));
    assert_eq!(load_and_lex_code("1 2 macro m 3"), Ok((vec![], MacroStatus::Unterminated)));
    assert_eq!(
        load_and_lex_code("1 dup macro 2 end"),
        Ok((vec![LOpType::Dup, push(1)], MacroStatus::MissingName))
    );
    assert_eq!(
        load_and_lex_code("1 dup macro"),
        Ok((vec![LOpType::Dup, push(1)], MacroStatus::MissingName))
    );
}

#[test]
fn the_program_holds_one_instruction_for_each_expanded_token() {
    assert_eq!(lex("macro two 1 1 end two two + foo end else").len(), 8);
    assert_eq!(lex("macro two 1 1 end").len(), 0);
    assert_eq!(lex("\"a b c\" 'x' 12").len(), 3);
}
