use ktnack::ltypes::LValueType;
use ktnack::src::{
    append_code, classify_tokens, convert_string_to_lvalue, finish_code, get_code_words,
    get_code_words_and_strings, include_file, load_code,
};
use ktnack::strings::{
    check_string_literal, fetch_string, format_string_token, ScanError, StrLitMatch,
};

fn strings(items: &[&str]) -> Vec<String> {
    items.iter().map(|s| s.to_string()).collect()
}

fn scan(text: &str) -> Vec<String> {
    load_code(text).expect("the text scans")
}

#[test]
fn words_come_in_reverse() {
    assert_eq!(get_code_words(&"2 3 + .".to_string()), strings(&[".", "+", "3", "2"]));
}

#[test]
fn empty_pieces_are_dropped_and_words_trimmed() {
    assert_eq!(get_code_words(&"  a   b\t  \tc ".to_string()), strings(&["c", "b", "a"]));
    assert_eq!(get_code_words(&"".to_string()), strings(&[]));
    assert_eq!(get_code_words(&"   ".to_string()), strings(&[]));
    assert_eq!(get_code_words(&" \t \n ".to_string()), strings(&[]));
}

#[test]
fn only_spaces_separate_words() {
    assert_eq!(get_code_words(&"a\tb c\nd".to_string()), strings(&["c\nd", "a\tb"]));
}

#[test]
fn words_agree_with_the_standard_library() {
    let samples = ["", " ", "a", " a", "a ", "a b", "a  b", "\ta \u{a0}b\u{3000} c\n", "x \t y"];
    for sample in samples {
        let mut expected: Vec<String> = sample
            .trim_start()
            .split(" ")
            .map(|p| p.trim())
            .filter(|p| !p.is_empty())
            .map(String::from)
            .collect();
        expected.reverse();
        assert_eq!(get_code_words(&sample.to_string()), expected, "{:?}", sample);
    }
}

#[test]
fn tokens_come_in_the_order_of_the_text() {
    assert_eq!(scan("2 3 + ."), strings(&["2", "3", "+", "."]));
    assert_eq!(scan(""), strings(&[]));
}

#[test]
fn a_literal_in_one_word_is_one_token() {
    assert_eq!(scan("\"abc\" p"), strings(&["\"abc\"", "p"]));
}

#[test]
fn a_literal_is_put_together_with_single_spaces() {
    assert_eq!(scan("1 \"hello   big world\" P 2"), strings(&["1", "\"hello big world\"", "P", "2"]));
}

#[test]
fn a_quote_behind_a_backslash_does_not_end_a_literal() {
    assert_eq!(scan("\"say \\\"hi\\\" now\" p"), strings(&["\"say \"hi\" now\"", "p"]));
}

#[test]
fn a_lone_quote_opens_a_literal() {
    assert_eq!(scan("\" abc\" x"), strings(&["\" abc\"", "x"]));
    assert_eq!(scan("\" \" x"), strings(&["\" \"", "x"]));
}

#[test]
fn an_open_literal_takes_all_the_words_left() {
    assert_eq!(scan("1 \"abc def ghi"), strings(&["1", "\"abc def ghi"]));
    assert_eq!(scan("\""), strings(&["\""]));
}

#[test]
fn escapes_are_resolved_in_literals() {
    assert_eq!(scan("\"a\\nb\\tc\\\\d\\'e\""), strings(&["\"a\nb\tc\\d'e\""]));
}

#[test]
fn escapes_are_resolved_one_kind_after_the_other() {
    // The backslash of `\\n` is taken for the start of `\n` first.
    assert_eq!(scan("\"\\\\n\""), strings(&["\"\\\n\""]));
}

#[test]
fn escapes_stay_in_words_that_are_no_literal() {
    assert_eq!(scan("a\\nb"), strings(&["a\\nb"]));
}

#[test]
fn character_literals() {
    assert_eq!(scan("'a' 'b'"), strings(&["'a'", "'b'"]));
    assert_eq!(scan("' ' x"), strings(&["' '", "x"]));
    assert_eq!(scan("'\\n'"), strings(&["'\n'"]));
    assert_eq!(scan("'\\''"), strings(&["'''"]));
    assert_eq!(scan("'é'"), strings(&["'é'"]));
}

#[test]
fn a_character_literal_of_two_characters_is_refused() {
    assert_eq!(load_code("1 'ab' 2"), Err(ScanError::CharLiteral("'ab'".to_string())));
}

#[test]
fn an_empty_character_literal_is_refused() {
    assert_eq!(load_code("''"), Err(ScanError::CharLiteral("''".to_string())));
}

#[test]
fn an_open_character_literal_is_refused() {
    assert_eq!(load_code("'a b c"), Err(ScanError::CharLiteral("'a b c".to_string())));
}

#[test]
fn the_first_refused_literal_is_reported() {
    assert_eq!(
        get_code_words_and_strings(&"'xy' 'zw'".to_string()),
        Err(ScanError::CharLiteral("'xy'".to_string()))
    );
}

#[test]
fn the_error_has_a_message() {
    assert_eq!(
        ScanError::CharLiteral("'ab'".to_string()).message(),
        "character typed strings can only have a single character!"
    );
}

#[test]
fn format_resolves_escapes() {
    assert_eq!(format_string_token(&"\"a\\tb\"".to_string()), Ok("\"a\tb\"".to_string()));
    assert_eq!(format_string_token(&"plain".to_string()), Ok("plain".to_string()));
    assert_eq!(format_string_token(&"".to_string()), Ok("".to_string()));
    assert_eq!(format_string_token(&"'x'".to_string()), Ok("'x'".to_string()));
    assert_eq!(format_string_token(&"'\\t'".to_string()), Ok("'\t'".to_string()));
    assert_eq!(
        format_string_token(&"'xy'".to_string()),
        Err(ScanError::CharLiteral("'xy'".to_string()))
    );
    assert_eq!(
        format_string_token(&"'".to_string()),
        Err(ScanError::CharLiteral("'".to_string()))
    );
}

#[test]
fn check_tells_literals_from_words() {
    assert!(check_string_literal(&"abc".to_string()).is_none());
    assert!(check_string_literal(&"".to_string()).is_none());
    assert!(check_string_literal(&"a\"".to_string()).is_none());
    let double = check_string_literal(&"\"abc".to_string()).expect("opens a literal");
    assert!(double.ends(&"def\"".to_string()));
    assert!(!double.ends(&"def\\\"".to_string()));
    assert!(!double.ends(&"def'".to_string()));
    assert!(double.ends(&"\"".to_string()));
    let single = check_string_literal(&"'a".to_string()).expect("opens a literal");
    assert!(single.ends(&"b'".to_string()));
    assert!(!single.ends(&"b\\'".to_string()));
    assert!(!single.ends(&"b\"".to_string()));
}

#[test]
fn a_match_tells_the_end_by_its_goal() {
    let m = StrLitMatch::new(&"\"abc\"".to_string(), "\"", "\\\"");
    assert!(m.ends(&"x\"".to_string()));
    assert!(!m.ends(&"x\\\"".to_string()));
    assert!(!m.ends(&"x".to_string()));
}

#[test]
fn fetch_takes_the_words_of_a_literal_off_the_stack() {
    let mut code = strings(&["last", "c\"", "b", "a"]);
    assert_eq!(fetch_string(&"\"x".to_string(), &mut code), Ok("\"x a b c\"".to_string()));
    assert_eq!(code, strings(&["last"]));
}

#[test]
fn fetch_leaves_the_stack_for_a_plain_word() {
    let mut code = strings(&["b", "a"]);
    assert_eq!(fetch_string(&"dup".to_string(), &mut code), Ok("dup".to_string()));
    assert_eq!(code, strings(&["b", "a"]));
}

#[test]
fn fetch_leaves_the_stack_for_a_whole_literal() {
    let mut code = strings(&["b\"", "a"]);
    assert_eq!(fetch_string(&"\"x\\ty\"".to_string(), &mut code), Ok("\"x\ty\"".to_string()));
    assert_eq!(code, strings(&["b\"", "a"]));
}

#[test]
fn fetch_empties_the_stack_for_an_open_literal() {
    let mut code = strings(&["b", "a"]);
    assert_eq!(fetch_string(&"\"x".to_string(), &mut code), Ok("\"x a b".to_string()));
    assert_eq!(code, strings(&[]));
}

#[test]
fn fetch_refuses_a_long_character_literal() {
    let mut code = strings(&["z", "b'", "a"]);
    assert_eq!(
        fetch_string(&"'x".to_string(), &mut code),
        Err(ScanError::CharLiteral("'x a b'".to_string()))
    );
    assert_eq!(code, strings(&["z"]));
}

#[test]
fn classifies_numbers() {
    assert_eq!(convert_string_to_lvalue(&"42".to_string()), LValueType::Number(42));
    assert_eq!(convert_string_to_lvalue(&"-7".to_string()), LValueType::Number(-7));
    assert_eq!(convert_string_to_lvalue(&"+7".to_string()), LValueType::Number(7));
    assert_eq!(
        convert_string_to_lvalue(&"-9223372036854775808".to_string()),
        LValueType::Number(i64::MIN)
    );
}

#[test]
fn classifies_symbols() {
    assert_eq!(convert_string_to_lvalue(&"dup".to_string()), LValueType::Symbol("dup".to_string()));
    assert_eq!(convert_string_to_lvalue(&"+".to_string()), LValueType::Symbol("+".to_string()));
    assert_eq!(convert_string_to_lvalue(&"-".to_string()), LValueType::Symbol("-".to_string()));
    assert_eq!(convert_string_to_lvalue(&"".to_string()), LValueType::Symbol("".to_string()));
    assert_eq!(
        convert_string_to_lvalue(&"9223372036854775808".to_string()),
        LValueType::Symbol("9223372036854775808".to_string())
    );
    assert_eq!(
        convert_string_to_lvalue(&"\"open".to_string()),
        LValueType::Symbol("\"open".to_string())
    );
}

#[test]
fn classifies_texts() {
    assert_eq!(convert_string_to_lvalue(&"\"abc\"".to_string()), LValueType::Text("abc".to_string()));
    assert_eq!(convert_string_to_lvalue(&"\"\"".to_string()), LValueType::Text("".to_string()));
    assert_eq!(convert_string_to_lvalue(&"\"12\"".to_string()), LValueType::Text("12".to_string()));
    assert_eq!(
        convert_string_to_lvalue(&"\"a \"b\" c\"".to_string()),
        LValueType::Text("a \"b\" c".to_string())
    );
}

#[test]
fn classifies_characters() {
    assert_eq!(convert_string_to_lvalue(&"'a'".to_string()), LValueType::Char(97));
    assert_eq!(convert_string_to_lvalue(&"' '".to_string()), LValueType::Char(32));
    assert_eq!(convert_string_to_lvalue(&"'\n'".to_string()), LValueType::Char(10));
    assert_eq!(convert_string_to_lvalue(&"'é'".to_string()), LValueType::Char(233));
    assert_eq!(convert_string_to_lvalue(&"'✓'".to_string()), LValueType::Char(0x2713));
    assert_eq!(convert_string_to_lvalue(&"''".to_string()), LValueType::Char(39));
    assert_eq!(convert_string_to_lvalue(&"'ab'".to_string()), LValueType::Char(97));
}

#[test]
fn a_lone_quote_is_a_symbol() {
    assert_eq!(convert_string_to_lvalue(&"'".to_string()), LValueType::Symbol("'".to_string()));
    assert_eq!(convert_string_to_lvalue(&"\"".to_string()), LValueType::Symbol("\"".to_string()));
}

#[test]
fn classifies_each_token() {
    assert_eq!(
        classify_tokens(&strings(&["1", "\"a b\"", "'c'", "swap"])),
        vec![
            LValueType::Number(1),
            LValueType::Text("a b".to_string()),
            LValueType::Char(99),
            LValueType::Symbol("swap".to_string()),
        ]
    );
    assert_eq!(classify_tokens(&strings(&[])), vec![]);
}

#[test]
fn include_lines_name_a_file() {
    assert_eq!(include_file("inc lib/std"), Some("lib/std.ktnck".to_string()));
    assert_eq!(include_file("inc "), Some(".ktnck".to_string()));
    assert_eq!(include_file("inc  two"), Some(" two.ktnck".to_string()));
}

#[test]
fn other_lines_include_nothing() {
    assert_eq!(include_file("1 2 +"), None);
    assert_eq!(include_file("inc"), None);
    assert_eq!(include_file(" inc x"), None);
    assert_eq!(include_file("include x"), None);
    assert_eq!(include_file("INC x"), None);
    assert_eq!(include_file(""), None);
}

#[test]
fn lines_are_joined_by_spaces() {
    let mut text = String::new();
    append_code(&mut text, "1 2");
    append_code(&mut text, "+ .");
    assert_eq!(text, " 1 2 + .");
    assert_eq!(finish_code(&text), "1 2 + .");
    assert_eq!(finish_code(" \t\n x y "), "x y ");
    assert_eq!(finish_code(""), "");
}

#[test]
fn tokens_written_out_scan_to_the_same_tokens() {
    let samples = [
        "2 3 + .",
        "  1   while dup 5 <=  do dup . 1 + end   drop ",
        "\"hello    big   world\" P 'c' p",
        "1 \"never closed and",
        "\" lone quote\" ' ' \"x\"",
        "",
    ];
    for sample in samples {
        let tokens = scan(sample);
        assert_eq!(scan(&tokens.join(" ")), tokens, "{:?}", sample);
    }
}

#[test]
fn with_an_escape_the_tokens_may_scan_differently() {
    let tokens = scan("\"a\\\" b\"");
    assert_eq!(tokens, strings(&["\"a\" b\""]));
    assert_eq!(scan(&tokens.join(" ")), strings(&["\"a\"", "b\""]));
}

#[test]
fn a_file_that_is_being_read_is_known() {
    let open = strings(&["main.ktnck", "lib/a.ktnck"]);
    assert!(ktnack::src::is_being_read(&open, "main.ktnck"));
    assert!(ktnack::src::is_being_read(&open, "lib/a.ktnck"));
    assert!(!ktnack::src::is_being_read(&open, "lib/b.ktnck"));
    assert!(!ktnack::src::is_being_read(&strings(&[]), "main.ktnck"));
}
