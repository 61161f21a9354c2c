//! Holds the scanner and the classifier against a plain description of
//! them in terms of the standard library, on every short text over a
//! small alphabet.

use ktnack::ltypes::LValueType;
use ktnack::src::{convert_string_to_lvalue, load_code};
use ktnack::strings::ScanError;

fn plain_words(text: &str) -> Vec<String> {
    text.trim_start()
        .split(" ")
        .map(|p| p.trim())
        .filter(|p| !p.is_empty())
        .map(String::from)
        .collect()
}

fn plain_format(text: &str) -> Result<String, String> {
    let text = text
        .replace("\\n", "\n")
        .replace("\\t", "\t")
        .replace("\\\"", "\"")
        .replace("\\'", "'")
        .replace("\\\\", "\\");
    if text.starts_with("'") && text.chars().count() != 3 {
        Err(text)
    } else {
        Ok(text)
    }
}

fn plain_tokens(text: &str) -> Result<Vec<String>, String> {
    let mut code = plain_words(text);
    code.reverse();
    let mut tokens = Vec::new();
    while let Some(value) = code.pop() {
        let quote = value.chars().next().filter(|c| *c == '"' || *c == '\'');
        let token = match quote {
            None => value,
            Some(quote) => {
                let goal = quote.to_string();
                let no_goal = format!("\\{}", quote);
                let ends = |word: &str| word.ends_with(&goal) && !word.ends_with(&no_goal);
                if ends(&value) && value.chars().count() >= 2 {
                    plain_format(&value)?
                } else {
                    let mut list = vec![value];
                    while let Some(next) = code.pop() {
                        let last = ends(&next);
                        list.push(next);
                        if last {
                            break;
                        }
                    }
                    plain_format(&list.join(" "))?
                }
            }
        };
        tokens.push(token);
    }
    Ok(tokens)
}

fn plain_classify(s: &str) -> LValueType {
    let count = s.chars().count();
    if count >= 2 && s.starts_with("\"") && s.ends_with("\"") {
        return LValueType::Text(s[1..s.len() - 1].to_string());
    } else if s.starts_with("'") && s.ends_with("'") {
        if let Some(c) = s.chars().nth(1) {
            return LValueType::Char(c as i64);
        }
    } else if let Ok(i) = s.parse::<i64>() {
        return LValueType::Number(i);
    }
    LValueType::Symbol(s.to_string())
}

fn texts(alphabet: &[char], length: usize) -> Vec<String> {
    let mut all = vec![String::new()];
    let mut last = vec![String::new()];
    for _ in 0..length {
        let mut next = Vec::new();
        for text in last.iter() {
            for c in alphabet {
                let mut longer = text.clone();
                longer.push(*c);
                next.push(longer);
            }
        }
        all.extend(next.iter().cloned());
        last = next;
    }
    all
}

#[test]
fn the_scanner_agrees_with_its_plain_description() {
    for text in texts(&['a', ' ', '"', '\'', '\\', 'n', '\t'], 5) {
        let expected = plain_tokens(&text).map_err(ScanError::CharLiteral);
        assert_eq!(load_code(&text), expected, "{:?}", text);
    }
}

#[test]
fn the_scanner_agrees_on_longer_texts_with_literals() {
    for text in texts(&['x', ' ', '"', '\\'], 8) {
        let expected = plain_tokens(&text).map_err(ScanError::CharLiteral);
        assert_eq!(load_code(&text), expected, "{:?}", text);
    }
}

#[test]
fn the_classifier_agrees_with_its_plain_description() {
    for text in texts(&['1', '-', '+', '"', '\'', 'a', 'é'], 5) {
        assert_eq!(convert_string_to_lvalue(&text), plain_classify(&text), "{:?}", text);
    }
}
