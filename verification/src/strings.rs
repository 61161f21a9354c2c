//! String and character literals in the scanner: how a literal that was
//! split at spaces is put together again, and how its escapes are
//! resolved.

use crate::text::{ends_with_chars, from_chars, replace_pair, replace_pair_chars, to_chars};
use vstd::prelude::*;

verus! {

/// Why a source text cannot be scanned.
#[derive(Debug, PartialEq, Eq)]
pub enum ScanError {
    /// A literal between single quotes that does not hold exactly one
    /// character once its escapes are resolved; the literal is given.
    CharLiteral(String),
}

impl ScanError {
    /// The literal that was refused.
    pub open spec fn token(self) -> Seq<char> {
        match self {
            ScanError::CharLiteral(token) => token@,
        }
    }

    /// What there is to say to the user about the error.
    pub fn message(&self) -> (text: String)
        ensures
            text@ == "character typed strings can only have a single character!"@,
    {
        String::from_str("character typed strings can only have a single character!")
    }
}

/// How the end of a literal is told: by the delimiter `goal`, unless it
/// stands behind a backslash, which `no_goal` spells out.
pub struct StrLitMatch<'a> {
    goal: &'a str,
    no_goal: &'a str,
    end: bool,
}

/// Whether a word ends a literal: it ends with `goal` and not with
/// `no_goal`.
pub open spec fn ends_literal(value: Seq<char>, goal: Seq<char>, no_goal: Seq<char>) -> bool {
    goal.is_suffix_of(value) && !no_goal.is_suffix_of(value)
}

fn word_ends(value: &str, goal: &str, no_goal: &str) -> (r: bool)
    ensures
        r == ends_literal(value@, goal@, no_goal@),
{
    let chars = to_chars(value);
    let goal_chars = to_chars(goal);
    let no_goal_chars = to_chars(no_goal);
    ends_with_chars(&chars, &goal_chars) && !ends_with_chars(&chars, &no_goal_chars)
}

impl<'a> StrLitMatch<'a> {
    /// The delimiter that ends the literal.
    pub closed spec fn goal(&self) -> Seq<char> {
        self.goal@
    }

    /// The delimiter behind a backslash, which does not end the literal.
    pub closed spec fn no_goal(&self) -> Seq<char> {
        self.no_goal@
    }

    /// Whether the word that opened the literal also ends it.
    pub closed spec fn end(&self) -> bool {
        self.end
    }

    /// The way to tell the end of the literal that the word `value`
    /// opens. The word itself ends the literal where it ends with `goal`
    /// and not with `no_goal`, and holds two characters or more.
    pub fn new(value: &String, goal: &'a str, no_goal: &'a str) -> (m: StrLitMatch<'a>)
        ensures
            m.goal() == goal@,
            m.no_goal() == no_goal@,
            m.end() == (ends_literal(value@, goal@, no_goal@) && value@.len() >= 2),
    {
        let end = word_ends(value.as_str(), goal, no_goal) && value.as_str().unicode_len() >= 2;
        StrLitMatch { goal, no_goal, end }
    }

    /// Whether the word `value` ends the literal.
    pub fn ends(&self, value: &String) -> (r: bool)
        ensures
            r == ends_literal(value@, self.goal(), self.no_goal()),
    {
        word_ends(value.as_str(), self.goal, self.no_goal)
    }
}

/// `text` with its escapes resolved, one kind after the other in this
/// order: `\n` gives a line feed, `\t` a tabulator, `\"` a double quote,
/// `\'` a single quote and `\\` a backslash.
pub open spec fn unescape(text: Seq<char>) -> Seq<char> {
    replace_pair(
        replace_pair(
            replace_pair(
                replace_pair(replace_pair(text, '\\', 'n', '\n'), '\\', 't', '\t'),
                '\\',
                '"',
                '"',
            ),
            '\\',
            '\'',
            '\'',
        ),
        '\\',
        '\\',
        '\\',
    )
}

/// What a literal put together again becomes: its text with the escapes
/// resolved. A literal that then starts with a single quote must hold
/// exactly one character between its two quotes, or it is refused.
pub open spec fn format_token(text: Seq<char>) -> Result<Seq<char>, Seq<char>> {
    let resolved = unescape(text);
    if resolved.len() > 0 && resolved[0] == '\'' && resolved.len() != 3 {
        Err(resolved)
    } else {
        Ok(resolved)
    }
}

/// Whether the result of a scanning function is what the description
/// `expected` says: the same text, or an error with the same literal.
pub open spec fn scanned_as(result: Result<String, ScanError>, expected: Result<
    Seq<char>,
    Seq<char>,
>) -> bool {
    match (result, expected) {
        (Ok(token), Ok(text)) => token@ == text,
        (Err(error), Err(literal)) => error.token() == literal,
        _ => false,
    }
}

/// Resolves the escapes of a literal and checks a character literal for
/// its length.
pub fn format_string_token(text: &String) -> (result: Result<String, ScanError>)
    ensures
        scanned_as(result, format_token(text@)),
{
    let chars = to_chars(text.as_str());
    let chars = replace_pair_chars(&chars, '\\', 'n', '\n');
    let chars = replace_pair_chars(&chars, '\\', 't', '\t');
    let chars = replace_pair_chars(&chars, '\\', '"', '"');
    let chars = replace_pair_chars(&chars, '\\', '\'', '\'');
    let chars = replace_pair_chars(&chars, '\\', '\\', '\\');
    let resolved = from_chars(&chars);
    if chars.len() > 0 && chars[0] == '\'' && chars.len() != 3 {
        Err(ScanError::CharLiteral(resolved))
    } else {
        Ok(resolved)
    }
}

/// The delimiter that `value` opens a literal with, if it opens one: a
/// double or a single quote at its start.
pub open spec fn literal_quote(value: Seq<char>) -> Option<char> {
    if value.len() > 0 && (value[0] == '"' || value[0] == '\'') {
        Some(value[0])
    } else {
        None
    }
}

/// The delimiter `quote` as a text.
pub open spec fn goal_of(quote: char) -> Seq<char> {
    if quote == '"' {
        "\""@
    } else {
        "'"@
    }
}

/// The delimiter `quote` behind a backslash, as a text.
pub open spec fn no_goal_of(quote: char) -> Seq<char> {
    if quote == '"' {
        "\\\""@
    } else {
        "\\'"@
    }
}

/// Tells whether `value` opens a literal, and if so, how its end is
/// told and whether `value` is the whole of it.
pub fn check_string_literal(value: &String) -> (m: Option<StrLitMatch<'static>>)
    ensures
        match m {
            Some(m) => literal_quote(value@) matches Some(quote) && m.goal() == goal_of(quote)
                && m.no_goal() == no_goal_of(quote) && m.end() == (ends_literal(
                value@,
                goal_of(quote),
                no_goal_of(quote),
            ) && value@.len() >= 2),
            None => literal_quote(value@) is None,
        },
{
    let chars = to_chars(value.as_str());
    if chars.len() == 0 {
        return Option::None;
    }
    if chars[0] == '"' {
        Option::Some(StrLitMatch::new(value, "\"", "\\\""))
    } else if chars[0] == '\'' {
        Option::Some(StrLitMatch::new(value, "'", "\\'"))
    } else {
        Option::None
    }
}

/// Puts a literal together from the word `acc` that opened it and the
/// words `words` that follow: each word is joined on behind a space, up
/// to and with the first that ends the literal, or all of them where
/// none does. Gives the literal and the words that are left.
pub open spec fn gather(acc: Seq<char>, words: Seq<Seq<char>>, quote: char) -> (
    Seq<char>,
    Seq<Seq<char>>,
)
    decreases words.len(),
{
    if words.len() == 0 {
        (acc, words)
    } else {
        let joined = acc + seq![' '] + words[0];
        if ends_literal(words[0], goal_of(quote), no_goal_of(quote)) {
            (joined, words.skip(1))
        } else {
            gather(joined, words.skip(1), quote)
        }
    }
}

/// The token that starts with the word `value`, before its escapes are
/// resolved, and the words left of those that follow it, `words`. A word
/// that opens no literal, or is a whole literal, is the token; else the
/// literal is put together from the words that follow.
pub open spec fn fetch_raw(value: Seq<char>, words: Seq<Seq<char>>) -> (Seq<char>, Seq<Seq<char>>) {
    match literal_quote(value) {
        Some(quote) => if ends_literal(value, goal_of(quote), no_goal_of(quote)) && value.len()
            >= 2 {
            (value, words)
        } else {
            gather(value, words, quote)
        },
        None => (value, words),
    }
}

/// The token that starts with the word `value`: a literal with its
/// escapes resolved, any other word as it is.
pub open spec fn fetch_token(value: Seq<char>, words: Seq<Seq<char>>) -> Result<
    Seq<char>,
    Seq<char>,
> {
    if literal_quote(value) is Some {
        format_token(fetch_raw(value, words).0)
    } else {
        Ok(value)
    }
}

/// Putting a literal together takes words away and adds none.
pub proof fn lemma_gather_shortens(acc: Seq<char>, words: Seq<Seq<char>>, quote: char)
    ensures
        gather(acc, words, quote).1.len() <= words.len(),
        words.len() > 0 ==> gather(acc, words, quote).1.len() < words.len(),
    decreases words.len(),
{
    if words.len() > 0 && !ends_literal(words[0], goal_of(quote), no_goal_of(quote)) {
        lemma_gather_shortens(acc + seq![' '] + words[0], words.skip(1), quote);
    }
}

/// Reads the token that starts with the word `value`. The words that
/// follow it stand in `code` in reverse, the next one last; those that
/// belong to the token are taken off.
pub fn fetch_string(value: &String, code: &mut Vec<String>) -> (result: Result<String, ScanError>)
    ensures
        scanned_as(result, fetch_token(value@, old(code).deep_view().reverse())),
        final(code).deep_view().reverse() == fetch_raw(
            value@,
            old(code).deep_view().reverse(),
        ).1,
{
    let ghost words = code.deep_view().reverse();
    if let Some(strlit) = check_string_literal(value) {
        let ghost quote = literal_quote(value@)->0;
        if strlit.end {
            return format_string_token(value);
        }
        let mut joined = value.clone();
        loop
            invariant_except_break
                gather(value@, words, quote) == gather(joined@, code.deep_view().reverse(), quote),
            invariant
                strlit.goal() == goal_of(quote),
                strlit.no_goal() == no_goal_of(quote),
            ensures
                joined@ == gather(value@, words, quote).0,
                code.deep_view().reverse() == gather(value@, words, quote).1,
            decreases code.len(),
        {
            let ghost before = code.deep_view().reverse();
            let ghost so_far = joined@;
            match code.pop() {
                Some(value2) => {
                    assert(code.deep_view().reverse() =~= before.skip(1));
                    joined.append(" ");
                    joined.append(value2.as_str());
                    assert(joined@ =~= so_far + seq![' '] + value2@) by {
                        reveal_strlit(" ");
                    }
                    if strlit.ends(&value2) {
                        break ;
                    }
                },
                None => {
                    break ;
                },
            }
        }
        return format_string_token(&joined);
    }
    Ok(value.clone())
}

} // verus!
