//! From source text to program: the scanner, the classifier of tokens,
//! the macro preprocessor and the parser that links the control-flow
//! words.

use crate::landing::{jumps_land_well, lemma_parse_lands_well};
use crate::ltypes::{
    expand_body, expand_into, lop_text, LMacro, LMacroView, LOpType, LOpTypeView, LValue,
    LValueType, LValueTypeView, LValueView, MAX_EXPANSION_DEPTH,
};
use crate::strings::{
    fetch_raw, fetch_string, fetch_token, lemma_gather_shortens, literal_quote, ScanError,
};
use crate::text::{
    chars_match, from_chars, parse_i64, parse_i64_spec, push_chars, to_chars, trim, trim_chars,
    trim_start,
};
use vstd::prelude::*;

verus! {

// ---------------------------------------------------------------------
// The classifier
// ---------------------------------------------------------------------

/// What a token is. Between double quotes it is a text, the quotes left
/// out. Between single quotes it is the character after the first quote,
/// as its scalar value. Else it is a number where it reads as a signed
/// 64-bit integer, and a symbol otherwise. A lone quote is a symbol.
pub open spec fn classify(s: Seq<char>) -> LValueTypeView {
    if s.len() >= 2 && s[0] == '"' && s.last() == '"' {
        LValueTypeView::Text(s.subrange(1, s.len() - 1))
    } else if s.len() >= 1 && s[0] == '\'' && s.last() == '\'' {
        if s.len() >= 2 {
            LValueTypeView::Char(s[1] as i64)
        } else {
            LValueTypeView::Symbol(s)
        }
    } else {
        match parse_i64_spec(s) {
            Some(i) => LValueTypeView::Number(i),
            None => LValueTypeView::Symbol(s),
        }
    }
}

/// Classifies one token.
pub fn convert_string_to_lvalue(s: &String) -> (v: LValueType)
    ensures
        v@ == classify(s@),
{
    let chars = to_chars(s.as_str());
    let n: usize = chars.len();
    if n >= 2 && chars[0] == '"' && chars[n - 1] == '"' {
        let mut inner = String::new();
        push_chars(&mut inner, &chars, 1, n - 1);
        return LValueType::Text(inner);
    } else if n >= 1 && chars[0] == '\'' && chars[n - 1] == '\'' {
        if n >= 2 {
            return LValueType::Char(chars[1] as i64);
        }
    } else if let Some(i) = parse_i64(&chars) {
        return LValueType::Number(i);
    }
    LValueType::Symbol(s.clone())
}

/// The classification of each token of `tokens`, in order.
pub open spec fn classify_all(tokens: Seq<Seq<char>>) -> Seq<LValueTypeView> {
    Seq::new(tokens.len(), |i: int| classify(tokens[i]))
}

/// Classifies each token.
pub fn classify_tokens(tokens: &Vec<String>) -> (values: Vec<LValueType>)
    ensures
        values.deep_view() == classify_all(tokens.deep_view()),
{
    let mut values: Vec<LValueType> = Vec::new();
    let mut i: usize = 0;
    while i < tokens.len()
        invariant
            i <= tokens.len(),
            values.len() == i,
            forall|k: int| 0 <= k < i ==> values@[k]@ == classify(tokens@[k]@),
        decreases tokens.len() - i,
    {
        values.push(convert_string_to_lvalue(&tokens[i]));
        i += 1;
    }
    values
}

// ---------------------------------------------------------------------
// The scanner: words
// ---------------------------------------------------------------------

/// The pieces that `s` falls into when it is cut at every space. There
/// is one piece more than there are spaces; pieces may be empty.
pub open spec fn split_spaces(s: Seq<char>) -> Seq<Seq<char>>
    decreases s.len(),
{
    if s.len() == 0 {
        seq![Seq::empty()]
    } else {
        let before = split_spaces(s.drop_last());
        if s.last() == ' ' {
            before.push(Seq::empty())
        } else {
            before.drop_last().push(before.last().push(s.last()))
        }
    }
}

/// The pieces `pieces` without white space at their ends, those left out
/// that hold nothing else.
pub open spec fn trimmed_words(pieces: Seq<Seq<char>>) -> Seq<Seq<char>>
    decreases pieces.len(),
{
    if pieces.len() == 0 {
        Seq::empty()
    } else {
        let word = trim(pieces.last());
        let before = trimmed_words(pieces.drop_last());
        if word.len() == 0 {
            before
        } else {
            before.push(word)
        }
    }
}

/// The words of a source text: what stands between its spaces, without
/// white space at the ends, where anything is left of it.
pub open spec fn words(text: Seq<char>) -> Seq<Seq<char>> {
    trimmed_words(split_spaces(text))
}

/// The words of `text` in reverse, so that the next word to read is the
/// last.
pub fn get_code_words(text: &String) -> (code: Vec<String>)
    ensures
        code.deep_view() == words(text@).reverse(),
{
    let chars = to_chars(text.as_str());
    let mut found: Vec<String> = Vec::new();
    let mut piece: Vec<char> = Vec::new();
    let ghost mut pieces: Seq<Seq<char>> = Seq::empty();
    let mut i: usize = 0;
    while i < chars.len()
        invariant
            i <= chars.len(),
            split_spaces(chars@.take(i as int)) == pieces.push(piece@),
            found.deep_view() == trimmed_words(pieces),
        decreases chars.len() - i,
    {
        assert(chars@.take(i + 1).drop_last() =~= chars@.take(i as int));
        if chars[i] == ' ' {
            let word = trim_chars(&piece);
            proof {
                assert(pieces.push(piece@).drop_last() =~= pieces);
                pieces = pieces.push(piece@);
            }
            if word.len() > 0 {
                found.push(from_chars(&word));
            }
            piece = Vec::new();
        } else {
            piece.push(chars[i]);
        }
        i += 1;
    }
    assert(chars@.take(chars.len() as int) =~= chars@);
    let word = trim_chars(&piece);
    assert(pieces.push(piece@).drop_last() =~= pieces);
    if word.len() > 0 {
        found.push(from_chars(&word));
    }

    let mut code: Vec<String> = Vec::new();
    let mut k: usize = found.len();
    while k > 0
        invariant
            k <= found.len(),
            code.len() == found.len() - k,
            forall|j: int| 0 <= j < code.len() ==> code@[j]@ == found@[found.len() - 1 - j]@,
        decreases k,
    {
        k -= 1;
        code.push(found[k].clone());
    }
    code
}

// ---------------------------------------------------------------------
// The scanner: tokens
// ---------------------------------------------------------------------

/// Reading a token takes words away and adds none.
pub proof fn lemma_fetch_shortens(value: Seq<char>, rest: Seq<Seq<char>>)
    ensures
        fetch_raw(value, rest).1.len() <= rest.len(),
{
    match literal_quote(value) {
        Some(quote) => lemma_gather_shortens(value, rest, quote),
        None => {},
    }
}

/// The tokens that the words `words` make up: one after the other, each
/// literal put together from the words it was split into. The first
/// character literal that is refused ends the reading.
pub open spec fn tokens_of(words: Seq<Seq<char>>) -> Result<Seq<Seq<char>>, Seq<char>>
    decreases words.len(),
{
    if words.len() == 0 {
        Ok(Seq::empty())
    } else {
        match fetch_token(words[0], words.skip(1)) {
            Err(literal) => Err(literal),
            Ok(token) => {
                proof {
                    lemma_fetch_shortens(words[0], words.skip(1));
                }
                match tokens_of(fetch_raw(words[0], words.skip(1)).1) {
                    Ok(more) => Ok(seq![token] + more),
                    Err(literal) => Err(literal),
                }
            },
        }
    }
}

/// The tokens of a source text, or the character literal for which it
/// is refused.
pub open spec fn scan(text: Seq<char>) -> Result<Seq<Seq<char>>, Seq<char>> {
    tokens_of(words(text))
}

/// The tokens `done` followed by those of `rest`.
pub open spec fn tokens_after(done: Seq<Seq<char>>, rest: Result<Seq<Seq<char>>, Seq<char>>) -> Result<
    Seq<Seq<char>>,
    Seq<char>,
> {
    match rest {
        Ok(more) => Ok(done + more),
        Err(literal) => Err(literal),
    }
}

/// Whether the result of a scan is what the description `expected`
/// says: the same tokens, or an error with the same literal.
pub open spec fn scanned_all(result: Result<Vec<String>, ScanError>, expected: Result<
    Seq<Seq<char>>,
    Seq<char>,
>) -> bool {
    match (result, expected) {
        (Ok(tokens), Ok(texts)) => tokens.deep_view() == texts,
        (Err(error), Err(literal)) => error.token() == literal,
        _ => false,
    }
}

/// The tokens of `text`, in the order of the text.
pub fn get_code_words_and_strings(text: &String) -> (result: Result<Vec<String>, ScanError>)
    ensures
        scanned_all(result, scan(text@)),
{
    let mut code = get_code_words(text);
    let mut result: Vec<String> = Vec::new();
    assert(code.deep_view().reverse() =~= words(text@));
    loop
        invariant
            tokens_after(result.deep_view(), tokens_of(code.deep_view().reverse())) == scan(
                text@,
            ),
        ensures
            scan(text@) == Ok::<Seq<Seq<char>>, Seq<char>>(result.deep_view()),
        decreases code.len(),
    {
        let ghost rest = code.deep_view().reverse();
        let ghost done = result.deep_view();
        match code.pop() {
            Some(value) => {
                assert(code.deep_view().reverse() =~= rest.skip(1));
                proof {
                    lemma_fetch_shortens(rest[0], rest.skip(1));
                }
                match fetch_string(&value, &mut code) {
                    Ok(token) => {
                        result.push(token);
                        let ghost more = tokens_of(code.deep_view().reverse());
                        assert(more is Ok ==> done + (seq![token@] + more->Ok_0)
                            =~= result.deep_view() + more->Ok_0);
                    },
                    Err(error) => {
                        return Err(error);
                    },
                }
            },
            None => {
                break ;
            },
        }
    }
    Ok(result)
}

/// The tokens of the source text `text`, in the order of the text.
pub fn load_code(text: &str) -> (result: Result<Vec<String>, ScanError>)
    ensures
        scanned_all(result, scan(text@)),
{
    let text = String::from_str(text);
    get_code_words_and_strings(&text)
}

// ---------------------------------------------------------------------
// The loader's decisions
// ---------------------------------------------------------------------

/// The file that the line `line` of a source file asks to include, if
/// it asks for one: the line starts with `inc` and a space, and what
/// follows names the file without its extension `.ktnck`.
pub open spec fn include_target(line: Seq<char>) -> Option<Seq<char>> {
    if "inc "@.is_prefix_of(line) {
        Some(line.skip(4) + ".ktnck"@)
    } else {
        None
    }
}

/// Tells whether a line of a source file asks for another file to be
/// included in its place, and which.
pub fn include_file(line: &str) -> (file: Option<String>)
    ensures
        match file {
            Some(name) => include_target(line@) == Some(name@),
            None => include_target(line@) is None,
        },
{
    proof {
        reveal_strlit("inc ");
    }
    let chars = to_chars(line);
    if chars.len() >= 4 && chars[0] == 'i' && chars[1] == 'n' && chars[2] == 'c' && chars[3]
        == ' ' {
        let mut name = String::new();
        push_chars(&mut name, &chars, 4, chars.len());
        name.append(".ktnck");
        Some(name)
    } else {
        assert(!"inc "@.is_prefix_of(line@)) by {
            if "inc "@.is_prefix_of(line@) {
                assert(line@.subrange(0, 4)[0] == 'i');
                assert(line@.subrange(0, 4)[1] == 'n');
                assert(line@.subrange(0, 4)[2] == 'c');
                assert(line@.subrange(0, 4)[3] == ' ');
            }
        }
        None
    }
}

/// Whether one of the files `open` is the file `file`.
pub open spec fn is_among(open: Seq<Seq<char>>, file: Seq<char>) -> bool {
    exists|i: int| 0 <= i < open.len() && #[trigger] open[i] == file
}

/// Tells whether the file `file` is one of the files `open`, which are
/// being read at the moment. A file that is asked for while it is
/// being read would include itself without end.
pub fn is_being_read(open: &Vec<String>, file: &str) -> (r: bool)
    ensures
        r == is_among(open.deep_view(), file@),
{
    let mut i: usize = 0;
    while i < open.len()
        invariant
            i <= open.len(),
            !is_among(open.deep_view().take(i as int), file@),
        decreases open.len() - i,
    {
        if crate::text::str_eq(open[i].as_str(), file) {
            assert(open.deep_view()[i as int] == file@);
            return true;
        }
        let ghost seen = open.deep_view().take(i as int);
        let ghost more = open.deep_view().take(i + 1);
        assert forall|k: int| 0 <= k < more.len() implies #[trigger] more[k] != file@ by {
            if k < i {
                assert(seen[k] == more[k]);
            }
        }
        i += 1;
    }
    assert(open.deep_view().take(open.len() as int) =~= open.deep_view());
    false
}

/// Adds a line of a source file, or the text of an included file, to
/// the text read so far, behind a space.
pub fn append_code(text: &mut String, piece: &str)
    ensures
        final(text)@ == old(text)@ + seq![' '] + piece@,
{
    proof {
        reveal_strlit(" ");
    }
    text.append(" ");
    text.append(piece);
}

/// The text of a source file once all its lines are read: without the
/// white space at its start.
pub fn finish_code(text: &str) -> (code: String)
    ensures
        code@ == trim_start(text@),
{
    let chars = to_chars(text);
    let n: usize = chars.len();
    let mut a: usize = 0;
    assert(chars@.subrange(0, n as int) =~= chars@);
    while a < n && crate::text::char_is_whitespace(chars[a])
        invariant
            a <= n == chars.len(),
            trim_start(chars@) == trim_start(chars@.subrange(a as int, n as int)),
        decreases n - a,
    {
        assert(chars@.subrange(a as int, n as int).drop_first() =~= chars@.subrange(
            a + 1,
            n as int,
        ));
        a += 1;
    }
    let mut code = String::new();
    push_chars(&mut code, &chars, a, n);
    code
}

// ---------------------------------------------------------------------
// The macro preprocessor
// ---------------------------------------------------------------------

/// How the preprocessing of macros ended.
#[derive(Debug, PartialEq, Eq, Clone, Copy)]
pub enum MacroStatus {
    /// Every definition was read and every use expanded.
    Expanded,
    /// The word `macro` was not followed by a symbol to name the macro.
    MissingName,
    /// A definition was not ended by an `end` of its own.
    Unterminated,
}

/// What the reading of the macro definitions gives.
pub struct Collected {
    /// The tokens outside the definitions, in order.
    pub code: Seq<LValueTypeView>,
    /// The definitions, in order.
    pub macros: Seq<LMacroView>,
    /// Whether all definitions could be read.
    pub status: MacroStatus,
}

/// Whether the token `v` is the symbol `word`.
pub open spec fn is_word(v: LValueTypeView, word: Seq<char>) -> bool {
    v == LValueTypeView::Symbol(word)
}

/// The place of the `end` that ends a macro body, looked for from
/// `from` on with `count` blocks open inside the body: every `if` and
/// `while` opens a block, every `end` closes one, and the `end` met with
/// no block open is the one.
pub open spec fn body_end(raw: Seq<LValueTypeView>, from: int, count: nat) -> Option<int>
    decreases raw.len() - from,
{
    if from < 0 || from >= raw.len() {
        None
    } else if is_word(raw[from], "end"@) {
        if count == 0 {
            Some(from)
        } else {
            body_end(raw, from + 1, (count - 1) as nat)
        }
    } else if is_word(raw[from], "if"@) || is_word(raw[from], "while"@) {
        body_end(raw, from + 1, count + 1)
    } else {
        body_end(raw, from + 1, count)
    }
}

/// The `end` of a body lies where it was looked for.
pub proof fn lemma_body_end_bounds(raw: Seq<LValueTypeView>, from: int, count: nat)
    ensures
        body_end(raw, from, count) matches Some(end) ==> from <= end < raw.len(),
    decreases raw.len() - from,
{
    if 0 <= from < raw.len() {
        if is_word(raw[from], "end"@) {
            if count != 0 {
                lemma_body_end_bounds(raw, from + 1, (count - 1) as nat);
            }
        } else if is_word(raw[from], "if"@) || is_word(raw[from], "while"@) {
            lemma_body_end_bounds(raw, from + 1, count + 1);
        } else {
            lemma_body_end_bounds(raw, from + 1, count);
        }
    }
}

/// Reads the macro definitions out of the tokens of `raw` from `from`
/// on, given the tokens `code` and the definitions `macros` found so
/// far. A definition is the word `macro`, a symbol that names the macro,
/// the body, and the `end` that ends the body. Without the name the
/// reading stops with what was found; without the `end` it stops and
/// gives no tokens.
pub open spec fn collect(
    raw: Seq<LValueTypeView>,
    from: int,
    code: Seq<LValueTypeView>,
    macros: Seq<LMacroView>,
) -> Collected
    decreases raw.len() - from,
{
    if from < 0 || from >= raw.len() {
        Collected { code: code, macros: macros, status: MacroStatus::Expanded }
    } else if !is_word(raw[from], "macro"@) {
        collect(raw, from + 1, code.push(raw[from]), macros)
    } else if from + 1 < raw.len() && raw[from + 1] is Symbol {
        match body_end(raw, from + 2, 0) {
            Some(end) => {
                proof {
                    lemma_body_end_bounds(raw, from + 2, 0);
                }
                collect(
                    raw,
                    end + 1,
                    code,
                    macros.push(
                        LMacroView {
                            name: raw[from + 1]->Symbol_0,
                            body: raw.subrange(from + 2, end),
                        },
                    ),
                )
            },
            None => Collected {
                code: Seq::empty(),
                macros: macros,
                status: MacroStatus::Unterminated,
            },
        }
    } else {
        Collected { code: code, macros: macros, status: MacroStatus::MissingName }
    }
}

/// The tokens of `raw` with the macro definitions taken out and every
/// use of a macro expanded, and how that went. A symbol outside the
/// definitions that names a macro is replaced by that macro's expansion
/// with the depth [`MAX_EXPANSION_DEPTH`]; the definition that counts is
/// the last of that name in the whole text. Where a definition could not
/// be read, nothing is expanded.
pub open spec fn preprocess(raw: Seq<LValueTypeView>) -> (Seq<LValueTypeView>, MacroStatus) {
    let found = collect(raw, 0, Seq::empty(), Seq::empty());
    match found.status {
        MacroStatus::Expanded => (
            expand_body(found.code, found.macros, MAX_EXPANSION_DEPTH + 1),
            MacroStatus::Expanded,
        ),
        status => (found.code, status),
    }
}

fn is_symbol(value: &LValueType, word: &str) -> (r: bool)
    ensures
        r == is_word(value@, word@),
{
    match value {
        LValueType::Symbol(sym) => crate::text::str_eq(sym.as_str(), word),
        _ => false,
    }
}

fn find_body_end(raw: &Vec<LValueType>, from: usize) -> (end: Option<usize>)
    requires
        from <= raw.len(),
    ensures
        match end {
            Some(end) => body_end(raw.deep_view(), from as int, 0) == Some(end as int) && from
                <= end < raw.len(),
            None => body_end(raw.deep_view(), from as int, 0) is None,
        },
{
    let ghost values = raw.deep_view();
    let mut count: usize = 0;
    let mut i: usize = from;
    while i < raw.len()
        invariant
            from <= i <= raw.len(),
            count <= i - from,
            values == raw.deep_view(),
            body_end(values, from as int, 0) == body_end(values, i as int, count as nat),
        decreases raw.len() - i,
    {
        if is_symbol(&raw[i], "end") {
            if count == 0 {
                return Some(i);
            }
            count -= 1;
        } else if is_symbol(&raw[i], "if") || is_symbol(&raw[i], "while") {
            count += 1;
        }
        i += 1;
    }
    None
}

/// Takes the macro definitions out of the tokens `raw_code` and expands
/// every use of a macro in what is left.
pub fn load_macros_and_expand(raw_code: Vec<LValueType>) -> (result: (
    Vec<LValueType>,
    MacroStatus,
))
    ensures
        result.0.deep_view() == preprocess(raw_code.deep_view()).0,
        result.1 == preprocess(raw_code.deep_view()).1,
{
    let ghost raw = raw_code.deep_view();
    let mut macros: Vec<LMacro> = Vec::new();
    let mut code: Vec<LValueType> = Vec::new();
    let mut i: usize = 0;
    assert(code.deep_view() =~= Seq::empty());
    assert(macros.deep_view() =~= Seq::empty());
    while i < raw_code.len()
        invariant
            i <= raw_code.len(),
            raw == raw_code.deep_view(),
            collect(raw, 0, Seq::empty(), Seq::empty()) == collect(
                raw,
                i as int,
                code.deep_view(),
                macros.deep_view(),
            ),
        decreases raw_code.len() - i,
    {
        let ghost code_before = code.deep_view();
        let ghost macros_before = macros.deep_view();
        if !is_symbol(&raw_code[i], "macro") {
            code.push(raw_code[i].clone());
            assert(code.deep_view() =~= code_before.push(raw[i as int]));
            i += 1;
            continue ;
        }
        if i + 1 >= raw_code.len() {
            return (code, MacroStatus::MissingName);
        }
        let macro_name: String = match &raw_code[i + 1] {
            LValueType::Symbol(text) => text.clone(),
            _ => {
                return (code, MacroStatus::MissingName);
            },
        };
        match find_body_end(&raw_code, i + 2) {
            Some(end) => {
                let mut body: Vec<LValueType> = Vec::new();
                let mut k: usize = i + 2;
                while k < end
                    invariant
                        i + 2 <= k <= end < raw_code.len(),
                        body.len() == k - (i + 2),
                        forall|j: int|
                            0 <= j < body.len() ==> body@[j]@ == raw_code@[i + 2 + j]@,
                    decreases end - k,
                {
                    body.push(raw_code[k].clone());
                    k += 1;
                }
                assert(body.deep_view() =~= raw.subrange(i + 2, end as int));
                let mcro = LMacro::new(&macro_name, &body);
                macros.push(mcro);
                assert(macros.deep_view() =~= macros_before.push(
                    LMacroView {
                        name: raw[i + 1]->Symbol_0,
                        body: raw.subrange(i + 2, end as int),
                    },
                ));
                i = end + 1;
            },
            None => {
                return (Vec::new(), MacroStatus::Unterminated);
            },
        }
    }
    let mut result: Vec<LValueType> = Vec::new();
    expand_into(&mut result, &code, &macros, MAX_EXPANSION_DEPTH + 1);
    (result, MacroStatus::Expanded)
}

/// Whether the word `macro` stands among the tokens `code`.
pub open spec fn has_macro_word(code: Seq<LValueTypeView>) -> bool {
    exists|i: int| 0 <= i < code.len() && is_word(#[trigger] code[i], "macro"@)
}

/// From tokens without the word `macro` no definition is read: all of
/// them are kept.
proof fn lemma_collect_plain(
    raw: Seq<LValueTypeView>,
    from: int,
    code: Seq<LValueTypeView>,
    macros: Seq<LMacroView>,
)
    requires
        0 <= from <= raw.len(),
        forall|i: int| from <= i < raw.len() ==> !is_word(#[trigger] raw[i], "macro"@),
    ensures
        collect(raw, from, code, macros) == (Collected {
            code: code + raw.skip(from),
            macros: macros,
            status: MacroStatus::Expanded,
        }),
    decreases raw.len() - from,
{
    if from < raw.len() {
        lemma_collect_plain(raw, from + 1, code.push(raw[from]), macros);
        assert(code.push(raw[from]) + raw.skip(from + 1) =~= code + raw.skip(from));
    }
}

/// Where no macro is defined, expansion changes nothing.
proof fn lemma_expand_without_macros(body: Seq<LValueTypeView>, depth: int)
    requires
        depth >= 0,
    ensures
        expand_body(body, Seq::empty(), depth) == body,
    decreases body.len(),
{
    if depth > 0 && body.len() > 0 {
        lemma_expand_without_macros(body.drop_last(), depth);
        assert(crate::ltypes::expand_value(body.last(), Seq::empty(), depth) =~= seq![
            body.last(),
        ]);
    }
}

/// Preprocessing a second time changes nothing: what the preprocessor
/// gives is handed back by it as it is, where the word `macro` does not
/// stand in it. (It can only stand there where a macro body held it.)
pub proof fn lemma_preprocess_idempotent(raw: Seq<LValueTypeView>)
    requires
        !has_macro_word(preprocess(raw).0),
    ensures
        preprocess(preprocess(raw).0) == (preprocess(raw).0, MacroStatus::Expanded),
{
    let once = preprocess(raw).0;
    lemma_collect_plain(once, 0, Seq::empty(), Seq::empty());
    assert(Seq::<LValueTypeView>::empty() + once.skip(0) =~= once);
    lemma_expand_without_macros(once, MAX_EXPANSION_DEPTH + 1);
}

// ---------------------------------------------------------------------
// The parser
// ---------------------------------------------------------------------

/// The operation that a word stands for, if it is a word of the
/// language that opens or closes no block.
pub open spec fn word_op(sym: Seq<char>) -> Option<LOpTypeView> {
    if sym == "add"@ || sym == "+"@ {
        Some(LOpTypeView::Add)
    } else if sym == "sub"@ || sym == "-"@ {
        Some(LOpTypeView::Sub)
    } else if sym == "mul"@ || sym == "*"@ {
        Some(LOpTypeView::Mul)
    } else if sym == "div"@ || sym == "/"@ {
        Some(LOpTypeView::Div)
    } else if sym == "mod"@ || sym == "%"@ {
        Some(LOpTypeView::Mod)
    } else if sym == "shl"@ || sym == "<<"@ {
        Some(LOpTypeView::Shl)
    } else if sym == "shr"@ || sym == ">>"@ {
        Some(LOpTypeView::Shr)
    } else if sym == "bor"@ || sym == "|"@ {
        Some(LOpTypeView::Bor)
    } else if sym == "band"@ || sym == "&"@ {
        Some(LOpTypeView::Band)
    } else if sym == "log"@ || sym == "."@ {
        Some(LOpTypeView::Log)
    } else if sym == "swap"@ || sym == "s"@ {
        Some(LOpTypeView::Swap)
    } else if sym == "dup"@ {
        Some(LOpTypeView::Dup)
    } else if sym == "over"@ {
        Some(LOpTypeView::Over)
    } else if sym == ">"@ {
        Some(LOpTypeView::Greater)
    } else if sym == "<"@ {
        Some(LOpTypeView::Less)
    } else if sym == ">="@ {
        Some(LOpTypeView::GreaterEqual)
    } else if sym == "<="@ {
        Some(LOpTypeView::LessEqual)
    } else if sym == "="@ {
        Some(LOpTypeView::Equal)
    } else if sym == "!="@ {
        Some(LOpTypeView::NotEqual)
    } else if sym == "drop"@ {
        Some(LOpTypeView::Drop)
    } else if sym == "store"@ || sym == "S"@ {
        Some(LOpTypeView::Store)
    } else if sym == "load"@ || sym == "L"@ {
        Some(LOpTypeView::Load)
    } else if sym == "mem"@ || sym == "@"@ {
        Some(LOpTypeView::Mem)
    } else if sym == "P"@ {
        Some(LOpTypeView::Puts(true))
    } else if sym == "p"@ {
        Some(LOpTypeView::Puts(false))
    } else {
        None
    }
}

/// Where the parser stands: the program so far, and the instruction
/// pointers of the blocks that are open, the innermost last.
pub struct ParseState {
    pub program: Seq<LOpTypeView>,
    pub open: Seq<usize>,
}

/// The state `st` with `op` as the next instruction.
pub open spec fn emit(st: ParseState, op: LOpTypeView) -> ParseState {
    ParseState { program: st.program.push(op), open: st.open }
}

/// The state after the word `if`: a jump whose target is set later, and
/// a block opened.
pub open spec fn parse_if(st: ParseState) -> ParseState {
    ParseState {
        program: st.program.push(LOpTypeView::If(0)),
        open: st.open.push(st.program.len() as usize),
    }
}

/// The state after the word `while`: the head of a loop, and a block
/// opened.
pub open spec fn parse_while(st: ParseState) -> ParseState {
    ParseState {
        program: st.program.push(LOpTypeView::While),
        open: st.open.push(st.program.len() as usize),
    }
}

/// The state after the word `else`. The innermost open block is closed.
/// Where it was opened by an `if`, that `if` now jumps behind the `else`,
/// and the `else` opens a block of its own with a jump whose target is
/// set later. Where it was opened by anything else, or none is open,
/// nothing is done at the place of the `else`.
pub open spec fn parse_else(st: ParseState) -> ParseState {
    let ip = st.program.len();
    if st.open.len() == 0 {
        emit(st, LOpTypeView::Nop("else/stack:empty"@))
    } else {
        let block_ip = st.open.last() as int;
        let op = st.program[block_ip];
        match op {
            LOpTypeView::If(_) => ParseState {
                program: st.program.update(block_ip, LOpTypeView::If((ip + 1) as u64)).push(
                    LOpTypeView::Else(0),
                ),
                open: st.open.drop_last().push(ip as usize),
            },
            _ => ParseState {
                program: st.program.push(LOpTypeView::Nop("else/sym:"@ + lop_text(op))),
                open: st.open.drop_last(),
            },
        }
    }
}

/// The state after the word `do`. The innermost open block, which a
/// `while` is meant to have opened, is closed: the `do` remembers its
/// place as the head of the loop, and opens a block of its own. Where no
/// block is open, nothing is done at the place of the `do`.
pub open spec fn parse_do(st: ParseState) -> ParseState {
    if st.open.len() == 0 {
        emit(st, LOpTypeView::Nop("do/stack:empty"@))
    } else {
        ParseState {
            program: st.program.push(LOpTypeView::Do(st.open.last() as u64)),
            open: st.open.drop_last().push(st.program.len() as usize),
        }
    }
}

/// The state after the word `end`. The innermost open block is closed.
/// An `if` or an `else` that opened it now jumps behind the `end`, which
/// itself goes on to the next instruction. A `do` that opened it now
/// jumps behind the `end` to leave the loop, and the `end` jumps back to
/// the head of the loop that the `do` remembered. Where anything else
/// opened the block, or none is open, nothing is done at the place of
/// the `end`.
pub open spec fn parse_end(st: ParseState) -> ParseState {
    let ip = st.program.len();
    if st.open.len() == 0 {
        emit(st, LOpTypeView::Nop("end/stack:empty"@))
    } else {
        let block_ip = st.open.last() as int;
        let op = st.program[block_ip];
        let open = st.open.drop_last();
        let next = (ip + 1) as u64;
        match op {
            LOpTypeView::If(_) => ParseState {
                program: st.program.update(block_ip, LOpTypeView::If(next)).push(
                    LOpTypeView::End(next),
                ),
                open: open,
            },
            LOpTypeView::Else(_) => ParseState {
                program: st.program.update(block_ip, LOpTypeView::Else(next)).push(
                    LOpTypeView::End(next),
                ),
                open: open,
            },
            LOpTypeView::Do(head) => ParseState {
                program: st.program.update(block_ip, LOpTypeView::Do(next)).push(
                    LOpTypeView::End(head),
                ),
                open: open,
            },
            _ => ParseState {
                program: st.program.push(LOpTypeView::Nop("end/sym:"@ + lop_text(op))),
                open: open,
            },
        }
    }
}

/// The state after the symbol `sym`: a word of the language has its
/// operation, any other symbol does nothing and is recorded.
pub open spec fn parse_symbol(st: ParseState, sym: Seq<char>) -> ParseState {
    match word_op(sym) {
        Some(op) => emit(st, op),
        None => if sym == "if"@ {
            parse_if(st)
        } else if sym == "else"@ {
            parse_else(st)
        } else if sym == "while"@ {
            parse_while(st)
        } else if sym == "do"@ {
            parse_do(st)
        } else if sym == "end"@ {
            parse_end(st)
        } else {
            emit(st, LOpTypeView::Nop("lex:"@ + sym))
        },
    }
}

/// The state after one more token: a number, a character or a text is
/// pushed, a symbol is parsed as a word.
pub open spec fn parse_step(st: ParseState, v: LValueTypeView) -> ParseState {
    match v {
        LValueTypeView::Number(x) => emit(st, LOpTypeView::Push(LValueView::Number(x))),
        LValueTypeView::Char(x) => emit(st, LOpTypeView::Push(LValueView::Number(x))),
        LValueTypeView::Text(t) => emit(st, LOpTypeView::Push(LValueView::Text(t))),
        LValueTypeView::Symbol(sym) => parse_symbol(st, sym),
        LValueTypeView::Nothing => emit(st, LOpTypeView::Nop("Invalid token type!"@)),
    }
}

/// The state after all the tokens `values`, read from left to right.
pub open spec fn parse_fold(values: Seq<LValueTypeView>) -> ParseState
    decreases values.len(),
{
    if values.len() == 0 {
        ParseState { program: Seq::empty(), open: Seq::empty() }
    } else {
        parse_step(parse_fold(values.drop_last()), values.last())
    }
}

/// The program that the tokens `values` make, in the order of the
/// instruction pointers: one instruction for each token, at the
/// instruction pointer that is the token's place. Blocks left open at
/// the end keep the jump target zero.
pub open spec fn parse_spec(values: Seq<LValueTypeView>) -> Seq<LOpTypeView> {
    parse_fold(values).program
}

/// Whether every jump of `program`, given in the order of the
/// instruction pointers, goes to an instruction of the program or to
/// the place just behind the last.
pub open spec fn targets_in_range(program: Seq<LOpTypeView>) -> bool {
    forall|i: int|
        0 <= i < program.len() ==> ((#[trigger] program[i]).target() matches Some(t) ==> t
            <= program.len())
}

/// Whether a parser state is sound: the jumps are in range and the open
/// blocks are instructions of the program.
pub open spec fn parse_state_wf(st: ParseState) -> bool {
    &&& targets_in_range(st.program)
    &&& forall|k: int| 0 <= k < st.open.len() ==> (#[trigger] st.open[k]) < st.program.len()
}

/// One token keeps the parser state sound and adds one instruction.
pub(crate) proof fn lemma_parse_step_wf(st: ParseState, v: LValueTypeView)
    requires
        parse_state_wf(st),
        st.program.len() < usize::MAX,
    ensures
        parse_state_wf(parse_step(st, v)),
        parse_step(st, v).program.len() == st.program.len() + 1,
{
}

/// In every parsed program, each `If`, `Else`, `Do` and `End` has a
/// target between zero and the length of the program; and the program
/// holds one instruction for each token.
pub proof fn lemma_parse_targets_in_range(values: Seq<LValueTypeView>)
    requires
        values.len() <= usize::MAX,
    ensures
        parse_state_wf(parse_fold(values)),
        targets_in_range(parse_spec(values)),
        parse_spec(values).len() == values.len(),
    decreases values.len(),
{
    if values.len() > 0 {
        lemma_parse_targets_in_range(values.drop_last());
        lemma_parse_step_wf(parse_fold(values.drop_last()), values.last());
    }
}

/// Parsing twice gives the same program: the tokens that the
/// preprocessor hands to the parser, preprocessed and parsed once more,
/// make the program that they made the first time. Macros are read the
/// first time only, so the word `macro` must not stand among those
/// tokens.
pub proof fn lemma_parse_twice(raw: Seq<LValueTypeView>)
    requires
        !has_macro_word(preprocess(raw).0),
    ensures
        parse_spec(preprocess(preprocess(raw).0).0) == parse_spec(preprocess(raw).0),
{
    lemma_preprocess_idempotent(raw);
}

fn word_operation(sym: &Vec<char>) -> (op: Option<LOpType>)
    ensures
        match op {
            Some(op) => word_op(sym@) == Some(op@),
            None => word_op(sym@) is None,
        },
{
    if chars_match(sym, "add") || chars_match(sym, "+") {
        Some(LOpType::Add)
    } else if chars_match(sym, "sub") || chars_match(sym, "-") {
        Some(LOpType::Sub)
    } else if chars_match(sym, "mul") || chars_match(sym, "*") {
        Some(LOpType::Mul)
    } else if chars_match(sym, "div") || chars_match(sym, "/") {
        Some(LOpType::Div)
    } else if chars_match(sym, "mod") || chars_match(sym, "%") {
        Some(LOpType::Mod)
    } else if chars_match(sym, "shl") || chars_match(sym, "<<") {
        Some(LOpType::Shl)
    } else if chars_match(sym, "shr") || chars_match(sym, ">>") {
        Some(LOpType::Shr)
    } else if chars_match(sym, "bor") || chars_match(sym, "|") {
        Some(LOpType::Bor)
    } else if chars_match(sym, "band") || chars_match(sym, "&") {
        Some(LOpType::Band)
    } else if chars_match(sym, "log") || chars_match(sym, ".") {
        Some(LOpType::Log)
    } else if chars_match(sym, "swap") || chars_match(sym, "s") {
        Some(LOpType::Swap)
    } else if chars_match(sym, "dup") {
        Some(LOpType::Dup)
    } else if chars_match(sym, "over") {
        Some(LOpType::Over)
    } else if chars_match(sym, ">") {
        Some(LOpType::Greater)
    } else if chars_match(sym, "<") {
        Some(LOpType::Less)
    } else if chars_match(sym, ">=") {
        Some(LOpType::GreaterEqual)
    } else if chars_match(sym, "<=") {
        Some(LOpType::LessEqual)
    } else if chars_match(sym, "=") {
        Some(LOpType::Equal)
    } else if chars_match(sym, "!=") {
        Some(LOpType::NotEqual)
    } else if chars_match(sym, "drop") {
        Some(LOpType::Drop)
    } else if chars_match(sym, "store") || chars_match(sym, "S") {
        Some(LOpType::Store)
    } else if chars_match(sym, "load") || chars_match(sym, "L") {
        Some(LOpType::Load)
    } else if chars_match(sym, "mem") || chars_match(sym, "@") {
        Some(LOpType::Mem)
    } else if chars_match(sym, "P") {
        Some(LOpType::Puts(true))
    } else if chars_match(sym, "p") {
        Some(LOpType::Puts(false))
    } else {
        None
    }
}

/// The parser state that a program and a stack of open blocks stand
/// for.
pub open spec fn state_of(result: Vec<LOpType>, stack: Vec<usize>) -> ParseState {
    ParseState { program: result.deep_view(), open: stack@ }
}

fn reason(prefix: &str, rest: &str) -> (op: LOpType)
    ensures
        op@ == LOpTypeView::Nop(prefix@ + rest@),
{
    let mut text = String::from_str(prefix);
    text.append(rest);
    LOpType::Nop(text)
}

fn emit_op(result: &mut Vec<LOpType>, op: LOpType)
    ensures
        final(result).deep_view() == old(result).deep_view().push(op@),
{
    result.push(op);
}

fn patch_op(result: &mut Vec<LOpType>, at: usize, op: LOpType)
    requires
        at < old(result).len(),
    ensures
        final(result).deep_view() == old(result).deep_view().update(at as int, op@),
{
    result.set(at, op);
}

fn parse_else_word(result: &mut Vec<LOpType>, stack: &mut Vec<usize>)
    requires
        parse_state_wf(state_of(*old(result), *old(stack))),
        old(result).len() < usize::MAX,
    ensures
        state_of(*final(result), *final(stack)) == parse_else(
            state_of(*old(result), *old(stack)),
        ),
{
    let ip: usize = result.len();
    match stack.pop() {
        None => {
            emit_op(result, reason("else/stack:empty", ""));
            assert("else/stack:empty"@ + ""@ =~= "else/stack:empty"@) by {
                reveal_strlit("");
            }
        },
        Some(block_ip) => {
            let ghost st = state_of(*old(result), *old(stack));
            assert(st.open[st.open.len() - 1] < st.program.len());
            if let LOpType::If(_) = &result[block_ip] {
                patch_op(result, block_ip, LOpType::If((ip + 1) as u64));
                emit_op(result, LOpType::Else(0));
                stack.push(ip);
            } else {
                let found = result[block_ip].to_string();
                emit_op(result, reason("else/sym:", found.as_str()));
            }
        },
    }
}

fn parse_do_word(result: &mut Vec<LOpType>, stack: &mut Vec<usize>)
    requires
        parse_state_wf(state_of(*old(result), *old(stack))),
    ensures
        state_of(*final(result), *final(stack)) == parse_do(
            state_of(*old(result), *old(stack)),
        ),
{
    let ip: usize = result.len();
    match stack.pop() {
        None => {
            emit_op(result, reason("do/stack:empty", ""));
            assert("do/stack:empty"@ + ""@ =~= "do/stack:empty"@) by {
                reveal_strlit("");
            }
        },
        Some(while_ip) => {
            emit_op(result, LOpType::Do(while_ip as u64));
            stack.push(ip);
        },
    }
}

fn parse_end_word(result: &mut Vec<LOpType>, stack: &mut Vec<usize>)
    requires
        parse_state_wf(state_of(*old(result), *old(stack))),
        old(result).len() < usize::MAX,
    ensures
        state_of(*final(result), *final(stack)) == parse_end(
            state_of(*old(result), *old(stack)),
        ),
{
    let ip: usize = result.len();
    match stack.pop() {
        None => {
            emit_op(result, reason("end/stack:empty", ""));
            assert("end/stack:empty"@ + ""@ =~= "end/stack:empty"@) by {
                reveal_strlit("");
            }
        },
        Some(block_ip) => {
            let ghost st = state_of(*old(result), *old(stack));
            assert(st.open[st.open.len() - 1] < st.program.len());
            let next: u64 = (ip + 1) as u64;
            let op = result[block_ip].clone();
            match op {
                LOpType::If(_) => {
                    patch_op(result, block_ip, LOpType::If(next));
                    emit_op(result, LOpType::End(next));
                },
                LOpType::Else(_) => {
                    patch_op(result, block_ip, LOpType::Else(next));
                    emit_op(result, LOpType::End(next));
                },
                LOpType::Do(head) => {
                    patch_op(result, block_ip, LOpType::Do(next));
                    emit_op(result, LOpType::End(head));
                },
                _ => {
                    let found = op.to_string();
                    emit_op(result, reason("end/sym:", found.as_str()));
                },
            }
        },
    }
}

fn parse_symbol_word(result: &mut Vec<LOpType>, stack: &mut Vec<usize>, sym: &String)
    requires
        parse_state_wf(state_of(*old(result), *old(stack))),
        old(result).len() < usize::MAX,
    ensures
        state_of(*final(result), *final(stack)) == parse_symbol(
            state_of(*old(result), *old(stack)),
            sym@,
        ),
{
    let chars = to_chars(sym.as_str());
    let ip: usize = result.len();
    match word_operation(&chars) {
        Some(op) => emit_op(result, op),
        None => {
            if chars_match(&chars, "if") {
                emit_op(result, LOpType::If(0));
                stack.push(ip);
            } else if chars_match(&chars, "else") {
                parse_else_word(result, stack);
            } else if chars_match(&chars, "while") {
                emit_op(result, LOpType::While);
                stack.push(ip);
            } else if chars_match(&chars, "do") {
                parse_do_word(result, stack);
            } else if chars_match(&chars, "end") {
                parse_end_word(result, stack);
            } else {
                emit_op(result, reason("lex:", sym.as_str()));
            }
        },
    }
}

/// Parses the tokens `code` into the instructions of a program, in the
/// order of their instruction pointers.
fn parse_in_order(code: &Vec<LValueType>) -> (result: Vec<LOpType>)
    ensures
        result.deep_view() == parse_spec(code.deep_view()),
        result.len() == code.len(),
        targets_in_range(result.deep_view()),
        jumps_land_well(result.deep_view()),
{
    let ghost values = code.deep_view();
    let mut result: Vec<LOpType> = Vec::new();
    let mut stack: Vec<usize> = Vec::new();
    let mut i: usize = 0;
    assert(result.deep_view() =~= Seq::empty());
    while i < code.len()
        invariant
            i <= code.len(),
            values == code.deep_view(),
            result.len() == i,
            state_of(result, stack) == parse_fold(values.take(i as int)),
            parse_state_wf(state_of(result, stack)),
        decreases code.len() - i,
    {
        let ghost before = state_of(result, stack);
        assert(values.take(i + 1).drop_last() =~= values.take(i as int));
        proof {
            lemma_parse_step_wf(before, code@[i as int]@);
        }
        match &code[i] {
            LValueType::Number(x) => emit_op(&mut result, LOpType::Push(LValue::Number(*x))),
            LValueType::Char(x) => emit_op(&mut result, LOpType::Push(LValue::Number(*x))),
            LValueType::Text(t) => emit_op(&mut result, LOpType::Push(LValue::Text(t.clone()))),
            LValueType::Symbol(sym) => parse_symbol_word(&mut result, &mut stack, sym),
            LValueType::Nothing => emit_op(
                &mut result,
                LOpType::Nop(String::from_str("Invalid token type!")),
            ),
        }
        i += 1;
    }
    assert(values.take(code.len() as int) =~= values);
    proof {
        lemma_parse_lands_well(values);
    }
    result
}

/// The instructions `ops` in reverse.
fn reverse_ops(ops: Vec<LOpType>) -> (result: Vec<LOpType>)
    ensures
        result.deep_view() == ops.deep_view().reverse(),
{
    let mut ops = ops;
    let ghost all = ops.deep_view();
    let mut result: Vec<LOpType> = Vec::new();
    while ops.len() > 0
        invariant
            ops.len() + result.len() == all.len(),
            ops.deep_view() == all.take(ops.len() as int),
            forall|k: int| 0 <= k < result.len() ==> result@[k]@ == all[all.len() - 1 - k],
        decreases ops.len(),
    {
        let ghost left = ops.deep_view();
        match ops.pop() {
            Some(op) => {
                assert(op@ == left[left.len() - 1]);
                result.push(op);
            },
            None => {},
        }
    }
    result
}

/// Parses the tokens `code` into a program: one instruction for each
/// token, the control-flow words linked by their instruction pointers.
/// The program is stored in reverse: the instruction with the
/// instruction pointer `p` stands at the index `len - 1 - p`. Taken in
/// the order of the instruction pointers, every jump of the program
/// lies within it or just behind its end, and goes to the start of the
/// program, to the place behind an `else` or an `end`, or to a word that
/// opens a block.
pub fn parse_values(code: &Vec<LValueType>) -> (result: Vec<LOpType>)
    ensures
        result.deep_view() == parse_spec(code.deep_view()).reverse(),
        result.deep_view().reverse() == parse_spec(code.deep_view()),
        result.len() == code.len(),
        targets_in_range(parse_spec(code.deep_view())),
        jumps_land_well(parse_spec(code.deep_view())),
{
    let result = reverse_ops(parse_in_order(code));
    assert(parse_spec(code.deep_view()).reverse().reverse() =~= parse_spec(code.deep_view()));
    result
}

/// The tokens of a source text that the parser gets: the tokens of the
/// text classified and their macros expanded, with the way the
/// preprocessing ended; or the character literal for which the text is
/// refused.
pub open spec fn expanded_tokens(text: Seq<char>) -> Result<
    (Seq<LValueTypeView>, MacroStatus),
    Seq<char>,
> {
    match scan(text) {
        Ok(tokens) => Ok(preprocess(classify_all(tokens))),
        Err(literal) => Err(literal),
    }
}

/// The program of a source text, parsed from its expanded tokens and
/// stored in reverse, with the way the preprocessing of macros ended. A
/// character literal that is refused is the one thing that gives no
/// program.
pub open spec fn lex(text: Seq<char>) -> Result<(Seq<LOpTypeView>, MacroStatus), Seq<char>> {
    match expanded_tokens(text) {
        Ok(expanded) => Ok((parse_spec(expanded.0).reverse(), expanded.1)),
        Err(literal) => Err(literal),
    }
}

/// Turns the source text `text` into a program, and says how the
/// preprocessing of macros ended. The program holds one instruction for
/// each expanded token and is stored in reverse: the instruction with
/// the instruction pointer `p` stands at the index `len - 1 - p`. Taken
/// in the order of the instruction pointers, every jump of the program
/// lies within it or just behind its end, at a place that the parser
/// sends jumps to.
pub fn load_and_lex_code(text: &str) -> (result: Result<(Vec<LOpType>, MacroStatus), ScanError>)
    ensures
        match result {
            Ok((program, status)) => {
                &&& lex(text@) == Ok::<(Seq<LOpTypeView>, MacroStatus), Seq<char>>(
                    (program.deep_view(), status),
                )
                &&& program.len() == expanded_tokens(text@)->Ok_0.0.len()
                &&& targets_in_range(program.deep_view().reverse())
                &&& jumps_land_well(program.deep_view().reverse())
            },
            Err(error) => lex(text@) == Err::<(Seq<LOpTypeView>, MacroStatus), Seq<char>>(
                error.token(),
            ),
        },
{
    match load_code(text) {
        Ok(tokens) => {
            let code = classify_tokens(&tokens);
            let (code, status) = load_macros_and_expand(code);
            Ok((parse_values(&code), status))
        },
        Err(error) => Err(error),
    }
}

} // verus!
