//! The data of the language: classified tokens, runtime values, the
//! operations of the intermediate representation, and macros.

use crate::text::{decimal, push_decimal, push_signed_decimal, signed_decimal, str_eq};
use vstd::prelude::*;

verus! {

/// A classified source token.
#[derive(Debug, PartialEq, Eq)]
pub enum LValueType {
    /// A signed 64-bit integer.
    Number(i64),
    /// The contents of a `"..."` literal.
    Text(String),
    /// The scalar value of the character of a `'.'` literal.
    Char(i64),
    /// Any other token: a built-in word or a macro name.
    Symbol(String),
    /// End of stream; never stored in a program.
    Nothing,
}

/// What a classified token is, with strings as character sequences.
pub enum LValueTypeView {
    Number(i64),
    Text(Seq<char>),
    Char(i64),
    Symbol(Seq<char>),
    Nothing,
}

impl DeepView for LValueType {
    type V = LValueTypeView;

    open spec fn deep_view(&self) -> LValueTypeView {
        match self {
            LValueType::Number(x) => LValueTypeView::Number(*x),
            LValueType::Text(x) => LValueTypeView::Text(x@),
            LValueType::Char(x) => LValueTypeView::Char(*x),
            LValueType::Symbol(x) => LValueTypeView::Symbol(x@),
            LValueType::Nothing => LValueTypeView::Nothing,
        }
    }
}

impl View for LValueType {
    type V = LValueTypeView;

    open spec fn view(&self) -> LValueTypeView {
        self.deep_view()
    }
}

/// A span of a loop: where it starts, where its condition ends and where
/// it ends.
#[derive(Debug, PartialEq, Eq)]
pub struct Loop {
    start: u64,
    cond: u64,
    end: u64,
}

/// A value on the runtime stack.
#[derive(Debug, PartialEq, Eq)]
pub enum LValue {
    Number(i64),
    Text(String),
}

/// What a runtime value is, with strings as character sequences.
pub enum LValueView {
    Number(i64),
    Text(Seq<char>),
}

impl DeepView for LValue {
    type V = LValueView;

    open spec fn deep_view(&self) -> LValueView {
        match self {
            LValue::Number(x) => LValueView::Number(*x),
            LValue::Text(x) => LValueView::Text(x@),
        }
    }
}

impl View for LValue {
    type V = LValueView;

    open spec fn view(&self) -> LValueView {
        self.deep_view()
    }
}

/// One operation of the intermediate representation. The operand of
/// `If`, `Else`, `Do` and `End` is the instruction pointer to jump to.
#[derive(Debug, PartialEq, Eq)]
pub enum LOpType {
    /// No effect; the string records why the parser could not do better.
    Nop(String),
    Push(LValue),
    Add,
    Sub,
    Mul,
    Div,
    Mod,
    Shl,
    Shr,
    Bor,
    Band,
    Log,
    Swap,
    Dup,
    Over,
    If(u64),
    Else(u64),
    While,
    Do(u64),
    End(u64),
    Greater,
    Less,
    GreaterEqual,
    LessEqual,
    Equal,
    NotEqual,
    Drop,
    Mem,
    Load,
    Store,
    Puts(bool),
}

/// What an operation is, with strings as character sequences.
pub enum LOpTypeView {
    Nop(Seq<char>),
    Push(LValueView),
    Add,
    Sub,
    Mul,
    Div,
    Mod,
    Shl,
    Shr,
    Bor,
    Band,
    Log,
    Swap,
    Dup,
    Over,
    If(u64),
    Else(u64),
    While,
    Do(u64),
    End(u64),
    Greater,
    Less,
    GreaterEqual,
    LessEqual,
    Equal,
    NotEqual,
    Drop,
    Mem,
    Load,
    Store,
    Puts(bool),
}

impl DeepView for LOpType {
    type V = LOpTypeView;

    open spec fn deep_view(&self) -> LOpTypeView {
        match self {
            LOpType::Nop(x) => LOpTypeView::Nop(x@),
            LOpType::Push(x) => LOpTypeView::Push(x.deep_view()),
            LOpType::Add => LOpTypeView::Add,
            LOpType::Sub => LOpTypeView::Sub,
            LOpType::Mul => LOpTypeView::Mul,
            LOpType::Div => LOpTypeView::Div,
            LOpType::Mod => LOpTypeView::Mod,
            LOpType::Shl => LOpTypeView::Shl,
            LOpType::Shr => LOpTypeView::Shr,
            LOpType::Bor => LOpTypeView::Bor,
            LOpType::Band => LOpTypeView::Band,
            LOpType::Log => LOpTypeView::Log,
            LOpType::Swap => LOpTypeView::Swap,
            LOpType::Dup => LOpTypeView::Dup,
            LOpType::Over => LOpTypeView::Over,
            LOpType::If(x) => LOpTypeView::If(*x),
            LOpType::Else(x) => LOpTypeView::Else(*x),
            LOpType::While => LOpTypeView::While,
            LOpType::Do(x) => LOpTypeView::Do(*x),
            LOpType::End(x) => LOpTypeView::End(*x),
            LOpType::Greater => LOpTypeView::Greater,
            LOpType::Less => LOpTypeView::Less,
            LOpType::GreaterEqual => LOpTypeView::GreaterEqual,
            LOpType::LessEqual => LOpTypeView::LessEqual,
            LOpType::Equal => LOpTypeView::Equal,
            LOpType::NotEqual => LOpTypeView::NotEqual,
            LOpType::Drop => LOpTypeView::Drop,
            LOpType::Mem => LOpTypeView::Mem,
            LOpType::Load => LOpTypeView::Load,
            LOpType::Store => LOpTypeView::Store,
            LOpType::Puts(x) => LOpTypeView::Puts(*x),
        }
    }
}

impl View for LOpType {
    type V = LOpTypeView;

    open spec fn view(&self) -> LOpTypeView {
        self.deep_view()
    }
}

/// The operation with the instruction pointer `ip` in the stored
/// program `code`. A program is stored in reverse: the first
/// instruction stands last.
pub open spec fn op_at(code: Seq<LOpTypeView>, ip: int) -> LOpTypeView {
    code[code.len() - 1 - ip]
}

impl LOpTypeView {
    /// The instruction pointer that the operation may jump to, if it is a
    /// control-flow operation with an operand.
    pub open spec fn target(self) -> Option<u64> {
        match self {
            LOpTypeView::If(t) => Some(t),
            LOpTypeView::Else(t) => Some(t),
            LOpTypeView::Do(t) => Some(t),
            LOpTypeView::End(t) => Some(t),
            _ => None,
        }
    }

    /// Whether the operation is one of the five arithmetic operations.
    pub open spec fn is_arithmetic(self) -> bool {
        self is Add || self is Sub || self is Mul || self is Div || self is Mod
    }
}

/// A macro: a name and the classified tokens it stands for.
#[derive(Debug, PartialEq, Eq)]
pub struct LMacro {
    name: String,
    body: Vec<LValueType>,
}

/// What a macro is, with strings as character sequences.
pub struct LMacroView {
    pub name: Seq<char>,
    pub body: Seq<LValueTypeView>,
}

impl DeepView for LMacro {
    type V = LMacroView;

    closed spec fn deep_view(&self) -> LMacroView {
        LMacroView { name: self.name@, body: self.body.deep_view() }
    }
}

impl View for LMacro {
    type V = LMacroView;

    open spec fn view(&self) -> LMacroView {
        self.deep_view()
    }
}

impl Clone for LValue {
    fn clone(&self) -> (res: Self)
        ensures
            res == *self,
    {
        match self {
            Self::Number(x) => Self::Number(*x),
            Self::Text(x) => Self::Text(x.clone()),
        }
    }
}

impl Clone for LOpType {
    fn clone(&self) -> (res: Self)
        ensures
            res == *self,
    {
        match self {
            Self::Nop(x) => Self::Nop(x.clone()),
            Self::Push(x) => Self::Push(x.clone()),
            Self::Add => Self::Add,
            Self::Sub => Self::Sub,
            Self::Mul => Self::Mul,
            Self::Div => Self::Div,
            Self::Mod => Self::Mod,
            Self::Shl => Self::Shl,
            Self::Shr => Self::Shr,
            Self::Bor => Self::Bor,
            Self::Band => Self::Band,
            Self::Log => Self::Log,
            Self::Swap => Self::Swap,
            Self::Dup => Self::Dup,
            Self::Over => Self::Over,
            Self::If(x) => Self::If(*x),
            Self::Else(x) => Self::Else(*x),
            Self::While => Self::While,
            Self::Do(x) => Self::Do(*x),
            Self::End(x) => Self::End(*x),
            Self::Greater => Self::Greater,
            Self::Less => Self::Less,
            Self::GreaterEqual => Self::GreaterEqual,
            Self::LessEqual => Self::LessEqual,
            Self::Equal => Self::Equal,
            Self::NotEqual => Self::NotEqual,
            Self::Drop => Self::Drop,
            Self::Mem => Self::Mem,
            Self::Load => Self::Load,
            Self::Store => Self::Store,
            Self::Puts(x) => Self::Puts(*x),
        }
    }
}

impl Clone for LValueType {
    fn clone(&self) -> (res: Self)
        ensures
            res == *self,
    {
        match self {
            Self::Number(x) => Self::Number(*x),
            Self::Symbol(x) => Self::Symbol(x.clone()),
            Self::Text(x) => Self::Text(x.clone()),
            Self::Char(x) => Self::Char(*x),
            Self::Nothing => Self::Nothing,
        }
    }
}

// ---------------------------------------------------------------------
// Textual forms
// ---------------------------------------------------------------------

/// The text of `s` as the standard library's `Debug` formatting writes a
/// string: between double quotes, with quotes, backslashes and characters
/// that do not print written as escapes.
pub uninterp spec fn debug_escaped(s: Seq<char>) -> Seq<char>;

/// Trusted: formats `s` with `{:?}`, the `Debug` implementation of `str`
/// in the standard library. The contract only names the result.
#[verifier::external_body]
fn debug_escape(s: &str) -> (r: String)
    ensures
        r@ == debug_escaped(s@),
{
    format!("{:?}", s)
}

/// The textual form of a runtime value.
pub open spec fn lvalue_text(v: LValueView) -> Seq<char> {
    match v {
        LValueView::Number(x) => "Val("@ + signed_decimal(x as int) + ")"@,
        LValueView::Text(x) => "Val(\""@ + debug_escaped(x) + "\")"@,
    }
}

/// The textual form of an operation.
pub open spec fn lop_text(op: LOpTypeView) -> Seq<char> {
    match op {
        LOpTypeView::Nop(x) => "Nop("@ + x + ")"@,
        LOpTypeView::Push(v) => "Push("@ + lvalue_text(v) + ")"@,
        LOpTypeView::Add => "Add"@,
        LOpTypeView::Sub => "Sub"@,
        LOpTypeView::Mul => "Mul"@,
        LOpTypeView::Div => "Div"@,
        LOpTypeView::Mod => "Mod"@,
        LOpTypeView::Shl => "Shl"@,
        LOpTypeView::Shr => "Shr"@,
        LOpTypeView::Bor => "Bor"@,
        LOpTypeView::Band => "Band"@,
        LOpTypeView::Log => "Log"@,
        LOpTypeView::Swap => "Swap"@,
        LOpTypeView::Dup => "Dup"@,
        LOpTypeView::Over => "Over"@,
        LOpTypeView::If(x) => "If(block:"@ + decimal(x as nat) + ")"@,
        LOpTypeView::Else(x) => "Else(block:"@ + decimal(x as nat) + ")"@,
        LOpTypeView::While => "While"@,
        LOpTypeView::Do(x) => "Do(end:"@ + decimal(x as nat) + ")"@,
        LOpTypeView::End(x) => "End(block:"@ + decimal(x as nat) + ")"@,
        LOpTypeView::Greater => "Greater"@,
        LOpTypeView::Less => "Less"@,
        LOpTypeView::GreaterEqual => "GreaterEqual"@,
        LOpTypeView::LessEqual => "LessEqual"@,
        LOpTypeView::Equal => "Equal"@,
        LOpTypeView::NotEqual => "NotEqual"@,
        LOpTypeView::Drop => "Drop"@,
        LOpTypeView::Mem => "Mem"@,
        LOpTypeView::Load => "Load"@,
        LOpTypeView::Store => "Store"@,
        LOpTypeView::Puts(x) => "Puts(nl:"@ + (if x {
            "true"@
        } else {
            "false"@
        }) + ")"@,
    }
}

/// The textual form of a classified token.
pub open spec fn lvalue_type_text(v: LValueTypeView) -> Seq<char> {
    match v {
        LValueTypeView::Nothing => "_"@,
        LValueTypeView::Text(x) => "T\""@ + x + "\""@,
        LValueTypeView::Symbol(x) => "S"@ + x,
        LValueTypeView::Number(x) => "i"@ + signed_decimal(x as int),
        LValueTypeView::Char(x) => "c"@ + signed_decimal(x as int),
    }
}

fn tagged_number(prefix: &str, x: u64) -> (s: String)
    ensures
        s@ == prefix@ + decimal(x as nat) + ")"@,
{
    let mut s = String::from_str(prefix);
    push_decimal(&mut s, x);
    s.append(")");
    s
}

/// The textual form of a text value whose text, written as an escaped
/// string between its quotes, is `escaped`.
pub fn text_value_form(escaped: &str) -> (s: String)
    ensures
        s@ == "Val(\""@ + escaped@ + "\")"@,
{
    let mut s = String::from_str("Val(\"");
    s.append(escaped);
    s.append("\")");
    s
}

impl LValue {
    /// The textual form of the value: `Val(5)`, `Val(""hi"")`.
    pub fn to_string(&self) -> (s: String)
        ensures
            s@ == lvalue_text(self@),
    {
        match self {
            LValue::Number(x) => {
                let mut s = String::from_str("Val(");
                push_signed_decimal(&mut s, *x);
                s.append(")");
                s
            },
            LValue::Text(x) => {
                let escaped = debug_escape(x.as_str());
                text_value_form(escaped.as_str())
            },
        }
    }
}

impl LOpType {
    /// The textual form of the operation: `Add`, `If(block:7)`,
    /// `Push(Val(5))`.
    pub fn to_string(&self) -> (s: String)
        ensures
            s@ == lop_text(self@),
    {
        match self {
            LOpType::Nop(x) => {
                let mut s = String::from_str("Nop(");
                s.append(x.as_str());
                s.append(")");
                s
            },
            LOpType::Push(value) => {
                let mut s = String::from_str("Push(");
                let inner = value.to_string();
                s.append(inner.as_str());
                s.append(")");
                s
            },
            LOpType::Add => String::from_str("Add"),
            LOpType::Sub => String::from_str("Sub"),
            LOpType::Mul => String::from_str("Mul"),
            LOpType::Div => String::from_str("Div"),
            LOpType::Mod => String::from_str("Mod"),
            LOpType::Shl => String::from_str("Shl"),
            LOpType::Shr => String::from_str("Shr"),
            LOpType::Bor => String::from_str("Bor"),
            LOpType::Band => String::from_str("Band"),
            LOpType::Log => String::from_str("Log"),
            LOpType::Swap => String::from_str("Swap"),
            LOpType::Dup => String::from_str("Dup"),
            LOpType::Over => String::from_str("Over"),
            LOpType::If(x) => tagged_number("If(block:", *x),
            LOpType::Else(x) => tagged_number("Else(block:", *x),
            LOpType::While => String::from_str("While"),
            LOpType::Do(x) => tagged_number("Do(end:", *x),
            LOpType::End(x) => tagged_number("End(block:", *x),
            LOpType::Greater => String::from_str("Greater"),
            LOpType::Less => String::from_str("Less"),
            LOpType::GreaterEqual => String::from_str("GreaterEqual"),
            LOpType::LessEqual => String::from_str("LessEqual"),
            LOpType::Equal => String::from_str("Equal"),
            LOpType::NotEqual => String::from_str("NotEqual"),
            LOpType::Drop => String::from_str("Drop"),
            LOpType::Mem => String::from_str("Mem"),
            LOpType::Load => String::from_str("Load"),
            LOpType::Store => String::from_str("Store"),
            LOpType::Puts(x) => {
                let mut s = String::from_str("Puts(nl:");
                if *x {
                    s.append("true");
                } else {
                    s.append("false");
                }
                s.append(")");
                s
            },
        }
    }
}

impl LValueType {
    /// The textual form of the token: `i5`, `T"hi"`, `Sdup`, `_`.
    pub fn to_string(&self) -> (s: String)
        ensures
            s@ == lvalue_type_text(self@),
    {
        match self {
            LValueType::Nothing => String::from_str("_"),
            LValueType::Text(x) => {
                let mut s = String::from_str("T\"");
                s.append(x.as_str());
                s.append("\"");
                s
            },
            LValueType::Symbol(x) => {
                let mut s = String::from_str("S");
                s.append(x.as_str());
                s
            },
            LValueType::Number(x) => {
                let mut s = String::from_str("i");
                push_signed_decimal(&mut s, *x);
                s
            },
            LValueType::Char(x) => {
                let mut s = String::from_str("c");
                push_signed_decimal(&mut s, *x);
                s
            },
        }
    }
}

/// The textual forms of the operations `ops`, one after the other with
/// a comma and a space between each two.
pub open spec fn ops_list(ops: Seq<LOpTypeView>) -> Seq<char>
    decreases ops.len(),
{
    if ops.len() == 0 {
        Seq::empty()
    } else if ops.len() == 1 {
        lop_text(ops[0])
    } else {
        ops_list(ops.drop_last()) + ", "@ + lop_text(ops.last())
    }
}

/// The textual form of a list of operations: between square brackets,
/// in the order in which the list holds them.
pub open spec fn ops_text(ops: Seq<LOpTypeView>) -> Seq<char> {
    "["@ + ops_list(ops) + "]"@
}

/// The textual forms of the values `values`, one after the other with a
/// comma and a space between each two.
pub open spec fn values_list(values: Seq<LValueView>) -> Seq<char>
    decreases values.len(),
{
    if values.len() == 0 {
        Seq::empty()
    } else if values.len() == 1 {
        lvalue_text(values[0])
    } else {
        values_list(values.drop_last()) + ", "@ + lvalue_text(values.last())
    }
}

/// The textual form of a list of values: between square brackets, in
/// the order in which the list holds them.
pub open spec fn values_text(values: Seq<LValueView>) -> Seq<char> {
    "["@ + values_list(values) + "]"@
}

/// Appends the textual form of the list of operations `ops` to `out`.
pub fn push_ops_text(out: &mut String, ops: &Vec<LOpType>)
    ensures
        final(out)@ == old(out)@ + ops_text(ops.deep_view()),
{
    let ghost all = ops.deep_view();
    out.append("[");
    let ghost head = out@;
    let mut i: usize = 0;
    while i < ops.len()
        invariant
            i <= ops.len(),
            all == ops.deep_view(),
            out@ == head + ops_list(all.take(i as int)),
        decreases ops.len() - i,
    {
        if i > 0 {
            out.append(", ");
        }
        let text = ops[i].to_string();
        out.append(text.as_str());
        assert(all.take(i + 1).drop_last() =~= all.take(i as int));
        i += 1;
    }
    assert(all.take(ops.len() as int) =~= all);
    out.append("]");
}

/// Appends the textual form of the list of values `values` to `out`.
pub fn push_values_text(out: &mut String, values: &Vec<LValue>)
    ensures
        final(out)@ == old(out)@ + values_text(values.deep_view()),
{
    let ghost all = values.deep_view();
    out.append("[");
    let ghost head = out@;
    let mut i: usize = 0;
    while i < values.len()
        invariant
            i <= values.len(),
            all == values.deep_view(),
            out@ == head + values_list(all.take(i as int)),
        decreases values.len() - i,
    {
        if i > 0 {
            out.append(", ");
        }
        let text = values[i].to_string();
        out.append(text.as_str());
        assert(all.take(i + 1).drop_last() =~= all.take(i as int));
        i += 1;
    }
    assert(all.take(values.len() as int) =~= all);
    out.append("]");
}

// ---------------------------------------------------------------------
// Macros
// ---------------------------------------------------------------------

/// The depth that a macro named in the token stream is expanded with.
pub const MAX_EXPANSION_DEPTH: i32 = 8;

/// The index of the definition that `name` resolves to among `macros`:
/// the last one of that name, as a later definition replaces an earlier.
pub open spec fn macro_index(macros: Seq<LMacroView>, name: Seq<char>) -> Option<int>
    decreases macros.len(),
{
    if macros.len() == 0 {
        None
    } else if macros.last().name == name {
        Some(macros.len() - 1)
    } else {
        macro_index(macros.drop_last(), name)
    }
}

/// What one token of a macro body turns into when the body is expanded
/// with `depth` levels left: the expansion of the macro it names, one
/// level further down, or itself.
pub open spec fn expand_value(v: LValueTypeView, macros: Seq<LMacroView>, depth: int) -> Seq<
    LValueTypeView,
>
    decreases depth, 0nat,
{
    match v {
        LValueTypeView::Symbol(name) => match macro_index(macros, name) {
            Some(i) => if depth > 0 {
                expand_body(macros[i].body, macros, depth - 1)
            } else {
                seq![v]
            },
            None => seq![v],
        },
        _ => seq![v],
    }
}

/// The expansion of a macro body with `depth` levels left. With no level
/// left the body stands as it is; otherwise every token that names a
/// macro is replaced by that macro's expansion with one level less.
/// Below no level, with a negative depth, nothing is left of the body.
pub open spec fn expand_body(body: Seq<LValueTypeView>, macros: Seq<LMacroView>, depth: int) -> Seq<
    LValueTypeView,
>
    decreases depth, 1 + body.len(),
{
    if depth < 0 {
        Seq::empty()
    } else if depth == 0 {
        body
    } else if body.len() == 0 {
        Seq::empty()
    } else {
        expand_body(body.drop_last(), macros, depth) + expand_value(body.last(), macros, depth)
    }
}

/// How many levels of macro bodies the expansion of `body` with `depth`
/// levels left goes down.
pub open spec fn expansion_levels(body: Seq<LValueTypeView>, macros: Seq<LMacroView>, depth: int) -> nat
    decreases depth, body.len(),
{
    if depth <= 0 || body.len() == 0 {
        0
    } else {
        let rest = expansion_levels(body.drop_last(), macros, depth);
        let here: nat = match body.last() {
            LValueTypeView::Symbol(name) => match macro_index(macros, name) {
                Some(i) => 1 + expansion_levels(macros[i].body, macros, depth - 1),
                None => 0,
            },
            _ => 0,
        };
        if rest >= here {
            rest
        } else {
            here
        }
    }
}

/// Expansion never goes further down than the depth it was given,
/// whatever the macros are and however they name each other: with the
/// depth of 8 that the preprocessor uses, at most 8 levels.
pub proof fn lemma_expansion_levels_bounded(
    body: Seq<LValueTypeView>,
    macros: Seq<LMacroView>,
    depth: int,
)
    requires
        depth >= 0,
    ensures
        expansion_levels(body, macros, depth) <= depth,
    decreases depth, body.len(),
{
    if depth > 0 && body.len() > 0 {
        lemma_expansion_levels_bounded(body.drop_last(), macros, depth);
        match body.last() {
            LValueTypeView::Symbol(name) => match macro_index(macros, name) {
                Some(i) => {
                    lemma_expansion_levels_bounded(macros[i].body, macros, depth - 1);
                },
                None => {},
            },
            _ => {},
        }
    }
}

/// Finds the definition that `name` resolves to.
pub fn find_macro(macros: &Vec<LMacro>, name: &str) -> (r: Option<usize>)
    ensures
        match r {
            Some(i) => macro_index(macros.deep_view(), name@) == Some(i as int) && i
                < macros.len(),
            None => macro_index(macros.deep_view(), name@) is None,
        },
{
    let ghost all = macros.deep_view();
    let mut i: usize = macros.len();
    assert(all.take(i as int) =~= all);
    while i > 0
        invariant
            i <= macros.len(),
            all == macros.deep_view(),
            macro_index(all, name@) == macro_index(all.take(i as int), name@),
        decreases i,
    {
        if str_eq(macros[i - 1].name.as_str(), name) {
            return Some(i - 1);
        }
        assert(all.take(i as int).drop_last() =~= all.take(i - 1));
        i -= 1;
    }
    None
}

/// Appends to `out` the expansion of `body` with `depth` levels left.
pub fn expand_into(
    out: &mut Vec<LValueType>,
    body: &Vec<LValueType>,
    macros: &Vec<LMacro>,
    depth: i32,
)
    ensures
        final(out).deep_view() == old(out).deep_view() + expand_body(
            body.deep_view(),
            macros.deep_view(),
            depth as int,
        ),
    decreases depth, body.len(),
{
    let ghost body_view = body.deep_view();
    let ghost table = macros.deep_view();
    if depth < 0 {
        assert(out.deep_view() =~= old(out).deep_view() + Seq::<LValueTypeView>::empty());
        return ;
    }
    let mut k: usize = 0;
    assert(out.deep_view() =~= old(out).deep_view() + body_view.take(0));
    while k < body.len()
        invariant
            k <= body.len(),
            depth >= 0,
            body_view == body.deep_view(),
            table == macros.deep_view(),
            depth > 0 ==> out.deep_view() == old(out).deep_view() + expand_body(
                body_view.take(k as int),
                table,
                depth as int,
            ),
            depth == 0 ==> out.deep_view() == old(out).deep_view() + body_view.take(k as int),
        decreases body.len() - k,
    {
        let ghost before = out.deep_view();
        let ghost v = body_view[k as int];
        assert(body_view.take(k + 1).drop_last() =~= body_view.take(k as int));
        let mut expanded: bool = false;
        if depth > 0 {
            if let LValueType::Symbol(sym) = &body[k] {
                if let Some(i) = find_macro(macros, sym.as_str()) {
                    expand_into(out, &macros[i].body, macros, depth - 1);
                    expanded = true;
                    assert(out.deep_view() == before + expand_value(v, table, depth as int));
                }
            }
        }
        if !expanded {
            out.push(body[k].clone());
            assert(out.deep_view() =~= before.push(v));
            assert(depth > 0 ==> expand_value(v, table, depth as int) =~= seq![v]);
        }
        k += 1;
    }
    assert(body_view.take(body.len() as int) =~= body_view);
}

impl Loop {
    /// A loop span with the given three positions.
    pub fn new(start: u64, cond: u64, end: u64) -> (r: Self)
        ensures
            r.start() == start,
            r.cond() == cond,
            r.end() == end,
    {
        Self { start: start, cond: cond, end: end }
    }

    /// Where the loop starts.
    pub closed spec fn start(&self) -> u64 {
        self.start
    }

    /// Where the loop's condition ends.
    pub closed spec fn cond(&self) -> u64 {
        self.cond
    }

    /// Where the loop ends.
    pub closed spec fn end(&self) -> u64 {
        self.end
    }

    /// The textual form of the span.
    pub fn to_string(&self) -> (s: String)
        ensures
            s@ == "Loop(start:"@ + decimal(self.start() as nat) + ",cond:"@ + decimal(
                self.cond() as nat,
            ) + ",end:"@ + decimal(self.end() as nat) + ")"@,
    {
        let mut s = String::from_str("Loop(start:");
        push_decimal(&mut s, self.start);
        s.append(",cond:");
        push_decimal(&mut s, self.cond);
        s.append(",end:");
        push_decimal(&mut s, self.end);
        s.append(")");
        s
    }
}

impl Clone for Loop {
    fn clone(&self) -> (res: Self)
        ensures
            res == *self,
    {
        Self { start: self.start, cond: self.cond, end: self.end }
    }
}

impl LMacro {
    /// A macro with a copy of the given name and body.
    pub fn new(name: &String, body: &Vec<LValueType>) -> (m: Self)
        ensures
            m@ == (LMacroView { name: name@, body: body.deep_view() }),
    {
        Self { name: name.clone(), body: body.clone() }
    }

    /// The expansion of the macro's body with `max_depth` levels left.
    /// With no level left the body is handed out as it stands; with a
    /// negative depth nothing is handed out. Otherwise each token of the
    /// body that names a macro of `macros` is replaced by that macro's
    /// expansion with one level less, and every other token is kept.
    pub fn expand(&self, macros: &Vec<LMacro>, max_depth: i32) -> (result: Vec<LValueType>)
        ensures
            result.deep_view() == expand_body(
                self@.body,
                macros.deep_view(),
                max_depth as int,
            ),
            expansion_levels(self@.body, macros.deep_view(), max_depth as int) <= if max_depth
                > 0 {
                max_depth as int
            } else {
                0
            },
    {
        let mut result: Vec<LValueType> = Vec::new();
        expand_into(&mut result, &self.body, macros, max_depth);
        proof {
            if max_depth > 0 {
                lemma_expansion_levels_bounded(self@.body, macros.deep_view(), max_depth as int);
            }
        }
        result
    }
}

} // verus!
