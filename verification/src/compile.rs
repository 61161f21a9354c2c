//! The code generator: lowers a program of the intermediate
//! representation to NASM text for the Windows x64 ABI.

use crate::asmfile::{
    addr_line, assemble_command, code_line, epilogue, lbl_line, lemma_title_line_one_line,
    link_command, one_line, post_compile, pre_compile, prologue, title_line, with_extension,
    AsmFile, AsmFileView, BuildPlan,
};
use crate::ltypes::{
    op_at, ops_text, push_ops_text, LOpType, LOpTypeView, LValue, LValueView,
};
use crate::text::{
    decimal, escape_line, free_of, lemma_decimal_one_line, lemma_escape_line_one_line,
    push_chars, push_decimal, push_escaped_line, to_chars,
};
use vstd::prelude::*;
use vstd::utf8::encode_utf8;

verus! {

/// A program to compile, with the stem that names what is built from it.
pub struct Compiler {
    /// The program, stored in reverse: the instruction with the
    /// instruction pointer `p` stands at the index `len - 1 - p`.
    pub code: Vec<LOpType>,
    /// Whether a pushed number is folded into the arithmetic operation
    /// that follows it.
    pub optimize: bool,
    name: String,
}

/// What a [`Compiler`] holds.
pub struct CompilerView {
    /// The program as it is stored, in reverse.
    pub code: Seq<LOpTypeView>,
    /// Whether pushed numbers are folded into arithmetic operations.
    pub optimize: bool,
    /// The stem that names what is built from the program.
    pub name: Seq<char>,
}

impl View for Compiler {
    type V = CompilerView;

    closed spec fn view(&self) -> CompilerView {
        CompilerView { code: self.code.deep_view(), optimize: self.optimize, name: self.name@ }
    }
}

// ---------------------------------------------------------------------
// The stem
// ---------------------------------------------------------------------

/// The index of the last `.` in `name`, if there is one.
pub open spec fn last_dot(name: Seq<char>) -> Option<int>
    decreases name.len(),
{
    if name.len() == 0 {
        None
    } else if name.last() == '.' {
        Some(name.len() - 1)
    } else {
        last_dot(name.drop_last())
    }
}

/// A file name without its extension: what stands before the last `.`,
/// or the whole name where it holds none.
pub open spec fn file_stem(name: Seq<char>) -> Seq<char> {
    match last_dot(name) {
        Some(i) => name.take(i),
        None => name,
    }
}

/// Whether `path` is a plain name: not empty, not `.` or `..`, and
/// without a separator of directories or drives.
pub open spec fn plain_name(path: Seq<char>) -> bool {
    &&& path.len() > 0
    &&& path != seq!['.']
    &&& path != seq!['.', '.']
    &&& forall|i: int|
        0 <= i < path.len() ==> path[i] != '/' && path[i] != '\\' && path[i] != ':'
}

/// Whether `part` is a piece of `whole`: not empty, and standing in it
/// in one stretch.
pub open spec fn is_part_of(part: Seq<char>, whole: Seq<char>) -> bool {
    &&& part.len() > 0
    &&& exists|from: int|
        0 <= from <= whole.len() - part.len() && #[trigger] whole.subrange(
            from,
            from + part.len(),
        ) == part
}

/// Whether `name` can be the file name of `path` on some platform: a
/// piece of the path, or nothing where the path ends in no name.
pub open spec fn may_name(name: Seq<char>, path: Seq<char>) -> bool {
    name.len() == 0 || is_part_of(name, path)
}

/// Trusted: `std::path::Path::file_name` gives the last component of a
/// path, if it has one. What counts as a separator depends on the
/// platform; claimed is only what holds on every platform: that the
/// component is a piece of the path, that a plain name, which holds no
/// separator, is its own last component, and that a path without a last
/// component is no plain name.
#[verifier::external_body]
fn path_file_name(path: &str) -> (name: Option<String>)
    ensures
        match name {
            Some(n) => is_part_of(n@, path@) && (plain_name(path@) ==> n@ == path@),
            None => !plain_name(path@),
        },
{
    match std::path::Path::new(path).file_name() {
        Some(name) => match name.to_str() {
            Some(text) => Some(text.to_string()),
            None => None,
        },
        None => None,
    }
}

/// Executable form of [`file_stem`].
pub fn file_stem_of(file_name: &str) -> (stem: String)
    ensures
        stem@ == file_stem(file_name@),
{
    let chars = to_chars(file_name);
    let mut i: usize = chars.len();
    assert(chars@.take(i as int) =~= chars@);
    while i > 0
        invariant
            i <= chars.len(),
            chars@ == file_name@,
            last_dot(chars@) == last_dot(chars@.take(i as int)),
        decreases i,
    {
        if chars[i - 1] == '.' {
            let mut stem = String::new();
            push_chars(&mut stem, &chars, 0, i - 1);
            return stem;
        }
        assert(chars@.take(i as int).drop_last() =~= chars@.take(i - 1));
        i -= 1;
    }
    String::from_str(file_name)
}

// ---------------------------------------------------------------------
// The text of one operation
// ---------------------------------------------------------------------

/// How a pushed number is written: as the unsigned 64-bit number with
/// the same bits.
pub open spec fn number_text(n: i64) -> Seq<char> {
    decimal((n as u64) as nat)
}

/// The title of string literal number `index`: its number, its text
/// between quotes, written on one line, and its length in bytes.
pub open spec fn literal_title(prefix: Seq<char>, index: nat, text: Seq<char>) -> Seq<char> {
    prefix + decimal(index) + " \""@ + escape_line(text) + "\":"@ + decimal(
        encode_utf8(text).len(),
    )
}

/// The title of a string literal holds no line feed, whatever the text
/// of the literal, where the words before it hold none.
pub proof fn lemma_literal_title_no_line_feed(prefix: Seq<char>, index: nat, text: Seq<char>)
    requires
        free_of(prefix, '\n'),
    ensures
        free_of(literal_title(prefix, index, text), '\n'),
{
    reveal_strlit(" \"");
    reveal_strlit("\":");
    lemma_decimal_one_line(index);
    lemma_decimal_one_line(encode_utf8(text).len());
    lemma_escape_line_one_line(text);
    let a = prefix;
    let b = decimal(index);
    let c = " \""@;
    let d = escape_line(text);
    let e = "\":"@;
    let f = decimal(encode_utf8(text).len());
    let title = literal_title(prefix, index, text);
    assert(title == a + b + c + d + e + f);
    assert forall|i: int| 0 <= i < title.len() implies title[i] != '\n' by {
        if i < a.len() {
            assert(title[i] == a[i]);
        } else if i < a.len() + b.len() {
            assert(title[i] == b[i - a.len()]);
        } else if i < a.len() + b.len() + c.len() {
            assert(title[i] == c[i - a.len() - b.len()]);
        } else if i < a.len() + b.len() + c.len() + d.len() {
            assert(title[i] == d[i - a.len() - b.len() - c.len()]);
        } else if i < a.len() + b.len() + c.len() + d.len() + e.len() {
            assert(title[i] == e[i - a.len() - b.len() - c.len() - d.len()]);
        } else {
            assert(title[i] == f[i - a.len() - b.len() - c.len() - d.len() - e.len()]);
        }
    }
}

/// The two title lines that the code generator writes for a string
/// literal, the one at its push and the one at its data entry, are one
/// line each: they hold one line feed, at their end, whatever the text
/// of the literal.
pub proof fn lemma_literal_titles_one_line(index: nat, text: Seq<char>)
    ensures
        one_line(title_line(literal_title("push str lit "@, index, text))),
        one_line(title_line(literal_title("str lit "@, index, text))),
{
    reveal_strlit("push str lit ");
    reveal_strlit("str lit ");
    lemma_literal_title_no_line_feed("push str lit "@, index, text);
    lemma_literal_title_no_line_feed("str lit "@, index, text);
    lemma_title_line_one_line(literal_title("push str lit "@, index, text));
    lemma_title_line_one_line(literal_title("str lit "@, index, text));
}

/// The lines of a comparison, which differ in one instruction only.
pub open spec fn compare_asm(title: Seq<char>, set: Seq<char>) -> Seq<char> {
    title_line(title) + code_line("pop rbx"@) + code_line("pop rax"@) + code_line(
        "xor rcx, rcx"@,
    ) + code_line("cmp rax, rbx"@) + code_line(set) + code_line("movzx rcx, cl"@) + code_line(
        "push rcx"@,
    )
}

/// The lines of a jump taken when the popped value is zero.
pub open spec fn branch_asm(title: Seq<char>, target: u64) -> Seq<char> {
    title_line(title) + code_line("pop rax"@) + code_line("cmp rax, 0"@) + code_line(
        "je addr_"@ + decimal(target as nat),
    )
}

/// The lines of a jump that is always taken.
pub open spec fn jump_asm(title: Seq<char>, target: u64) -> Seq<char> {
    title_line(title) + code_line("jmp addr_"@ + decimal(target as nat))
}

/// The lines that print the character at the address second on the
/// stack.
pub open spec fn puts_print_asm() -> Seq<char> {
    code_line("xor rcx, rcx"@) + code_line("mov rsi, [rsp+8]"@) + code_line("lea rbx, [rsi]"@)
        + code_line("mov cl, [rbx]"@) + code_line("call puts"@)
}

/// The lines that count the length on top of the stack down by one,
/// move the address on by one element of eight bytes, and go round
/// again while the length is above zero.
pub open spec fn puts_next_asm() -> Seq<char> {
    code_line("sub qword [rsp], 1"@) + code_line("add qword [rsp+8], 8"@) + code_line(
        "mov rbx, [rsp]"@,
    ) + code_line("test rbx, rbx"@) + code_line("jg .L1"@)
}

/// The lines that end the printing: a line feed where `nl` is set, and
/// the address and the length taken off the stack.
pub open spec fn puts_end_asm(nl: bool) -> Seq<char> {
    (if nl {
        code_line("mov cl, 10"@) + code_line("call puts"@)
    } else {
        Seq::empty()
    }) + code_line("add rsp, 16"@)
}

/// The lines that print the characters of a string, one per iteration,
/// with a line feed after them where `nl` is set.
pub open spec fn puts_asm(nl: bool) -> Seq<char> {
    title_line("puts"@) + lbl_line(1) + puts_print_asm() + puts_next_asm() + puts_end_asm(nl)
}

/// A title and one instruction.
pub open spec fn snippet1(title: Seq<char>, a: Seq<char>) -> Seq<char> {
    title_line(title) + code_line(a)
}

/// A title and two instructions.
pub open spec fn snippet2(title: Seq<char>, a: Seq<char>, b: Seq<char>) -> Seq<char> {
    title_line(title) + code_line(a) + code_line(b)
}

/// A title and three instructions.
pub open spec fn snippet3(title: Seq<char>, a: Seq<char>, b: Seq<char>, c: Seq<char>) -> Seq<
    char,
> {
    title_line(title) + code_line(a) + code_line(b) + code_line(c)
}

/// A title and four instructions.
pub open spec fn snippet4(
    title: Seq<char>,
    a: Seq<char>,
    b: Seq<char>,
    c: Seq<char>,
    d: Seq<char>,
) -> Seq<char> {
    title_line(title) + code_line(a) + code_line(b) + code_line(c) + code_line(d)
}

/// A title and five instructions.
pub open spec fn snippet5(
    title: Seq<char>,
    a: Seq<char>,
    b: Seq<char>,
    c: Seq<char>,
    d: Seq<char>,
    e: Seq<char>,
) -> Seq<char> {
    title_line(title) + code_line(a) + code_line(b) + code_line(c) + code_line(d) + code_line(e)
}

/// The lines of the push of string literal number `strs`: its address,
/// then its length in bytes.
pub open spec fn push_text_asm(t: Seq<char>, strs: nat) -> Seq<char> {
    snippet3(
        literal_title("push str lit "@, strs, t),
        "lea rax, [rel str_"@ + decimal(strs) + "]"@,
        "push rax"@,
        "push "@ + decimal(encode_utf8(t).len()),
    )
}

/// The lines of the operation `op`, where `strs` string literals have
/// been pushed before it.
pub open spec fn op_asm(op: LOpTypeView, strs: nat) -> Seq<char> {
    match op {
        LOpTypeView::Nop(_) => title_line("nop"@),
        LOpTypeView::Push(LValueView::Number(n)) => snippet1(
            "push u64"@,
            "push "@ + number_text(n),
        ),
        LOpTypeView::Push(LValueView::Text(t)) => push_text_asm(t, strs),
        LOpTypeView::Add => snippet2("add"@, "pop rax"@, "add [rsp], rax"@),
        LOpTypeView::Sub => snippet2("sub"@, "pop rax"@, "sub [rsp], rax"@),
        LOpTypeView::Mul => snippet4("mul"@, "pop rax"@, "pop rbx"@, "mul rbx"@, "push rax"@),
        LOpTypeView::Div => snippet5(
            "div"@,
            "xor rdx, rdx"@,
            "pop rbx"@,
            "pop rax"@,
            "div rbx"@,
            "push rax"@,
        ),
        LOpTypeView::Mod => snippet5(
            "div"@,
            "xor rdx, rdx"@,
            "pop rbx"@,
            "pop rax"@,
            "div rbx"@,
            "push rdx"@,
        ),
        LOpTypeView::Shl => snippet2("shift left"@, "pop rcx"@, "shl qword [rsp], cl"@),
        LOpTypeView::Shr => snippet2("shift right"@, "pop rcx"@, "shr qword [rsp], cl"@),
        LOpTypeView::Bor => snippet2("bitwise or"@, "pop rax"@, "or [rsp], rax"@),
        LOpTypeView::Band => snippet2("bitwise and"@, "pop rax"@, "and [rsp], rax"@),
        LOpTypeView::Log => snippet2("log"@, "pop rcx"@, "call log"@),
        LOpTypeView::Swap => snippet3("swap"@, "pop rax"@, "xchg rax, [rsp]"@, "push rax"@),
        LOpTypeView::Dup => snippet2("dup"@, "mov rax, [rsp]"@, "push rax"@),
        LOpTypeView::Over => snippet2("over"@, "mov rax, [rsp+8]"@, "push rax"@),
        LOpTypeView::If(t) => branch_asm("if"@, t),
        LOpTypeView::Else(t) => jump_asm("else"@, t),
        LOpTypeView::While => title_line("while"@),
        LOpTypeView::Do(t) => branch_asm("do"@, t),
        LOpTypeView::End(t) => jump_asm("end"@, t),
        LOpTypeView::Greater => compare_asm(">"@, "setg cl"@),
        LOpTypeView::Less => compare_asm("<"@, "setl cl"@),
        LOpTypeView::GreaterEqual => compare_asm(">="@, "setge cl"@),
        LOpTypeView::LessEqual => compare_asm("<="@, "setle cl"@),
        LOpTypeView::Equal => compare_asm("="@, "sete cl"@),
        LOpTypeView::NotEqual => compare_asm("!="@, "setne cl"@),
        LOpTypeView::Drop => snippet1("drop"@, "pop rax"@),
        LOpTypeView::Mem => snippet2("mem u64"@, "lea rax, [rel membuf]"@, "push rax"@),
        LOpTypeView::Load => snippet4(
            "load"@,
            "pop rbx"@,
            "pop rax"@,
            "mov rcx, [rax + rbx*8]"@,
            "push rcx"@,
        ),
        LOpTypeView::Store => snippet4(
            "store"@,
            "pop rbx"@,
            "pop rax"@,
            "pop rcx"@,
            "mov [rax + rbx*8], rcx"@,
        ),
        LOpTypeView::Puts(nl) => puts_asm(nl),
    }
}

/// The lines that stand for the push of the number `n` and the
/// arithmetic operation `op` after it, folded into one.
pub open spec fn fused_asm(n: i64, op: LOpTypeView) -> Seq<char> {
    match op {
        LOpTypeView::Add => snippet1("add imm"@, "add qword [rsp], "@ + number_text(n)),
        LOpTypeView::Sub => snippet1("sub imm"@, "sub qword [rsp], "@ + number_text(n)),
        LOpTypeView::Mul => snippet4(
            "mul imm"@,
            "mov rbx, "@ + number_text(n),
            "pop rax"@,
            "mul rbx"@,
            "push rax"@,
        ),
        LOpTypeView::Div => snippet5(
            "div imm"@,
            "mov rbx, "@ + number_text(n),
            "xor rdx, rdx"@,
            "pop rax"@,
            "div rbx"@,
            "push rax"@,
        ),
        LOpTypeView::Mod => snippet5(
            "mod imm"@,
            "mov rbx, "@ + number_text(n),
            "xor rdx, rdx"@,
            "pop rax"@,
            "div rbx"@,
            "push rdx"@,
        ),
        _ => Seq::empty(),
    }
}

// ---------------------------------------------------------------------
// The text of a program
// ---------------------------------------------------------------------

/// The string literals that the operations of `code` push, in order.
pub open spec fn pushed_texts(code: Seq<LOpTypeView>) -> Seq<Seq<char>>
    decreases code.len(),
{
    if code.len() == 0 {
        Seq::empty()
    } else {
        match code.last() {
            LOpTypeView::Push(LValueView::Text(t)) => pushed_texts(code.drop_last()).push(t),
            _ => pushed_texts(code.drop_last()),
        }
    }
}

/// Whether the instruction at `ip` is the push of a number that is
/// folded into the arithmetic operation after it.
pub open spec fn fuses(code: Seq<LOpTypeView>, ip: int, optimize: bool) -> bool {
    &&& optimize
    &&& 0 <= ip
    &&& ip + 1 < code.len()
    &&& code[ip] matches LOpTypeView::Push(LValueView::Number(_))
    &&& code[ip + 1].is_arithmetic()
}

/// The labelled lines of the instructions of `code`, given in the order
/// of their instruction pointers, from `ip` on. Each instruction has its
/// label; a folded pair has both labels in front of its lines.
pub open spec fn body_asm(code: Seq<LOpTypeView>, ip: int, optimize: bool) -> Seq<char>
    decreases code.len() - ip,
{
    if ip < 0 || ip >= code.len() {
        Seq::empty()
    } else if fuses(code, ip, optimize) {
        addr_line(ip as nat) + addr_line((ip + 1) as nat) + fused_asm(
            code[ip]->Push_0->Number_0,
            code[ip + 1],
        ) + body_asm(code, ip + 2, optimize)
    } else {
        addr_line(ip as nat) + op_asm(code[ip], pushed_texts(code.take(ip)).len()) + body_asm(
            code,
            ip + 1,
            optimize,
        )
    }
}

/// The numbers of `bytes` in decimal, separated by a comma and a space.
pub open spec fn byte_list(bytes: Seq<u8>) -> Seq<char>
    decreases bytes.len(),
{
    if bytes.len() == 0 {
        Seq::empty()
    } else if bytes.len() == 1 {
        decimal(bytes[0] as nat)
    } else {
        byte_list(bytes.drop_last()) + ", "@ + decimal(bytes.last() as nat)
    }
}

/// The data entry of string literal number `index`: its bytes in UTF-8.
pub open spec fn literal_asm(index: nat, text: Seq<char>) -> Seq<char> {
    title_line(literal_title("str lit "@, index, text)) + "str_"@ + decimal(index) + ":\n    db "@
        + byte_list(encode_utf8(text)) + "\n"@
}

/// The data entries of the string literals `texts`, numbered from zero.
pub open spec fn data_asm(texts: Seq<Seq<char>>) -> Seq<char>
    decreases texts.len(),
{
    if texts.len() == 0 {
        Seq::empty()
    } else {
        data_asm(texts.drop_last()) + literal_asm((texts.len() - 1) as nat, texts.last())
    }
}

/// What the code generator writes for the instructions `code`, given
/// in the order of their instruction pointers: the instructions, the
/// label past the last of them with a return, and the data section with
/// the string literals.
pub open spec fn program_asm(code: Seq<LOpTypeView>, optimize: bool) -> Seq<char> {
    body_asm(code, 0, optimize) + addr_line(code.len()) + code_line("ret"@)
        + "segment .data\n"@ + data_asm(pushed_texts(code))
}

pub(crate) fn number_line(prefix: &str, n: u64) -> (line: String)
    ensures
        line@ == prefix@ + decimal(n as nat),
{
    let mut line = String::from_str(prefix);
    push_decimal(&mut line, n);
    line
}

pub(crate) fn emit1(file: &mut AsmFile, title: &str, a: &str)
    ensures
        final(file)@ == (AsmFileView {
            text: old(file)@.text + snippet1(title@, a@),
            ..old(file)@
        }),
{
    file.title(title);
    file.code(a);
    assert(file@.text =~= old(file)@.text + snippet1(title@, a@));
}

pub(crate) fn emit2(file: &mut AsmFile, title: &str, a: &str, b: &str)
    ensures
        final(file)@ == (AsmFileView {
            text: old(file)@.text + snippet2(title@, a@, b@),
            ..old(file)@
        }),
{
    file.title(title);
    file.code(a);
    file.code(b);
    assert(file@.text =~= old(file)@.text + snippet2(title@, a@, b@));
}

pub(crate) fn emit3(file: &mut AsmFile, title: &str, a: &str, b: &str, c: &str)
    ensures
        final(file)@ == (AsmFileView {
            text: old(file)@.text + snippet3(title@, a@, b@, c@),
            ..old(file)@
        }),
{
    file.title(title);
    file.code(a);
    file.code(b);
    file.code(c);
    assert(file@.text =~= old(file)@.text + snippet3(title@, a@, b@, c@));
}

pub(crate) fn emit4(file: &mut AsmFile, title: &str, a: &str, b: &str, c: &str, d: &str)
    ensures
        final(file)@ == (AsmFileView {
            text: old(file)@.text + snippet4(title@, a@, b@, c@, d@),
            ..old(file)@
        }),
{
    file.title(title);
    file.code(a);
    file.code(b);
    file.code(c);
    file.code(d);
    assert(file@.text =~= old(file)@.text + snippet4(title@, a@, b@, c@, d@));
}

pub(crate) fn emit5(file: &mut AsmFile, title: &str, a: &str, b: &str, c: &str, d: &str, e: &str)
    ensures
        final(file)@ == (AsmFileView {
            text: old(file)@.text + snippet5(title@, a@, b@, c@, d@, e@),
            ..old(file)@
        }),
{
    file.title(title);
    file.code(a);
    file.code(b);
    file.code(c);
    file.code(d);
    file.code(e);
    assert(file@.text =~= old(file)@.text + snippet5(title@, a@, b@, c@, d@, e@));
}

fn emit_compare(file: &mut AsmFile, title: &str, set: &str)
    ensures
        final(file)@ == (AsmFileView {
            text: old(file)@.text + compare_asm(title@, set@),
            ..old(file)@
        }),
{
    file.title(title);
    file.code("pop rbx");
    file.code("pop rax");
    file.code("xor rcx, rcx");
    file.code("cmp rax, rbx");
    file.code(set);
    file.code("movzx rcx, cl");
    file.code("push rcx");
    assert(file@.text =~= old(file)@.text + compare_asm(title@, set@));
}

pub(crate) fn emit_branch(file: &mut AsmFile, title: &str, target: u64)
    ensures
        final(file)@ == (AsmFileView {
            text: old(file)@.text + branch_asm(title@, target),
            ..old(file)@
        }),
{
    let jump = number_line("je addr_", target);
    file.title(title);
    file.code("pop rax");
    file.code("cmp rax, 0");
    file.code(jump.as_str());
    assert(file@.text =~= old(file)@.text + branch_asm(title@, target));
}

pub(crate) fn emit_jump(file: &mut AsmFile, title: &str, target: u64)
    ensures
        final(file)@ == (AsmFileView {
            text: old(file)@.text + jump_asm(title@, target),
            ..old(file)@
        }),
{
    let jump = number_line("jmp addr_", target);
    file.title(title);
    file.code(jump.as_str());
    assert(file@.text =~= old(file)@.text + jump_asm(title@, target));
}

fn emit_puts_print(file: &mut AsmFile)
    ensures
        final(file)@ == (AsmFileView {
            text: old(file)@.text + puts_print_asm(),
            ..old(file)@
        }),
{
    file.code("xor rcx, rcx");
    file.code("mov rsi, [rsp+8]");
    file.code("lea rbx, [rsi]");
    file.code("mov cl, [rbx]");
    file.code("call puts");
    assert(file@.text =~= old(file)@.text + puts_print_asm());
}

fn emit_puts_next(file: &mut AsmFile)
    ensures
        final(file)@ == (AsmFileView { text: old(file)@.text + puts_next_asm(), ..old(file)@ }),
{
    file.code("sub qword [rsp], 1");
    file.code("add qword [rsp+8], 8");
    file.code("mov rbx, [rsp]");
    file.code("test rbx, rbx");
    file.code("jg .L1");
    assert(file@.text =~= old(file)@.text + puts_next_asm());
}

fn emit_puts_end(file: &mut AsmFile, nl: bool)
    ensures
        final(file)@ == (AsmFileView {
            text: old(file)@.text + puts_end_asm(nl),
            ..old(file)@
        }),
{
    if nl {
        file.code("mov cl, 10");
        file.code("call puts");
    }
    file.code("add rsp, 16");
    assert(file@.text =~= old(file)@.text + puts_end_asm(nl));
}

fn emit_puts(file: &mut AsmFile, nl: bool)
    ensures
        final(file)@ == (AsmFileView { text: old(file)@.text + puts_asm(nl), ..old(file)@ }),
{
    file.title("puts");
    file.lbl(1);
    emit_puts_print(file);
    emit_puts_next(file);
    emit_puts_end(file, nl);
    assert(file@.text =~= old(file)@.text + puts_asm(nl));
}

fn literal_title_of(prefix: &str, index: usize, text: &str) -> (title: String)
    ensures
        title@ == literal_title(prefix@, index as nat, text@),
{
    let mut title = String::from_str(prefix);
    push_decimal(&mut title, index as u64);
    title.append(" \"");
    push_escaped_line(&mut title, text);
    title.append("\":");
    push_decimal(&mut title, text.as_bytes().len() as u64);
    title
}

fn emit_push_text(file: &mut AsmFile, text: &str, strs: usize)
    ensures
        final(file)@ == (AsmFileView {
            text: old(file)@.text + push_text_asm(text@, strs as nat),
            ..old(file)@
        }),
{
    let title = literal_title_of("push str lit ", strs, text);
    let mut lea = String::from_str("lea rax, [rel str_");
    push_decimal(&mut lea, strs as u64);
    lea.append("]");
    let length = number_line("push ", text.as_bytes().len() as u64);
    emit3(file, title.as_str(), lea.as_str(), "push rax", length.as_str());
}

/// Writes the lines of one operation.
fn emit_op(file: &mut AsmFile, op: &LOpType, strs: usize)
    ensures
        final(file)@ == (AsmFileView {
            text: old(file)@.text + op_asm(op@, strs as nat),
            ..old(file)@
        }),
{
    match op {
        LOpType::Nop(_) => file.title("nop"),
        LOpType::Push(LValue::Number(y)) => {
            let push = number_line("push ", #[verifier::truncate] (*y as u64));
            emit1(file, "push u64", push.as_str());
        },
        LOpType::Push(LValue::Text(text)) => emit_push_text(file, text.as_str(), strs),
        LOpType::Add => emit2(file, "add", "pop rax", "add [rsp], rax"),
        LOpType::Sub => emit2(file, "sub", "pop rax", "sub [rsp], rax"),
        LOpType::Mul => emit4(file, "mul", "pop rax", "pop rbx", "mul rbx", "push rax"),
        LOpType::Div => emit5(
            file,
            "div",
            "xor rdx, rdx",
            "pop rbx",
            "pop rax",
            "div rbx",
            "push rax",
        ),
        LOpType::Mod => emit5(
            file,
            "div",
            "xor rdx, rdx",
            "pop rbx",
            "pop rax",
            "div rbx",
            "push rdx",
        ),
        LOpType::Shl => emit2(file, "shift left", "pop rcx", "shl qword [rsp], cl"),
        LOpType::Shr => emit2(file, "shift right", "pop rcx", "shr qword [rsp], cl"),
        LOpType::Bor => emit2(file, "bitwise or", "pop rax", "or [rsp], rax"),
        LOpType::Band => emit2(file, "bitwise and", "pop rax", "and [rsp], rax"),
        LOpType::Log => emit2(file, "log", "pop rcx", "call log"),
        LOpType::Swap => emit3(file, "swap", "pop rax", "xchg rax, [rsp]", "push rax"),
        LOpType::Dup => emit2(file, "dup", "mov rax, [rsp]", "push rax"),
        LOpType::Over => emit2(file, "over", "mov rax, [rsp+8]", "push rax"),
        LOpType::If(block_ip) => emit_branch(file, "if", *block_ip),
        LOpType::Else(block_ip) => emit_jump(file, "else", *block_ip),
        LOpType::While => file.title("while"),
        LOpType::Do(block_ip) => emit_branch(file, "do", *block_ip),
        LOpType::End(block_ip) => emit_jump(file, "end", *block_ip),
        LOpType::Greater => emit_compare(file, ">", "setg cl"),
        LOpType::Less => emit_compare(file, "<", "setl cl"),
        LOpType::GreaterEqual => emit_compare(file, ">=", "setge cl"),
        LOpType::LessEqual => emit_compare(file, "<=", "setle cl"),
        LOpType::Equal => emit_compare(file, "=", "sete cl"),
        LOpType::NotEqual => emit_compare(file, "!=", "setne cl"),
        LOpType::Drop => emit1(file, "drop", "pop rax"),
        LOpType::Mem => emit2(file, "mem u64", "lea rax, [rel membuf]", "push rax"),
        LOpType::Load => emit4(
            file,
            "load",
            "pop rbx",
            "pop rax",
            "mov rcx, [rax + rbx*8]",
            "push rcx",
        ),
        LOpType::Store => emit4(
            file,
            "store",
            "pop rbx",
            "pop rax",
            "pop rcx",
            "mov [rax + rbx*8], rcx",
        ),
        LOpType::Puts(nl) => emit_puts(file, *nl),
    }
}

/// Writes the lines of a pushed number folded into the arithmetic
/// operation `op`.
fn emit_fused(file: &mut AsmFile, n: i64, op: &LOpType)
    requires
        op@.is_arithmetic(),
    ensures
        final(file)@ == (AsmFileView {
            text: old(file)@.text + fused_asm(n, op@),
            ..old(file)@
        }),
{
    match op {
        LOpType::Add => {
            let add = number_line("add qword [rsp], ", #[verifier::truncate] (n as u64));
            emit1(file, "add imm", add.as_str());
        },
        LOpType::Sub => {
            let sub = number_line("sub qword [rsp], ", #[verifier::truncate] (n as u64));
            emit1(file, "sub imm", sub.as_str());
        },
        LOpType::Mul => {
            let load = number_line("mov rbx, ", #[verifier::truncate] (n as u64));
            emit4(file, "mul imm", load.as_str(), "pop rax", "mul rbx", "push rax");
        },
        LOpType::Div => {
            let load = number_line("mov rbx, ", #[verifier::truncate] (n as u64));
            emit5(
                file,
                "div imm",
                load.as_str(),
                "xor rdx, rdx",
                "pop rax",
                "div rbx",
                "push rax",
            );
        },
        LOpType::Mod => {
            let load = number_line("mov rbx, ", #[verifier::truncate] (n as u64));
            emit5(
                file,
                "mod imm",
                load.as_str(),
                "xor rdx, rdx",
                "pop rax",
                "div rbx",
                "push rdx",
            );
        },
        _ => {},
    }
}

fn is_arithmetic(op: &LOpType) -> (r: bool)
    ensures
        r == op@.is_arithmetic(),
{
    match op {
        LOpType::Add | LOpType::Sub | LOpType::Mul | LOpType::Div | LOpType::Mod => true,
        _ => false,
    }
}

/// Writes the data entry of one string literal.
fn emit_literal(file: &mut AsmFile, index: usize, text: &str)
    ensures
        final(file)@ == (AsmFileView {
            text: old(file)@.text + literal_asm(index as nat, text@),
            ..old(file)@
        }),
{
    let title = literal_title_of("str lit ", index, text);
    file.title(title.as_str());
    let mut entry = String::from_str("str_");
    push_decimal(&mut entry, index as u64);
    entry.append(":\n    db ");
    let bytes = text.as_bytes();
    let ghost all = encode_utf8(text@);
    let ghost head = entry@;
    let mut i: usize = 0;
    while i < bytes.len()
        invariant
            i <= bytes.len(),
            bytes@ == all,
            entry@ == head + byte_list(all.take(i as int)),
        decreases bytes.len() - i,
    {
        if i > 0 {
            entry.append(", ");
        }
        push_decimal(&mut entry, bytes[i] as u64);
        assert(all.take(i + 1).drop_last() =~= all.take(i as int));
        i += 1;
    }
    assert(all.take(bytes.len() as int) =~= all);
    entry.append("\n");
    file.write(entry.as_str());
    assert(file@.text =~= old(file)@.text + literal_asm(index as nat, text@));
}

/// A program holds the string literals of each of its beginnings, in
/// the same order.
proof fn lemma_pushed_texts_step(code: Seq<LOpTypeView>, ip: int)
    requires
        0 <= ip < code.len(),
    ensures
        pushed_texts(code.take(ip + 1)) == match code[ip] {
            LOpTypeView::Push(LValueView::Text(t)) => pushed_texts(code.take(ip)).push(t),
            _ => pushed_texts(code.take(ip)),
        },
{
    assert(code.take(ip + 1).drop_last() =~= code.take(ip));
}

/// Writes the instruction at `ptr`, or the folded pair that starts
/// there, and gives the pointer to what comes next.
fn emit_instruction(
    code: &Vec<LOpType>,
    optimize: bool,
    file: &mut AsmFile,
    ptr: usize,
    strs: &mut Vec<String>,
) -> (next: usize)
    requires
        ptr < code.len(),
        old(strs).deep_view() == pushed_texts(code.deep_view().reverse().take(ptr as int)),
    ensures
        ptr < next <= code.len(),
        final(file)@ == (AsmFileView { text: final(file)@.text, ..old(file)@ }),
        final(file)@.text + body_asm(code.deep_view().reverse(), next as int, optimize) == old(
            file,
        )@.text + body_asm(code.deep_view().reverse(), ptr as int, optimize),
        final(strs).deep_view() == pushed_texts(code.deep_view().reverse().take(next as int)),
{
    let ghost ops = code.deep_view().reverse();
    let ghost rest = body_asm(ops, ptr as int, optimize);
    let ghost before = file@.text;
    let last: usize = code.len() - 1;
    let op = &code[last - ptr];
    assert(ops[ptr as int] == op@);
    proof {
        lemma_pushed_texts_step(ops, ptr as int);
    }
    if optimize && ptr + 1 < code.len() {
        if let LOpType::Push(LValue::Number(n)) = op {
            let after = &code[last - ptr - 1];
            assert(ops[ptr + 1] == after@);
            if is_arithmetic(after) {
                assert(fuses(ops, ptr as int, optimize));
                proof {
                    lemma_pushed_texts_step(ops, ptr + 1);
                }
                file.addr(ptr as u64);
                file.addr((ptr + 1) as u64);
                emit_fused(file, *n, after);
                assert(file@.text + body_asm(ops, ptr + 2, optimize) =~= before + rest);
                return ptr + 2;
            }
        }
    }
    assert(!fuses(ops, ptr as int, optimize));
    file.addr(ptr as u64);
    emit_op(file, op, strs.len());
    if let LOpType::Push(LValue::Text(text)) = op {
        let ghost texts = strs.deep_view();
        strs.push(text.clone());
        assert(strs.deep_view() =~= texts.push(text@));
    }
    assert(file@.text + body_asm(ops, ptr + 1, optimize) =~= before + rest);
    ptr + 1
}

/// Writes the program `code`, which is stored in reverse, to `file`:
/// every instruction under its label, in the order of the instruction
/// pointers, then the label past the last instruction with a return,
/// then the data section with the string literals. With `optimize` set,
/// a pushed number is folded into the arithmetic operation after it.
/// Always succeeds.
pub fn compile_program(code: &Vec<LOpType>, optimize: bool, file: &mut AsmFile) -> (ok: bool)
    ensures
        ok,
        final(file)@ == (AsmFileView {
            text: old(file)@.text + program_asm(code.deep_view().reverse(), optimize),
            ..old(file)@
        }),
{
    let ghost ops = code.deep_view().reverse();
    let ghost start = old(file)@.text;
    let csize: usize = code.len();
    let mut ptr: usize = 0;
    let mut strs: Vec<String> = Vec::new();
    while ptr < csize
        invariant
            ptr <= csize == code.len(),
            ops == code.deep_view().reverse(),
            file@ == (AsmFileView { text: file@.text, ..old(file)@ }),
            file@.text + body_asm(ops, ptr as int, optimize) == start + body_asm(
                ops,
                0,
                optimize,
            ),
            strs.deep_view() == pushed_texts(ops.take(ptr as int)),
        decreases csize - ptr,
    {
        ptr = emit_instruction(code, optimize, file, ptr, &mut strs);
    }
    assert(ops.take(csize as int) =~= ops);

    file.addr(csize as u64);
    file.code("ret");
    file.write("segment .data\n");
    let ghost head = file@.text;
    let ghost texts = strs.deep_view();
    let mut idx: usize = 0;
    while idx < strs.len()
        invariant
            idx <= strs.len(),
            texts == strs.deep_view(),
            file@ == (AsmFileView { text: file@.text, ..old(file)@ }),
            file@.text == head + data_asm(texts.take(idx as int)),
        decreases strs.len() - idx,
    {
        emit_literal(file, idx, strs[idx].as_str());
        assert(texts.take(idx + 1).drop_last() =~= texts.take(idx as int));
        idx += 1;
    }
    assert(texts.take(strs.len() as int) =~= texts);
    assert(file@.text =~= start + program_asm(ops, optimize));
    true
}

impl Compiler {
    /// A compiler for `code`, named after the file `file_name` without
    /// its extension, with folding switched on.
    pub fn with_file_name(file_name: &str, code: Vec<LOpType>) -> (result: Self)
        ensures
            result@ == (CompilerView {
                code: code.deep_view(),
                optimize: true,
                name: file_stem(file_name@),
            }),
    {
        Self { code: code, optimize: true, name: file_stem_of(file_name) }
    }

    /// A compiler for `code`, the program that was read from the file at
    /// `path`. It is named after the last component of the path without
    /// its extension, or has an empty name where the path has no such
    /// component. The last component is a piece of the path; a path that
    /// is a plain name is its own last component.
    pub fn new(path: &str, code: Vec<LOpType>) -> (result: Self)
        ensures
            result@.code == code.deep_view(),
            result@.optimize,
            plain_name(path@) ==> result@.name == file_stem(path@),
            exists|name: Seq<char>| #[trigger]
                may_name(name, path@) && result@.name == file_stem(name),
    {
        match path_file_name(path) {
            Some(file_name) => {
                assert(may_name(file_name@, path@));
                Self::with_file_name(file_name.as_str(), code)
            },
            None => {
                assert(may_name(""@, path@)) by {
                    reveal_strlit("");
                }
                Self::with_file_name("", code)
            },
        }
    }

    /// Switches the folding of pushed numbers into arithmetic on or off.
    pub fn set_optimize(&mut self, optimize: bool)
        ensures
            final(self)@ == (CompilerView { optimize: optimize, ..old(self)@ }),
    {
        self.optimize = optimize;
    }

    /// The textual form of the compiler: its program as it is stored.
    pub fn to_string(&self) -> (s: String)
        ensures
            s@ == "Compiler(code:"@ + ops_text(self@.code) + ")"@,
    {
        let mut s = String::from_str("Compiler(code:");
        push_ops_text(&mut s, &self.code);
        s.append(")");
        s
    }

    /// The index in the stored program of the instruction that the
    /// instruction pointer `ip` points to, if it points into the program.
    /// The program is stored in reverse.
    pub fn idx(&self, ip: u64) -> (index: Option<u64>)
        ensures
            match index {
                Some(i) => ip < self@.code.len() && i == self@.code.len() - 1 - ip,
                None => ip >= self@.code.len(),
            },
            self@.code.len() <= usize::MAX,
    {
        let size: u64 = self.code.len() as u64;
        if ip >= size {
            return Option::None;
        }
        Option::Some(size - 1 - ip)
    }

    /// A copy of the operation that the instruction pointer `ptr` points
    /// to, if it points into the program.
    pub fn get_op_type(&self, ptr: u64) -> (op: Option<LOpType>)
        ensures
            match op {
                Some(op) => ptr < self@.code.len() && op@ == op_at(self@.code, ptr as int),
                None => ptr >= self@.code.len(),
            },
    {
        match self.idx(ptr) {
            Option::None => Option::None,
            Option::Some(index) => {
                Option::Some(self.code[index as usize].clone())
            },
        }
    }

    /// Writes the program to `file`: every instruction under its label,
    /// in the order of the instruction pointers, then the label past the
    /// last instruction with a return, then the data section with the
    /// string literals. Always succeeds.
    pub fn compile_asm(&self, file: &mut AsmFile) -> (ok: bool)
        ensures
            ok,
            final(file)@ == (AsmFileView {
                text: old(file)@.text + program_asm(self@.code.reverse(), self@.optimize),
                ..old(file)@
            }),
    {
        compile_program(&self.code, self.optimize, file)
    }

    /// Compiles the program to the text of an assembly file and plans
    /// the build of the executable from it.
    pub fn compile(&self) -> (plan: BuildPlan)
        ensures
            plan.name@ == self@.name,
            plan.asm_path@ == with_extension(self@.name, ".asm"@),
            plan.asm_text@ == prologue() + program_asm(self@.code.reverse(), self@.optimize)
                + epilogue(),
            plan.assemble.deep_view() == assemble_command(self@.name),
            plan.link.deep_view() == link_command(self@.name),
            plan.binary@ == with_extension(self@.name, ".exe"@),
    {
        let mut asmfile = pre_compile(self.name.as_str());
        self.compile_asm(&mut asmfile);
        post_compile(asmfile)
    }
}

} // verus!
