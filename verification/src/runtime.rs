//! The interpreter: runs a program of the intermediate representation
//! against a value stack, one instruction per step, and collects what
//! the program prints. It also holds a plain code generator of its own,
//! which knows fewer operations than the compiler's and folds nothing.

use crate::asmfile::{
    addr_line, assemble_command, code_line, epilogue, link_command, post_compile, pre_compile,
    prologue, title_line, with_extension, AsmFile, AsmFileView, BuildPlan,
};
use crate::compile::{
    branch_asm, emit1, emit2, emit3, emit4, emit5, emit_branch, emit_jump, jump_asm,
    number_line, number_text, snippet1, snippet2, snippet3, snippet4, snippet5,
};
use crate::ltypes::{
    lop_text, lvalue_text, op_at, ops_text, push_ops_text, push_values_text, values_text,
    LOpType, LOpTypeView, LValue, LValueView,
};
use crate::stack::stack_runtime::{pop_one, pop_two, push_one, push_two, top_of, without_top};
use crate::text::{decimal, push_decimal, push_signed_decimal, signed_decimal};
use vstd::prelude::*;

verus! {

/// How many instructions one run executes at most.
pub const MAX_ITERATIONS: u32 = 32768;

/// A program with the state of its execution.
pub struct Runtime {
    /// The program, stored in reverse: the instruction with the
    /// instruction pointer `p` stands at the index `len - 1 - p`.
    pub code: Vec<LOpType>,
    /// The value stack, top last.
    pub stack: Vec<LValue>,
    /// The instruction pointer: the instruction to execute next.
    pub ptr: u64,
    /// Everything printed so far.
    pub output: String,
}

/// What a [`Runtime`] holds, with strings as character sequences.
pub struct RuntimeView {
    pub code: Seq<LOpTypeView>,
    pub stack: Seq<LValueView>,
    pub ptr: u64,
    pub output: Seq<char>,
}

impl View for Runtime {
    type V = RuntimeView;

    open spec fn view(&self) -> RuntimeView {
        RuntimeView {
            code: self.code.deep_view(),
            stack: self.stack.deep_view(),
            ptr: self.ptr,
            output: self.output@,
        }
    }
}

/// Why a binary operation gives no value.
#[derive(Debug, PartialEq, Eq, Clone, Copy)]
pub enum Fault {
    /// The operation is not defined on values of these types.
    Types,
    /// The divisor is zero.
    DivisionByZero,
}

/// How a run ended.
#[derive(Debug, PartialEq, Eq, Clone, Copy)]
pub enum RunStatus {
    /// The instruction pointer left the program.
    Finished,
    /// An instruction could not be executed; the output ends with the
    /// reason.
    Fault,
    /// The program was stopped after [`MAX_ITERATIONS`] instructions; the
    /// output ends with a notice.
    IterationCap,
}

// ---------------------------------------------------------------------
// Values
// ---------------------------------------------------------------------

/// The quotient of `x` by `d`, rounded toward zero (`d` not zero).
pub open spec fn div_truncated(x: int, d: int) -> int {
    if x >= 0 && d > 0 {
        x / d
    } else if x < 0 && d < 0 {
        (-x) / (-d)
    } else if x < 0 {
        -((-x) / d)
    } else {
        -(x / (-d))
    }
}

/// The remainder that goes with [`div_truncated`]: it has the sign of
/// `x` (`d` not zero).
pub open spec fn rem_truncated(x: int, d: int) -> int {
    if x >= 0 && d > 0 {
        x % d
    } else if x < 0 && d < 0 {
        -((-x) % (-d))
    } else if x < 0 {
        -((-x) % d)
    } else {
        x % (-d)
    }
}

/// The quotient of two numbers (`y` not zero). The one quotient that
/// does not fit, of the least number by -1, wraps round to the least
/// number.
pub open spec fn number_div(x: i64, y: i64) -> i64 {
    if x == i64::MIN && y == -1 {
        i64::MIN
    } else {
        div_truncated(x as int, y as int) as i64
    }
}

/// The remainder of two numbers (`y` not zero).
pub open spec fn number_rem(x: i64, y: i64) -> i64 {
    if x == i64::MIN && y == -1 {
        0
    } else {
        rem_truncated(x as int, y as int) as i64
    }
}

/// The number that stands for a truth value: one or zero.
pub open spec fn flag(b: bool) -> LValueView {
    LValueView::Number(
        if b {
            1
        } else {
            0
        },
    )
}

/// Whether `op` takes two values and gives one.
pub open spec fn is_binary(op: LOpTypeView) -> bool {
    match op {
        LOpTypeView::Add
        | LOpTypeView::Sub
        | LOpTypeView::Mul
        | LOpTypeView::Div
        | LOpTypeView::Mod
        | LOpTypeView::Shl
        | LOpTypeView::Shr
        | LOpTypeView::Bor
        | LOpTypeView::Band
        | LOpTypeView::Greater
        | LOpTypeView::Less
        | LOpTypeView::GreaterEqual
        | LOpTypeView::LessEqual
        | LOpTypeView::Equal
        | LOpTypeView::NotEqual => true,
        _ => false,
    }
}

/// What a binary operation gives on two numbers, `y` being the one that
/// was on top. Sums, differences and products wrap round; shifts go by
/// the low six bits of `y` and fill with zeros.
pub open spec fn compute_numbers(op: LOpTypeView, x: i64, y: i64) -> Result<LValueView, Fault> {
    match op {
        LOpTypeView::Add => Ok(LValueView::Number(x.wrapping_add(y))),
        LOpTypeView::Sub => Ok(LValueView::Number(x.wrapping_sub(y))),
        LOpTypeView::Mul => Ok(LValueView::Number(x.wrapping_mul(y))),
        LOpTypeView::Div => if y == 0 {
            Err(Fault::DivisionByZero)
        } else {
            Ok(LValueView::Number(number_div(x, y)))
        },
        LOpTypeView::Mod => if y == 0 {
            Err(Fault::DivisionByZero)
        } else {
            Ok(LValueView::Number(number_rem(x, y)))
        },
        LOpTypeView::Shl => Ok(LValueView::Number(x.wrapping_shl(y as u32))),
        LOpTypeView::Shr => Ok(LValueView::Number((x as u64).wrapping_shr(y as u32) as i64)),
        LOpTypeView::Bor => Ok(LValueView::Number(x | y)),
        LOpTypeView::Band => Ok(LValueView::Number(x & y)),
        LOpTypeView::Greater => Ok(flag(x > y)),
        LOpTypeView::Less => Ok(flag(x < y)),
        LOpTypeView::GreaterEqual => Ok(flag(x >= y)),
        LOpTypeView::LessEqual => Ok(flag(x <= y)),
        LOpTypeView::Equal => Ok(flag(x == y)),
        LOpTypeView::NotEqual => Ok(flag(x != y)),
        _ => Err(Fault::Types),
    }
}

/// What a binary operation gives on two texts, or on a text and a
/// number written in decimal: `Add` joins them, `Equal` and `NotEqual`
/// compare two texts and hold a text and a number to be different.
/// Nothing else is defined on texts.
pub open spec fn compute_texts(
    op: LOpTypeView,
    x: Seq<char>,
    y: Seq<char>,
    same_type: bool,
) -> Result<LValueView, Fault> {
    match op {
        LOpTypeView::Add => Ok(LValueView::Text(x + y)),
        LOpTypeView::Equal => Ok(flag(same_type && x == y)),
        LOpTypeView::NotEqual => Ok(flag(!(same_type && x == y))),
        _ => Err(Fault::Types),
    }
}

/// What the binary operation `op` gives on `a` and `b`, where `b` was on
/// top of the stack and `a` below it.
pub open spec fn compute(op: LOpTypeView, a: LValueView, b: LValueView) -> Result<
    LValueView,
    Fault,
> {
    match (a, b) {
        (LValueView::Number(x), LValueView::Number(y)) => compute_numbers(op, x, y),
        (LValueView::Text(x), LValueView::Text(y)) => compute_texts(op, x, y, true),
        (LValueView::Number(x), LValueView::Text(y)) => compute_texts(
            op,
            signed_decimal(x as int),
            y,
            false,
        ),
        (LValueView::Text(x), LValueView::Number(y)) => compute_texts(
            op,
            x,
            signed_decimal(y as int),
            false,
        ),
    }
}

/// Whether a popped condition sends a conditional jump to its target:
/// only the number zero does.
pub open spec fn is_zero(v: LValueView) -> bool {
    v == LValueView::Number(0)
}

// ---------------------------------------------------------------------
// What is printed
// ---------------------------------------------------------------------

/// What `Log` prints for a value: a number in decimal, a text as it is,
/// and a line feed.
pub open spec fn log_line(v: LValueView) -> Seq<char> {
    match v {
        LValueView::Number(x) => signed_decimal(x as int) + "\n"@,
        LValueView::Text(t) => t + "\n"@,
    }
}

/// The line printed when a binary operation gives no value.
pub open spec fn fault_line(fault: Fault, op: LOpTypeView, a: LValueView, b: LValueView) -> Seq<
    char,
> {
    match fault {
        Fault::Types => "Error ("@ + lop_text(op) + ") types: "@ + lvalue_text(a) + " "@
            + lvalue_text(b) + "\n"@,
        Fault::DivisionByZero => "Error ("@ + lop_text(op) + ") division by zero\n"@,
    }
}

/// The line printed for an operation that only compiled programs have.
pub open spec fn unsupported_line(op: LOpTypeView) -> Seq<char> {
    "Not implemented! "@ + lop_text(op) + "\n"@
}

/// The notice printed when a run is stopped at the iteration cap.
pub open spec fn limit_notice() -> Seq<char> {
    "Iteration limit reached!\n"@
}

// ---------------------------------------------------------------------
// One step
// ---------------------------------------------------------------------

/// The stack after one of the four shuffles; any other operation
/// leaves it as it is.
pub open spec fn shuffle(op: LOpTypeView, stack: Seq<LValueView>) -> Seq<LValueView> {
    let b = top_of(stack);
    let a = top_of(without_top(stack));
    let rest = without_top(without_top(stack));
    match op {
        LOpTypeView::Dup => without_top(stack).push(b).push(b),
        LOpTypeView::Drop => without_top(stack),
        LOpTypeView::Swap => rest.push(b).push(a),
        LOpTypeView::Over => rest.push(a).push(b).push(a),
        _ => stack,
    }
}

/// The state `s` with the instruction pointer on the next instruction.
pub open spec fn advance(s: RuntimeView) -> RuntimeView {
    RuntimeView { ptr: (s.ptr + 1) as u64, ..s }
}

/// The state after the binary operation `op`, and whether the run goes
/// on: the two top values make way for the result, or, where there is
/// none, for a line that says why, and the run stops.
pub open spec fn binary_step(s: RuntimeView, op: LOpTypeView) -> (RuntimeView, bool) {
    let b = top_of(s.stack);
    let a = top_of(without_top(s.stack));
    let rest = without_top(without_top(s.stack));
    match compute(op, a, b) {
        Ok(v) => (advance(RuntimeView { stack: rest.push(v), ..s }), true),
        Err(fault) => (
            RuntimeView { stack: rest, output: s.output + fault_line(fault, op, a, b), ..s },
            false,
        ),
    }
}

/// The state after one step from `s`, and whether the run goes on. The
/// run stops where the instruction pointer is outside the program, and
/// where the instruction cannot be executed.
pub open spec fn step_spec(s: RuntimeView) -> (RuntimeView, bool) {
    if s.ptr >= s.code.len() {
        (s, false)
    } else {
        let op = op_at(s.code, s.ptr as int);
        match op {
            LOpTypeView::Nop(_) | LOpTypeView::While => (advance(s), true),
            LOpTypeView::Push(v) => (advance(RuntimeView { stack: s.stack.push(v), ..s }), true),
            LOpTypeView::Log => (
                advance(
                    RuntimeView {
                        stack: without_top(s.stack),
                        output: s.output + log_line(top_of(s.stack)),
                        ..s
                    },
                ),
                true,
            ),
            LOpTypeView::Dup | LOpTypeView::Drop | LOpTypeView::Swap | LOpTypeView::Over => (
                advance(RuntimeView { stack: shuffle(op, s.stack), ..s }),
                true,
            ),
            LOpTypeView::If(t) | LOpTypeView::Do(t) => {
                let popped = RuntimeView { stack: without_top(s.stack), ..s };
                if is_zero(top_of(s.stack)) {
                    (RuntimeView { ptr: t, ..popped }, true)
                } else {
                    (advance(popped), true)
                }
            },
            LOpTypeView::Else(t) | LOpTypeView::End(t) => (RuntimeView { ptr: t, ..s }, true),
            LOpTypeView::Mem
            | LOpTypeView::Load
            | LOpTypeView::Store
            | LOpTypeView::Puts(_) => (
                RuntimeView { output: s.output + unsupported_line(op), ..s },
                false,
            ),
            _ => binary_step(s, op),
        }
    }
}

/// The state at the end of a run from `s` that may execute `fuel` more
/// instructions, and how it ended.
pub open spec fn run_spec(s: RuntimeView, fuel: nat) -> (RuntimeView, RunStatus)
    decreases fuel,
{
    if s.ptr >= s.code.len() {
        (s, RunStatus::Finished)
    } else if fuel == 0 {
        (RuntimeView { output: s.output + limit_notice(), ..s }, RunStatus::IterationCap)
    } else {
        let (next, goes_on) = step_spec(s);
        if goes_on {
            run_spec(next, (fuel - 1) as nat)
        } else {
            (next, RunStatus::Fault)
        }
    }
}

// ---------------------------------------------------------------------
// Laws of the shuffles
// ---------------------------------------------------------------------

/// `dup drop` changes nothing but the instruction pointer, where the
/// stack holds a value. (On the empty stack it leaves a zero.)
pub proof fn lemma_dup_drop(s: RuntimeView)
    requires
        s.code.len() <= u64::MAX,
        s.ptr + 1 < s.code.len(),
        op_at(s.code, s.ptr as int) is Dup,
        op_at(s.code, s.ptr + 1) is Drop,
        s.stack.len() >= 1,
    ensures
        step_spec(s).1,
        step_spec(step_spec(s).0) == (RuntimeView { ptr: (s.ptr + 2) as u64, ..s }, true),
{
    let mid = step_spec(s).0;
    assert(mid.stack.drop_last() =~= s.stack);
}

/// `swap swap` changes nothing but the instruction pointer, where the
/// stack holds two values. (Below that, zeros come up.)
pub proof fn lemma_swap_swap(s: RuntimeView)
    requires
        s.code.len() <= u64::MAX,
        s.ptr + 1 < s.code.len(),
        op_at(s.code, s.ptr as int) is Swap,
        op_at(s.code, s.ptr + 1) is Swap,
        s.stack.len() >= 2,
    ensures
        step_spec(s).1,
        step_spec(step_spec(s).0) == (RuntimeView { ptr: (s.ptr + 2) as u64, ..s }, true),
{
    let mid = step_spec(s).0;
    let end = step_spec(mid).0;
    assert(end.stack =~= s.stack);
}

/// `over swap drop` leaves the value that was second from the top in
/// both of the two top places, and the rest of the stack as it was.
pub proof fn lemma_over_swap_drop_result(s: RuntimeView)
    requires
        s.code.len() <= u64::MAX,
        s.ptr + 2 < s.code.len(),
        op_at(s.code, s.ptr as int) is Over,
        op_at(s.code, s.ptr + 1) is Swap,
        op_at(s.code, s.ptr + 2) is Drop,
        s.stack.len() >= 2,
    ensures
        step_spec(s).1,
        step_spec(step_spec(s).0).1,
        step_spec(step_spec(step_spec(s).0).0) == (
            RuntimeView {
                ptr: (s.ptr + 3) as u64,
                stack: s.stack.drop_last().push(s.stack[s.stack.len() - 2]),
                ..s
            },
            true,
        ),
{
    let a = s.stack[s.stack.len() - 2];
    let rest = s.stack.drop_last().drop_last();
    let s1 = step_spec(s).0;
    let s2 = step_spec(s1).0;
    let s3 = step_spec(s2).0;
    assert(s3.stack =~= rest.push(a).push(a));
    assert(s.stack.drop_last() =~= rest.push(a));
}

/// `over swap drop` changes nothing but the instruction pointer, where
/// the two top values of the stack are equal.
pub proof fn lemma_over_swap_drop(s: RuntimeView)
    requires
        s.code.len() <= u64::MAX,
        s.ptr + 2 < s.code.len(),
        op_at(s.code, s.ptr as int) is Over,
        op_at(s.code, s.ptr + 1) is Swap,
        op_at(s.code, s.ptr + 2) is Drop,
        s.stack.len() >= 2,
        s.stack[s.stack.len() - 1] == s.stack[s.stack.len() - 2],
    ensures
        step_spec(step_spec(step_spec(s).0).0) == (
            RuntimeView { ptr: (s.ptr + 3) as u64, ..s },
            true,
        ),
{
    lemma_over_swap_drop_result(s);
    assert(s.stack.drop_last().push(s.stack[s.stack.len() - 2]) =~= s.stack);
}

// ---------------------------------------------------------------------
// The interpreter
// ---------------------------------------------------------------------

fn number_flag(b: bool) -> (v: LValue)
    ensures
        v@ == flag(b),
{
    if b {
        LValue::Number(1)
    } else {
        LValue::Number(0)
    }
}

/// A quotient of a number that is not negative by a positive one lies
/// between zero and the number, and at most at its half where the
/// divisor is above one; the remainder lies below the divisor.
proof fn lemma_quotient_bounds(a: int, b: int)
    by (nonlinear_arith)
    requires
        a >= 0,
        b >= 1,
    ensures
        0 <= a / b <= a,
        b >= 2 ==> 2 * (a / b) <= a,
        b == 1 ==> a / b == a,
        a == 0 ==> a / b == 0 && a % b == 0,
        0 <= a % b < b,
{
}

fn divide(x: i64, y: i64) -> (q: i64)
    requires
        y != 0,
    ensures
        q == number_div(x, y),
{
    proof {
        let a: int = if x < 0 {
            -(x as int)
        } else {
            x as int
        };
        let b: int = if y < 0 {
            -(y as int)
        } else {
            y as int
        };
        lemma_quotient_bounds(a, b);
    }
    match x.checked_div(y) {
        Some(q) => q,
        None => i64::MIN,
    }
}

fn remainder(x: i64, y: i64) -> (r: i64)
    requires
        y != 0,
    ensures
        r == number_rem(x, y),
{
    proof {
        let a: int = if x < 0 {
            -(x as int)
        } else {
            x as int
        };
        let b: int = if y < 0 {
            -(y as int)
        } else {
            y as int
        };
        lemma_quotient_bounds(a, b);
    }
    match x.checked_rem(y) {
        Some(r) => r,
        None => 0,
    }
}

fn compute_numbers_exec(op: &LOpType, x: i64, y: i64) -> (r: Result<LValue, Fault>)
    ensures
        match r {
            Ok(v) => compute_numbers(op@, x, y) == Ok::<LValueView, Fault>(v@),
            Err(fault) => compute_numbers(op@, x, y) == Err::<LValueView, Fault>(fault),
        },
{
    match op {
        LOpType::Add => Ok(LValue::Number(x.wrapping_add(y))),
        LOpType::Sub => Ok(LValue::Number(x.wrapping_sub(y))),
        LOpType::Mul => Ok(LValue::Number(x.wrapping_mul(y))),
        LOpType::Div => if y == 0 {
            Err(Fault::DivisionByZero)
        } else {
            Ok(LValue::Number(divide(x, y)))
        },
        LOpType::Mod => if y == 0 {
            Err(Fault::DivisionByZero)
        } else {
            Ok(LValue::Number(remainder(x, y)))
        },
        LOpType::Shl => Ok(LValue::Number(x.wrapping_shl(#[verifier::truncate] (y as u32)))),
        LOpType::Shr => Ok(
            LValue::Number(
                #[verifier::truncate]
                ((#[verifier::truncate] (x as u64)).wrapping_shr(
                    #[verifier::truncate]
                    (y as u32),
                ) as i64),
            ),
        ),
        LOpType::Bor => Ok(LValue::Number(x | y)),
        LOpType::Band => Ok(LValue::Number(x & y)),
        LOpType::Greater => Ok(number_flag(x > y)),
        LOpType::Less => Ok(number_flag(x < y)),
        LOpType::GreaterEqual => Ok(number_flag(x >= y)),
        LOpType::LessEqual => Ok(number_flag(x <= y)),
        LOpType::Equal => Ok(number_flag(x == y)),
        LOpType::NotEqual => Ok(number_flag(x != y)),
        _ => Err(Fault::Types),
    }
}

fn compute_texts_exec(op: &LOpType, x: &str, y: &str, same_type: bool) -> (r: Result<
    LValue,
    Fault,
>)
    ensures
        match r {
            Ok(v) => compute_texts(op@, x@, y@, same_type) == Ok::<LValueView, Fault>(v@),
            Err(fault) => compute_texts(op@, x@, y@, same_type) == Err::<LValueView, Fault>(
                fault,
            ),
        },
{
    match op {
        LOpType::Add => {
            let mut joined = String::from_str(x);
            joined.append(y);
            Ok(LValue::Text(joined))
        },
        LOpType::Equal => Ok(number_flag(same_type && crate::text::str_eq(x, y))),
        LOpType::NotEqual => Ok(number_flag(!(same_type && crate::text::str_eq(x, y)))),
        _ => Err(Fault::Types),
    }
}

/// What the binary operation `op` gives on `a` and `b`, where `b` was on
/// top of the stack and `a` below it.
pub fn compute_values(op: &LOpType, a: &LValue, b: &LValue) -> (r: Result<LValue, Fault>)
    ensures
        match r {
            Ok(v) => compute(op@, a@, b@) == Ok::<LValueView, Fault>(v@),
            Err(fault) => compute(op@, a@, b@) == Err::<LValueView, Fault>(fault),
        },
{
    match (a, b) {
        (LValue::Number(x), LValue::Number(y)) => compute_numbers_exec(op, *x, *y),
        (LValue::Text(x), LValue::Text(y)) => compute_texts_exec(
            op,
            x.as_str(),
            y.as_str(),
            true,
        ),
        (LValue::Number(x), LValue::Text(y)) => {
            let written = crate::text::i64_to_decimal(*x);
            compute_texts_exec(op, written.as_str(), y.as_str(), false)
        },
        (LValue::Text(x), LValue::Number(y)) => {
            let written = crate::text::i64_to_decimal(*y);
            compute_texts_exec(op, x.as_str(), written.as_str(), false)
        },
    }
}

fn push_log_line(output: &mut String, value: &LValue)
    ensures
        final(output)@ == old(output)@ + log_line(value@),
{
    match value {
        LValue::Number(x) => {
            push_signed_decimal(output, *x);
        },
        LValue::Text(t) => {
            output.append(t.as_str());
        },
    }
    output.append("\n");
}

fn push_fault_line(output: &mut String, fault: Fault, op: &LOpType, a: &LValue, b: &LValue)
    ensures
        final(output)@ == old(output)@ + fault_line(fault, op@, a@, b@),
{
    let name = op.to_string();
    output.append("Error (");
    output.append(name.as_str());
    match fault {
        Fault::Types => {
            let first = a.to_string();
            let second = b.to_string();
            output.append(") types: ");
            output.append(first.as_str());
            output.append(" ");
            output.append(second.as_str());
            output.append("\n");
        },
        Fault::DivisionByZero => {
            output.append(") division by zero\n");
        },
    }
}

fn push_unsupported_line(output: &mut String, op: &LOpType)
    ensures
        final(output)@ == old(output)@ + unsupported_line(op@),
{
    let name = op.to_string();
    output.append("Not implemented! ");
    output.append(name.as_str());
    output.append("\n");
}

fn shuffle_stack(op: &LOpType, stack: &mut Vec<LValue>)
    ensures
        final(stack).deep_view() == shuffle(op@, old(stack).deep_view()),
{
    match op {
        LOpType::Dup => {
            let top = pop_one(stack);
            push_two(stack, (&top, &top));
        },
        LOpType::Drop => {
            let _ = pop_one(stack);
        },
        LOpType::Swap => {
            let (a, b) = pop_two(stack);
            push_two(stack, (&b, &a));
        },
        LOpType::Over => {
            let (a, b) = pop_two(stack);
            push_two(stack, (&a, &b));
            push_one(stack, &a);
        },
        _ => {},
    }
}

fn value_is_zero(value: &LValue) -> (r: bool)
    ensures
        r == is_zero(value@),
{
    match value {
        LValue::Number(x) => *x == 0,
        LValue::Text(_) => false,
    }
}

// ---------------------------------------------------------------------
// The plain code generator
// ---------------------------------------------------------------------

/// Whether the plain code generator knows the operation `op`.
pub open spec fn lowers(op: LOpTypeView) -> bool {
    match op {
        LOpTypeView::Push(_)
        | LOpTypeView::Add
        | LOpTypeView::Sub
        | LOpTypeView::Mul
        | LOpTypeView::Div
        | LOpTypeView::Mod
        | LOpTypeView::Log
        | LOpTypeView::Drop
        | LOpTypeView::Dup
        | LOpTypeView::Swap
        | LOpTypeView::Greater
        | LOpTypeView::Less
        | LOpTypeView::GreaterEqual
        | LOpTypeView::LessEqual
        | LOpTypeView::Equal
        | LOpTypeView::NotEqual
        | LOpTypeView::If(_)
        | LOpTypeView::Do(_)
        | LOpTypeView::While
        | LOpTypeView::End(_) => true,
        _ => false,
    }
}

/// Whether the plain code generator knows every operation of `code`.
pub open spec fn all_lowered(code: Seq<LOpTypeView>) -> bool {
    forall|i: int| 0 <= i < code.len() ==> lowers(#[trigger] code[i])
}

/// The lines of a comparison in the plain code generator: one is moved
/// over a zero where the comparison holds.
pub open spec fn select_asm(title: Seq<char>, mov: Seq<char>) -> Seq<char> {
    title_line(title) + code_line("xor rcx, rcx"@) + code_line("mov rdx, 1"@) + code_line(
        "pop rbx"@,
    ) + code_line("pop rax"@) + code_line("cmp rax, rbx"@) + code_line(mov) + code_line(
        "push rcx"@,
    )
}

/// The lines of the operation `op` in the plain code generator. The
/// push of a text has none, nor has an operation that the generator
/// does not know.
pub open spec fn plain_op_asm(op: LOpTypeView) -> Seq<char> {
    match op {
        LOpTypeView::Push(LValueView::Number(n)) => snippet1(
            "push u64"@,
            "push "@ + number_text(n),
        ),
        LOpTypeView::Add => snippet4("add"@, "pop rax"@, "pop rbx"@, "add rax, rbx"@, "push rax"@),
        LOpTypeView::Sub => snippet4("sub"@, "pop rax"@, "pop rbx"@, "sub rbx, rax"@, "push rbx"@),
        LOpTypeView::Mul => snippet4("mul"@, "pop rax"@, "pop rbx"@, "mul rbx"@, "push rax"@),
        LOpTypeView::Div => snippet5(
            "div"@,
            "xor rdx, rdx"@,
            "pop rbx"@,
            "pop rax"@,
            "div rbx"@,
            "push rax"@,
        ),
        LOpTypeView::Mod => snippet5(
            "div"@,
            "xor rdx, rdx"@,
            "pop rbx"@,
            "pop rax"@,
            "div rbx"@,
            "push rdx"@,
        ),
        LOpTypeView::Log => snippet2("log"@, "pop rcx"@, "call log"@),
        LOpTypeView::Drop => snippet1("drop"@, "pop rax"@),
        LOpTypeView::Dup => snippet3("dup"@, "pop rax"@, "push rax"@, "push rax"@),
        LOpTypeView::Swap => snippet4("swap"@, "pop rax"@, "pop rbx"@, "push rax"@, "push rbx"@),
        LOpTypeView::Greater => select_asm(">"@, "cmovg rcx, rdx"@),
        LOpTypeView::Less => select_asm("<"@, "cmovl rcx, rdx"@),
        LOpTypeView::GreaterEqual => select_asm(">="@, "cmovge rcx, rdx"@),
        LOpTypeView::LessEqual => select_asm("<="@, "cmovle rcx, rdx"@),
        LOpTypeView::Equal => select_asm("="@, "cmove rcx, rdx"@),
        LOpTypeView::NotEqual => select_asm("!="@, "cmovne rcx, rdx"@),
        LOpTypeView::If(t) => branch_asm("if"@, t),
        LOpTypeView::Do(t) => branch_asm("do"@, t),
        LOpTypeView::While => title_line("while"@),
        LOpTypeView::End(t) => jump_asm("end"@, t),
        _ => Seq::empty(),
    }
}

/// What the plain code generator writes for the instructions `ops`,
/// given in the order of their instruction pointers, from `ip` on: each
/// instruction under its label, up to the first operation that the
/// generator does not know, of which only the label stands; behind the
/// last instruction stands the label past it.
pub open spec fn plain_asm(ops: Seq<LOpTypeView>, ip: int) -> Seq<char>
    decreases ops.len() - ip,
{
    if ip < 0 || ip >= ops.len() {
        addr_line(ops.len())
    } else if !lowers(ops[ip]) {
        addr_line(ip as nat)
    } else {
        addr_line(ip as nat) + plain_op_asm(ops[ip]) + plain_asm(ops, ip + 1)
    }
}

fn emit_select(file: &mut AsmFile, title: &str, mov: &str)
    ensures
        final(file)@ == (AsmFileView {
            text: old(file)@.text + select_asm(title@, mov@),
            ..old(file)@
        }),
{
    file.title(title);
    file.code("xor rcx, rcx");
    file.code("mov rdx, 1");
    file.code("pop rbx");
    file.code("pop rax");
    file.code("cmp rax, rbx");
    file.code(mov);
    file.code("push rcx");
    assert(file@.text =~= old(file)@.text + select_asm(title@, mov@));
}

/// Writes the lines of one operation with the plain code generator, and
/// says whether the generator knows the operation.
fn emit_plain_op(file: &mut AsmFile, op: &LOpType) -> (known: bool)
    ensures
        known == lowers(op@),
        final(file)@ == (AsmFileView {
            text: old(file)@.text + plain_op_asm(op@),
            ..old(file)@
        }),
{
    match op {
        LOpType::Push(LValue::Number(y)) => {
            let push = number_line("push ", #[verifier::truncate] (*y as u64));
            emit1(file, "push u64", push.as_str());
        },
        LOpType::Push(LValue::Text(_)) => {},
        LOpType::Add => emit4(file, "add", "pop rax", "pop rbx", "add rax, rbx", "push rax"),
        LOpType::Sub => emit4(file, "sub", "pop rax", "pop rbx", "sub rbx, rax", "push rbx"),
        LOpType::Mul => emit4(file, "mul", "pop rax", "pop rbx", "mul rbx", "push rax"),
        LOpType::Div => emit5(
            file,
            "div",
            "xor rdx, rdx",
            "pop rbx",
            "pop rax",
            "div rbx",
            "push rax",
        ),
        LOpType::Mod => emit5(
            file,
            "div",
            "xor rdx, rdx",
            "pop rbx",
            "pop rax",
            "div rbx",
            "push rdx",
        ),
        LOpType::Log => emit2(file, "log", "pop rcx", "call log"),
        LOpType::Drop => emit1(file, "drop", "pop rax"),
        LOpType::Dup => emit3(file, "dup", "pop rax", "push rax", "push rax"),
        LOpType::Swap => emit4(file, "swap", "pop rax", "pop rbx", "push rax", "push rbx"),
        LOpType::Greater => emit_select(file, ">", "cmovg rcx, rdx"),
        LOpType::Less => emit_select(file, "<", "cmovl rcx, rdx"),
        LOpType::GreaterEqual => emit_select(file, ">=", "cmovge rcx, rdx"),
        LOpType::LessEqual => emit_select(file, "<=", "cmovle rcx, rdx"),
        LOpType::Equal => emit_select(file, "=", "cmove rcx, rdx"),
        LOpType::NotEqual => emit_select(file, "!=", "cmovne rcx, rdx"),
        LOpType::If(block_ip) => emit_branch(file, "if", *block_ip),
        LOpType::Do(block_ip) => emit_branch(file, "do", *block_ip),
        LOpType::While => file.title("while"),
        LOpType::End(block_ip) => emit_jump(file, "end", *block_ip),
        _ => {
            return false;
        },
    }
    true
}

impl Runtime {
    /// A runtime that is about to execute the first instruction of
    /// `code`, with an empty stack and nothing printed.
    pub fn new(code: Vec<LOpType>) -> (result: Self)
        ensures
            result@ == (RuntimeView {
                code: code.deep_view(),
                stack: Seq::empty(),
                ptr: 0,
                output: Seq::empty(),
            }),
    {
        let result = Self { code: code, stack: Vec::new(), ptr: 0, output: String::new() };
        assert(result.stack.deep_view() =~= Seq::empty());
        result
    }

    /// The textual form of the runtime: its program as it is stored,
    /// its stack and its instruction pointer.
    pub fn to_string(&self) -> (s: String)
        ensures
            s@ == "Runtime(code:"@ + ops_text(self@.code) + ",stack:"@ + values_text(
                self@.stack,
            ) + ",ptr:"@ + decimal(self@.ptr as nat) + ")"@,
    {
        let mut s = String::from_str("Runtime(code:");
        push_ops_text(&mut s, &self.code);
        s.append(",stack:");
        push_values_text(&mut s, &self.stack);
        s.append(",ptr:");
        push_decimal(&mut s, self.ptr);
        s.append(")");
        s
    }

    /// The index in the stored program of the instruction that the
    /// instruction pointer `ip` points to, if it points into the program.
    /// The program is stored in reverse.
    pub fn idx(&self, ip: u64) -> (index: Option<u64>)
        ensures
            match index {
                Some(i) => ip < self@.code.len() && i == self@.code.len() - 1 - ip,
                None => ip >= self@.code.len(),
            },
            self@.code.len() <= usize::MAX,
    {
        let size: u64 = self.code.len() as u64;
        if ip >= size {
            return Option::None;
        }
        Option::Some(size - 1 - ip)
    }

    fn step_binary(&mut self, op: &LOpType) -> (goes_on: bool)
        requires
            old(self).ptr < old(self).code.len(),
        ensures
            (final(self)@, goes_on) == binary_step(old(self)@, op@),
    {
        let (a, b) = pop_two(&mut self.stack);
        match compute_values(op, &a, &b) {
            Ok(value) => {
                push_one(&mut self.stack, &value);
                self.ptr = self.ptr + 1;
                true
            },
            Err(fault) => {
                push_fault_line(&mut self.output, fault, op, &a, &b);
                false
            },
        }
    }

    fn step_branch(&mut self, target: u64)
        requires
            old(self).ptr < old(self).code.len(),
        ensures
            final(self)@ == (if is_zero(top_of(old(self)@.stack)) {
                RuntimeView { ptr: target, stack: without_top(old(self)@.stack), ..old(self)@ }
            } else {
                advance(RuntimeView { stack: without_top(old(self)@.stack), ..old(self)@ })
            }),
    {
        let condition = pop_one(&mut self.stack);
        if value_is_zero(&condition) {
            self.ptr = target;
        } else {
            self.ptr = self.ptr + 1;
        }
    }

    /// Executes the instruction that the instruction pointer is on, and
    /// says whether the run goes on. It does not where the pointer is
    /// outside the program, which is how a program ends, and where the
    /// instruction cannot be executed; the reason is then printed.
    pub fn step(&mut self) -> (goes_on: bool)
        ensures
            (final(self)@, goes_on) == step_spec(old(self)@),
    {
        let index: usize = match self.idx(self.ptr) {
            Option::None => {
                return false;
            },
            Option::Some(index) => index as usize,
        };
        let op = self.code[index].clone();
        match &op {
            LOpType::Nop(_) | LOpType::While => {
                self.ptr = self.ptr + 1;
                true
            },
            LOpType::Push(value) => {
                push_one(&mut self.stack, value);
                self.ptr = self.ptr + 1;
                true
            },
            LOpType::Log => {
                let value = pop_one(&mut self.stack);
                push_log_line(&mut self.output, &value);
                self.ptr = self.ptr + 1;
                true
            },
            LOpType::Dup | LOpType::Drop | LOpType::Swap | LOpType::Over => {
                shuffle_stack(&op, &mut self.stack);
                self.ptr = self.ptr + 1;
                true
            },
            LOpType::If(target) | LOpType::Do(target) => {
                self.step_branch(*target);
                true
            },
            LOpType::Else(target) | LOpType::End(target) => {
                self.ptr = *target;
                true
            },
            LOpType::Mem | LOpType::Load | LOpType::Store | LOpType::Puts(_) => {
                push_unsupported_line(&mut self.output, &op);
                false
            },
            _ => self.step_binary(&op),
        }
    }

    /// Runs the program from where it stands until it ends, an
    /// instruction cannot be executed, or [`MAX_ITERATIONS`] instructions
    /// have been executed; in the last case a notice is printed.
    pub fn run(&mut self) -> (status: RunStatus)
        ensures
            (final(self)@, status) == run_spec(old(self)@, MAX_ITERATIONS as nat),
    {
        let mut count: u32 = 0;
        while count < MAX_ITERATIONS
            invariant
                count <= MAX_ITERATIONS,
                run_spec(old(self)@, MAX_ITERATIONS as nat) == run_spec(
                    self@,
                    (MAX_ITERATIONS - count) as nat,
                ),
            decreases MAX_ITERATIONS - count,
        {
            if self.idx(self.ptr).is_none() {
                return RunStatus::Finished;
            }
            if !self.step() {
                return RunStatus::Fault;
            }
            count += 1;
        }
        if self.idx(self.ptr).is_none() {
            return RunStatus::Finished;
        }
        self.output.append("Iteration limit reached!\n");
        RunStatus::IterationCap
    }

    /// Writes the program to `file` with the plain code generator: every
    /// instruction under its label, in the order of the instruction
    /// pointers, up to the first operation that the generator does not
    /// know, whose label is the last thing written; where it knows them
    /// all, the label past the last instruction ends the text. Says
    /// whether it knew them all.
    pub fn compile_asm(&self, file: &mut AsmFile) -> (ok: bool)
        ensures
            ok == all_lowered(self@.code),
            final(file)@ == (AsmFileView {
                text: old(file)@.text + plain_asm(self@.code.reverse(), 0),
                ..old(file)@
            }),
    {
        let ghost ops = self@.code.reverse();
        let ghost start = old(file)@.text;
        let csize: usize = self.code.len();
        let mut ptr: usize = 0;
        while ptr < csize
            invariant
                ptr <= csize == self.code.len(),
                ops == self@.code.reverse(),
                start == old(file)@.text,
                file@ == (AsmFileView { text: file@.text, ..old(file)@ }),
                file@.text + plain_asm(ops, ptr as int) == start + plain_asm(ops, 0),
                forall|p: int| 0 <= p < ptr ==> lowers(#[trigger] ops[p]),
            decreases csize - ptr,
        {
            let op = &self.code[csize - 1 - ptr];
            file.addr(ptr as u64);
            if !emit_plain_op(file, op) {
                return false;
            }
            ptr += 1;
        }
        file.addr(csize as u64);
        assert forall|i: int| 0 <= i < self@.code.len() implies lowers(
            #[trigger] self@.code[i],
        ) by {
            assert(ops[csize - 1 - i] == self@.code[i]);
        }
        true
    }

    /// Compiles the program with the plain code generator to the text of
    /// an assembly file under the stem `ktnckc`, and plans the build of
    /// the executable from it. There is no plan where the generator does
    /// not know an operation of the program.
    pub fn compile(&self) -> (plan: Option<BuildPlan>)
        ensures
            match plan {
                Some(plan) => {
                    &&& all_lowered(self@.code)
                    &&& plan.name@ == "ktnckc"@
                    &&& plan.asm_path@ == with_extension("ktnckc"@, ".asm"@)
                    &&& plan.asm_text@ == prologue() + plain_asm(self@.code.reverse(), 0)
                        + epilogue()
                    &&& plan.assemble.deep_view() == assemble_command("ktnckc"@)
                    &&& plan.link.deep_view() == link_command("ktnckc"@)
                    &&& plan.binary@ == with_extension("ktnckc"@, ".exe"@)
                },
                None => !all_lowered(self@.code),
            },
    {
        let mut asmfile = pre_compile("ktnckc");
        if !self.compile_asm(&mut asmfile) {
            return None;
        }
        Some(post_compile(asmfile))
    }
}

} // verus!
