//! A law of the parser that the code generator leans on: no jump of a
//! parsed program lands on the second instruction of a pair that the
//! code generator folds into one, so folding never takes a jump's
//! landing place away. Programs are taken here in the order of their
//! instruction pointers, the reverse of the order in which they are
//! stored.

use crate::compile::fuses;
use crate::ltypes::{LOpTypeView, LValueTypeView};
use crate::src::{
    lemma_parse_step_wf, parse_fold, parse_spec, parse_state_wf, parse_step, ParseState,
};
use vstd::prelude::*;

verus! {

/// Whether `op` opens a block that a later word closes.
pub open spec fn opens_block(op: LOpTypeView) -> bool {
    op is If || op is Else || op is While || op is Do
}

/// Whether the instruction pointer `t` is a place that the parser sends
/// jumps to: the start of the program, the place behind an `else` or an
/// `end`, or a word that opens a block.
pub open spec fn lands_well(program: Seq<LOpTypeView>, t: u64) -> bool {
    ||| t == 0
    ||| (1 <= t <= program.len() && (program[t - 1] is Else || program[t - 1] is End))
    ||| (t < program.len() && opens_block(program[t as int]))
}

/// Whether every jump of `program`, given in the order of the
/// instruction pointers, goes to such a place.
pub open spec fn jumps_land_well(program: Seq<LOpTypeView>) -> bool {
    forall|i: int|
        0 <= i < program.len() ==> ((#[trigger] program[i]).target() matches Some(t)
            ==> lands_well(program, t))
}

/// Whether `after` is `before` grown at its end, with the instructions
/// of `before` still of their kinds, whatever their targets.
pub open spec fn keeps_kinds(before: Seq<LOpTypeView>, after: Seq<LOpTypeView>) -> bool {
    &&& before.len() <= after.len()
    &&& forall|j: int|
        0 <= j < before.len() ==> {
            &&& (#[trigger] before[j] is Else) == (after[j] is Else)
            &&& (before[j] is End) == (after[j] is End)
            &&& opens_block(before[j]) == opens_block(after[j])
        }
}

/// Whether a parser state is sound for landing: its jumps land well and
/// the open blocks are words that open a block.
pub open spec fn landing_wf(st: ParseState) -> bool {
    &&& parse_state_wf(st)
    &&& jumps_land_well(st.program)
    &&& forall|k: int|
        0 <= k < st.open.len() ==> opens_block(st.program[(#[trigger] st.open[k]) as int])
}

proof fn lemma_landing_kept(before: Seq<LOpTypeView>, after: Seq<LOpTypeView>, t: u64)
    requires
        keeps_kinds(before, after),
        lands_well(before, t),
    ensures
        lands_well(after, t),
{
}

proof fn lemma_step_landing(st: ParseState, v: LValueTypeView)
    requires
        landing_wf(st),
        st.program.len() < usize::MAX,
    ensures
        landing_wf(parse_step(st, v)),
{
    lemma_parse_step_wf(st, v);
    let after = parse_step(st, v);
    let ip = st.program.len() as int;
    assert forall|i: int| 0 <= i < after.program.len() implies ((
    #[trigger] after.program[i]).target() matches Some(t) ==> lands_well(after.program, t)) by {
        if let Some(t) = after.program[i].target() {
            if i < ip && after.program[i] == st.program[i] {
                // An instruction that stays as it was keeps its landing place.
                lemma_landing_kept(st.program, after.program, t);
            } else if i >= ip && t != 0 && t != ip + 1 && !(after.program[i] is Do) {
                // An `end` that closes a loop takes over the target of the `do`.
                lemma_landing_kept(st.program, after.program, t);
            }
        }
    }
}

proof fn lemma_fold_landing(values: Seq<LValueTypeView>)
    requires
        values.len() <= usize::MAX,
    ensures
        landing_wf(parse_fold(values)),
        parse_fold(values).program.len() == values.len(),
    decreases values.len(),
{
    if values.len() > 0 {
        lemma_fold_landing(values.drop_last());
        lemma_parse_step_wf(parse_fold(values.drop_last()), values.last());
        lemma_step_landing(parse_fold(values.drop_last()), values.last());
    }
}

/// In every parsed program, each jump goes to the start of the program,
/// to the place behind an `else` or an `end`, or to a word that opens a
/// block.
pub proof fn lemma_parse_lands_well(values: Seq<LValueTypeView>)
    requires
        values.len() <= usize::MAX,
    ensures
        jumps_land_well(parse_spec(values)),
{
    lemma_fold_landing(values);
}

/// A jump that lands well does not land on the second instruction of a
/// folded pair: that one is an arithmetic operation behind the push of a
/// number.
pub proof fn lemma_landing_not_folded(program: Seq<LOpTypeView>, t: u64, optimize: bool)
    requires
        lands_well(program, t),
    ensures
        !fuses(program, t - 1, optimize),
{
}

/// No jump of a parsed program lands inside a folded pair.
pub proof fn lemma_parse_never_jumps_into_fold(values: Seq<LValueTypeView>, i: int)
    requires
        values.len() <= usize::MAX,
        0 <= i < parse_spec(values).len(),
        parse_spec(values)[i].target() is Some,
    ensures
        !fuses(parse_spec(values), parse_spec(values)[i].target()->0 - 1, true),
{
    lemma_parse_lands_well(values);
    lemma_landing_not_folded(parse_spec(values), parse_spec(values)[i].target()->0, true);
}

} // verus!
