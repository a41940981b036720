//! General laws of the machine's semantics, stated and proved once over the
//! spec functions of [`crate::isa`] that every instruction contract uses.

use vstd::prelude::*;
use vstd::arithmetic::div_mod::lemma_fundamental_div_mod;

use crate::isa::Effect;
use crate::isa::Error;
use crate::isa::HALT_PTR;
use crate::isa::Model;
use crate::isa::RAM_BYTES;
use crate::isa::REG_COUNT;
use crate::isa::WORD_COUNT;
use crate::isa::add_word;
use crate::isa::fresh_model;
use crate::isa::model_wf;
use crate::isa::mult_word;
use crate::isa::not_word;
use crate::isa::operand_address;
use crate::isa::operand_register;
use crate::isa::operand_value;
use crate::isa::spec_op_pop;
use crate::isa::spec_op_ret;
use crate::isa::spec_op_wmem;
use crate::isa::step;
use crate::isa::store_word;
use crate::isa::word_at;

verus! {

/// Wraparound law: whatever `add` and `mult` are given, the word they store
/// is in the 15-bit domain.
pub proof fn lemma_arith_in_word_range(b: u16, c: u16)
    ensures
        add_word(b, c) < WORD_COUNT,
        mult_word(b, c) < WORD_COUNT,
{
    assert(b * c >= 0) by (nonlinear_arith);
}

/// Complementing a word twice restores it: `not r, v` followed by
/// `not r, r` leaves the original value.
pub proof fn lemma_not_not(v: u16)
    requires
        v < WORD_COUNT,
    ensures
        not_word(not_word(v)) == v,
{
    assert((!(!v & 0x7fff) & 0x7fff) == v) by (bit_vector)
        requires
            v < 32768,
    ;
}

/// Storing a word and loading it back at the same byte offset yields the word.
pub proof fn lemma_store_then_load(ram: Seq<u8>, p: int, v: u16)
    requires
        0 <= p,
        p + 1 < ram.len(),
    ensures
        word_at(store_word(ram, p, v), p) == v,
{
    lemma_fundamental_div_mod(v as int, 256);
}

/// Round trip through RAM: after a `wmem` that resolved to address `t` and
/// value `v`, resolving `t` as an operand value — exactly what `rmem` does
/// with its loaded word — yields `v` back, for every valid `t` and `v`.
pub proof fn lemma_wmem_then_rmem(m: Model, p: int)
    requires
        model_wf(m),
        0 <= p,
        p + 5 < RAM_BYTES,
        spec_op_wmem(m, p).1 is Ok,
    ensures
        ({
            let (m1, _) = spec_op_wmem(m, p);
            match (operand_address(m, p + 2), operand_value(m, p + 4)) {
                (Ok(t), Ok(v)) => operand_value(m1, t as int) == Ok::<u16, Error>(v),
                _ => false,
            }
        }),
{
    let (m1, _) = spec_op_wmem(m, p);
    match (operand_address(m, p + 2), operand_value(m, p + 4)) {
        (Ok(t), Ok(v)) => {
            lemma_store_then_load(m.ram, t as int, v);
        },
        _ => {},
    }
}

/// The stack after `k` pops.
pub open spec fn stack_after_pops(t: Seq<u16>, k: int) -> Seq<u16> {
    t.take(t.len() - k)
}

/// The value the `(i + 1)`-th pop returns.
pub open spec fn popped_value(t: Seq<u16>, i: int) -> u16 {
    t[t.len() - 1 - i]
}

/// Pushing a word and popping again returns that word and restores the stack.
pub proof fn lemma_push_pop(st: Seq<u16>, v: u16)
    ensures
        st.push(v).last() == v,
        st.push(v).drop_last() == st,
{
    assert(st.push(v).drop_last() =~= st);
}

/// LIFO law: after pushing the words of `vs` on top of `st`, the pops return
/// them in reverse order, and after `vs.len()` pops the stack is `st` again.
pub proof fn lemma_stack_lifo(st: Seq<u16>, vs: Seq<u16>, i: int)
    requires
        0 <= i < vs.len(),
    ensures
        popped_value(st + vs, i) == vs[vs.len() - 1 - i],
        stack_after_pops(st + vs, vs.len() as int) == st,
{
    assert(stack_after_pops(st + vs, vs.len() as int) =~= st);
}

/// Operand classification boundaries: 32767 is the last literal, 32768 names
/// register 0, 32775 names register 7, and 32776 is the first invalid value.
pub proof fn lemma_operand_classification(m: Model, p: int)
    requires
        m.regs.len() == REG_COUNT,
    ensures
        word_at(m.ram, p) == 32767 ==> operand_value(m, p) == Ok::<u16, Error>(32767u16),
        word_at(m.ram, p) == 32768 ==> operand_value(m, p) == Ok::<u16, Error>(m.regs[0])
            && operand_register(m, p) == Ok::<usize, Error>(0usize),
        word_at(m.ram, p) == 32775 ==> operand_register(m, p) == Ok::<usize, Error>(7usize),
        word_at(m.ram, p) == 32776 ==> operand_value(m, p) == Err::<u16, Error>(
            Error::InvalidValue(32776),
        ),
{
}

/// On an empty stack, `pop` is a fatal error while `ret` is a graceful halt.
pub proof fn lemma_empty_stack_asymmetry(m: Model, p: int)
    requires
        m.stack.len() == 0,
        operand_register(m, p + 2) is Ok,
    ensures
        spec_op_pop(m, p) == (m, Err::<u16, Error>(Error::EmptyStack)),
        spec_op_ret(m, p) == (m, Ok::<u16, Error>(HALT_PTR)),
{
}

/// The output bytes of running a machine for up to `fuel` steps with no input
/// supplied; the run ends early at a halt, a fault, or a request for input.
pub open spec fn run_outputs(m: Model, fuel: nat) -> Seq<u8>
    decreases fuel,
{
    if fuel == 0 {
        Seq::empty()
    } else {
        let (m2, res) = step(m, Option::None);
        match res {
            Result::Ok(Effect::Output(b)) => seq![b] + run_outputs(m2, (fuel - 1) as nat),
            Result::Ok(Effect::Step) => run_outputs(m2, (fuel - 1) as nat),
            _ => Seq::empty(),
        }
    }
}

/// Reset idempotence: a machine freshly built from an image and a machine
/// reset to the same image have the same model, and each step is a pure
/// function of the model, so the two runs produce byte-identical output.
pub proof fn lemma_rerun_after_reset(a: Model, b: Model, img: Seq<u8>, fuel: nat)
    requires
        a == fresh_model(img),
        b == fresh_model(img),
    ensures
        run_outputs(a, fuel) == run_outputs(b, fuel),
{
}

} // verus!
