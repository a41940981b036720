//! The machine's mathematical semantics: word encoding, operand resolution,
//! and the transition of every instruction, stated over a ghost model of the
//! register file, RAM, live stack and instruction pointer.

use vstd::prelude::*;

verus! {

/// Number of machine words; all arithmetic wraps modulo this value.
pub const WORD_COUNT: u16 = 32768;
/// Smallest operand value that names a register.
pub const REG_BASE: u16 = 32768;
/// Largest operand value that names a register.
pub const REG_TOP: u16 = 32775;
/// Number of registers in the register file.
pub const REG_COUNT: usize = 8;
/// Reserved instruction-pointer value meaning "halted". It is odd, so it is
/// never a fetchable address; it exists only as an out-of-band marker.
pub const HALT_PTR: u16 = 32769;
/// Size of RAM in bytes: 32768 words stored little-endian.
pub const RAM_BYTES: usize = 65536;
/// Smallest stack buffer length; the shrink policy never goes below it.
pub const STACK_FLOOR: usize = 256;

/// A fatal condition. Every kind ends the run; the engine reports it to its
/// caller and attempts no recovery.
#[derive(Clone, Copy, Debug, PartialEq, Eq, Structural)]
pub enum Error {
    /// An operand used as a jump or memory target decoded into the invalid range.
    InvalidAddress(u16),
    /// An operand used as a value decoded into the invalid range.
    InvalidValue(u16),
    /// A destination operand was a literal, not a register reference.
    InvalidRegister(u16),
    /// `pop` was executed with no live stack element.
    EmptyStack,
    /// An I/O opcode found its channel closed. The simulator itself never
    /// raises this; the code that owns the channels does.
    IOChannelClosed,
    /// The opcode byte was not a recognized instruction, or the instruction
    /// pointer was odd or outside the fetchable range.
    MalformedOpcode(u16),
}

/// The outcome of one successful engine step.
#[derive(Clone, Copy, Debug, PartialEq, Eq, Structural)]
pub enum Effect {
    /// An instruction executed with no I/O.
    Step,
    /// An `out` instruction executed; the byte is to be delivered.
    Output(u8),
    /// The instruction is `in` and no input byte was supplied; nothing changed.
    AwaitingInput,
    /// The pointer is the halt sentinel: the machine is (or already was) halted.
    Halted,
}

/// The mathematical view of one machine: the register file, the RAM bytes,
/// the live stack words (bottom first), and the instruction pointer.
#[verifier::ext_equal]
pub ghost struct Model {
    pub regs: Seq<u16>,
    pub ram: Seq<u8>,
    pub stack: Seq<u16>,
    pub ptr: u16,
}

/// Every word the model stores is in the 15-bit domain and the shapes are fixed.
pub open spec fn model_wf(m: Model) -> bool {
    &&& m.regs.len() == REG_COUNT
    &&& m.ram.len() == RAM_BYTES
    &&& forall|i: int| 0 <= i < m.regs.len() ==> m.regs[i] < WORD_COUNT
    &&& forall|i: int| 0 <= i < m.stack.len() ==> m.stack[i] < WORD_COUNT
}

/// The model of a machine freshly seeded from a program image: zeroed
/// registers, RAM holding the image padded with zeros, empty stack, pointer 0.
pub open spec fn fresh_model(image: Seq<u8>) -> Model {
    Model {
        regs: Seq::new(REG_COUNT as nat, |i: int| 0u16),
        ram: Seq::new(RAM_BYTES as nat, |i: int| if i < image.len() { image[i] } else { 0u8 }),
        stack: Seq::empty(),
        ptr: 0u16,
    }
}

/// The word stored little-endian at byte offset `p`.
pub open spec fn word_at(ram: Seq<u8>, p: int) -> u16 {
    (ram[p] + 256 * ram[p + 1]) as u16
}

/// RAM after storing word `v` little-endian at byte offset `p`.
pub open spec fn store_word(ram: Seq<u8>, p: int, v: u16) -> Seq<u8> {
    ram.update(p, (v % 256) as u8).update(p + 1, (v / 256) as u8)
}

/// Operand resolution to a word value: 0 to 32767 is the literal itself,
/// 32768 to 32775 is the current value of the register it names, and
/// anything above is invalid.
pub open spec fn operand_value(m: Model, p: int) -> Result<u16, Error> {
    let w = word_at(m.ram, p);
    if w < WORD_COUNT {
        Ok(w)
    } else if w <= REG_TOP {
        Ok(m.regs[w - REG_BASE])
    } else {
        Err(Error::InvalidValue(w))
    }
}

/// Operand resolution to a destination register index; a literal is never a
/// valid destination.
pub open spec fn operand_register(m: Model, p: int) -> Result<usize, Error> {
    let w = word_at(m.ram, p);
    if w < REG_BASE {
        Err(Error::InvalidRegister(w))
    } else if w <= REG_TOP {
        Ok((w - REG_BASE) as usize)
    } else {
        Err(Error::InvalidValue(w))
    }
}

/// Operand resolution to a RAM byte offset: the word resolved exactly as
/// `operand_value`, then shifted into byte units by multiplying by two.
pub open spec fn operand_address(m: Model, p: int) -> Result<u16, Error> {
    let w = word_at(m.ram, p);
    if w < WORD_COUNT {
        Ok((w * 2) as u16)
    } else if w <= REG_TOP {
        Ok((m.regs[w - REG_BASE] * 2) as u16)
    } else {
        Err(Error::InvalidAddress(w))
    }
}

/// Sum reduced into the word domain.
pub open spec fn add_word(b: u16, c: u16) -> u16 {
    ((b + c) % (WORD_COUNT as int)) as u16
}

/// Wide product reduced into the word domain.
pub open spec fn mult_word(b: u16, c: u16) -> u16 {
    ((b * c) % (WORD_COUNT as int)) as u16
}

/// Bitwise complement masked to 15 bits.
pub open spec fn not_word(b: u16) -> u16 {
    !b & 0x7fff
}

pub open spec fn set_reg(m: Model, i: int, v: u16) -> Model {
    Model { regs: m.regs.update(i, v), ram: m.ram, stack: m.stack, ptr: m.ptr }
}

pub open spec fn set_ram(m: Model, ram: Seq<u8>) -> Model {
    Model { regs: m.regs, ram, stack: m.stack, ptr: m.ptr }
}

pub open spec fn set_stack(m: Model, stack: Seq<u16>) -> Model {
    Model { regs: m.regs, ram: m.ram, stack, ptr: m.ptr }
}

pub open spec fn set_ptr(m: Model, ptr: u16) -> Model {
    Model { regs: m.regs, ram: m.ram, stack: m.stack, ptr }
}

/// Transition of a three-operand instruction that stores `f(b, c)` in
/// register `a`: the new model, and the next pointer or the fatal error.
pub open spec fn spec_binop(m: Model, p: int, f: spec_fn(u16, u16) -> u16) -> (Model, Result<
    u16,
    Error,
>) {
    match operand_register(m, p + 2) {
        Err(e) => (m, Err(e)),
        Ok(a) => match operand_value(m, p + 4) {
            Err(e) => (m, Err(e)),
            Ok(b) => match operand_value(m, p + 6) {
                Err(e) => (m, Err(e)),
                Ok(c) => (set_reg(m, a as int, f(b, c)), Ok((p + 8) as u16)),
            },
        },
    }
}

/// Transition of a two-operand instruction that stores `f(b)` in register `a`.
pub open spec fn spec_unop(m: Model, p: int, f: spec_fn(u16) -> u16) -> (Model, Result<
    u16,
    Error,
>) {
    match operand_register(m, p + 2) {
        Err(e) => (m, Err(e)),
        Ok(a) => match operand_value(m, p + 4) {
            Err(e) => (m, Err(e)),
            Ok(b) => (set_reg(m, a as int, f(b)), Ok((p + 6) as u16)),
        },
    }
}

pub open spec fn spec_op_set(m: Model, p: int) -> (Model, Result<u16, Error>) {
    spec_unop(m, p, (|b: u16| b))
}

pub open spec fn spec_op_push(m: Model, p: int) -> (Model, Result<u16, Error>) {
    match operand_value(m, p + 2) {
        Err(e) => (m, Err(e)),
        Ok(v) => (set_stack(m, m.stack.push(v)), Ok((p + 4) as u16)),
    }
}

pub open spec fn spec_op_pop(m: Model, p: int) -> (Model, Result<u16, Error>) {
    match operand_register(m, p + 2) {
        Err(e) => (m, Err(e)),
        Ok(a) => if m.stack.len() == 0 {
            (m, Err(Error::EmptyStack))
        } else {
            (set_stack(set_reg(m, a as int, m.stack.last()), m.stack.drop_last()), Ok(
                (p + 4) as u16,
            ))
        },
    }
}

pub open spec fn spec_op_eq(m: Model, p: int) -> (Model, Result<u16, Error>) {
    spec_binop(m, p, (|b: u16, c: u16| if b == c { 1u16 } else { 0u16 }))
}

pub open spec fn spec_op_gt(m: Model, p: int) -> (Model, Result<u16, Error>) {
    spec_binop(m, p, (|b: u16, c: u16| if b > c { 1u16 } else { 0u16 }))
}

pub open spec fn spec_op_jmp(m: Model, p: int) -> (Model, Result<u16, Error>) {
    match operand_address(m, p + 2) {
        Err(e) => (m, Err(e)),
        Ok(t) => (m, Ok(t)),
    }
}

pub open spec fn spec_op_jt(m: Model, p: int) -> (Model, Result<u16, Error>) {
    match operand_value(m, p + 2) {
        Err(e) => (m, Err(e)),
        Ok(v) => if v != 0 {
            match operand_address(m, p + 4) {
                Err(e) => (m, Err(e)),
                Ok(t) => (m, Ok(t)),
            }
        } else {
            (m, Ok((p + 6) as u16))
        },
    }
}

pub open spec fn spec_op_jf(m: Model, p: int) -> (Model, Result<u16, Error>) {
    match operand_value(m, p + 2) {
        Err(e) => (m, Err(e)),
        Ok(v) => if v == 0 {
            match operand_address(m, p + 4) {
                Err(e) => (m, Err(e)),
                Ok(t) => (m, Ok(t)),
            }
        } else {
            (m, Ok((p + 6) as u16))
        },
    }
}

pub open spec fn spec_op_add(m: Model, p: int) -> (Model, Result<u16, Error>) {
    spec_binop(m, p, (|b: u16, c: u16| add_word(b, c)))
}

pub open spec fn spec_op_mult(m: Model, p: int) -> (Model, Result<u16, Error>) {
    spec_binop(m, p, (|b: u16, c: u16| mult_word(b, c)))
}

/// `mod` with a zero divisor has no defined result; it is reported as an
/// invalid value rather than a crash.
pub open spec fn spec_op_mod(m: Model, p: int) -> (Model, Result<u16, Error>) {
    match operand_register(m, p + 2) {
        Err(e) => (m, Err(e)),
        Ok(a) => match operand_value(m, p + 4) {
            Err(e) => (m, Err(e)),
            Ok(b) => match operand_value(m, p + 6) {
                Err(e) => (m, Err(e)),
                Ok(c) => if c == 0 {
                    (m, Err(Error::InvalidValue(0)))
                } else {
                    (set_reg(m, a as int, (b % c) as u16), Ok((p + 8) as u16))
                },
            },
        },
    }
}

pub open spec fn spec_op_and(m: Model, p: int) -> (Model, Result<u16, Error>) {
    spec_binop(m, p, (|b: u16, c: u16| b & c))
}

pub open spec fn spec_op_or(m: Model, p: int) -> (Model, Result<u16, Error>) {
    spec_binop(m, p, (|b: u16, c: u16| b | c))
}

pub open spec fn spec_op_not(m: Model, p: int) -> (Model, Result<u16, Error>) {
    spec_unop(m, p, (|b: u16| not_word(b)))
}

/// `rmem` loads the word at the resolved address and resolves it again as an
/// operand value, so a stored register reference reads that register.
pub open spec fn spec_op_rmem(m: Model, p: int) -> (Model, Result<u16, Error>) {
    match operand_register(m, p + 2) {
        Err(e) => (m, Err(e)),
        Ok(a) => match operand_address(m, p + 4) {
            Err(e) => (m, Err(e)),
            Ok(t) => match operand_value(m, t as int) {
                Err(e) => (m, Err(e)),
                Ok(v) => (set_reg(m, a as int, v), Ok((p + 6) as u16)),
            },
        },
    }
}

pub open spec fn spec_op_wmem(m: Model, p: int) -> (Model, Result<u16, Error>) {
    match operand_address(m, p + 2) {
        Err(e) => (m, Err(e)),
        Ok(t) => match operand_value(m, p + 4) {
            Err(e) => (m, Err(e)),
            Ok(v) => (set_ram(m, store_word(m.ram, t as int, v)), Ok((p + 6) as u16)),
        },
    }
}

/// `call` pushes the word address of the following instruction (the call is
/// two words long) and jumps to the resolved target.
pub open spec fn spec_op_call(m: Model, p: int) -> (Model, Result<u16, Error>) {
    match operand_address(m, p + 2) {
        Err(e) => (m, Err(e)),
        Ok(t) => (set_stack(m, m.stack.push((p / 2 + 2) as u16)), Ok(t)),
    }
}

/// `ret` on an empty stack is a graceful halt, not an error.
pub open spec fn spec_op_ret(m: Model, p: int) -> (Model, Result<u16, Error>) {
    if m.stack.len() == 0 {
        (m, Ok(HALT_PTR))
    } else {
        (set_stack(m, m.stack.drop_last()), Ok((m.stack.last() * 2) as u16))
    }
}

/// `out` delivers the low byte of the resolved value.
pub open spec fn spec_op_out(m: Model, p: int) -> (Model, Result<(u16, u8), Error>) {
    match operand_value(m, p + 2) {
        Err(e) => (m, Err(e)),
        Ok(v) => (m, Ok(((p + 4) as u16, (v % 256) as u8))),
    }
}

/// `in` stores the supplied byte, zero-extended, in the named register.
pub open spec fn spec_op_in(m: Model, p: int, b: u8) -> (Model, Result<u16, Error>) {
    match operand_register(m, p + 2) {
        Err(e) => (m, Err(e)),
        Ok(a) => (set_reg(m, a as int, b as u16), Ok((p + 4) as u16)),
    }
}

/// Transition of one decoded instruction other than `out` and `in`: the new
/// model, and the next byte pointer or the fatal error. Opcodes 19 and 20 are
/// never routed here.
pub open spec fn spec_op(m: Model, op: u8, p: int) -> (Model, Result<u16, Error>) {
    if op == 0 {
        (m, Ok(HALT_PTR))
    } else if op == 1 {
        spec_op_set(m, p)
    } else if op == 2 {
        spec_op_push(m, p)
    } else if op == 3 {
        spec_op_pop(m, p)
    } else if op == 4 {
        spec_op_eq(m, p)
    } else if op == 5 {
        spec_op_gt(m, p)
    } else if op == 6 {
        spec_op_jmp(m, p)
    } else if op == 7 {
        spec_op_jt(m, p)
    } else if op == 8 {
        spec_op_jf(m, p)
    } else if op == 9 {
        spec_op_add(m, p)
    } else if op == 10 {
        spec_op_mult(m, p)
    } else if op == 11 {
        spec_op_mod(m, p)
    } else if op == 12 {
        spec_op_and(m, p)
    } else if op == 13 {
        spec_op_or(m, p)
    } else if op == 14 {
        spec_op_not(m, p)
    } else if op == 15 {
        spec_op_rmem(m, p)
    } else if op == 16 {
        spec_op_wmem(m, p)
    } else if op == 17 {
        spec_op_call(m, p)
    } else if op == 18 {
        spec_op_ret(m, p)
    } else if op == 21 {
        (m, Ok((p + 2) as u16))
    } else {
        (m, Err(Error::MalformedOpcode(op as u16)))
    }
}

/// One engine step: from a machine model and an optionally available input
/// byte to the next model and the step's outcome. This is the machine's whole
/// semantics; the executable engine is proved to follow it exactly.
///
/// A halted machine does not move. An odd pointer, a pointer past the
/// fetchable range, and an unrecognized opcode byte are all fatal. An `in`
/// instruction with no input byte available changes nothing and reports that
/// input is awaited.
pub open spec fn step(m: Model, input: Option<u8>) -> (Model, Result<Effect, Error>) {
    if m.ptr == HALT_PTR {
        (m, Ok(Effect::Halted))
    } else if m.ptr > WORD_COUNT || m.ptr % 2 != 0 {
        (m, Err(Error::MalformedOpcode(m.ptr)))
    } else {
        let p = m.ptr as int;
        let op = m.ram[p];
        if op == 19 {
            match spec_op_out(m, p) {
                (m1, Ok((q, b))) => (set_ptr(m1, q), Ok(Effect::Output(b))),
                (m1, Err(e)) => (m1, Err(e)),
            }
        } else if op == 20 {
            match input {
                Option::None => (m, Ok(Effect::AwaitingInput)),
                Option::Some(b) => match spec_op_in(m, p, b) {
                    (m1, Ok(q)) => (set_ptr(m1, q), Ok(Effect::Step)),
                    (m1, Err(e)) => (m1, Err(e)),
                },
            }
        } else if op <= 21 {
            match spec_op(m, op, p) {
                (m1, Ok(q)) => (
                    set_ptr(m1, q),
                    Ok(if q == HALT_PTR {
                        Effect::Halted
                    } else {
                        Effect::Step
                    }),
                ),
                (m1, Err(e)) => (m1, Err(e)),
            }
        } else {
            (m, Err(Error::MalformedOpcode(op as u16)))
        }
    }
}

/// Lengths the stack buffer can take: the floor, doubled any number of times.
pub open spec fn valid_stack_len(n: int) -> bool
    decreases n,
{
    n == STACK_FLOOR || (n > STACK_FLOOR && n % 2 == 0 && valid_stack_len(n / 2))
}

/// A valid buffer length is at least the floor, is even, and above the floor
/// is divisible by four.
pub proof fn lemma_valid_stack_len(n: int)
    requires
        valid_stack_len(n),
    ensures
        n >= STACK_FLOOR,
        n % 2 == 0,
        n > STACK_FLOOR ==> n % 4 == 0,
    decreases n,
{
    if n != STACK_FLOOR {
        lemma_valid_stack_len(n / 2);
    }
}

/// The stack buffer length after the engine's once-per-step resize check:
/// double when the live count has reached half of the usable buffer, halve
/// when it has fallen to a quarter and the buffer is above the floor.
pub open spec fn capacity_after(cap: int, m: Model) -> int {
    if m.ptr == HALT_PTR || m.ptr > WORD_COUNT {
        cap
    } else if m.stack.len() >= (cap - 2) / 2 {
        2 * cap
    } else if 4 * m.stack.len() <= cap - 2 && cap > STACK_FLOOR {
        cap / 2
    } else {
        cap
    }
}

} // verus!
