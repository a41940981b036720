//! The executable machine: the state it owns, operand resolution, one
//! function per opcode, the stack resize policy, and the fetch-decode-execute
//! engine. Every function is proved to follow the semantics in [`crate::isa`].

use vstd::prelude::*;

use crate::isa::Effect;
use crate::isa::Error;
use crate::isa::HALT_PTR;
use crate::isa::Model;
use crate::isa::RAM_BYTES;
use crate::isa::REG_BASE;
use crate::isa::REG_COUNT;
use crate::isa::REG_TOP;
use crate::isa::STACK_FLOOR;
use crate::isa::WORD_COUNT;
use crate::isa::capacity_after;
use crate::isa::fresh_model;
use crate::isa::lemma_valid_stack_len;
use crate::isa::model_wf;
use crate::isa::operand_address;
use crate::isa::operand_register;
use crate::isa::operand_value;
use crate::isa::spec_op;
use crate::isa::spec_op_add;
use crate::isa::spec_op_and;
use crate::isa::spec_op_call;
use crate::isa::spec_op_eq;
use crate::isa::spec_op_gt;
use crate::isa::spec_op_in;
use crate::isa::spec_op_jf;
use crate::isa::spec_op_jmp;
use crate::isa::spec_op_jt;
use crate::isa::spec_op_mod;
use crate::isa::spec_op_mult;
use crate::isa::spec_op_not;
use crate::isa::spec_op_or;
use crate::isa::spec_op_out;
use crate::isa::spec_op_pop;
use crate::isa::spec_op_push;
use crate::isa::spec_op_ret;
use crate::isa::spec_op_rmem;
use crate::isa::spec_op_set;
use crate::isa::spec_op_wmem;
use crate::isa::step;
use crate::isa::valid_stack_len;
use crate::isa::word_at;
use crate::laws::lemma_arith_in_word_range;

verus! {

/// One machine: the immutable program image, the instruction pointer, the
/// register file, RAM, and the growable stack. The stack is kept as a live
/// count plus a buffer that the resize policy grows and shrinks; only the
/// first `stack_len` words are live.
pub struct State {
    bin: Vec<u8>,
    program_ptr: u16,
    registers: Vec<u16>,
    ram: Vec<u8>,
    stack_len: usize,
    stack: Vec<u16>,
}

impl View for State {
    type V = Model;

    closed spec fn view(&self) -> Model {
        Model {
            regs: self.registers@,
            ram: self.ram@,
            stack: self.stack@.subrange(0, self.stack_len as int),
            ptr: self.program_ptr,
        }
    }
}

impl State {
    /// The program image the machine was built from and is reset to.
    pub closed spec fn image(&self) -> Seq<u8> {
        self.bin@
    }

    /// Current length of the stack buffer.
    pub closed spec fn stack_capacity(&self) -> int {
        self.stack@.len() as int
    }

    /// Well-formed machine: the model's shapes and word ranges hold, the
    /// image fits RAM, the buffer length comes from the resize policy, and
    /// the live count is within the half-capacity bound the policy keeps.
    pub closed spec fn wf(&self) -> bool {
        &&& model_wf(self@)
        &&& self.bin@.len() <= RAM_BYTES
        &&& self.stack_len <= self.stack@.len()
        &&& 2 * self.stack_len <= self.stack@.len()
        &&& valid_stack_len(self.stack_capacity())
    }

    /// What well-formedness guarantees of the visible model and capacity.
    pub proof fn lemma_wf_model(&self)
        requires
            self.wf(),
        ensures
            model_wf(self@),
            self.image().len() <= RAM_BYTES,
            2 * self@.stack.len() <= self.stack_capacity(),
            self.stack_capacity() >= STACK_FLOOR,
    {
        lemma_valid_stack_len(self.stack_capacity());
    }

    /// Build a machine from a program image: RAM seeded with the image and
    /// padded with zeros, registers zeroed, stack empty at the floor size,
    /// pointer at zero.
    pub fn init_with(bin: &[u8]) -> (s: State)
        requires
            bin@.len() <= RAM_BYTES,
        ensures
            s.wf(),
            s@ == fresh_model(bin@),
            s.image() == bin@,
            s.stack_capacity() == STACK_FLOOR,
    {
        let mut image: Vec<u8> = Vec::new();
        let mut i: usize = 0;
        while i < bin.len()
            invariant
                i <= bin@.len(),
                image@ == bin@.subrange(0, i as int),
            decreases bin@.len() - i,
        {
            image.push(bin[i]);
            i += 1;
        }
        proof {
            assert(image@ =~= bin@);
        }
        let s = State {
            bin: image,
            program_ptr: 0,
            registers: zeros_u16(REG_COUNT),
            ram: seeded_ram(bin),
            stack_len: 0,
            stack: zeros_u16(STACK_FLOOR),
        };
        proof {
            assert(s@ =~= fresh_model(bin@));
            assert(valid_stack_len(STACK_FLOOR as int));
        }
        s
    }

    /// Restore the machine to its initial state in place of a rebuild:
    /// pointer zero, registers zeroed, the stack reallocated at the floor
    /// size, RAM re-seeded from the program image.
    pub fn reset(self) -> (s: State)
        requires
            self.wf(),
        ensures
            s.wf(),
            s@ == fresh_model(self.image()),
            s.image() == self.image(),
            s.stack_capacity() == STACK_FLOOR,
    {
        let mut s = self;
        s.program_ptr = 0;
        s.registers = zeros_u16(REG_COUNT);
        s.stack = zeros_u16(STACK_FLOOR);
        s.stack_len = 0;
        let ram = seeded_ram(s.bin.as_slice());
        s.ram = ram;
        proof {
            assert(s@ =~= fresh_model(s.bin@));
            assert(valid_stack_len(STACK_FLOOR as int));
        }
        s
    }

    /// Whether the machine has reached the halt sentinel.
    pub fn done(&self) -> (r: bool)
        ensures
            r == (self@.ptr == HALT_PTR),
    {
        self.program_ptr == HALT_PTR
    }

    /// Current value of register `i`.
    pub fn register(&self, i: usize) -> (r: u16)
        requires
            self.wf(),
            i < REG_COUNT,
        ensures
            r == self@.regs[i as int],
    {
        self.registers[i]
    }

    /// Number of live stack words.
    pub fn stack_depth(&self) -> (n: usize)
        requires
            self.wf(),
        ensures
            n == self@.stack.len(),
    {
        self.stack_len
    }

    /// Current stack buffer length.
    pub fn stack_buffer_len(&self) -> (n: usize)
        ensures
            n == self.stack_capacity(),
    {
        self.stack.len()
    }

    /// Current instruction pointer: a byte offset, or the halt sentinel.
    pub fn pointer(&self) -> (p: u16)
        ensures
            p == self@.ptr,
    {
        self.program_ptr
    }

    /// Double the stack buffer, keeping every live word.
    pub fn expand_stack(&mut self)
        requires
            old(self).wf(),
            2 * old(self).stack_capacity() <= usize::MAX,
        ensures
            final(self).wf(),
            final(self)@ == old(self)@,
            final(self).image() == old(self).image(),
            final(self).stack_capacity() == 2 * old(self).stack_capacity(),
    {
        proof {
            lemma_valid_stack_len(self.stack_capacity());
        }
        let n = self.stack.len() * 2;
        self.stack.resize(n, 0);
        proof {
            assert(self@.stack =~= old(self)@.stack);
            assert(self@ =~= old(self)@);
        }
    }

    /// Halve the stack buffer, keeping every live word.
    pub fn shrink_stack(&mut self)
        requires
            old(self).wf(),
            old(self).stack_capacity() > STACK_FLOOR,
            4 * old(self)@.stack.len() <= old(self).stack_capacity() - 2,
        ensures
            final(self).wf(),
            final(self)@ == old(self)@,
            final(self).image() == old(self).image(),
            final(self).stack_capacity() == old(self).stack_capacity() / 2,
    {
        proof {
            lemma_valid_stack_len(self.stack_capacity());
        }
        let n = self.stack.len() / 2;
        self.stack.truncate(n);
        proof {
            assert(self@.stack =~= old(self)@.stack);
            assert(self@ =~= old(self)@);
        }
    }

    /// One engine step. The machine follows `step` of the semantics exactly:
    /// a halted machine does not move; otherwise the stack resize policy runs
    /// once, the opcode at the pointer is fetched and executed, and the
    /// pointer advances or the fatal error is returned with the machine
    /// otherwise unchanged. `input` is consumed only by an `in` instruction;
    /// an `in` with no input byte reports `AwaitingInput` and changes nothing.
    /// A doubled stack buffer must still fit a `usize`, so that the grow step
    /// of the resize policy cannot overflow.
    pub fn next(&mut self, input: Option<u8>) -> (r: Result<Effect, Error>)
        requires
            old(self).wf(),
            2 * old(self).stack_capacity() <= usize::MAX,
        ensures
            final(self).wf(),
            final(self).image() == old(self).image(),
            final(self).stack_capacity() == capacity_after(old(self).stack_capacity(), old(self)@),
            ({
                let (m2, res) = step(old(self)@, input);
                final(self)@ == m2 && r == res
            }),
    {
        let ptr = self.program_ptr;
        if ptr == HALT_PTR {
            return Ok(Effect::Halted);
        }
        if ptr > WORD_COUNT {
            return Err(Error::MalformedOpcode(ptr));
        }
        proof {
            lemma_valid_stack_len(self.stack_capacity());
        }
        // The resize policy runs once per step, before dispatch.
        let cap = self.stack.len();
        if self.stack_len >= (cap - 2) / 2 {
            self.expand_stack();
        } else if self.stack_len <= (cap - 2) / 4 && cap > STACK_FLOOR {
            self.shrink_stack();
        }
        proof {
            assert(self@ == old(self)@);
            assert(2 * self@.stack.len() + 2 <= self.stack_capacity());
            assert(self.stack_capacity() == capacity_after(
                old(self).stack_capacity(),
                old(self)@,
            ));
        }
        if ptr % 2 != 0 {
            return Err(Error::MalformedOpcode(ptr));
        }
        let op = self.ram[ptr as usize];
        if op == 19 {
            match op_out(self, ptr) {
                Ok((q, b)) => {
                    self.program_ptr = q;
                    proof {
                        assert(self@ =~= step(old(self)@, input).0);
                    }
                    Ok(Effect::Output(b))
                },
                Err(e) => Err(e),
            }
        } else if op == 20 {
            match input {
                Option::None => Ok(Effect::AwaitingInput),
                Option::Some(b) => match op_in(self, ptr, b) {
                    Ok(q) => {
                        self.program_ptr = q;
                        proof {
                            assert(self@ =~= step(old(self)@, input).0);
                        }
                        Ok(Effect::Step)
                    },
                    Err(e) => Err(e),
                },
            }
        } else if op <= 21 {
            let res = dispatch(self, op, ptr);
            match res {
                Ok(q) => {
                    self.program_ptr = q;
                    proof {
                        assert(self@ =~= step(old(self)@, input).0);
                    }
                    if q == HALT_PTR {
                        Ok(Effect::Halted)
                    } else {
                        Ok(Effect::Step)
                    }
                },
                Err(e) => Err(e),
            }
        } else {
            Err(Error::MalformedOpcode(op as u16))
        }
    }
}

/// Execute one decoded instruction other than `out` and `in`, exactly as
/// `spec_op` describes it.
fn dispatch(s: &mut State, op: u8, ptr: u16) -> (r: Result<u16, Error>)
    requires
        old(s).wf(),
        ptr < HALT_PTR,
        op <= 21 && op != 19 && op != 20,
        2 * old(s)@.stack.len() + 2 <= old(s).stack_capacity(),
    ensures
        final(s).wf(),
        final(s).image() == old(s).image(),
        final(s).stack_capacity() == old(s).stack_capacity(),
        ({
            let (m2, res) = spec_op(old(s)@, op, ptr as int);
            final(s)@ == m2 && r == res
        }),
{
    match op {
        0 => op_halt(),
        1 => op_set(s, ptr),
        2 => op_push(s, ptr),
        3 => op_pop(s, ptr),
        4 => op_eq(s, ptr),
        5 => op_gt(s, ptr),
        6 => op_jmp(s, ptr),
        7 => op_jt(s, ptr),
        8 => op_jf(s, ptr),
        9 => op_add(s, ptr),
        10 => op_mult(s, ptr),
        11 => op_mod(s, ptr),
        12 => op_and(s, ptr),
        13 => op_or(s, ptr),
        14 => op_not(s, ptr),
        15 => op_rmem(s, ptr),
        16 => op_wmem(s, ptr),
        17 => op_call(s, ptr),
        18 => op_ret(s, ptr),
        _ => op_noop(s, ptr),
    }
}

/// A vector of `n` zero words.
fn zeros_u16(n: usize) -> (v: Vec<u16>)
    ensures
        v@.len() == n,
        forall|i: int| 0 <= i < n ==> v@[i] == 0u16,
{
    let mut v: Vec<u16> = Vec::new();
    let mut i: usize = 0;
    while i < n
        invariant
            i <= n,
            v@.len() == i,
            forall|j: int| 0 <= j < i ==> v@[j] == 0u16,
        decreases n - i,
    {
        v.push(0);
        i += 1;
    }
    v
}

/// RAM seeded from a program image: the image's bytes, padded with zeros.
fn seeded_ram(bin: &[u8]) -> (ram: Vec<u8>)
    requires
        bin@.len() <= RAM_BYTES,
    ensures
        ram@ == fresh_model(bin@).ram,
{
    let mut ram: Vec<u8> = Vec::new();
    let mut i: usize = 0;
    while i < RAM_BYTES
        invariant
            i <= RAM_BYTES,
            bin@.len() <= RAM_BYTES,
            ram@.len() == i,
            forall|j: int| 0 <= j < i ==> ram@[j] == (if j < bin@.len() {
                bin@[j]
            } else {
                0u8
            }),
        decreases RAM_BYTES - i,
    {
        if i < bin.len() {
            ram.push(bin[i]);
        } else {
            ram.push(0);
        }
        i += 1;
    }
    proof {
        assert(ram@ =~= fresh_model(bin@).ram);
    }
    ram
}

/// The word stored little-endian at byte offset `p` of RAM.
fn load_word(s: &State, p: u16) -> (w: u16)
    requires
        s.wf(),
        p as int + 1 < RAM_BYTES,
    ensures
        w == word_at(s@.ram, p as int),
{
    let lo = s.ram[p as usize];
    let hi = s.ram[p as usize + 1];
    lo as u16 + (hi as u16) * 256
}

/// Resolve the operand at byte offset `ptr` to a word value: a literal stands
/// for itself, a register reference for the register's current value.
pub fn read_uint15(s: &State, ptr: u16) -> (r: Result<u16, Error>)
    requires
        s.wf(),
        ptr as int + 1 < RAM_BYTES,
    ensures
        r == operand_value(s@, ptr as int),
        r matches Ok(v) ==> v < WORD_COUNT,
{
    let w = load_word(s, ptr);
    if w < WORD_COUNT {
        Ok(w)
    } else if w <= REG_TOP {
        Ok(s.registers[(w - REG_BASE) as usize])
    } else {
        Err(Error::InvalidValue(w))
    }
}

/// Resolve the operand at byte offset `ptr` to a destination register index;
/// a literal is never a valid destination.
pub fn read_register(s: &State, ptr: u16) -> (r: Result<usize, Error>)
    requires
        s.wf(),
        ptr as int + 1 < RAM_BYTES,
    ensures
        r == operand_register(s@, ptr as int),
        r matches Ok(a) ==> a < REG_COUNT,
{
    let w = load_word(s, ptr);
    if w < REG_BASE {
        Err(Error::InvalidRegister(w))
    } else if w <= REG_TOP {
        Ok((w - REG_BASE) as usize)
    } else {
        Err(Error::InvalidValue(w))
    }
}

/// Resolve the operand at byte offset `ptr` to a RAM byte offset: the word it
/// resolves to, times two. Operands and stored words are word-addressed; the
/// instruction pointer and RAM are byte-addressed.
pub fn read_uint15_address(s: &State, ptr: u16) -> (r: Result<u16, Error>)
    requires
        s.wf(),
        ptr as int + 1 < RAM_BYTES,
    ensures
        r == operand_address(s@, ptr as int),
        r matches Ok(t) ==> t as int + 1 < RAM_BYTES && t % 2 == 0,
{
    let w = load_word(s, ptr);
    if w < WORD_COUNT {
        Ok(w * 2)
    } else if w <= REG_TOP {
        Ok(s.registers[(w - REG_BASE) as usize] * 2)
    } else {
        Err(Error::InvalidAddress(w))
    }
}

/// `halt`: the next pointer is the halt sentinel.
pub fn op_halt() -> (r: Result<u16, Error>)
    ensures
        r == Ok::<u16, Error>(HALT_PTR),
{
    Ok(HALT_PTR)
}

/// `set a b`: register `a` := value `b`.
pub fn op_set(s: &mut State, ptr: u16) -> (r: Result<u16, Error>)
    requires
        old(s).wf(),
        ptr < HALT_PTR,
    ensures
        final(s).wf(),
        final(s).image() == old(s).image(),
        final(s).stack_capacity() == old(s).stack_capacity(),
        ({
            let (m2, res) = spec_op_set(old(s)@, ptr as int);
            final(s)@ == m2 && r == res
        }),
{
    let a = match read_register(s, ptr + 2) {
        Ok(a) => a,
        Err(e) => {
            return Err(e);
        },
    };
    let b = match read_uint15(s, ptr + 4) {
        Ok(v) => v,
        Err(e) => {
            return Err(e);
        },
    };
    s.registers[a] = b;
    proof {
        assert(s@ =~= spec_op_set(old(s)@, ptr as int).0);
    }
    Ok(ptr + 6)
}

/// `push a`: push value `a` onto the stack.
pub fn op_push(s: &mut State, ptr: u16) -> (r: Result<u16, Error>)
    requires
        old(s).wf(),
        ptr < HALT_PTR,
        2 * old(s)@.stack.len() + 2 <= old(s).stack_capacity(),
    ensures
        final(s).wf(),
        final(s).image() == old(s).image(),
        final(s).stack_capacity() == old(s).stack_capacity(),
        ({
            let (m2, res) = spec_op_push(old(s)@, ptr as int);
            final(s)@ == m2 && r == res
        }),
{
    let v = match read_uint15(s, ptr + 2) {
        Ok(v) => v,
        Err(e) => {
            return Err(e);
        },
    };
    let sp = s.stack_len;
    let buf_len = s.stack.len();
    proof {
        assert(old(s)@.stack.len() == sp);
        assert(sp < buf_len);
    }
    s.stack[sp] = v;
    s.stack_len = sp + 1;
    proof {
        assert(s@.stack =~= old(s)@.stack.push(v));
        assert(s@ =~= spec_op_push(old(s)@, ptr as int).0);
    }
    Ok(ptr + 4)
}

/// `pop a`: pop the top of the stack into register `a`; an empty stack is a
/// fatal error.
pub fn op_pop(s: &mut State, ptr: u16) -> (r: Result<u16, Error>)
    requires
        old(s).wf(),
        ptr < HALT_PTR,
    ensures
        final(s).wf(),
        final(s).image() == old(s).image(),
        final(s).stack_capacity() == old(s).stack_capacity(),
        ({
            let (m2, res) = spec_op_pop(old(s)@, ptr as int);
            final(s)@ == m2 && r == res
        }),
{
    let a = match read_register(s, ptr + 2) {
        Ok(a) => a,
        Err(e) => {
            return Err(e);
        },
    };
    if s.stack_len == 0 {
        return Err(Error::EmptyStack);
    }
    let sp = s.stack_len - 1;
    s.stack_len = sp;
    let v = s.stack[sp];
    s.registers[a] = v;
    proof {
        assert(v == old(s)@.stack.last());
        assert(s@.stack =~= old(s)@.stack.drop_last());
        assert(s@ =~= spec_op_pop(old(s)@, ptr as int).0);
    }
    Ok(ptr + 4)
}

/// `eq a b c`: register `a` := 1 if value `b` equals value `c`, else 0.
pub fn op_eq(s: &mut State, ptr: u16) -> (r: Result<u16, Error>)
    requires
        old(s).wf(),
        ptr < HALT_PTR,
    ensures
        final(s).wf(),
        final(s).image() == old(s).image(),
        final(s).stack_capacity() == old(s).stack_capacity(),
        ({
            let (m2, res) = spec_op_eq(old(s)@, ptr as int);
            final(s)@ == m2 && r == res
        }),
{
    let a = match read_register(s, ptr + 2) {
        Ok(a) => a,
        Err(e) => {
            return Err(e);
        },
    };
    let b = match read_uint15(s, ptr + 4) {
        Ok(v) => v,
        Err(e) => {
            return Err(e);
        },
    };
    let c = match read_uint15(s, ptr + 6) {
        Ok(v) => v,
        Err(e) => {
            return Err(e);
        },
    };
    let v: u16 = if b == c {
        1
    } else {
        0
    };
    s.registers[a] = v;
    proof {
        assert(s@ =~= spec_op_eq(old(s)@, ptr as int).0);
    }
    Ok(ptr + 8)
}

/// `gt a b c`: register `a` := 1 if value `b` is greater than value `c`, else 0.
pub fn op_gt(s: &mut State, ptr: u16) -> (r: Result<u16, Error>)
    requires
        old(s).wf(),
        ptr < HALT_PTR,
    ensures
        final(s).wf(),
        final(s).image() == old(s).image(),
        final(s).stack_capacity() == old(s).stack_capacity(),
        ({
            let (m2, res) = spec_op_gt(old(s)@, ptr as int);
            final(s)@ == m2 && r == res
        }),
{
    let a = match read_register(s, ptr + 2) {
        Ok(a) => a,
        Err(e) => {
            return Err(e);
        },
    };
    let b = match read_uint15(s, ptr + 4) {
        Ok(v) => v,
        Err(e) => {
            return Err(e);
        },
    };
    let c = match read_uint15(s, ptr + 6) {
        Ok(v) => v,
        Err(e) => {
            return Err(e);
        },
    };
    let v: u16 = if b > c {
        1
    } else {
        0
    };
    s.registers[a] = v;
    proof {
        assert(s@ =~= spec_op_gt(old(s)@, ptr as int).0);
    }
    Ok(ptr + 8)
}

/// `jmp a`: jump to address `a`.
pub fn op_jmp(s: &mut State, ptr: u16) -> (r: Result<u16, Error>)
    requires
        old(s).wf(),
        ptr < HALT_PTR,
    ensures
        final(s).wf(),
        final(s).image() == old(s).image(),
        final(s).stack_capacity() == old(s).stack_capacity(),
        ({
            let (m2, res) = spec_op_jmp(old(s)@, ptr as int);
            final(s)@ == m2 && r == res
        }),
{
    read_uint15_address(s, ptr + 2)
}

/// `jt a b`: if value `a` is nonzero, jump to address `b`; else fall through.
pub fn op_jt(s: &mut State, ptr: u16) -> (r: Result<u16, Error>)
    requires
        old(s).wf(),
        ptr < HALT_PTR,
    ensures
        final(s).wf(),
        final(s).image() == old(s).image(),
        final(s).stack_capacity() == old(s).stack_capacity(),
        ({
            let (m2, res) = spec_op_jt(old(s)@, ptr as int);
            final(s)@ == m2 && r == res
        }),
{
    let v = match read_uint15(s, ptr + 2) {
        Ok(v) => v,
        Err(e) => {
            return Err(e);
        },
    };
    if v != 0 {
        read_uint15_address(s, ptr + 4)
    } else {
        Ok(ptr + 6)
    }
}

/// `jf a b`: if value `a` is zero, jump to address `b`; else fall through.
pub fn op_jf(s: &mut State, ptr: u16) -> (r: Result<u16, Error>)
    requires
        old(s).wf(),
        ptr < HALT_PTR,
    ensures
        final(s).wf(),
        final(s).image() == old(s).image(),
        final(s).stack_capacity() == old(s).stack_capacity(),
        ({
            let (m2, res) = spec_op_jf(old(s)@, ptr as int);
            final(s)@ == m2 && r == res
        }),
{
    let v = match read_uint15(s, ptr + 2) {
        Ok(v) => v,
        Err(e) => {
            return Err(e);
        },
    };
    if v == 0 {
        read_uint15_address(s, ptr + 4)
    } else {
        Ok(ptr + 6)
    }
}

/// `add a b c`: register `a` := (b + c) mod 32768.
pub fn op_add(s: &mut State, ptr: u16) -> (r: Result<u16, Error>)
    requires
        old(s).wf(),
        ptr < HALT_PTR,
    ensures
        final(s).wf(),
        final(s).image() == old(s).image(),
        final(s).stack_capacity() == old(s).stack_capacity(),
        ({
            let (m2, res) = spec_op_add(old(s)@, ptr as int);
            final(s)@ == m2 && r == res
        }),
{
    let a = match read_register(s, ptr + 2) {
        Ok(a) => a,
        Err(e) => {
            return Err(e);
        },
    };
    let b = match read_uint15(s, ptr + 4) {
        Ok(v) => v,
        Err(e) => {
            return Err(e);
        },
    };
    let c = match read_uint15(s, ptr + 6) {
        Ok(v) => v,
        Err(e) => {
            return Err(e);
        },
    };
    let v = (b + c) % WORD_COUNT;
    s.registers[a] = v;
    proof {
        lemma_arith_in_word_range(b, c);
        assert(s@ =~= spec_op_add(old(s)@, ptr as int).0);
    }
    Ok(ptr + 8)
}

/// `mult a b c`: register `a` := (b × c) mod 32768, with a wide intermediate
/// product so the reduction is exact.
pub fn op_mult(s: &mut State, ptr: u16) -> (r: Result<u16, Error>)
    requires
        old(s).wf(),
        ptr < HALT_PTR,
    ensures
        final(s).wf(),
        final(s).image() == old(s).image(),
        final(s).stack_capacity() == old(s).stack_capacity(),
        ({
            let (m2, res) = spec_op_mult(old(s)@, ptr as int);
            final(s)@ == m2 && r == res
        }),
{
    let a = match read_register(s, ptr + 2) {
        Ok(a) => a,
        Err(e) => {
            return Err(e);
        },
    };
    let b = match read_uint15(s, ptr + 4) {
        Ok(v) => v,
        Err(e) => {
            return Err(e);
        },
    };
    let c = match read_uint15(s, ptr + 6) {
        Ok(v) => v,
        Err(e) => {
            return Err(e);
        },
    };
    proof {
        assert(b * c <= 32767 * 32767) by (nonlinear_arith)
            requires
                b < 32768,
                c < 32768,
        ;
    }
    let wide = (b as u32) * (c as u32);
    let v = (wide % 32768) as u16;
    s.registers[a] = v;
    proof {
        lemma_arith_in_word_range(b, c);
        assert(s@ =~= spec_op_mult(old(s)@, ptr as int).0);
    }
    Ok(ptr + 8)
}

/// `mod a b c`: register `a` := b mod c; a zero divisor is reported as an
/// invalid value.
pub fn op_mod(s: &mut State, ptr: u16) -> (r: Result<u16, Error>)
    requires
        old(s).wf(),
        ptr < HALT_PTR,
    ensures
        final(s).wf(),
        final(s).image() == old(s).image(),
        final(s).stack_capacity() == old(s).stack_capacity(),
        ({
            let (m2, res) = spec_op_mod(old(s)@, ptr as int);
            final(s)@ == m2 && r == res
        }),
{
    let a = match read_register(s, ptr + 2) {
        Ok(a) => a,
        Err(e) => {
            return Err(e);
        },
    };
    let b = match read_uint15(s, ptr + 4) {
        Ok(v) => v,
        Err(e) => {
            return Err(e);
        },
    };
    let c = match read_uint15(s, ptr + 6) {
        Ok(v) => v,
        Err(e) => {
            return Err(e);
        },
    };
    if c == 0 {
        return Err(Error::InvalidValue(0));
    }
    let v = b % c;
    s.registers[a] = v;
    proof {
        assert(s@ =~= spec_op_mod(old(s)@, ptr as int).0);
    }
    Ok(ptr + 8)
}

/// `and a b c`: register `a` := b bitwise-and c.
pub fn op_and(s: &mut State, ptr: u16) -> (r: Result<u16, Error>)
    requires
        old(s).wf(),
        ptr < HALT_PTR,
    ensures
        final(s).wf(),
        final(s).image() == old(s).image(),
        final(s).stack_capacity() == old(s).stack_capacity(),
        ({
            let (m2, res) = spec_op_and(old(s)@, ptr as int);
            final(s)@ == m2 && r == res
        }),
{
    let a = match read_register(s, ptr + 2) {
        Ok(a) => a,
        Err(e) => {
            return Err(e);
        },
    };
    let b = match read_uint15(s, ptr + 4) {
        Ok(v) => v,
        Err(e) => {
            return Err(e);
        },
    };
    let c = match read_uint15(s, ptr + 6) {
        Ok(v) => v,
        Err(e) => {
            return Err(e);
        },
    };
    let v = b & c;
    proof {
        assert(b & c < 32768) by (bit_vector)
            requires
                b < 32768,
        ;
    }
    s.registers[a] = v;
    proof {
        assert(s@ =~= spec_op_and(old(s)@, ptr as int).0);
    }
    Ok(ptr + 8)
}

/// `or a b c`: register `a` := b bitwise-or c.
pub fn op_or(s: &mut State, ptr: u16) -> (r: Result<u16, Error>)
    requires
        old(s).wf(),
        ptr < HALT_PTR,
    ensures
        final(s).wf(),
        final(s).image() == old(s).image(),
        final(s).stack_capacity() == old(s).stack_capacity(),
        ({
            let (m2, res) = spec_op_or(old(s)@, ptr as int);
            final(s)@ == m2 && r == res
        }),
{
    let a = match read_register(s, ptr + 2) {
        Ok(a) => a,
        Err(e) => {
            return Err(e);
        },
    };
    let b = match read_uint15(s, ptr + 4) {
        Ok(v) => v,
        Err(e) => {
            return Err(e);
        },
    };
    let c = match read_uint15(s, ptr + 6) {
        Ok(v) => v,
        Err(e) => {
            return Err(e);
        },
    };
    let v = b | c;
    proof {
        assert(b < 32768 && c < 32768 ==> (b | c) < 32768) by (bit_vector);
    }
    s.registers[a] = v;
    proof {
        assert(s@ =~= spec_op_or(old(s)@, ptr as int).0);
    }
    Ok(ptr + 8)
}

/// `not a b`: register `a` := bitwise complement of b, masked to 15 bits.
pub fn op_not(s: &mut State, ptr: u16) -> (r: Result<u16, Error>)
    requires
        old(s).wf(),
        ptr < HALT_PTR,
    ensures
        final(s).wf(),
        final(s).image() == old(s).image(),
        final(s).stack_capacity() == old(s).stack_capacity(),
        ({
            let (m2, res) = spec_op_not(old(s)@, ptr as int);
            final(s)@ == m2 && r == res
        }),
{
    let a = match read_register(s, ptr + 2) {
        Ok(a) => a,
        Err(e) => {
            return Err(e);
        },
    };
    let b = match read_uint15(s, ptr + 4) {
        Ok(v) => v,
        Err(e) => {
            return Err(e);
        },
    };
    let v = !b & 0x7fff;
    proof {
        assert((!b & 0x7fff) < 32768) by (bit_vector);
    }
    s.registers[a] = v;
    proof {
        assert(s@ =~= spec_op_not(old(s)@, ptr as int).0);
    }
    Ok(ptr + 6)
}

/// `rmem a b`: register `a` := the word stored at RAM address `b`, resolved
/// again as an operand value.
pub fn op_rmem(s: &mut State, ptr: u16) -> (r: Result<u16, Error>)
    requires
        old(s).wf(),
        ptr < HALT_PTR,
    ensures
        final(s).wf(),
        final(s).image() == old(s).image(),
        final(s).stack_capacity() == old(s).stack_capacity(),
        ({
            let (m2, res) = spec_op_rmem(old(s)@, ptr as int);
            final(s)@ == m2 && r == res
        }),
{
    let a = match read_register(s, ptr + 2) {
        Ok(a) => a,
        Err(e) => {
            return Err(e);
        },
    };
    let t = match read_uint15_address(s, ptr + 4) {
        Ok(t) => t,
        Err(e) => {
            return Err(e);
        },
    };
    let v = match read_uint15(s, t) {
        Ok(v) => v,
        Err(e) => {
            return Err(e);
        },
    };
    s.registers[a] = v;
    proof {
        assert(s@ =~= spec_op_rmem(old(s)@, ptr as int).0);
    }
    Ok(ptr + 6)
}

/// `wmem a b`: store value `b` little-endian into RAM at address `a`.
pub fn op_wmem(s: &mut State, ptr: u16) -> (r: Result<u16, Error>)
    requires
        old(s).wf(),
        ptr < HALT_PTR,
    ensures
        final(s).wf(),
        final(s).image() == old(s).image(),
        final(s).stack_capacity() == old(s).stack_capacity(),
        ({
            let (m2, res) = spec_op_wmem(old(s)@, ptr as int);
            final(s)@ == m2 && r == res
        }),
{
    let t = match read_uint15_address(s, ptr + 2) {
        Ok(t) => t,
        Err(e) => {
            return Err(e);
        },
    };
    let v = match read_uint15(s, ptr + 4) {
        Ok(v) => v,
        Err(e) => {
            return Err(e);
        },
    };
    s.ram[t as usize] = (v % 256) as u8;
    s.ram[t as usize + 1] = (v / 256) as u8;
    proof {
        assert(s@ =~= spec_op_wmem(old(s)@, ptr as int).0);
    }
    Ok(ptr + 6)
}

/// `call a`: push the word address of the next instruction, then jump to
/// address `a`.
pub fn op_call(s: &mut State, ptr: u16) -> (r: Result<u16, Error>)
    requires
        old(s).wf(),
        ptr < HALT_PTR,
        2 * old(s)@.stack.len() + 2 <= old(s).stack_capacity(),
    ensures
        final(s).wf(),
        final(s).image() == old(s).image(),
        final(s).stack_capacity() == old(s).stack_capacity(),
        ({
            let (m2, res) = spec_op_call(old(s)@, ptr as int);
            final(s)@ == m2 && r == res
        }),
{
    let t = match read_uint15_address(s, ptr + 2) {
        Ok(t) => t,
        Err(e) => {
            return Err(e);
        },
    };
    let w = ptr / 2 + 2;
    let sp = s.stack_len;
    let buf_len = s.stack.len();
    proof {
        assert(old(s)@.stack.len() == sp);
        assert(sp < buf_len);
    }
    s.stack[sp] = w;
    s.stack_len = sp + 1;
    proof {
        assert(s@.stack =~= old(s)@.stack.push(w));
        assert(s@ =~= spec_op_call(old(s)@, ptr as int).0);
    }
    Ok(t)
}

/// `ret`: pop the stack into the pointer, shifted to byte units; an empty
/// stack is a graceful halt.
pub fn op_ret(s: &mut State, ptr: u16) -> (r: Result<u16, Error>)
    requires
        old(s).wf(),
        ptr < HALT_PTR,
    ensures
        final(s).wf(),
        final(s).image() == old(s).image(),
        final(s).stack_capacity() == old(s).stack_capacity(),
        ({
            let (m2, res) = spec_op_ret(old(s)@, ptr as int);
            final(s)@ == m2 && r == res
        }),
{
    if s.stack_len == 0 {
        return Ok(HALT_PTR);
    }
    let sp = s.stack_len - 1;
    s.stack_len = sp;
    let w = s.stack[sp];
    proof {
        assert(w == old(s)@.stack.last());
        assert(s@.stack =~= old(s)@.stack.drop_last());
        assert(s@ =~= spec_op_ret(old(s)@, ptr as int).0);
    }
    Ok(w * 2)
}

/// `out a`: the low byte of value `a` is to be written to the output channel;
/// the byte is returned beside the next pointer.
pub fn op_out(s: &mut State, ptr: u16) -> (r: Result<(u16, u8), Error>)
    requires
        old(s).wf(),
        ptr < HALT_PTR,
    ensures
        final(s).wf(),
        final(s).image() == old(s).image(),
        final(s).stack_capacity() == old(s).stack_capacity(),
        ({
            let (m2, res) = spec_op_out(old(s)@, ptr as int);
            final(s)@ == m2 && r == res
        }),
{
    let v = match read_uint15(s, ptr + 2) {
        Ok(v) => v,
        Err(e) => {
            return Err(e);
        },
    };
    Ok((ptr + 4, (v % 256) as u8))
}

/// `in a`: store the supplied input byte, zero-extended, into register `a`.
pub fn op_in(s: &mut State, ptr: u16, input: u8) -> (r: Result<u16, Error>)
    requires
        old(s).wf(),
        ptr < HALT_PTR,
    ensures
        final(s).wf(),
        final(s).image() == old(s).image(),
        final(s).stack_capacity() == old(s).stack_capacity(),
        ({
            let (m2, res) = spec_op_in(old(s)@, ptr as int, input);
            final(s)@ == m2 && r == res
        }),
{
    let a = match read_register(s, ptr + 2) {
        Ok(a) => a,
        Err(e) => {
            return Err(e);
        },
    };
    s.registers[a] = input as u16;
    proof {
        assert(s@ =~= spec_op_in(old(s)@, ptr as int, input).0);
    }
    Ok(ptr + 4)
}

/// `noop`: advance past the opcode.
pub fn op_noop(s: &mut State, ptr: u16) -> (r: Result<u16, Error>)
    requires
        old(s).wf(),
        ptr < HALT_PTR,
    ensures
        final(s).wf(),
        final(s)@ == old(s)@,
        final(s).image() == old(s).image(),
        final(s).stack_capacity() == old(s).stack_capacity(),
        r == Ok::<u16, Error>((ptr + 2) as u16),
{
    Ok(ptr + 2)
}

} // verus!
