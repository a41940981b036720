use vm15::isa::{Effect, Error};
use vm15::vm::{read_register, read_uint15, read_uint15_address, State};

/// Encode a word program as a little-endian byte image.
fn image(words: &[u16]) -> Vec<u8> {
    let mut bytes = Vec::new();
    for w in words {
        bytes.push((w % 256) as u8);
        bytes.push((w / 256) as u8);
    }
    bytes
}

/// Run with no input until the machine halts, collecting output bytes.
fn run_to_halt(m: &mut State) -> Vec<u8> {
    let mut out = Vec::new();
    for _ in 0..1_000_000 {
        match m.next(None) {
            Ok(Effect::Output(b)) => out.push(b),
            Ok(Effect::Step) => {}
            Ok(Effect::Halted) => return out,
            Ok(Effect::AwaitingInput) => panic!("machine unexpectedly awaits input"),
            Err(e) => panic!("machine faulted: {:?}", e),
        }
    }
    panic!("machine did not halt");
}

#[test]
fn add_wraps_to_word_domain() {
    // add r0, 32767, 32767 ; halt
    let bin = image(&[9, 32768, 32767, 32767, 0]);
    let mut m = State::init_with(&bin);
    run_to_halt(&mut m);
    assert_eq!(m.register(0), 32766);
}

#[test]
fn mult_uses_wide_product() {
    // mult r0, 32767, 32767 ; mult r1, 4000, 5000 ; halt
    let bin = image(&[10, 32768, 32767, 32767, 10, 32769, 4000, 5000, 0]);
    let mut m = State::init_with(&bin);
    run_to_halt(&mut m);
    assert_eq!(m.register(0), 1); // 32767^2 = 1073676289 = 32768k + 1
    assert_eq!(m.register(1), 11520); // 20_000_000 mod 32768
}

#[test]
fn not_twice_restores_value() {
    // set r0, 21845 ; not r1, r0 ; not r1, r1 ; halt
    let bin = image(&[1, 32768, 21845, 14, 32769, 32768, 14, 32769, 32769, 0]);
    let mut m = State::init_with(&bin);
    assert!(matches!(m.next(None), Ok(Effect::Step)));
    assert!(matches!(m.next(None), Ok(Effect::Step)));
    assert_eq!(m.register(1), 10922); // !21845 masked to 15 bits
    run_to_halt(&mut m);
    assert_eq!(m.register(1), 21845);
}

#[test]
fn wmem_then_rmem_round_trips() {
    // wmem 100, 12345 ; rmem r3, 100 ; halt
    let bin = image(&[16, 100, 12345, 15, 32771, 100, 0]);
    let mut m = State::init_with(&bin);
    run_to_halt(&mut m);
    assert_eq!(m.register(3), 12345);
}

#[test]
fn rmem_resolves_a_stored_register_reference() {
    // set r1, 77 ; rmem r0, 8 ; halt ; raw word 32769 at word address 8
    let bin = image(&[1, 32769, 77, 15, 32768, 8, 0, 21, 32769]);
    let mut m = State::init_with(&bin);
    run_to_halt(&mut m);
    assert_eq!(m.register(0), 77);
}

#[test]
fn operand_classification_boundaries() {
    // Raw operand words 32767, 32768, 32775, 32776 at byte offsets 0, 2, 4, 6.
    let bin = image(&[32767, 32768, 32775, 32776]);
    let m = State::init_with(&bin);
    assert_eq!(read_uint15(&m, 0), Ok(32767));
    assert_eq!(read_register(&m, 0), Err(Error::InvalidRegister(32767)));
    assert_eq!(read_uint15(&m, 2), Ok(0)); // register 0 is zero on a fresh machine
    assert_eq!(read_register(&m, 2), Ok(0));
    assert_eq!(read_register(&m, 4), Ok(7));
    assert_eq!(read_uint15(&m, 6), Err(Error::InvalidValue(32776)));
    assert_eq!(read_uint15_address(&m, 6), Err(Error::InvalidAddress(32776)));
}

#[test]
fn address_resolution_doubles_the_word() {
    let bin = image(&[123, 32768]);
    let m = State::init_with(&bin);
    assert_eq!(read_uint15_address(&m, 0), Ok(246));
    assert_eq!(read_uint15_address(&m, 2), Ok(0)); // register 0 holds 0
}

#[test]
fn pop_on_fresh_or_reset_machine_is_empty_stack() {
    // pop r0 ; halt
    let bin = image(&[3, 32768, 0]);
    let mut m = State::init_with(&bin);
    assert_eq!(m.next(None), Err(Error::EmptyStack));
    let mut m = m.reset();
    assert_eq!(m.next(None), Err(Error::EmptyStack));
}

#[test]
fn ret_on_fresh_machine_halts_gracefully() {
    // ret on an empty stack mirrors halt
    let bin = image(&[18]);
    let mut m = State::init_with(&bin);
    assert_eq!(m.next(None), Ok(Effect::Halted));
    assert!(m.done());
    assert_eq!(m.pointer(), 32769);
}

#[test]
fn end_to_end_add_and_output() {
    // set r0,5 ; set r1,6 ; add r2,r0,r1 ; out r2 ; halt
    let bin = image(&[1, 32768, 5, 1, 32769, 6, 9, 32770, 32768, 32769, 19, 32770, 0]);
    let mut m = State::init_with(&bin);
    let out = run_to_halt(&mut m);
    assert_eq!(m.register(2), 11);
    assert_eq!(out, vec![11]);
    assert!(m.done());
    assert_eq!(m.pointer(), 32769);
}

#[test]
fn reset_rerun_gives_identical_output() {
    // out 'H' ; out 'i' ; out '!' ; halt
    let bin = image(&[19, 72, 19, 105, 19, 33, 0]);
    let mut m = State::init_with(&bin);
    let first = run_to_halt(&mut m);
    assert_eq!(first, b"Hi!".to_vec());
    let mut m = m.reset();
    assert!(!m.done());
    let second = run_to_halt(&mut m);
    assert_eq!(first, second);
}

#[test]
fn push_pop_is_lifo() {
    // push 111 ; push 222 ; push 333 ; pop r0 ; pop r1 ; pop r2 ; halt
    let bin = image(&[
        2, 111, 2, 222, 2, 333, 3, 32768, 3, 32769, 3, 32770, 0,
    ]);
    let mut m = State::init_with(&bin);
    run_to_halt(&mut m);
    assert_eq!(m.register(0), 333);
    assert_eq!(m.register(1), 222);
    assert_eq!(m.register(2), 111);
    assert_eq!(m.stack_depth(), 0);
}

#[test]
fn call_and_ret_use_word_addresses() {
    // call 3 ; halt ; set r0, 99 ; ret
    let bin = image(&[17, 3, 0, 1, 32768, 99, 18]);
    let mut m = State::init_with(&bin);
    run_to_halt(&mut m);
    assert_eq!(m.register(0), 99);
    assert_eq!(m.stack_depth(), 0);
}

#[test]
fn jt_and_jf_follow_the_condition() {
    // jt 1, 4 ; noop ; halt(at word 4)
    let bin = image(&[7, 1, 4, 21, 0]);
    let mut m = State::init_with(&bin);
    assert!(matches!(m.next(None), Ok(Effect::Step)));
    assert_eq!(m.pointer(), 8);
    run_to_halt(&mut m);

    // jf 0, 4 ; noop ; halt(at word 4)
    let bin = image(&[8, 0, 4, 21, 0]);
    let mut m = State::init_with(&bin);
    assert!(matches!(m.next(None), Ok(Effect::Step)));
    assert_eq!(m.pointer(), 8);

    // jt 0, 4 falls through to the next instruction instead
    let bin = image(&[7, 0, 4, 0]);
    let mut m = State::init_with(&bin);
    assert!(matches!(m.next(None), Ok(Effect::Step)));
    assert_eq!(m.pointer(), 6);
}

#[test]
fn comparison_and_bitwise_ops() {
    // eq r0,4,4 ; gt r1,5,4 ; mod r2,17,5 ; and r3,12,10 ; or r4,12,10 ; halt
    let bin = image(&[
        4, 32768, 4, 4, 5, 32769, 5, 4, 11, 32770, 17, 5, 12, 32771, 12, 10, 13, 32772, 12, 10, 0,
    ]);
    let mut m = State::init_with(&bin);
    run_to_halt(&mut m);
    assert_eq!(m.register(0), 1);
    assert_eq!(m.register(1), 1);
    assert_eq!(m.register(2), 2);
    assert_eq!(m.register(3), 8);
    assert_eq!(m.register(4), 14);
}

#[test]
fn mod_by_zero_is_invalid_value() {
    let bin = image(&[11, 32768, 5, 0, 0]);
    let mut m = State::init_with(&bin);
    assert_eq!(m.next(None), Err(Error::InvalidValue(0)));
}

#[test]
fn destination_must_be_a_register() {
    // set 5, 7 : the destination operand is a literal
    let bin = image(&[1, 5, 7, 0]);
    let mut m = State::init_with(&bin);
    assert_eq!(m.next(None), Err(Error::InvalidRegister(5)));
}

#[test]
fn operand_in_invalid_range_is_fatal() {
    // add r0, 40000, 1
    let bin = image(&[9, 32768, 40000, 1, 0]);
    let mut m = State::init_with(&bin);
    assert_eq!(m.next(None), Err(Error::InvalidValue(40000)));
}

#[test]
fn unknown_opcode_is_malformed() {
    let bin = image(&[22]);
    let mut m = State::init_with(&bin);
    assert_eq!(m.next(None), Err(Error::MalformedOpcode(22)));
}

#[test]
fn in_awaits_then_consumes_one_byte() {
    // in r0 ; halt
    let bin = image(&[20, 32768, 0]);
    let mut m = State::init_with(&bin);
    assert_eq!(m.next(None), Ok(Effect::AwaitingInput));
    assert_eq!(m.pointer(), 0);
    assert_eq!(m.next(Some(65)), Ok(Effect::Step));
    assert_eq!(m.register(0), 65);
    run_to_halt(&mut m);
}

#[test]
fn out_delivers_the_low_byte() {
    // out 321 ; halt
    let bin = image(&[19, 321, 0]);
    let mut m = State::init_with(&bin);
    let out = run_to_halt(&mut m);
    assert_eq!(out, vec![65]);
}

#[test]
fn next_on_a_halted_machine_is_a_no_op() {
    let bin = image(&[0]);
    let mut m = State::init_with(&bin);
    assert_eq!(m.next(None), Ok(Effect::Halted));
    assert_eq!(m.next(None), Ok(Effect::Halted));
    assert!(m.done());
}

#[test]
fn stack_resize_preserves_all_values() {
    // Pseudo-random byte values, pushed across several grow boundaries and
    // popped back across the shrink boundary; every value must come back in
    // reverse order, unchanged.
    let count = 300usize;
    let mut seed = 12345u32;
    let mut values = Vec::new();
    for _ in 0..count {
        seed = seed.wrapping_mul(1103515245).wrapping_add(12345);
        values.push(((seed >> 16) % 256) as u16);
    }

    let mut words: Vec<u16> = Vec::new();
    for v in &values {
        words.push(2); // push v
        words.push(*v);
    }
    for _ in 0..count {
        words.push(3); // pop r0
        words.push(32768);
        words.push(19); // out r0
        words.push(32768);
    }
    words.push(0); // halt
    let bin = image(&words);

    let mut m = State::init_with(&bin);
    assert_eq!(m.stack_buffer_len(), 256);
    let mut max_cap = 0usize;
    let mut out = Vec::new();
    for _ in 0..100_000 {
        let cap = m.stack_buffer_len();
        if cap > max_cap {
            max_cap = cap;
        }
        match m.next(None) {
            Ok(Effect::Output(b)) => out.push(b),
            Ok(Effect::Step) => {}
            Ok(Effect::Halted) => break,
            other => panic!("unexpected step outcome: {:?}", other),
        }
    }
    assert!(m.done());
    assert_eq!(m.stack_depth(), 0);
    assert!(max_cap >= 1024); // the buffer grew past two boundaries
    assert!(m.stack_buffer_len() < max_cap); // and shrank again on the way down

    let expected: Vec<u8> = values.iter().rev().map(|v| *v as u8).collect();
    assert_eq!(out, expected);
}

#[test]
fn randomized_interleaved_push_pop_preserves_values() {
    // A pseudo-random interleaving of pushes and pops, push-heavy first and
    // pop-heavy afterwards, so the buffer crosses several grow and shrink
    // boundaries mid-sequence. A shadow stack predicts every popped value.
    let mut seed = 987654321u32;
    let mut rand = || {
        seed = seed.wrapping_mul(1103515245).wrapping_add(12345);
        (seed >> 16) & 0x7fff
    };

    let mut words: Vec<u16> = Vec::new();
    let mut shadow: Vec<u16> = Vec::new();
    let mut expected: Vec<u8> = Vec::new();
    for i in 0..2400 {
        let r = rand();
        let push_bias = if i < 1200 { 3 } else { 1 };
        if shadow.is_empty() || (r % 4) < push_bias {
            let v = (rand() % 256) as u16;
            words.push(2); // push v
            words.push(v);
            shadow.push(v);
        } else {
            words.push(3); // pop r0
            words.push(32768);
            words.push(19); // out r0
            words.push(32768);
            expected.push(shadow.pop().unwrap() as u8);
        }
    }
    words.push(0); // halt
    let bin = image(&words);

    let mut m = State::init_with(&bin);
    let mut max_cap = 0usize;
    let mut out = Vec::new();
    for _ in 0..100_000 {
        let cap = m.stack_buffer_len();
        if cap > max_cap {
            max_cap = cap;
        }
        match m.next(None) {
            Ok(Effect::Output(b)) => out.push(b),
            Ok(Effect::Step) => {}
            Ok(Effect::Halted) => break,
            other => panic!("unexpected step outcome: {:?}", other),
        }
    }
    assert!(m.done());
    assert!(max_cap >= 512);
    assert_eq!(m.stack_depth(), shadow.len());
    assert_eq!(out, expected);
}
