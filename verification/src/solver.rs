//! The decision logic of the line-oriented driver that plays against the
//! machine: splitting the machine's output stream into lines, recognizing
//! item listings and the command prompt, and producing the command lines to
//! send back. The I/O loop around it performs these decisions verbatim.

use vstd::prelude::*;

verus! {

/// Commands a driver can issue to the machine's text adventure, one line
/// each. The I/O side implements this for its writer into the machine's
/// input channel.
pub trait Controller {
    fn help(&mut self);

    fn look(&mut self);

    fn inv(&mut self);

    fn go_place(&mut self, place: &String);

    fn take_thing(&mut self, thing: &String);

    fn drop_thing(&mut self, thing: &String);

    fn use_thing(&mut self, thing: &String);
}

/// The prompt line after which every collected item is taken.
pub open spec fn prompt_line() -> Seq<u8> {
    seq![
        87u8,
        104u8,
        97u8,
        116u8,
        32u8,
        100u8,
        111u8,
        32u8,
        121u8,
        111u8,
        117u8,
        32u8,
        100u8,
        111u8,
        63u8,
    ]
}

/// The command line that takes one named item.
pub open spec fn take_command(thing: Seq<u8>) -> Seq<u8> {
    seq![116u8, 97u8, 107u8, 101u8, 32u8] + thing + seq![10u8]
}

/// A listing line that names an item: it starts with a dash.
pub open spec fn is_item_line(line: Seq<u8>) -> bool {
    line.len() > 0 && line[0] == 45u8
}

/// The item a listing line names: the line after its two-byte prefix.
pub open spec fn item_name(line: Seq<u8>) -> Seq<u8> {
    if line.len() >= 2 {
        line.subrange(2, line.len() as int)
    } else {
        Seq::empty()
    }
}

/// Index of the first newline at or after `from`, or the end of the stream.
pub open spec fn line_end(s: Seq<u8>, from: int) -> int
    decreases s.len() - from,
{
    if from < 0 || from >= s.len() {
        s.len() as int
    } else if s[from] == 10 {
        from
    } else {
        line_end(s, from + 1)
    }
}

proof fn lemma_line_end_step(s: Seq<u8>, from: int)
    requires
        0 <= from < s.len(),
        s[from] != 10,
    ensures
        line_end(s, from) == line_end(s, from + 1),
{
}

/// Read one line: the bytes of `input` from `start` up to, not including, the
/// first newline; the second component is the position just past that line.
pub fn read_line(input: &Vec<u8>, start: usize) -> (r: (Vec<u8>, usize))
    requires
        start <= input@.len(),
    ensures
        r.0@ == input@.subrange(start as int, line_end(input@, start as int)),
        line_end(input@, start as int) < input@.len() ==> r.1 == line_end(
            input@,
            start as int,
        ) + 1,
        line_end(input@, start as int) == input@.len() ==> r.1 == input@.len(),
{
    let mut buf: Vec<u8> = Vec::new();
    let mut i = start;
    while i < input.len()
        invariant
            start <= i <= input@.len(),
            buf@ == input@.subrange(start as int, i as int),
            line_end(input@, start as int) == line_end(input@, i as int),
        decreases input@.len() - i,
    {
        let b = input[i];
        if b == 10 {
            proof {
                assert(line_end(input@, i as int) == i);
                assert(buf@ =~= input@.subrange(start as int, line_end(input@, start as int)));
            }
            return (buf, i + 1);
        }
        buf.push(b);
        proof {
            lemma_line_end_step(input@, i as int);
            assert(buf@ =~= input@.subrange(start as int, i + 1));
        }
        i += 1;
    }
    proof {
        assert(line_end(input@, i as int) == input@.len());
        assert(buf@ =~= input@.subrange(start as int, line_end(input@, start as int)));
    }
    (buf, i)
}

/// The byte at position `j` of the prompt line.
fn prompt_byte(j: usize) -> (b: u8)
    requires
        j < 15,
    ensures
        b == prompt_line()[j as int],
{
    match j {
        0 => 87,
        1 => 104,
        2 => 97,
        3 => 116,
        4 => 32,
        5 => 100,
        6 => 111,
        7 => 32,
        8 => 121,
        9 => 111,
        10 => 117,
        11 => 32,
        12 => 100,
        13 => 111,
        _ => 63,
    }
}

/// Whether `line` is exactly the prompt line.
fn is_prompt(line: &Vec<u8>) -> (r: bool)
    ensures
        r == (line@ == prompt_line()),
{
    if line.len() != 15 {
        return false;
    }
    let mut i: usize = 0;
    while i < 15
        invariant
            i <= 15,
            line@.len() == 15,
            forall|j: int| 0 <= j < i ==> line@[j] == prompt_line()[j],
        decreases 15 - i,
    {
        if line[i] != prompt_byte(i) {
            return false;
        }
        i += 1;
    }
    proof {
        assert(line@ =~= prompt_line());
    }
    true
}

/// The command line that takes the named item, as bytes.
fn make_take_command(thing: &Vec<u8>) -> (cmd: Vec<u8>)
    ensures
        cmd@ == take_command(thing@),
{
    let mut cmd: Vec<u8> = Vec::new();
    cmd.push(116);
    cmd.push(97);
    cmd.push(107);
    cmd.push(101);
    cmd.push(32);
    let mut i: usize = 0;
    while i < thing.len()
        invariant
            i <= thing@.len(),
            cmd@ == seq![116u8, 97u8, 107u8, 101u8, 32u8] + thing@.subrange(0, i as int),
        decreases thing@.len() - i,
    {
        cmd.push(thing[i]);
        proof {
            assert(cmd@ =~= seq![116u8, 97u8, 107u8, 101u8, 32u8] + thing@.subrange(0, i + 1));
        }
        i += 1;
    }
    cmd.push(10);
    proof {
        assert(cmd@ =~= take_command(thing@));
    }
    cmd
}

/// One decision of the driver, fed one line of the machine's output. On the
/// prompt line it returns a take command for every item collected so far, in
/// collection order; on an item listing it records the item's name and
/// returns nothing; on any other line it does nothing.
pub fn solve_step(line: &Vec<u8>, things: &mut Vec<Vec<u8>>) -> (cmds: Vec<Vec<u8>>)
    ensures
        line@ == prompt_line() ==> cmds@.len() == old(things)@.len() && (forall|i: int|
            0 <= i < cmds@.len() ==> (#[trigger] cmds@[i])@ == take_command(old(things)@[i]@)),
        line@ != prompt_line() ==> cmds@.len() == 0,
        is_item_line(line@) ==> final(things)@.len() == old(things)@.len() + 1 && (forall|i: int|
            0 <= i < old(things)@.len() ==> final(things)@[i] == old(things)@[i])
            && final(things)@.last()@ == item_name(line@),
        !is_item_line(line@) ==> final(things)@ == old(things)@,
{
    let mut cmds: Vec<Vec<u8>> = Vec::new();
    if is_prompt(line) {
        let mut k: usize = 0;
        while k < things.len()
            invariant
                k <= things@.len(),
                cmds@.len() == k,
                forall|i: int| 0 <= i < k ==> (#[trigger] cmds@[i])@ == take_command(things@[i]@),
            decreases things@.len() - k,
        {
            let cmd = make_take_command(&things[k]);
            cmds.push(cmd);
            k += 1;
        }
    }
    if line.len() > 0 && line[0] == 45 {
        let mut name: Vec<u8> = Vec::new();
        if line.len() >= 2 {
            let mut i: usize = 2;
            while i < line.len()
                invariant
                    2 <= i <= line@.len(),
                    name@ == line@.subrange(2, i as int),
                decreases line@.len() - i,
            {
                name.push(line[i]);
                proof {
                    assert(name@ =~= line@.subrange(2, i + 1));
                }
                i += 1;
            }
        }
        proof {
            assert(name@ =~= item_name(line@));
        }
        things.push(name);
    }
    cmds
}

} // verus!
