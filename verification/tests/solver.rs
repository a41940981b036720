use vm15::solver::{read_line, solve_step};

#[test]
fn read_line_splits_at_newlines() {
    let input = b"abc\ndef".to_vec();
    let (line, next) = read_line(&input, 0);
    assert_eq!(line, b"abc".to_vec());
    assert_eq!(next, 4);
    let (line, next) = read_line(&input, next);
    assert_eq!(line, b"def".to_vec());
    assert_eq!(next, 7);
}

#[test]
fn read_line_without_newline_takes_the_rest() {
    let input = b"tail".to_vec();
    let (line, next) = read_line(&input, 0);
    assert_eq!(line, b"tail".to_vec());
    assert_eq!(next, 4);
}

#[test]
fn read_line_of_empty_line_is_empty() {
    let input = b"\nx".to_vec();
    let (line, next) = read_line(&input, 0);
    assert_eq!(line, Vec::<u8>::new());
    assert_eq!(next, 1);
}

#[test]
fn item_lines_are_collected_and_taken_at_the_prompt() {
    let mut things: Vec<Vec<u8>> = Vec::new();

    let cmds = solve_step(&b"- lantern".to_vec(), &mut things);
    assert!(cmds.is_empty());
    assert_eq!(things, vec![b"lantern".to_vec()]);

    let cmds = solve_step(&b"- key".to_vec(), &mut things);
    assert!(cmds.is_empty());
    assert_eq!(things, vec![b"lantern".to_vec(), b"key".to_vec()]);

    let cmds = solve_step(&b"What do you do?".to_vec(), &mut things);
    assert_eq!(
        cmds,
        vec![b"take lantern\n".to_vec(), b"take key\n".to_vec()]
    );
    // collected items are kept, not cleared
    assert_eq!(things.len(), 2);
}

#[test]
fn other_lines_change_nothing() {
    let mut things: Vec<Vec<u8>> = vec![b"coin".to_vec()];
    let cmds = solve_step(&b"There is nothing here.".to_vec(), &mut things);
    assert!(cmds.is_empty());
    assert_eq!(things, vec![b"coin".to_vec()]);
}

#[test]
fn dash_alone_records_an_empty_name() {
    let mut things: Vec<Vec<u8>> = Vec::new();
    let cmds = solve_step(&b"-".to_vec(), &mut things);
    assert!(cmds.is_empty());
    assert_eq!(things, vec![Vec::<u8>::new()]);
}
