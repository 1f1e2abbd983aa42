use memory_visualizer::command::{parse_command, Command};
use memory_visualizer::tracked_stack::MemoryState;

#[test]
fn allocate_reads_its_size() {
    assert_eq!(parse_command("a 1024"), Command::Allocate(1024));
    assert_eq!(parse_command("a 0"), Command::Allocate(0));
    assert_eq!(parse_command("  a   +12  extra words"), Command::Allocate(12));
    assert_eq!(parse_command("a 007\n"), Command::Allocate(7));
    assert_eq!(parse_command("\u{3000}a\u{a0}5"), Command::Allocate(5));
    assert_eq!(
        parse_command(&format!("a {}", usize::MAX)),
        Command::Allocate(usize::MAX)
    );
}

#[test]
fn malformed_size_is_a_parse_error() {
    assert_eq!(parse_command("a abc"), Command::ParseError);
    assert_eq!(parse_command("a"), Command::ParseError);
    assert_eq!(parse_command("a   "), Command::ParseError);
    assert_eq!(parse_command("a -1"), Command::ParseError);
    assert_eq!(parse_command("a +"), Command::ParseError);
    assert_eq!(parse_command("a 12x"), Command::ParseError);
    assert_eq!(parse_command("a 1_000"), Command::ParseError);
    assert_eq!(parse_command("a 99999999999999999999999999"), Command::ParseError);
    let too_big = (usize::MAX as u128) + 1;
    assert_eq!(parse_command(&format!("a {}", too_big)), Command::ParseError);
}

#[test]
fn parse_error_leaves_state_alone() {
    let mut state: MemoryState<u8> = MemoryState::new();
    state.allocate(10, Some(1));
    let live: usize = 10;
    let cmd = parse_command("a abc");
    assert_eq!(cmd, Command::ParseError);
    assert!(!cmd.marks_dirty());
    // a rejected line reaches neither the stack nor the counter
    assert_eq!(state.len(), 1);
    assert_eq!(live, 10);
}

#[test]
fn single_letter_commands() {
    assert_eq!(parse_command("d"), Command::Deallocate);
    assert_eq!(parse_command(" d extra"), Command::Deallocate);
    assert_eq!(parse_command("v"), Command::Redraw);
    assert_eq!(parse_command("q\n"), Command::Quit);
}

#[test]
fn anything_else_is_invalid() {
    assert_eq!(parse_command(""), Command::Invalid);
    assert_eq!(parse_command("   \t"), Command::Invalid);
    assert_eq!(parse_command("x"), Command::Invalid);
    assert_eq!(parse_command("ab 5"), Command::Invalid);
    assert_eq!(parse_command("A 5"), Command::Invalid);
    assert_eq!(parse_command("quit"), Command::Invalid);
}

#[test]
fn which_commands_mark_the_display_dirty() {
    assert!(Command::Allocate(1).marks_dirty());
    assert!(Command::Deallocate.marks_dirty());
    assert!(Command::Redraw.marks_dirty());
    assert!(!Command::Quit.marks_dirty());
    assert!(!Command::ParseError.marks_dirty());
    assert!(!Command::Invalid.marks_dirty());
}
