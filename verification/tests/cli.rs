use brdb_inspect::cli::{invalid_command, listing_output, parse_command, usage, Command};
use brdb_inspect::traverse::TraverseError;

#[test]
fn parse_command_knows_ls_and_read() {
    assert_eq!(parse_command("ls"), Command::List);
    assert_eq!(parse_command("read"), Command::Read);
}

#[test]
fn parse_command_turns_down_the_rest() {
    assert_eq!(parse_command("edit"), Command::Invalid);
    assert_eq!(parse_command(""), Command::Invalid);
    assert_eq!(parse_command("LS"), Command::Invalid);
    assert_eq!(parse_command("ls "), Command::Invalid);
    assert_eq!(parse_command("reads"), Command::Invalid);
}

#[test]
fn usage_line() {
    assert_eq!(usage("brdb-cli"), "usage: brdb-cli <world file path> <ls|read|edit> <path>");
}

#[test]
fn invalid_command_line() {
    assert_eq!(invalid_command("edit"), "invalid command: edit. use one of: <ls|read|edit>");
    assert_eq!(invalid_command(""), "invalid command: . use one of: <ls|read|edit>");
}

#[test]
fn listing_output_passes_a_listing_through() {
    assert_eq!(listing_output(Ok("a\nb\n".to_string())), "a\nb\n");
    assert_eq!(listing_output(Ok(String::new())), "");
}

#[test]
fn listing_output_turns_a_failure_into_a_line() {
    assert_eq!(
        listing_output(Err(TraverseError::NoParentOfRoot)),
        "error: You tried to go above the root directory."
    );
    assert_eq!(
        listing_output(Err(TraverseError::NotFound("ghost".to_string()))),
        "error: cannot access 'ghost': No such file or directory."
    );
    assert_eq!(
        listing_output(Err(TraverseError::TraverseIntoFile)),
        "error: Tried to traverse into a file, not a folder."
    );
}
