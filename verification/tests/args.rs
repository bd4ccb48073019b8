use catr::{Args, Numbering, UsageError};

fn names(files: &[&str]) -> Vec<String> {
    files.iter().map(|f| f.to_string()).collect()
}

#[test]
fn both_flags_are_refused() {
    let result = Args::new(names(&["a.txt"]), true, true);
    assert_eq!(result.unwrap_err(), UsageError::ConflictingFlags);
}

#[test]
fn both_flags_are_refused_whatever_the_files() {
    assert!(Args::new(Vec::new(), true, true).is_err());
    assert!(Args::new(names(&["-"]), true, true).is_err());
    assert!(Args::new(names(&["a", "b", "c"]), true, true).is_err());
}

#[test]
fn conflict_message_names_both_flags() {
    let message = UsageError::ConflictingFlags.message();
    assert_eq!(message, "the argument '--number' cannot be used with '--number-nonblank'");
}

#[test]
fn no_flag_selects_plain() {
    let args = Args::new(names(&["a.txt"]), false, false).unwrap();
    assert_eq!(args.numbering(), Numbering::Plain);
    assert!(!args.number_lines());
    assert!(!args.number_nonblank_lines());
}

#[test]
fn number_flag_selects_all() {
    let args = Args::new(names(&["a.txt"]), true, false).unwrap();
    assert_eq!(args.numbering(), Numbering::All);
    assert!(args.number_lines());
    assert!(!args.number_nonblank_lines());
}

#[test]
fn nonblank_flag_selects_nonblank() {
    let args = Args::new(names(&["a.txt"]), false, true).unwrap();
    assert_eq!(args.numbering(), Numbering::NonBlank);
    assert!(!args.number_lines());
    assert!(args.number_nonblank_lines());
}

#[test]
fn no_file_means_standard_input() {
    let args = Args::new(Vec::new(), false, false).unwrap();
    assert_eq!(args.files(), &names(&["-"]));
}

#[test]
fn no_file_is_the_same_as_an_explicit_hyphen() {
    let implicit = Args::new(Vec::new(), true, false).unwrap();
    let explicit = Args::new(names(&["-"]), true, false).unwrap();
    assert_eq!(implicit.files(), explicit.files());
    assert_eq!(implicit.numbering(), explicit.numbering());
}

#[test]
fn files_keep_their_order() {
    let args = Args::new(names(&["b", "-", "a", "b"]), false, false).unwrap();
    assert_eq!(args.files(), &names(&["b", "-", "a", "b"]));
}

#[test]
fn a_refused_command_line_exits_with_a_failure() {
    let error = Args::new(names(&["a.txt"]), true, true).unwrap_err();
    assert_eq!(error.exit_code(), 2);
    assert_ne!(error.exit_code(), 0);
}
