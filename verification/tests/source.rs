use catr::Source;

#[test]
fn hyphen_is_standard_input() {
    assert_eq!(Source::resolve("-"), Source::Stdin);
}

#[test]
fn a_name_is_a_file() {
    assert_eq!(Source::resolve("a.txt"), Source::File { path: "a.txt".to_string() });
}

#[test]
fn only_the_bare_hyphen_is_standard_input() {
    assert_eq!(Source::resolve("--"), Source::File { path: "--".to_string() });
    assert_eq!(Source::resolve("-a"), Source::File { path: "-a".to_string() });
    assert_eq!(Source::resolve(" -"), Source::File { path: " -".to_string() });
    assert_eq!(Source::resolve("./-"), Source::File { path: "./-".to_string() });
}

#[test]
fn the_empty_specifier_is_a_file() {
    assert_eq!(Source::resolve(""), Source::File { path: String::new() });
}

#[test]
fn a_path_is_kept_as_it_is() {
    let path = "dir with space/\u{e9}t\u{e9}.txt";
    assert_eq!(Source::resolve(path), Source::File { path: path.to_string() });
}
