use catr::{Action, Emitter, Event, Numbering};

fn line(text: &str) -> Event {
    Event::Line { text: text.to_string() }
}

fn printed(text: &str) -> Action {
    Action::Print { text: text.to_string() }
}

#[test]
fn a_new_emitter_has_numbered_nothing() {
    let emitter = Emitter::new(Numbering::All);
    assert_eq!(emitter.counter(), 0);
    assert_eq!(emitter.numbering(), Numbering::All);
}

#[test]
fn plain_prints_the_line_and_counts_nothing() {
    let mut emitter = Emitter::new(Numbering::Plain);
    assert_eq!(emitter.step(line("hello")), printed("hello\n"));
    assert_eq!(emitter.step(line("")), printed("\n"));
    assert_eq!(emitter.counter(), 0);
}

#[test]
fn number_all_counts_every_line() {
    let mut emitter = Emitter::new(Numbering::All);
    assert_eq!(emitter.step(line("a")), printed("     1\ta\n"));
    assert_eq!(emitter.counter(), 1);
    assert_eq!(emitter.step(line("")), printed("     2\t\n"));
    assert_eq!(emitter.counter(), 2);
    assert_eq!(emitter.step(line("c")), printed("     3\tc\n"));
    assert_eq!(emitter.counter(), 3);
}

#[test]
fn number_nonblank_passes_over_empty_lines() {
    let mut emitter = Emitter::new(Numbering::NonBlank);
    assert_eq!(emitter.step(line("a")), printed("     1\ta\n"));
    assert_eq!(emitter.step(line("")), printed("\n"));
    assert_eq!(emitter.counter(), 1);
    assert_eq!(emitter.step(line("c")), printed("     2\tc\n"));
    assert_eq!(emitter.counter(), 2);
}

#[test]
fn a_line_of_spaces_is_not_blank() {
    let mut emitter = Emitter::new(Numbering::NonBlank);
    assert_eq!(emitter.step(line(" ")), printed("     1\t \n"));
    assert_eq!(emitter.step(line("\t")), printed("     2\t\t\n"));
    assert_eq!(emitter.counter(), 2);
}

#[test]
fn an_unreadable_input_is_reported_by_name() {
    let mut emitter = Emitter::new(Numbering::All);
    let event = Event::Unreadable {
        specifier: "missing.txt".to_string(),
        reason: "No such file or directory (os error 2)".to_string(),
    };
    assert_eq!(
        emitter.step(event),
        Action::Report { text: "missing.txt: No such file or directory (os error 2)\n".to_string() }
    );
    assert_eq!(emitter.counter(), 0);
}

#[test]
fn a_failed_read_aborts_with_its_reason() {
    let mut emitter = Emitter::new(Numbering::Plain);
    let event = Event::ReadFailed { reason: "stream did not contain valid UTF-8".to_string() };
    assert_eq!(
        emitter.step(event),
        Action::Abort { reason: "stream did not contain valid UTF-8".to_string() }
    );
}

#[test]
fn the_counter_outlives_a_report() {
    let mut emitter = Emitter::new(Numbering::All);
    emitter.step(line("a"));
    emitter.step(Event::Unreadable { specifier: "x".to_string(), reason: "gone".to_string() });
    assert_eq!(emitter.counter(), 1);
    assert_eq!(emitter.step(line("b")), printed("     2\tb\n"));
}

#[test]
fn the_counter_grows_past_six_digits() {
    let mut emitter = Emitter::new(Numbering::All);
    let mut last = Action::Abort { reason: String::new() };
    let mut n = 0;
    while n < 1_000_001 {
        last = emitter.step(line("x"));
        n += 1;
    }
    assert_eq!(emitter.counter(), 1_000_001);
    assert_eq!(last, printed("1000001\tx\n"));
}

#[test]
fn there_is_room_while_the_counter_is_small() {
    let all = Emitter::new(Numbering::All);
    assert!(all.has_room_for(&line("a")));
    assert!(all.has_room_for(&line("")));
    assert!(all.has_room_for(&Event::ReadFailed { reason: "r".to_string() }));
    assert!(all.has_room_for(&Event::Unreadable {
        specifier: "s".to_string(),
        reason: "r".to_string()
    }));
}
