use memcore::index::Count16;
use memcore::shtick::{Shtick, ShtickError};

#[test]
fn print_pretty() {
    try_pretty_print("");
    try_pretty_print("short");
    try_pretty_print("hello, world");
    try_pretty_print("exact fourteen");
    try_pretty_print("exactly fifteen");
    try_pretty_print("this is getting longer");
    try_pretty_print("watch out for the edge oh no don't fall off the edge");
}

#[test]
fn print_debug() {
    try_debug_print("", "Shtick::or_die(\"\")");
    try_debug_print("asdf", "Shtick::or_die(\"asdf\")");
    try_debug_print("exact fourteen", "Shtick::or_die(\"exact fourteen\")");
    try_debug_print("exactly fifteen", "Shtick::or_die(\"exactly fifteen\")");
    try_debug_print(
        "this is getting longer",
        "Shtick::or_die(\"this is getting longer\")",
    );
}

fn try_pretty_print(string: &str) {
    let shtick = Shtick::or_die(string);
    assert_eq!(shtick.display_string(), string, "rendering \"{}\"", string);
}

fn try_debug_print(string: &str, debug_string: &str) {
    let shtick = Shtick::or_die(string);
    assert_eq!(
        shtick.debug_string(),
        debug_string,
        "debug rendering \"{}\"",
        string,
    );
}

#[test]
fn shtick_push_ascii() {
    let mut shtick = Shtick::or_die("hello, world!!");
    assert_eq!(shtick.count(), Count16::of(14));
    assert!(shtick.is_unallocated());

    shtick.push('?').expect("ok");
    assert!(shtick.is_allocated());
    assert_eq!(shtick.count(), Count16::of(15));
    assert_eq!(shtick.capacity(), Count16::of(32)); // also testing that we jump a bit here.
    assert_eq!(shtick.as_bytes(), "hello, world!!?".as_bytes());

    shtick.push('@').expect("ok");
    assert_eq!(shtick.count(), Count16::of(16));
    assert_eq!(shtick.as_bytes(), "hello, world!!?@".as_bytes());
}

#[test]
fn shtick_push_unicode() {
    let mut shtick = Shtick::or_die("this will be allocated");
    shtick.mut_capacity(Count16::of(28)).expect("ok"); // test that the last capacity change will be ok.
    assert_eq!(shtick.count(), Count16::of(22));
    assert!(shtick.is_allocated());

    shtick.push('\u{df}').expect("ok"); // 2 bytes
    assert_eq!(shtick.count(), Count16::of(24));
    assert!(shtick.is_allocated());
    assert_eq!(shtick.as_bytes(), "this will be allocated\u{df}".as_bytes());

    shtick.push('\u{6771}').expect("ok"); // 3 bytes
    assert_eq!(shtick.count(), Count16::of(27));
    assert!(shtick.is_allocated());
    assert_eq!(
        shtick.as_bytes(),
        "this will be allocated\u{df}\u{6771}".as_bytes()
    );

    shtick.push('\u{13107}').expect("ok"); // 4 bytes, should trigger size increase
    assert_eq!(shtick.capacity(), Count16::of(56)); // 2 * 28
    assert_eq!(shtick.count(), Count16::of(31));
    assert!(shtick.is_allocated());
    assert_eq!(
        shtick.as_bytes(),
        "this will be allocated\u{df}\u{6771}\u{13107}".as_bytes()
    );
}

#[test]
fn shtick_from_bytes_goes_allocated_past_fourteen() {
    let shtick = Shtick::try_from_bytes("exact fourteen".as_bytes()).expect("fits");
    assert!(shtick.is_unallocated());
    assert_eq!(shtick.count(), Count16::of(14));
    assert_eq!(shtick.capacity(), Count16::of(14));

    let shtick = Shtick::try_from_bytes("exactly fifteen".as_bytes()).expect("fits");
    assert!(shtick.is_allocated());
    assert_eq!(shtick.count(), Count16::of(15));
    assert_eq!(shtick.capacity(), Count16::of(15));
}

#[test]
fn shtick_from_too_many_bytes_errs() {
    let bytes = vec![b'x'; 32768];
    assert!(matches!(
        Shtick::try_from_bytes(bytes.as_slice()),
        Err(ShtickError::TooLarge)
    ));

    let bytes = vec![b'x'; 32767];
    let shtick = Shtick::try_from_bytes(bytes.as_slice()).expect("fits");
    assert!(shtick.is_allocated());
    assert_eq!(shtick.count(), Count16::of(32767));
}

#[test]
fn shtick_push_past_max_count_errs() {
    let bytes = vec![b'x'; 32767];
    let mut shtick = Shtick::try_from_bytes(bytes.as_slice()).expect("fits");
    assert_eq!(shtick.push('y'), Err(ShtickError::TooLarge));
    assert_eq!(shtick.count(), Count16::of(32767));
}

#[test]
fn shtick_shrinking_capacity_demotes_and_truncates() {
    let mut shtick = Shtick::or_die("this is getting longer");
    assert!(shtick.is_allocated());
    shtick.mut_capacity(Count16::of(10)).expect("ok");
    assert!(shtick.is_unallocated());
    assert_eq!(shtick.count(), Count16::of(10));
    assert_eq!(shtick.capacity(), Count16::of(14));
    assert_eq!(shtick.as_bytes(), "this is ge".as_bytes());
}

#[test]
fn shtick_display_round_trips_unicode() {
    let text = "h\u{e9}llo \u{6771} \u{13107}";
    let shtick = Shtick::or_die(text);
    assert_eq!(shtick.display_string(), text);
}

#[test]
fn shtick_error_default_is_out_of_memory() {
    assert_eq!(
        ShtickError::default(),
        ShtickError::Allocation(memcore::allocation::AllocationError::OutOfMemory)
    );
}
