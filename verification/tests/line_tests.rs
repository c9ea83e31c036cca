use slava::line::BufRead;
use slava::line::LineStep;

#[test]
fn bytes_accumulate_until_newline() {
    let mut r = BufRead::new();
    assert!(matches!(r.on_read(1, b'P'), LineStep::More));
    assert!(matches!(r.on_read(1, b'G'), LineStep::More));
    match r.on_read(1, b'\n') {
        LineStep::Line(l) => assert_eq!(l, b"PG\n".to_vec()),
        _ => panic!("expected a finished line"),
    }
}

#[test]
fn buffer_restarts_after_each_line() {
    let mut r = BufRead::new();
    assert!(matches!(r.on_read(1, b'a'), LineStep::More));
    match r.on_read(1, b'\n') {
        LineStep::Line(l) => assert_eq!(l, b"a\n".to_vec()),
        _ => panic!("expected a finished line"),
    }
    match r.on_read(1, b'\n') {
        LineStep::Line(l) => assert_eq!(l, b"\n".to_vec()),
        _ => panic!("expected a finished line"),
    }
}

#[test]
fn zero_byte_read_is_eof() {
    let mut r = BufRead::new();
    assert!(matches!(r.on_read(1, b'x'), LineStep::More));
    assert!(matches!(r.on_read(0, 0), LineStep::Eof));
}
