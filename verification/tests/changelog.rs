use cfddns::changelog::MuxWriter;

#[test]
fn new_log_is_empty_and_quiet() {
    let w = MuxWriter::new();
    assert!(w.buf.is_empty());
    assert!(!w.should_notify);
}

#[test]
fn mark_sets_the_flag_and_keeps_the_lines() {
    let mut w = MuxWriter::new();
    w.write("one".to_string());
    w.mark();
    assert!(w.should_notify);
    assert_eq!(w.buf, vec!["one".to_string()]);
    w.mark();
    assert!(w.should_notify);
}

#[test]
fn write_appends_in_order_and_does_not_mark() {
    let mut w = MuxWriter::new();
    w.write("first".to_string());
    w.write("second".to_string());
    w.write("".to_string());
    assert_eq!(w.buf, vec!["first".to_string(), "second".to_string(), "".to_string()]);
    assert!(!w.should_notify);
}

#[test]
fn drain_joins_with_line_feeds() {
    let mut w = MuxWriter::new();
    w.write("Current IP address: 203.0.113.9".to_string());
    w.write("Unchanged home.example.com (203.0.113.9)".to_string());
    let (text, notable) = w.drain();
    assert_eq!(text, "Current IP address: 203.0.113.9\nUnchanged home.example.com (203.0.113.9)");
    assert!(!notable);
}

#[test]
fn drain_of_one_line_has_no_line_feed() {
    let mut w = MuxWriter::new();
    w.write("only".to_string());
    assert_eq!(w.drain(), ("only".to_string(), false));
}

#[test]
fn drain_of_empty_log_is_empty_text() {
    let mut w = MuxWriter::new();
    assert_eq!(w.drain(), (String::new(), false));
    w.mark();
    assert_eq!(w.drain(), (String::new(), true));
}

#[test]
fn drain_resets_the_log() {
    let mut w = MuxWriter::new();
    w.write("a".to_string());
    w.mark();
    assert_eq!(w.drain(), ("a".to_string(), true));
    assert!(w.buf.is_empty());
    assert!(!w.should_notify);
    assert_eq!(w.drain(), (String::new(), false));
    w.write("b".to_string());
    assert_eq!(w.drain(), ("b".to_string(), false));
}
