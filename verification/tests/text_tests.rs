use blazingjj::large_string::LargeString;

#[test]
fn round_trip_reconstructs_content() {
    // Three kinds of terminator, each line terminated: the line count
    // equals the terminator count, and concatenating the one-line windows
    // reconstructs the content exactly.
    let content = "aa\nbb\r\ncc\rdd\n";
    let text = LargeString::new(content.to_string());
    assert_eq!(text.lines(), 4);
    let mut rebuilt: Vec<u8> = Vec::new();
    let mut i: usize = 0;
    while i < text.lines() {
        rebuilt.extend_from_slice(&text.window(i, 1));
        i += 1;
    }
    assert_eq!(rebuilt, content.as_bytes().to_vec());
}

#[test]
fn window_clamps_without_error() {
    let text = LargeString::new("a\nb\nc\n".to_string());
    assert_eq!(text.lines(), 3);
    // A window starting at or past the last line is empty.
    assert_eq!(text.window(3, 1), Vec::<u8>::new());
    assert_eq!(text.window(100, 5), Vec::<u8>::new());
    // A window reaching past the last line holds the trailing lines only.
    assert_eq!(text.window(1, 100), b"b\nc\n".to_vec());
    // Rendering out of range does not fail either.
    let rendered = text.render(100, 5);
    assert_eq!(format!("{}", rendered), "");
}

#[test]
fn concrete_line_index() {
    // Content "a\r\nb\nc": line starts 0, 3, 5.
    let text = LargeString::new("a\r\nb\nc".to_string());
    assert_eq!(text.lines(), 3);
    assert_eq!(text.window(0, 1), b"a\r\n".to_vec());
    assert_eq!(text.window(1, 1), b"b\n".to_vec());
    assert_eq!(text.window(2, 1), b"c".to_vec());
    assert_eq!(text.window(0, 10), b"a\r\nb\nc".to_vec());
}

#[test]
fn empty_content_has_no_lines() {
    let text = LargeString::new(String::new());
    assert_eq!(text.lines(), 0);
    assert_eq!(text.window(0, 1), Vec::<u8>::new());
}

#[test]
fn lone_terminators_each_end_a_line() {
    let text = LargeString::new("\n\r\n\r".to_string());
    // "\n", "\r\n", "\r": three terminators, three lines.
    assert_eq!(text.lines(), 3);
    assert_eq!(text.window(1, 1), b"\r\n".to_vec());
}

#[test]
fn render_decodes_ansi_styling() {
    // The decoder must strip the escape sequence: the rendered text holds
    // the plain characters, not the input bytes.
    let text = LargeString::new("\u{1b}[31mred\u{1b}[0m\n".to_string());
    let rendered = text.render(0, 1);
    let shown = format!("{}", rendered);
    assert!(shown.contains("red"));
    assert!(!shown.contains('\u{1b}'));
}

#[test]
fn render_survives_invalid_escape_sequences() {
    // Malformed escape input must yield readable text, never a crash or a
    // propagated error.
    let text = LargeString::new("\u{1b}[4 q\u{1b}]12;#fab1ed\u{7}broken\n\u{1b}[9999m tail\n".to_string());
    assert_eq!(text.lines(), 2);
    let rendered = text.render(0, 2);
    let shown = format!("{}", rendered);
    assert!(shown.contains("tail"));
}
