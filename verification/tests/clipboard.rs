use traceviewer::clipboard::osc52_sequence;

#[test]
fn osc52_encodes_text_for_clipboard() {
    let output = osc52_sequence("copy me");

    assert_eq!(output.as_bytes(), b"\x1b]52;c;Y29weSBtZQ==\x07");
}

#[test]
fn osc52_pads_short_inputs() {
    assert_eq!(osc52_sequence(""), "\x1b]52;c;\x07");
    assert_eq!(osc52_sequence("a"), "\x1b]52;c;YQ==\x07");
    assert_eq!(osc52_sequence("ab"), "\x1b]52;c;YWI=\x07");
    assert_eq!(osc52_sequence("é?"), "\x1b]52;c;w6k/\x07");
}
