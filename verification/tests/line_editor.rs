use esp32_led_flasher::cli::line_editor::{LineEditor, PROMPT};

fn feed(editor: &mut LineEditor, input: &[u8]) -> (Vec<u8>, Option<String>) {
    let mut out = Vec::new();
    let mut cmd = None;
    for &b in input {
        let step = editor.handle_char(b);
        out.extend_from_slice(&step.output);
        if step.command.is_some() {
            cmd = step.command;
        }
    }
    (out, cmd)
}

#[test]
fn typed_line_is_echoed_and_returned() {
    let mut e = LineEditor::new(false);
    let (out, cmd) = feed(&mut e, b"help");
    assert_eq!(out, b"help".to_vec());
    assert_eq!(cmd, None);
    assert_eq!(e.line(), "help");
    assert_eq!(e.cursor(), 4);
    let (out, cmd) = feed(&mut e, b"\r");
    assert_eq!(out, b"\r\n".to_vec());
    assert_eq!(cmd.as_deref(), Some("help"));
    assert_eq!(e.line(), "");
}

#[test]
fn backspace_erases_last_char() {
    let mut e = LineEditor::new(false);
    feed(&mut e, b"helo");
    let (out, _) = feed(&mut e, &[0x7f]);
    assert_eq!(out, b"\x08 \x08".to_vec());
    assert_eq!(e.line(), "hel");
    let (_, cmd) = feed(&mut e, b"lo\n");
    assert_eq!(cmd.as_deref(), Some("hello"));
}

#[test]
fn backspace_on_empty_line_does_nothing() {
    let mut e = LineEditor::new(false);
    let (out, cmd) = feed(&mut e, &[0x08]);
    assert!(out.is_empty());
    assert_eq!(cmd, None);
}

#[test]
fn insert_in_middle_redraws_tail() {
    let mut e = LineEditor::new(false);
    feed(&mut e, b"hllo");
    // Left three times: ESC [ D
    feed(&mut e, b"\x1b[D\x1b[D\x1b[D");
    assert_eq!(e.cursor(), 1);
    let (out, _) = feed(&mut e, b"e");
    // "ello" then move back over "llo"
    assert_eq!(out, b"ello\x1b[D\x1b[D\x1b[D".to_vec());
    assert_eq!(e.line(), "hello");
    assert_eq!(e.cursor(), 2);
}

#[test]
fn history_recalls_previous_commands() {
    let mut e = LineEditor::new(false);
    feed(&mut e, b"version\r");
    feed(&mut e, b"status\r");
    let (out, _) = feed(&mut e, b"\x1b[A");
    assert_eq!(out, b"status".to_vec());
    assert_eq!(e.line(), "status");
    feed(&mut e, b"\x1b[A");
    assert_eq!(e.line(), "version");
    // At the oldest entry, up does nothing.
    let (out, _) = feed(&mut e, b"\x1b[A");
    assert!(out.is_empty());
    feed(&mut e, b"\x1b[B");
    assert_eq!(e.line(), "status");
    feed(&mut e, b"\x1b[B");
    assert_eq!(e.line(), "");
}

#[test]
fn repeated_command_is_stored_once() {
    let mut e = LineEditor::new(false);
    feed(&mut e, b"help\rhelp\r");
    feed(&mut e, b"\x1b[A");
    assert_eq!(e.line(), "help");
    let (out, _) = feed(&mut e, b"\x1b[A");
    assert!(out.is_empty());
}

#[test]
fn history_keeps_ten_entries() {
    let mut e = LineEditor::new(false);
    for i in 0..12 {
        let line = format!("cmd{}\r", i);
        feed(&mut e, line.as_bytes());
    }
    for _ in 0..20 {
        feed(&mut e, b"\x1b[A");
    }
    assert_eq!(e.line(), "cmd2");
}

#[test]
fn tab_completes_unique_prefix() {
    let mut e = LineEditor::new(false);
    feed(&mut e, b"vers");
    let (out, _) = feed(&mut e, b"\t");
    let mut expected = b"\x08 \x08".repeat(4);
    expected.extend_from_slice(b"version ");
    assert_eq!(out, expected);
    assert_eq!(e.line(), "version ");
}

#[test]
fn tab_lists_several_matches() {
    let mut e = LineEditor::new(false);
    feed(&mut e, b"mqtt_");
    let (out, _) = feed(&mut e, b"\t");
    let expected = format!(
        "\r\nmqtt_status  mqtt_enable  mqtt_disable  mqtt_publish\r\n{}mqtt_",
        PROMPT
    );
    assert_eq!(out, expected.into_bytes());
    assert_eq!(e.line(), "mqtt_");
}

#[test]
fn line_is_limited_to_127_chars() {
    let mut e = LineEditor::new(false);
    let long = vec![b'a'; 200];
    feed(&mut e, &long);
    assert_eq!(e.line().len(), 127);
}

#[test]
fn telnet_negotiation_is_refused() {
    let mut e = LineEditor::new(true);
    let (out, cmd) = feed(&mut e, &[0xFF, 0xFB, 0x01]);
    assert_eq!(out, vec![0xFF, 0xFE, 0x01]);
    assert_eq!(cmd, None);
    let (out, _) = feed(&mut e, &[0xFF, 0xFD, 0x03]);
    assert_eq!(out, vec![0xFF, 0xFC, 0x03]);
    assert_eq!(e.line(), "");
}

#[test]
fn serial_editor_ignores_iac_byte() {
    let mut e = LineEditor::new(false);
    let (out, _) = feed(&mut e, &[0xFF]);
    assert!(out.is_empty());
    feed(&mut e, b"ok");
    assert_eq!(e.line(), "ok");
}
