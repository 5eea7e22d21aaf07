use dc34_console::qr::{bookmark_keys, first_line, get_reply, list_reply, parse_qr_command, record_url, QrCommand};

fn v(ks: &[&str]) -> Vec<String> {
    ks.iter().map(|k| k.to_string()).collect()
}

#[test]
fn bookmark_keys_sorted_without_counter() {
    let k = v(&["0000000b", "__counter__", "00000002", "0000000a", "00000002"]);
    assert_eq!(bookmark_keys(&k), v(&["00000002", "00000002", "0000000a", "0000000b"]));
    assert_eq!(bookmark_keys(&v(&["__counter__"])), Vec::<String>::new());
    let mut expected = v(&["b", "ä", "a", "ab", ""]);
    expected.sort();
    assert_eq!(bookmark_keys(&v(&["b", "ä", "a", "ab", ""])), expected);
}

#[test]
fn url_is_first_line() {
    assert_eq!(first_line("https://a.com\nlabel\n123"), "https://a.com");
    assert_eq!(first_line("only"), "only");
    assert_eq!(first_line(""), "");
    assert_eq!(first_line("\nx"), "");
}

#[test]
fn qr_commands() {
    assert_eq!(parse_qr_command("list"), QrCommand::List);
    assert_eq!(parse_qr_command("get 2"), QrCommand::Get { index: 2 });
    assert_eq!(parse_qr_command("get"), QrCommand::NeedIndex);
    assert_eq!(parse_qr_command("get two"), QrCommand::NeedIndex);
    assert_eq!(parse_qr_command("add x"), QrCommand::Usage);
    assert_eq!(parse_qr_command(""), QrCommand::Usage);
}

#[test]
fn qr_replies() {
    assert_eq!(list_reply(&v(&[])), "no saved QR codes");
    assert_eq!(list_reply(&v(&["https://a.com", "b"])), "   0  https://a.com\n   1  b\n2 code(s)");
    let many: Vec<String> = (0..11).map(|i| format!("u{i}")).collect();
    assert!(list_reply(&many).contains("  10  u10\n"));
    assert_eq!(get_reply(1, &v(&["a", "b"])), "b");
    assert_eq!(get_reply(2, &v(&["a", "b"])), "ERR no code 2");
}

#[test]
fn record_url_reads_utf8_records() {
    assert_eq!(record_url(b"https://example.org/a\nlabel\n1700000000"), Some("https://example.org/a".to_string()));
    assert_eq!(record_url("https://ex.org/\u{e9}t\u{e9}".as_bytes()), Some("https://ex.org/\u{e9}t\u{e9}".to_string()));
    assert_eq!(record_url(b""), Some(String::new()));
    // not UTF-8: a lone continuation byte, an overlong form, a surrogate
    assert_eq!(record_url(&[0x68, 0x80]), None);
    assert_eq!(record_url(&[0xc0, 0xaf]), None);
    assert_eq!(record_url(&[0xed, 0xa0, 0x80]), None);
}
