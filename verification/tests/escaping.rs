use proto_textfmt::options::FormatOptions;
use proto_textfmt::value::Value;
use proto_textfmt::writer::Writer;

fn quoted(bytes: &[u8]) -> String {
    let mut out = String::new();
    let mut writer = Writer::new(FormatOptions::default(), &mut out);
    writer.fmt_string(bytes);
    out
}

/// Reads a quoted literal back, as a reader of the text format does.
fn read_back(text: &str) -> Vec<u8> {
    let chars: Vec<char> = text.chars().collect();
    assert_eq!(chars[0], '"');
    assert_eq!(chars[chars.len() - 1], '"');
    let mut bytes = Vec::new();
    let mut i = 1;
    while i < chars.len() - 1 {
        if chars[i] == '\\' {
            let c = chars[i + 1];
            if c.is_digit(8) {
                let value = c.to_digit(8).unwrap() * 64
                    + chars[i + 2].to_digit(8).unwrap() * 8
                    + chars[i + 3].to_digit(8).unwrap();
                bytes.push(value as u8);
                i += 4;
            } else {
                bytes.push(match c {
                    't' => b'\t',
                    'r' => b'\r',
                    'n' => b'\n',
                    other => other as u8,
                });
                i += 2;
            }
        } else {
            assert_ne!(chars[i], '"');
            bytes.push(chars[i] as u8);
            i += 1;
        }
    }
    bytes
}

#[test]
fn short_escapes() {
    assert_eq!(quoted(b"\t"), r#""\t""#);
    assert_eq!(quoted(b"\r"), r#""\r""#);
    assert_eq!(quoted(b"\n"), r#""\n""#);
    assert_eq!(quoted(b"\\"), r#""\\""#);
    assert_eq!(quoted(b"'"), r#""\'""#);
    assert_eq!(quoted(b"\""), r#""\"""#);
}

#[test]
fn printable_bytes_stand_for_themselves() {
    assert_eq!(quoted(b" ~az09,;{}[]:"), "\" ~az09,;{}[]:\"");
    assert_eq!(quoted(b""), "\"\"");
}

#[test]
fn other_bytes_are_three_octal_digits() {
    assert_eq!(quoted(&[0x00]), r#""\000""#);
    assert_eq!(quoted(&[0x07]), r#""\007""#);
    assert_eq!(quoted(&[0x1f]), r#""\037""#);
    assert_eq!(quoted(&[0x7f]), r#""\177""#);
    assert_eq!(quoted(&[0x80]), r#""\200""#);
    assert_eq!(quoted(&[0xff]), r#""\377""#);
}

#[test]
fn control_and_high_bytes_are_escaped_one_by_one() {
    let bytes = [
        0x00, 0x01, 0x02, 0x03, 0xfc, 0xff, 0xff, 0xff, 0xff, 0xff, 0xff, 0xff, 0xff, 0x01,
    ];
    assert_eq!(
        Value::Bytes(bytes.to_vec()).to_text(false),
        r#""\000\001\002\003\374\377\377\377\377\377\377\377\377\001""#
    );
}

#[test]
fn strings_are_escaped_byte_by_byte() {
    assert_eq!(Value::String("\u{20ac}".to_owned()).to_text(false), r#""\342\202\254""#);
}

#[test]
fn every_byte_reads_back() {
    let all: Vec<u8> = (0..=255u8).collect();
    assert_eq!(read_back(&quoted(&all)), all);
    for b in 0..=255u8 {
        assert_eq!(read_back(&quoted(&[b, b'0', b])), vec![b, b'0', b]);
    }
}
