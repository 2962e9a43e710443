use interchange::readable::{indent, CharEscape, ReadableFormatter};

fn strip(s: &str) -> String {
    let mut out = String::new();
    let mut chars = s.chars();
    while let Some(c) = chars.next() {
        if c == '\u{1b}' {
            for d in chars.by_ref() {
                if d == 'm' {
                    break;
                }
            }
        } else {
            out.push(c);
        }
    }
    out
}

fn strip_layout(s: &str) -> String {
    let mut out = String::new();
    let mut in_string = false;
    for c in strip(s).chars() {
        if c == '"' {
            in_string = !in_string;
        }
        if in_string || !c.is_whitespace() {
            out.push(c);
        }
    }
    out
}

#[test]
fn null_is_dim_bold_italic_black() {
    let f = ReadableFormatter::new();
    let mut out = String::new();
    f.write_null(&mut out);
    assert_eq!(out, "\u{1b}[1;2;3;30mnull\u{1b}[0m");
}

#[test]
fn numbers_are_blue_decimal() {
    let f = ReadableFormatter::new();
    let mut out = String::new();
    f.write_i64(&mut out, -123);
    f.write_u64(&mut out, u64::MAX);
    f.write_floating(&mut out, "-31.26e12");
    assert_eq!(
        out,
        "\u{1b}[34m-123\u{1b}[0m\u{1b}[34m18446744073709551615\u{1b}[0m\u{1b}[34m-31.26e12\u{1b}[0m"
    );
    let mut wide = String::new();
    f.write_integer(&mut wide, i128::MIN);
    f.write_u8(&mut wide, 0);
    assert_eq!(strip(&wide), "-1701411834604692317316873037158841057280");
}

#[test]
fn indentation_is_two_spaces_a_level() {
    let mut out = String::from("x");
    indent(&mut out, 3);
    assert_eq!(out, "x      ");
    indent(&mut out, 0);
    assert_eq!(out, "x      ");
}

#[test]
fn control_characters_use_hex_escapes() {
    let f = ReadableFormatter::new();
    let mut out = String::new();
    f.write_char_escape(&mut out, CharEscape::AsciiControl(0x1f));
    assert_eq!(out, "\u{1b}[2;32m\\u001f\u{1b}[0m");
    let mut tab = String::new();
    f.write_char_escape(&mut tab, CharEscape::Tab);
    assert_eq!(strip(&tab), "\\t");
}

#[test]
fn keys_and_values_differ_in_colour() {
    let mut f = ReadableFormatter::new();
    let mut out = String::new();
    f.begin_object(&mut out);
    f.begin_object_key(&mut out, true);
    f.begin_string(&mut out);
    f.write_string_fragment(&mut out, "k");
    f.end_string(&mut out);
    f.end_object_key();
    f.begin_object_value(&mut out);
    f.begin_string(&mut out);
    f.write_string_fragment(&mut out, "v");
    f.end_string(&mut out);
    f.end_object_value();
    f.end_object(&mut out);
    assert!(out.contains("\u{1b}[34mk\u{1b}[0m"));
    assert!(out.contains("\u{1b}[32mv\u{1b}[0m"));
    assert_eq!(strip(&out), "{\n  \"k\": \"v\"\n}");
}

#[test]
fn empty_array_stays_on_one_line() {
    let mut f = ReadableFormatter::new();
    let mut out = String::new();
    f.begin_array(&mut out);
    f.end_array(&mut out);
    assert_eq!(strip(&out), "[]");
}

/// The readable layout and the compact one agree once colour and layout
/// whitespace are removed.
#[test]
fn readable_agrees_with_compact() {
    let mut f = ReadableFormatter::new();
    let mut out = String::new();
    f.begin_array(&mut out);
    f.begin_array_value(&mut out, true);
    f.write_bool(&mut out, true);
    f.end_array_value();
    f.begin_array_value(&mut out, false);
    f.begin_string(&mut out);
    f.write_string_fragment(&mut out, "a,b");
    f.end_string(&mut out);
    f.end_array_value();
    f.end_array(&mut out);
    let compact = serde_json::to_string(&serde_json::Value::Array(vec![
        serde_json::Value::Bool(true),
        serde_json::Value::String("a,b".to_string()),
    ]))
    .unwrap();
    assert_eq!(compact, "[true,\"a,b\"]");
    assert_eq!(strip_layout(&out), compact);
    assert_eq!(strip(&out), "[\n  true,\n  \"a,b\"\n]");
    assert!(!out.ends_with('\n'));
}
