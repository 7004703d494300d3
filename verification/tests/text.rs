use guideng::decimal::{parse_integer, signed_text, unsigned_text};
use guideng::hex::hex_text;
use guideng::markup::{admin_css, escape_html};
use guideng::text::{same_text, split, split_once, strip_prefix, trim};

#[test]
fn trimming_knows_all_white_space() {
    for code in 0..=0x10FFFFu32 {
        if let Some(c) = char::from_u32(code) {
            let padded = format!("{c}x{c}");
            let bare = trim(&padded);
            if c.is_whitespace() {
                assert_eq!(bare, "x");
            } else {
                assert_eq!(bare, padded);
            }
        }
    }
}

#[test]
fn trimming_leaves_white_space_within() {
    assert_eq!(trim(" \t a  b \n"), "a  b");
    assert_eq!(trim("   "), "");
    assert_eq!(trim(""), "");
    assert_eq!(trim(&trim("  x ")), trim("  x "));
}

#[test]
fn splitting_keeps_empty_pieces() {
    assert_eq!(split("a;b", ';'), vec!["a", "b"]);
    assert_eq!(split(";;", ';'), vec!["", "", ""]);
    assert_eq!(split("", ';'), vec![""]);
    assert_eq!(split("a;b;c", ';').join(";"), "a;b;c");
}

#[test]
fn splitting_once_takes_the_first_separator() {
    assert_eq!(
        split_once("a=b=c", '='),
        Some(("a".to_string(), "b=c".to_string()))
    );
    assert_eq!(split_once("=", '='), Some((String::new(), String::new())));
    assert_eq!(split_once("abc", '='), None);
}

#[test]
fn prefixes_are_stripped_where_they_are() {
    assert_eq!(strip_prefix("Bearer x", "Bearer "), Some("x".to_string()));
    assert_eq!(strip_prefix("Bearer ", "Bearer "), Some(String::new()));
    assert_eq!(strip_prefix("bearer x", "Bearer "), None);
    assert_eq!(strip_prefix("Bear", "Bearer "), None);
    assert!(same_text("é", "é"));
    assert!(!same_text("e", "é"));
}

#[test]
fn numbers_are_written_as_std_writes_them() {
    for n in [0, 1, 9, 10, 99, 100, 4294967296, u64::MAX] {
        assert_eq!(unsigned_text(n), n.to_string());
    }
    for n in [0, -1, 7, -10, 36500, i64::MAX, i64::MIN] {
        assert_eq!(signed_text(n), n.to_string());
    }
}

#[test]
fn numbers_are_read_as_std_reads_them() {
    for text in [
        "",
        "+",
        "-",
        "0",
        "-0",
        "+5",
        "007",
        " 7",
        "7 ",
        "1_0",
        "--1",
        "+-1",
        "12a",
        "٣",
        "9223372036854775807",
        "9223372036854775808",
        "-9223372036854775808",
        "-9223372036854775809",
        "99999999999999999999999999",
    ] {
        assert_eq!(parse_integer(text), text.parse::<i64>().ok(), "{text}");
    }
}

#[test]
fn numbers_read_back_what_was_written() {
    for n in [0, -1, 30, i64::MAX, i64::MIN] {
        assert_eq!(parse_integer(&signed_text(n)), Some(n));
    }
}

#[test]
fn bytes_have_two_digits_each() {
    assert_eq!(hex_text(&[]), "");
    assert_eq!(hex_text(&[0, 10, 159, 255]), "000a9fff");
    for byte in 0..=255u8 {
        assert_eq!(hex_text(&[byte]), format!("{byte:02x}"));
    }
}

#[test]
fn escaping_replaces_the_five_characters() {
    assert_eq!(
        escape_html(r#"<a href="x">'&'</a>"#),
        "&lt;a href=&quot;x&quot;&gt;&#39;&amp;&#39;&lt;/a&gt;"
    );
    assert_eq!(escape_html("&lt;"), "&amp;lt;");
    assert_eq!(escape_html("Phone 手机"), "Phone 手机");
}

#[test]
fn escaping_is_replacing_one_after_the_other() {
    for text in ["", "a&b", "&amp;&#39;", "<<>>\"\"''&&", "x<y>z"] {
        let replaced = text
            .replace('&', "&amp;")
            .replace('<', "&lt;")
            .replace('>', "&gt;")
            .replace('"', "&quot;")
            .replace('\'', "&#39;");
        assert_eq!(escape_html(text), replaced);
    }
}

#[test]
fn style_sheet_is_whole() {
    let css = admin_css();
    assert!(css.starts_with("\nbody{margin:0;background:#f6f7f9;"));
    assert!(css.ends_with(".actions{flex-direction:column}}\n"));
    assert_eq!(css.lines().count(), 29);
}
