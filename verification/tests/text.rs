use chat_client::text::{to_chars, to_text, trim};

#[test]
fn characters_of_a_string() {
    assert_eq!(to_chars("a\u{e9}\u{8d8a}"), vec!['a', '\u{e9}', '\u{8d8a}']);
    assert_eq!(to_chars(""), Vec::<char>::new());
}

#[test]
fn string_of_characters() {
    assert_eq!(to_text(&['h', 'i', '\u{e9}']), "hi\u{e9}".to_string());
    assert_eq!(to_text(&[]), String::new());
}

#[test]
fn characters_and_back() {
    let text = "data: {\"completion\":\"\u{8d8a}\"}";
    assert_eq!(to_text(&to_chars(text)), text.to_string());
}

#[test]
fn trim_removes_whitespace_at_both_ends() {
    let text = to_chars(" \t\n a b \r\n");
    assert_eq!(trim(&text), &['a', ' ', 'b'][..]);
}

#[test]
fn trim_knows_unicode_whitespace() {
    let text = to_chars("\u{a0}\u{2003}x\u{3000}");
    assert_eq!(trim(&text), &['x'][..]);
}

#[test]
fn trim_of_blank_text_is_empty() {
    let text = to_chars(" \n\t ");
    assert_eq!(trim(&text).len(), 0);
    assert_eq!(trim(&[]).len(), 0);
}

#[test]
fn trim_agrees_with_the_standard_library() {
    for sample in ["", " ", "a", " a", "a ", "  a  b  ", "\n\na\n", "\u{85}a\u{1680}", "a\u{200b}"] {
        let text = to_chars(sample);
        assert_eq!(to_text(trim(&text)), sample.trim().to_string());
    }
}

fn has_white_space_property(c: char) -> bool {
    matches!(
        c as u32,
        0x09..=0x0D
            | 0x20
            | 0x85
            | 0xA0
            | 0x1680
            | 0x2000..=0x200A
            | 0x2028
            | 0x2029
            | 0x202F
            | 0x205F
            | 0x3000
    )
}

#[test]
fn whitespace_is_the_unicode_property_and_nothing_else() {
    for code in 0..=0x10FFFFu32 {
        if let Some(c) = char::from_u32(code) {
            assert_eq!(trim(&[c]).is_empty(), has_white_space_property(c), "U+{:04X}", code);
        }
    }
}

#[test]
fn letters_and_digits_are_kept() {
    let text = to_chars("\u{2003}a1 \u{200b}z\u{3000}");
    assert_eq!(trim(&text), &['a', '1', ' ', '\u{200b}', 'z'][..]);
}
