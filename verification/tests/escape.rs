use web_vlog::escape::escape;
use web_vlog::text::char_is_whitespace;

#[test]
fn plain_text_is_left_as_it_is() {
    assert_eq!(escape("TEST SPAMMING!"), "TEST SPAMMING!");
    assert_eq!(escape(""), "");
    assert_eq!(escape(" ~az09<>&/{}[]:,"), " ~az09<>&/{}[]:,");
}

#[test]
fn quotes_and_backslash_get_a_backslash() {
    assert_eq!(escape("\""), "\\\"");
    assert_eq!(escape("'"), "\\'");
    assert_eq!(escape("\\"), "\\\\");
    assert_eq!(escape("a\"b'c\\d"), "a\\\"b\\'c\\\\d");
}

#[test]
fn tab_and_line_ends_get_their_letters() {
    assert_eq!(escape("\t"), "\\t");
    assert_eq!(escape("\r"), "\\r");
    assert_eq!(escape("\n"), "\\n");
    assert_eq!(escape("a\r\nb"), "a\\r\\nb");
}

#[test]
fn other_characters_get_their_code_point() {
    assert_eq!(escape("\0"), "\\u{0}");
    assert_eq!(escape("\u{1}"), "\\u{1}");
    assert_eq!(escape("\u{1f}"), "\\u{1f}");
    assert_eq!(escape("\u{7f}"), "\\u{7f}");
    assert_eq!(escape("é"), "\\u{e9}");
    assert_eq!(escape("€"), "\\u{20ac}");
    assert_eq!(escape("\u{10ffff}"), "\\u{10ffff}");
    assert_eq!(escape("😀"), "\\u{1f600}");
}

#[test]
fn script_with_quotes_stays_inside_its_literal() {
    let text = "TEST SPAMMING<script>alert(\"!\");</script>";
    assert_eq!(escape(text), "TEST SPAMMING<script>alert(\\\"!\\\");</script>");
    let text = "TEST SPAMMING<img src=\"fun.gif\"onerror=\"alert('!!');this.remove();\"/>";
    assert_eq!(
        escape(text),
        "TEST SPAMMING<img src=\\\"fun.gif\\\"onerror=\\\"alert(\\'!!\\');this.remove();\\\"/>"
    );
}

#[test]
fn escaped_text_has_no_bare_quote() {
    let text = "\"<script>\"\\\"\\\\\"";
    let escaped: Vec<char> = escape(text).chars().collect();
    let mut i = 0;
    while i < escaped.len() {
        assert_ne!(escaped[i], '"');
        if escaped[i] == '\\' {
            i += 2;
        } else {
            i += 1;
        }
    }
    assert_eq!(i, escaped.len());
}

#[test]
fn escaping_agrees_with_the_standard_library_on_every_character() {
    let mut all = String::new();
    let mut code: u32 = 0;
    while code <= 0x10ffff {
        if let Some(c) = char::from_u32(code) {
            all.push(c);
        }
        code += if code < 0x3000 { 1 } else { 0x101 };
    }
    let expected: String = all.escape_default().collect();
    assert_eq!(escape(&all), expected);
}

#[test]
fn escaping_agrees_with_the_standard_library_on_texts() {
    let texts = ["", "plain", "a\tb", "\"quoted\"", "ünïcödé", "\u{0}\u{7f}\u{80}", "C:\\dir\\file.rs"];
    for text in texts {
        let expected: String = text.escape_default().collect();
        assert_eq!(escape(text), expected);
    }
}

#[test]
fn whitespace_agrees_with_the_standard_library_on_every_character() {
    let mut code: u32 = 0;
    while code <= 0x10ffff {
        if let Some(c) = char::from_u32(code) {
            assert_eq!(char_is_whitespace(c), c.is_whitespace(), "U+{code:X}");
        }
        code += 1;
    }
}
