use graviex::json::{push_escaped_char, push_quoted, quoted_string};

fn escaped(c: char) -> String {
    let mut out = String::new();
    push_escaped_char(&mut out, c);
    out
}

#[test]
fn plain_text_is_put_between_quotes() {
    assert_eq!(quoted_string(""), "\"\"");
    assert_eq!(quoted_string("True"), "\"True\"");
    assert_eq!(quoted_string("fav-vrscbtc"), "\"fav-vrscbtc\"");
    assert_eq!(quoted_string("a b/c:d,{e}"), "\"a b/c:d,{e}\"");
    assert_eq!(quoted_string("\u{e9}\u{20ac}\u{1f600}\u{7f}"), "\"\u{e9}\u{20ac}\u{1f600}\u{7f}\"");
}

#[test]
fn quote_and_backslash_get_a_backslash() {
    assert_eq!(escaped('"'), "\\\"");
    assert_eq!(escaped('\\'), "\\\\");
    assert_eq!(quoted_string("say \"hi\""), "\"say \\\"hi\\\"\"");
    assert_eq!(quoted_string("a\\b"), "\"a\\\\b\"");
}

#[test]
fn control_characters_are_escaped() {
    assert_eq!(escaped('\u{8}'), "\\b");
    assert_eq!(escaped('\t'), "\\t");
    assert_eq!(escaped('\n'), "\\n");
    assert_eq!(escaped('\u{c}'), "\\f");
    assert_eq!(escaped('\r'), "\\r");
    assert_eq!(escaped('\u{0}'), "\\u0000");
    assert_eq!(escaped('\u{1}'), "\\u0001");
    assert_eq!(escaped('\u{b}'), "\\u000b");
    assert_eq!(escaped('\u{1a}'), "\\u001a");
    assert_eq!(escaped('\u{1f}'), "\\u001f");
    assert_eq!(escaped(' '), " ");
    assert_eq!(escaped('/'), "/");
}

#[test]
fn push_quoted_appends() {
    let mut out = "{".to_string();
    push_quoted(&mut out, "a");
    out.push(':');
    push_quoted(&mut out, "1\n");
    assert_eq!(out, "{\"a\":\"1\\n\"");
}

#[test]
fn every_character_is_written_as_the_usual_serializer_writes_it() {
    let mut samples: Vec<String> = (0u32..0x180).filter_map(char::from_u32).map(String::from).collect();
    samples.push("mixed \"q\" \\ \u{2}\u{1f}\u{7f}\u{80}\u{2028}\u{ffff}\u{10ffff} end".to_string());
    samples.push(String::new());
    for sample in samples {
        assert_eq!(quoted_string(&sample), serde_json::to_string(&sample).unwrap(), "{:?}", sample);
    }
}

#[test]
fn quoted_text_reads_back() {
    for sample in ["", "plain", "\"\\\u{0}\u{8}\t\n\u{c}\r\u{1f}", "\u{e9}\u{1f600}"] {
        let read: String = serde_json::from_str(&quoted_string(sample)).unwrap();
        assert_eq!(read, sample);
    }
}
