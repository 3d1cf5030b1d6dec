use lzeditor::decode;
use lzeditor::encode;

#[test]
fn encodes_reserved_characters() {
    assert_eq!(encode("a b"), "a%20b");
    assert_eq!(encode("URL Name"), "URL%20Name");
    assert_eq!(encode("https://youtu.be/x"), "https%3A%2F%2Fyoutu.be%2Fx");
    assert_eq!(encode("keep-A.Z_0~9z"), "keep-A.Z_0~9z");
    assert_eq!(encode(""), "");
}

#[test]
fn round_trips_printable_text() {
    let cases = [
        "",
        "plain",
        "URL Name",
        "https://youtu.be/xxxxxxxx",
        "a b c %20 100% & ? = / \\ \"quoted\"",
        "tabs\tand\nnewlines",
        "unicode: \u{9fa}\u{1f47e} Exterminate! \u{e9}\u{410}",
    ];
    for t in cases {
        assert_eq!(decode(&encode(t)).as_deref(), Some(t), "round trip failed on {:?}", t);
    }
}

#[test]
fn decodes_lowercase_hex_digits() {
    assert_eq!(decode("a%2fb").as_deref(), Some("a/b"));
}

#[test]
fn rejects_malformed_escapes() {
    assert_eq!(decode("abc%"), None);
    assert_eq!(decode("abc%2"), None);
    assert_eq!(decode("abc%zz"), None);
    assert_eq!(decode("%E2%28%A1"), None);
}

#[test]
fn agrees_with_the_reference_encoder() {
    let cases = [
        "",
        "plain",
        "URL Name",
        "https://youtu.be/xxxxxxxx",
        "a+b c&d=e?f/g",
        "-._~ keep",
        "\u{1f47e} Exterminate!",
        "caf\u{e9} au lait",
    ];
    for t in cases {
        assert_eq!(
            encode(t),
            urlencoding::encode(t).into_owned(),
            "encoders disagree on {:?}",
            t
        );
        assert_eq!(
            decode(&urlencoding::encode(t)).as_deref(),
            Some(t),
            "decoding the reference encoder's output failed on {:?}",
            t
        );
    }
}
