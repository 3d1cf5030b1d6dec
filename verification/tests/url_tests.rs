use lzeditor::is_valid_url;

#[test]
fn accepts_plain_https_url() {
    assert!(is_valid_url("https://example.com/a"));
}

#[test]
fn rejects_free_text() {
    assert!(!is_valid_url("not a url"));
}

#[test]
fn rejects_two_letter_scheme() {
    assert!(!is_valid_url("ab://x.y"));
}

#[test]
fn accepts_three_letter_scheme() {
    assert!(is_valid_url("abc://x.y"));
}

#[test]
fn rejects_missing_separator() {
    assert!(!is_valid_url("example.com"));
}

#[test]
fn rejects_missing_dot() {
    assert!(!is_valid_url("https://example"));
}

#[test]
fn agrees_with_the_reference_pattern() {
    let re = regex::Regex::new(r"^[[:alnum:]]{3,9}:[/]{2}.+[.].+").unwrap();
    let cases = [
        "",
        "https://example.com/a",
        "https://youtu.be/xxxxxxxx",
        "not a url",
        "ab://x.y",
        "abc://x.y",
        "abcdefghi://x.y",
        "abcdefghij://x.y",
        "https://x",
        "https://.",
        "https://..",
        "https://...",
        "https://a.b",
        "https://a.\n",
        "https://\n.a",
        "https://a\nb.c",
        "https://ab.c\nmore",
        "http//x.y",
        "://x.y",
        "h-t://x.y",
        "htt p://x.y",
        "https://é.fr",
        "héép://x.y",
        "https://x.y extra stuff",
        "HTTPS://X.Y",
        "a1c://9.9",
        "abc:/x.y",
        "abc:///.",
        "abc:////.x",
    ];
    for s in cases {
        assert_eq!(is_valid_url(s), re.is_match(s), "disagreement on {:?}", s);
    }
}
