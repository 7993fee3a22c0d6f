use symbolab_rs::cookie::{extract_token, token_in_header};
use symbolab_rs::text::{chars_of, find_from, split_on, string_of};

fn chars(s: &str) -> Vec<char> {
    s.chars().collect()
}

fn strings(parts: &[&str]) -> Vec<String> {
    parts.iter().map(|p| p.to_string()).collect()
}

#[test]
fn chars_and_strings_convert_both_ways() {
    assert_eq!(chars_of("a\u{03c0}b"), vec!['a', '\u{03c0}', 'b']);
    assert_eq!(chars_of(""), Vec::<char>::new());
    assert_eq!(string_of(&vec!['a', '\u{03c0}', 'b']), "a\u{03c0}b");
    assert_eq!(string_of(&Vec::new()), "");
}

#[test]
fn find_from_gives_the_first_place() {
    assert_eq!(find_from(&chars("a; b; c"), &chars("; "), 0), Some(1));
    assert_eq!(find_from(&chars("a; b; c"), &chars("; "), 2), Some(4));
    assert_eq!(find_from(&chars("a; b; c"), &chars("; "), 5), None);
    assert_eq!(find_from(&chars("abc"), &chars("abcd"), 0), None);
    assert_eq!(find_from(&chars("abc"), &chars("c"), 9), None);
}

#[test]
fn split_on_cuts_as_str_split_does() {
    let cases = ["a; b; c", "", "; ", "a; ", "; a", "a;; b", "a; ; b", ";  ; ", "no cut"];
    for case in cases {
        let expected: Vec<Vec<char>> = case.split("; ").map(chars).collect();
        assert_eq!(split_on(&chars(case), &chars("; ")), expected);
    }
    let expected: Vec<Vec<char>> = "k=v=w".split('=').map(chars).collect();
    assert_eq!(split_on(&chars("k=v=w"), &chars("=")), expected);
    assert_eq!(split_on(&chars("abc"), &chars("")), vec![chars("abc")]);
}

#[test]
fn token_is_the_value_of_the_named_cookie() {
    assert_eq!(
        token_in_header("sy2.pub.token=abc123; Path=/; HttpOnly"),
        Some("abc123".to_string())
    );
    assert_eq!(
        token_in_header("Path=/; sy2.pub.token=xyz; Secure"),
        Some("xyz".to_string())
    );
}

#[test]
fn token_may_stand_behind_a_comma() {
    assert_eq!(
        token_in_header("other=1, sy2.pub.token=tok; Path=/"),
        Some("tok".to_string())
    );
    assert_eq!(
        token_in_header("Expires=Wed, 01 Jan 2030 00:00:00 GMT; a=b, sy2.pub.token=t2"),
        Some("t2".to_string())
    );
}

#[test]
fn token_value_ends_at_the_next_equals_sign() {
    assert_eq!(token_in_header("sy2.pub.token=a=b; x=y"), Some("a".to_string()));
    assert_eq!(token_in_header("sy2.pub.token=; x=y"), Some("".to_string()));
}

#[test]
fn header_without_the_cookie_has_no_token() {
    assert_eq!(token_in_header("session=1; Path=/"), None);
    assert_eq!(token_in_header(""), None);
    assert_eq!(token_in_header("xsy2.pub.token=1"), None);
    assert_eq!(token_in_header("sy2.pub.token2=1"), None);
}

#[test]
fn named_piece_without_a_value_decides_the_header() {
    assert_eq!(token_in_header("sy2.pub.token; sy2.pub.token=late"), None);
}

#[test]
fn first_header_with_a_token_wins() {
    let headers = strings(&[
        "session=1; Path=/",
        "sy2.pub.token",
        "sy2.pub.token=first; Path=/",
        "sy2.pub.token=second",
    ]);
    assert_eq!(extract_token(&headers), Some("first".to_string()));
}

#[test]
fn no_header_with_a_token_gives_none() {
    assert_eq!(extract_token(&strings(&["a=b", "c=d; e=f"])), None);
    assert_eq!(extract_token(&Vec::new()), None);
}

#[test]
fn extract_token_agrees_with_the_iterator_form() {
    let cases = [
        "sy2.pub.token=abc; Path=/",
        "a=b, sy2.pub.token=q=r; x",
        "sy2.pub.token",
        "a; b, c; sy2.pub.token=z, sy2.pub.token=y",
        ", sy2.pub.token=k",
    ];
    for case in cases {
        let expected = case
            .split("; ")
            .find_map(|pair| {
                pair.split(", ")
                    .map(|p2| p2.split('='))
                    .map(|mut arr| (arr.next(), arr))
                    .find(|(first, _)| *first == Some("sy2.pub.token"))
            })
            .and_then(|mut found| found.1.next().map(|t| t.to_string()));
        assert_eq!(token_in_header(case), expected);
    }
}
