use haut_network_guard::text::{chars_of, contains, parse_u64, split, str_contains, string_of};

fn chars(s: &str) -> Vec<char> {
    s.chars().collect()
}

#[test]
fn chars_and_back() {
    assert_eq!(chars_of("a\u{e4}\u{4e2d}"), vec!['a', '\u{e4}', '\u{4e2d}']);
    assert_eq!(chars_of(""), Vec::<char>::new());
    assert_eq!(string_of(&vec!['o', 'k', '\u{4e2d}']), "ok\u{4e2d}");
    assert_eq!(string_of(&Vec::new()), "");
}

#[test]
fn search() {
    assert!(contains(&chars("abcabd"), &chars("abd")));
    assert!(contains(&chars("abcabd"), &chars("abc")));
    assert!(contains(&chars("abc"), &chars("")));
    assert!(contains(&chars(""), &chars("")));
    assert!(!contains(&chars(""), &chars("a")));
    assert!(!contains(&chars("ab"), &chars("abc")));
    assert!(!contains(&chars("aab"), &chars("aba")));
    assert!(contains(&chars("aaab"), &chars("aab")));
    assert!(str_contains("xxnot_onlinexx", "not_online"));
    assert!(!str_contains("not-online", "not_online"));
}

#[test]
fn search_agrees_with_the_standard_search() {
    let texts = ["", "a", "ab", "aab", "abab", "login_ok", "xlogin_okx", "login_o", "ogin_ok"];
    for hay in texts {
        for needle in texts {
            assert_eq!(str_contains(hay, needle), hay.contains(needle));
        }
    }
}

#[test]
fn splitting() {
    assert_eq!(split(&chars("a,b,c"), ','), vec![chars("a"), chars("b"), chars("c")]);
    assert_eq!(split(&chars(""), ','), vec![chars("")]);
    assert_eq!(split(&chars(","), ','), vec![chars(""), chars("")]);
    assert_eq!(split(&chars("abc"), ','), vec![chars("abc")]);
    assert_eq!(split(&chars(",a,,b,"), ','), vec![chars(""), chars("a"), chars(""), chars("b"),
        chars("")]);
}

#[test]
fn splitting_agrees_with_the_standard_split() {
    for text in ["", ".", "1.2.3", "..", "v1.2.", ".a.b", "no dots"] {
        let expected: Vec<Vec<char>> = text.split('.').map(|f| f.chars().collect()).collect();
        assert_eq!(split(&chars(text), '.'), expected);
    }
}

#[test]
fn numbers() {
    assert_eq!(parse_u64(&chars("0")), Some(0));
    assert_eq!(parse_u64(&chars("2048")), Some(2048));
    assert_eq!(parse_u64(&chars("+2048")), Some(2048));
    assert_eq!(parse_u64(&chars("000000000000000000000000000012")), Some(12));
    assert_eq!(parse_u64(&chars("18446744073709551615")), Some(u64::MAX));
    assert_eq!(parse_u64(&chars("18446744073709551616")), None);
    assert_eq!(parse_u64(&chars("184467440737095516150")), None);
    assert_eq!(parse_u64(&chars("")), None);
    assert_eq!(parse_u64(&chars("+")), None);
    assert_eq!(parse_u64(&chars("-1")), None);
    assert_eq!(parse_u64(&chars("12a")), None);
    assert_eq!(parse_u64(&chars("1 ")), None);
    assert_eq!(parse_u64(&chars("+-1")), None);
}
