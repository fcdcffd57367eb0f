use carbide_ipxe_renderer::digest::digest_hex;
use carbide_ipxe_renderer::text::{
    chars_of, collapse_spaces, contains, is_white_space_char, lines, replace, string_of,
    trim_lines,
};

fn v(s: &str) -> Vec<char> {
    s.chars().collect()
}

#[test]
fn white_space_matches_std() {
    for u in 0u32..0x3100 {
        if let Some(c) = char::from_u32(u) {
            assert_eq!(is_white_space_char(c), c.is_whitespace(), "{:x}", u);
        }
    }
    assert!(!is_white_space_char('\u{feff}'));
}

#[test]
fn replace_is_left_to_right_non_overlapping() {
    assert_eq!(replace(&v("aaaa"), &v("aa"), &v("b")), v("bb"));
    assert_eq!(replace(&v("aaa"), &v("aa"), &v("b")), v("ba"));
    assert_eq!(replace(&v("x{{a}}y{{a}}"), &v("{{a}}"), &v("{{a}}")), v("x{{a}}y{{a}}"));
    assert_eq!(replace(&v("abc"), &v("abcd"), &v("z")), v("abc"));
    let s = "one {{p}} two {{p}}";
    assert_eq!(
        string_of(&replace(&chars_of(s), &v("{{p}}"), &v("X"))),
        s.replace("{{p}}", "X")
    );
}

#[test]
fn contains_finds_substrings() {
    assert!(contains(&v("hello"), &v("ll")));
    assert!(contains(&v("hello"), &v("")));
    assert!(!contains(&v("hello"), &v("lo!")));
}

#[test]
fn collapse_spaces_squeezes_runs() {
    assert_eq!(collapse_spaces(v("a    b  c d")), v("a b c d"));
    assert_eq!(collapse_spaces(v("     ")), v(" "));
    assert_eq!(collapse_spaces(v("\t  \t")), v("\t \t"));
}

#[test]
fn trim_lines_like_std_lines() {
    for s in ["a \nb\t\n", "", "\n", "x\r\ny  ", "\n\nz", "a\n\n"] {
        let expected: Vec<&str> = s.lines().map(|l| l.trim_end()).collect();
        assert_eq!(string_of(&trim_lines(&v(s))), expected.join("\n"), "{:?}", s);
    }
    assert_eq!(lines(&v("a\nb\n")).len(), 2);
    assert_eq!(lines(&v("")).len(), 0);
}

#[test]
fn digest_hex_is_lowercase_pairs() {
    assert_eq!(digest_hex(&[0x00, 0x0f, 0xa5, 0xff]), "000fa5ff");
    assert_eq!(digest_hex(&[]), "");
}
