use git_msg::text::{chars_of, decimal_chars, is_whitespace, join_parts, replace_all, rfind_exec, split_lines, trim_chars};

fn string_of(v: &[char]) -> String {
    v.iter().collect()
}

fn v(s: &str) -> Vec<char> {
    s.chars().collect()
}

#[test]
fn whitespace_set_matches_std() {
    for u in 0u32..0x11000 {
        if let Some(c) = char::from_u32(u) {
            assert_eq!(is_whitespace(c), c.is_whitespace(), "{:x}", u);
        }
    }
}

#[test]
fn lines_match_std() {
    for s in ["", "a", "a\n", "a\r\nb", "\n\n", "x\r", "a\n\rb\r\n", "\r\n"] {
        let ours: Vec<String> = split_lines(&v(s)).iter().map(|l| l.iter().collect()).collect();
        let std: Vec<String> = s.lines().map(|l| l.to_string()).collect();
        assert_eq!(ours, std, "{:?}", s);
    }
}

#[test]
fn trim_replace_and_numbers_match_std() {
    for s in ["  a b \u{3000}", "\t\n", "x", ""] {
        assert_eq!(string_of(&trim_chars(&v(s))), s.trim());
    }
    assert_eq!(string_of(&replace_all(&v("aaa{x}b{x}"), &v("{x}"), &v("yy"))), "aaa{x}b{x}".replace("{x}", "yy"));
    assert_eq!(string_of(&replace_all(&v("aaaa"), &v("aa"), &v("b"))), "aaaa".replace("aa", "b"));
    for n in [0usize, 7, 10, 153, 500, usize::MAX] {
        assert_eq!(string_of(&decimal_chars(n)), n.to_string());
    }
    assert_eq!(rfind_exec(&v("a b/ b/c"), &v(" b/")), "a b/ b/c".rfind(" b/"));
    assert_eq!(string_of(&join_parts(&vec![v("a"), v(""), v("b")], &v("--"))), "a----b");
    assert_eq!(chars_of("héllo"), v("héllo"));
}
