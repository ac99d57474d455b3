use git_msg::redact::redact_secrets;

/// A key-shaped token built at run time: the prefix and `n` copies of `fill`.
fn key(prefix: &str, fill: char, n: usize) -> String {
    let mut s = prefix.to_string();
    for _ in 0..n {
        s.push(fill);
    }
    s
}

#[test]
fn each_key_kind_is_redacted() {
    let input = format!(
        "a={}; b={} c={}",
        key("ghp_", 'x', 36),
        key("AKIA", 'Q', 16),
        key("sk-proj-", 'A', 20)
    );
    assert_eq!(redact_secrets(&input), "a=ghp_[REDACTED]; b=AKIA[REDACTED] c=sk-[REDACTED]");
}

#[test]
fn short_or_embedded_tokens_stay() {
    let input = format!("use sk-learn; x{} {}", key("sk-", 'a', 24), key("AKIA", '1', 3));
    assert_eq!(redact_secrets(&input), input);
}

#[test]
fn redacting_twice_changes_nothing() {
    let once = redact_secrets(&format!("k = \"{}\"\n", key("sk-", 'a', 28)));
    assert_eq!(once, "k = \"sk-[REDACTED]\"\n");
    assert_eq!(redact_secrets(&once), once);
}
