//! Hiding API keys and access tokens in a diff before it leaves the machine.

use vstd::prelude::*;
use crate::text::{append_chars, chars_of, copy_range, has_prefix, starts_with, string_of};

verus! {

/// The characters that make up a key: ASCII letters and digits, `-` and `_`.
pub open spec fn is_token_char(c: char) -> bool {
    let u = c as u32;
    (48 <= u && u <= 57) || (65 <= u && u <= 90) || (97 <= u && u <= 122) || u == 45 || u == 95
}

/// Whether `c` can be part of a key.
pub fn is_token_char_exec(c: char) -> (b: bool)
    ensures
        b == is_token_char(c),
{
    let u = c as u32;
    (48 <= u && u <= 57) || (65 <= u && u <= 90) || (97 <= u && u <= 122) || u == 45 || u == 95
}

/// The length of the run of key characters that `s` starts with.
pub open spec fn run_len(s: Seq<char>) -> nat
    decreases s.len(),
{
    if s.len() > 0 && is_token_char(s[0]) {
        1 + run_len(s.drop_first())
    } else {
        0
    }
}

/// A run is no longer than the text.
pub proof fn lemma_run_len_bound(s: Seq<char>)
    ensures
        run_len(s) <= s.len(),
        s.len() > 0 && is_token_char(s[0]) ==> run_len(s) >= 1,
    decreases s.len(),
{
    if s.len() > 0 && is_token_char(s[0]) {
        lemma_run_len_bound(s.drop_first());
    }
}

/// The shortest token that counts as a key.
pub const MIN_SECRET_LEN: usize = 20;

/// The prefix that marks a token as a key: `sk-` (OpenAI-style keys),
/// `ghp_` (GitHub tokens) or `AKIA` (AWS access keys).
pub open spec fn secret_prefix(token: Seq<char>) -> Option<Seq<char>> {
    if has_prefix(token, "sk-"@) {
        Some("sk-"@)
    } else if has_prefix(token, "ghp_"@) {
        Some("ghp_"@)
    } else if has_prefix(token, "AKIA"@) {
        Some("AKIA"@)
    } else {
        None
    }
}

/// Whether a whole run of key characters is a key: it has a key prefix and
/// at least [`MIN_SECRET_LEN`] characters.
pub open spec fn is_secret(token: Seq<char>) -> bool {
    secret_prefix(token) is Some && token.len() >= MIN_SECRET_LEN
}

/// A run with a key replaced by its prefix and `[REDACTED]`.
pub open spec fn redact_token(token: Seq<char>) -> Seq<char> {
    if is_secret(token) {
        secret_prefix(token)->0 + "[REDACTED]"@
    } else {
        token
    }
}

/// The text with every key (a maximal run of key characters that is a key)
/// replaced.
pub open spec fn redacted(s: Seq<char>) -> Seq<char>
    decreases s.len(),
{
    if s.len() == 0 {
        seq![]
    } else if !is_token_char(s[0]) {
        seq![s[0]] + redacted(s.drop_first())
    } else {
        proof {
            lemma_run_len_bound(s);
        }
        redact_token(s.take(run_len(s) as int)) + redacted(s.skip(run_len(s) as int))
    }
}

/// Whether no maximal run of key characters in `s` is a key.
pub open spec fn no_secrets(s: Seq<char>) -> bool
    decreases s.len(),
{
    if s.len() == 0 {
        true
    } else if !is_token_char(s[0]) {
        no_secrets(s.drop_first())
    } else {
        proof {
            lemma_run_len_bound(s);
        }
        !is_secret(s.take(run_len(s) as int)) && no_secrets(s.skip(run_len(s) as int))
    }
}

/// A text without keys is left as it is.
pub proof fn lemma_clean_text_unchanged(s: Seq<char>)
    requires
        no_secrets(s),
    ensures
        redacted(s) == s,
    decreases s.len(),
{
    if s.len() > 0 {
        lemma_run_len_bound(s);
        if !is_token_char(s[0]) {
            lemma_clean_text_unchanged(s.drop_first());
            assert(seq![s[0]] + s.drop_first() =~= s);
        } else {
            let n = run_len(s) as int;
            lemma_clean_text_unchanged(s.skip(n));
            assert(s.take(n) + s.skip(n) =~= s);
        }
    }
}

/// After redaction no key is left, so redacting again changes nothing.
pub proof fn lemma_redaction_complete(s: Seq<char>)
    ensures
        no_secrets(redacted(s)),
        redacted(redacted(s)) == redacted(s),
{
    lemma_no_secrets_after(s);
    lemma_clean_text_unchanged(redacted(s));
}

/// A run that ends inside `t` ends at the same place in `t + r`.
proof fn lemma_run_len_prefix(t: Seq<char>, r: Seq<char>)
    requires
        run_len(t) < t.len(),
    ensures
        run_len(t + r) == run_len(t),
    decreases t.len(),
{
    assert((t + r)[0] == t[0]);
    if is_token_char(t[0]) {
        assert((t + r).drop_first() =~= t.drop_first() + r);
        lemma_run_len_prefix(t.drop_first(), r);
    }
}

/// Text that does not end in a key character is redacted apart from what
/// follows it.
proof fn lemma_redacted_concat(a: Seq<char>, x: Seq<char>)
    requires
        a.len() == 0 || !is_token_char(a.last()),
    ensures
        redacted(a + x) == redacted(a) + redacted(x),
    decreases a.len(),
{
    if a.len() == 0 {
        assert(a + x =~= x);
        assert(redacted(a) + redacted(x) =~= redacted(x));
    } else {
        assert((a + x)[0] == a[0]);
        if !is_token_char(a[0]) {
            assert((a + x).drop_first() =~= a.drop_first() + x);
            if a.drop_first().len() > 0 {
                assert(a.drop_first().last() == a.last());
            }
            lemma_redacted_concat(a.drop_first(), x);
            assert(redacted(a + x) =~= redacted(a) + redacted(x));
        } else {
            lemma_run_shape(a);
            let n = run_len(a) as int;
            if n == a.len() {
                assert(is_token_char(a[a.len() - 1]));
            }
            lemma_run_len_prefix(a, x);
            lemma_run_len_bound(a);
            assert((a + x).take(n) =~= a.take(n));
            assert((a + x).skip(n) =~= a.skip(n) + x);
            assert(a.skip(n).last() == a.last());
            lemma_redacted_concat(a.skip(n), x);
            assert(redacted(a + x) =~= redacted(a) + redacted(x));
        }
    }
}

/// Keys are redacted whatever letters and digits follow their prefix: an
/// `sk-`, `ghp_` or `AKIA` key of ASCII letters and digits, at least
/// [`MIN_SECRET_LEN`] characters long and standing between characters that
/// cannot be part of a key, becomes its prefix and `[REDACTED]`, and the text
/// around it is redacted on its own.
pub proof fn lemma_keys_redacted(before: Seq<char>, prefix: Seq<char>, body: Seq<char>, after: Seq<char>)
    requires
        prefix == "sk-"@ || prefix == "ghp_"@ || prefix == "AKIA"@,
        forall|k: int|
            0 <= k < body.len() ==> ('0' <= #[trigger] body[k] <= '9' || 'a' <= body[k] <= 'z' || 'A'
                <= body[k] <= 'Z'),
        prefix.len() + body.len() >= 20,
        before.len() == 0 || !is_token_char(before.last()),
        after.len() == 0 || !is_token_char(after[0]),
    ensures
        redacted(before + prefix + body + after) == redacted(before) + prefix + "[REDACTED]"@ + redacted(
            after,
        ),
{
    reveal_strlit("sk-");
    reveal_strlit("ghp_");
    reveal_strlit("AKIA");
    let key = prefix + body;
    assert forall|k: int| 0 <= k < key.len() implies is_token_char(#[trigger] key[k]) by {
        if k >= prefix.len() {
            assert(key[k] == body[k - prefix.len()]);
        } else {
            assert(key[k] == prefix[k]);
        }
    }
    assert(before + prefix + body + after =~= before + (key + after));
    lemma_redacted_concat(before, key + after);
    lemma_run_of_concat(key, after);
    let x = key + after;
    assert(x[0] == key[0]);
    assert(x.take(key.len() as int) =~= key);
    assert(x.skip(key.len() as int) =~= after);
    assert(key.subrange(0, prefix.len() as int) =~= prefix);
    assert(key[0] == prefix[0]);
    if prefix != "sk-"@ {
        assert(key.subrange(0, 3)[0] == key[0]);
        assert(!has_prefix(key, "sk-"@));
    }
    if prefix == "AKIA"@ {
        assert(key.subrange(0, 4)[0] == key[0]);
        assert(!has_prefix(key, "ghp_"@));
    }
    assert(secret_prefix(key) == Some(prefix));
    assert(redact_token(key) == prefix + "[REDACTED]"@);
    assert(redacted(x) == redact_token(key) + redacted(after));
    assert(redacted(before) + redacted(x) =~= redacted(before) + prefix + "[REDACTED]"@ + redacted(after));
}

/// Every character of a run is a key character, and the run is maximal.
proof fn lemma_run_shape(s: Seq<char>)
    ensures
        run_len(s) <= s.len(),
        forall|k: int| 0 <= k < run_len(s) ==> is_token_char(#[trigger] s[k]),
        run_len(s) < s.len() ==> !is_token_char(s[run_len(s) as int]),
    decreases s.len(),
{
    if s.len() > 0 && is_token_char(s[0]) {
        lemma_run_shape(s.drop_first());
        assert forall|k: int| 0 <= k < run_len(s) implies is_token_char(#[trigger] s[k]) by {
            if k > 0 {
                assert(s[k] == s.drop_first()[k - 1]);
            }
        }
        if run_len(s) < s.len() {
            assert(s[run_len(s) as int] == s.drop_first()[run_len(s) - 1]);
        }
    }
}

/// The run at the start of `t + r` is `t` when `t` is all key characters
/// and `r` does not continue it.
proof fn lemma_run_of_concat(t: Seq<char>, r: Seq<char>)
    requires
        forall|k: int| 0 <= k < t.len() ==> is_token_char(#[trigger] t[k]),
        r.len() > 0 ==> !is_token_char(r[0]),
    ensures
        run_len(t + r) == t.len(),
    decreases t.len(),
{
    if t.len() > 0 {
        assert((t + r).drop_first() =~= t.drop_first() + r);
        assert forall|k: int| 0 <= k < t.drop_first().len() implies is_token_char(
            #[trigger] t.drop_first()[k],
        ) by {
            assert(t.drop_first()[k] == t[k + 1]);
        }
        lemma_run_of_concat(t.drop_first(), r);
        assert((t + r)[0] == t[0]);
    } else {
        assert(t + r =~= r);
    }
}

/// A run that is not a key, followed by text that does not continue it,
/// adds no key.
proof fn lemma_no_secrets_concat(t: Seq<char>, r: Seq<char>)
    requires
        t.len() > 0,
        forall|k: int| 0 <= k < t.len() ==> is_token_char(#[trigger] t[k]),
        !is_secret(t),
        r.len() > 0 ==> !is_token_char(r[0]),
        no_secrets(r),
    ensures
        no_secrets(t + r),
{
    lemma_run_of_concat(t, r);
    assert((t + r)[0] == t[0]);
    assert((t + r).take(t.len() as int) =~= t);
    assert((t + r).skip(t.len() as int) =~= r);
}

/// The redacted text starts with the text's first character when that is
/// not a key character.
proof fn lemma_redacted_head(s: Seq<char>)
    requires
        s.len() > 0,
        !is_token_char(s[0]),
    ensures
        redacted(s).len() > 0,
        redacted(s)[0] == s[0],
{
}

proof fn lemma_no_secrets_after(s: Seq<char>)
    ensures
        no_secrets(redacted(s)),
    decreases s.len(),
{
    if s.len() > 0 {
        lemma_run_len_bound(s);
        if !is_token_char(s[0]) {
            lemma_no_secrets_after(s.drop_first());
            let r = redacted(s.drop_first());
            assert((seq![s[0]] + r).drop_first() =~= r);
        } else {
            let n = run_len(s) as int;
            let tok = s.take(n);
            let rest = s.skip(n);
            lemma_run_shape(s);
            lemma_no_secrets_after(rest);
            let r = redacted(rest);
            if rest.len() > 0 {
                assert(rest[0] == s[n]);
                lemma_redacted_head(rest);
            }
            assert(r.len() > 0 ==> !is_token_char(r[0]));
            assert forall|k: int| 0 <= k < tok.len() implies is_token_char(#[trigger] tok[k]) by {
                assert(tok[k] == s[k]);
            }
            if is_secret(tok) {
                let p = secret_prefix(tok)->0;
                reveal_strlit("sk-");
                reveal_strlit("ghp_");
                reveal_strlit("AKIA");
                reveal_strlit("[REDACTED]");
                let inner = "REDACTED"@;
                reveal_strlit("REDACTED");
                let close = seq![']'] + r;
                assert(no_secrets(close)) by {
                    assert(close.drop_first() =~= r);
                }
                assert(!is_secret(inner)) by {
                    if has_prefix(inner, "sk-"@) {
                        assert(inner[0] == "sk-"@[0]);
                    }
                    if has_prefix(inner, "ghp_"@) {
                        assert(inner[0] == "ghp_"@[0]);
                    }
                    if has_prefix(inner, "AKIA"@) {
                        assert(inner[0] == "AKIA"@[0]);
                    }
                }
                lemma_no_secrets_concat(inner, close);
                let open = seq!['['] + (inner + close);
                assert(no_secrets(open)) by {
                    assert(open.drop_first() =~= inner + close);
                }
                assert(!is_secret(p));
                lemma_no_secrets_concat(p, open);
                assert(redact_token(tok) + r =~= p + open);
            } else {
                lemma_no_secrets_concat(tok, r);
            }
        }
    }
}

fn redact_token_exec(token: &Vec<char>) -> (r: Vec<char>)
    ensures
        r@ == redact_token(token@),
{
    let sk = chars_of("sk-");
    let ghp = chars_of("ghp_");
    let akia = chars_of("AKIA");
    let prefix = if starts_with(token, &sk) {
        Some(sk)
    } else if starts_with(token, &ghp) {
        Some(ghp)
    } else if starts_with(token, &akia) {
        Some(akia)
    } else {
        None
    };
    match prefix {
        Some(p) => {
            if token.len() >= MIN_SECRET_LEN {
                let mut r = p;
                append_chars(&mut r, &chars_of("[REDACTED]"));
                r
            } else {
                copy_range(token, 0, token.len())
            }
        },
        None => {
            assert(token@.subrange(0, token.len() as int) =~= token@);
            copy_range(token, 0, token.len())
        },
    }
}

/// Replaces every key in a diff by its prefix and `[REDACTED]`.
pub fn redact_secrets(diff: &str) -> (r: String)
    ensures
        r@ == redacted(diff@),
{
    let s = chars_of(diff);
    let mut out: Vec<char> = Vec::new();
    let mut i: usize = 0;
    assert(s@.skip(0) =~= s@);
    while i < s.len()
        invariant
            i <= s.len(),
            out@ + redacted(s@.skip(i as int)) == redacted(s@),
        decreases s.len() - i,
    {
        let ghost rest = s@.skip(i as int);
        if !is_token_char_exec(s[i]) {
            assert(rest.drop_first() =~= s@.skip(i + 1));
            out.push(s[i]);
            assert(out@ + redacted(s@.skip(i + 1)) =~= redacted(s@));
            i += 1;
        } else {
            let mut j = i;
            assert(s@.skip(j as int) == rest);
            while j < s.len() && is_token_char_exec(s[j])
                invariant
                    i <= j <= s.len(),
                    rest == s@.skip(i as int),
                    run_len(rest) == (j - i) + run_len(s@.skip(j as int)),
                decreases s.len() - j,
            {
                assert(s@.skip(j as int).drop_first() =~= s@.skip(j + 1));
                j += 1;
            }
            assert(run_len(rest) == j - i);
            let token = copy_range(&s, i, j);
            assert(token@ =~= rest.take(run_len(rest) as int));
            assert(rest.skip(run_len(rest) as int) =~= s@.skip(j as int));
            let piece = redact_token_exec(&token);
            let ghost before = out@;
            append_chars(&mut out, &piece);
            assert(out@ + redacted(s@.skip(j as int)) =~= before + redacted(rest));
            i = j;
        }
    }
    string_of(&out)
}

} // verus!
