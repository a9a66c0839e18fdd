//! Whitespace tokenization: the mathematical model of splitting a text into
//! maximal runs of non-whitespace characters, and a verified tokenizer.

use vstd::prelude::*;
use vstd::string::StrSliceExecFns;

verus! {

/// The whitespace characters that separate tokens: space, tab, newline and
/// carriage return.
pub open spec fn is_whitespace(c: char) -> bool {
    c == ' ' || c == '\t' || c == '\n' || c == '\r'
}

/// Length of the maximal non-whitespace prefix of `s`: the first token of `s`
/// ends here, if `s` starts with a token at all.
pub open spec fn token_len(s: Seq<char>) -> nat
    decreases s.len(),
{
    if s.len() == 0 || is_whitespace(s[0]) {
        0
    } else {
        1 + token_len(s.drop_first())
    }
}

pub proof fn lemma_token_len_le(s: Seq<char>)
    ensures
        token_len(s) <= s.len(),
    decreases s.len(),
{
    if s.len() > 0 && !is_whitespace(s[0]) {
        lemma_token_len_le(s.drop_first());
    }
}

/// If the first `k` characters of `s` are non-whitespace and `s` ends or has a
/// whitespace character at position `k`, then the first token of `s` is
/// exactly `s[0..k]`.
pub proof fn lemma_token_len_scan(s: Seq<char>, k: nat)
    requires
        k <= s.len(),
        forall|m: int| 0 <= m < k ==> !is_whitespace(s[m]),
        k == s.len() || is_whitespace(s[k as int]),
    ensures
        token_len(s) == k,
    decreases k,
{
    if k > 0 {
        lemma_token_len_scan(s.drop_first(), (k - 1) as nat);
    }
}

/// The sequence of whitespace-delimited tokens of `s`, in order of occurrence.
pub open spec fn tokens(s: Seq<char>) -> Seq<Seq<char>>
    decreases s.len(),
    via tokens_decreases
{
    if s.len() == 0 {
        Seq::empty()
    } else if is_whitespace(s[0]) {
        tokens(s.drop_first())
    } else {
        seq![s.take(token_len(s) as int)] + tokens(s.skip(token_len(s) as int))
    }
}

#[via_fn]
proof fn tokens_decreases(s: Seq<char>) {
    if s.len() > 0 && !is_whitespace(s[0]) {
        lemma_token_len_le(s);
    }
}

/// A text made of whitespace alone has no tokens.
pub proof fn lemma_whitespace_only_no_tokens(s: Seq<char>)
    requires
        forall|i: int| 0 <= i < s.len() ==> is_whitespace(s[i]),
    ensures
        tokens(s) == Seq::<Seq<char>>::empty(),
    decreases s.len(),
{
    if s.len() > 0 {
        lemma_whitespace_only_no_tokens(s.drop_first());
    }
}

/// Splits `text` into its whitespace-delimited tokens, in order of occurrence.
pub fn tokenize(text: &str) -> (toks: Vec<String>)
    ensures
        toks@.map_values(|t: String| t@) == tokens(text@),
{
    let n = text.unicode_len();
    let mut toks: Vec<String> = Vec::new();
    let mut i: usize = 0;
    proof {
        assert(text@.skip(0) =~= text@);
        assert(toks@.map_values(|t: String| t@) + tokens(text@) =~= tokens(text@));
    }
    while i < n
        invariant
            n == text@.len(),
            i <= n,
            tokens(text@) == toks@.map_values(|t: String| t@) + tokens(text@.skip(i as int)),
        decreases n - i,
    {
        let c = text.get_char(i);
        if c == ' ' || c == '\t' || c == '\n' || c == '\r' {
            proof {
                let s = text@.skip(i as int);
                assert(is_whitespace(s[0]));
                assert(s.drop_first() =~= text@.skip(i as int + 1));
            }
            i += 1;
        } else {
            let mut j = i + 1;
            while j < n && !(text.get_char(j) == ' ' || text.get_char(j) == '\t'
                || text.get_char(j) == '\n' || text.get_char(j) == '\r')
                invariant
                    n == text@.len(),
                    i < j <= n,
                    forall|m: int| i <= m < j ==> !is_whitespace(text@[m]),
                decreases n - j,
            {
                j += 1;
            }
            let tok = text.substring_char(i, j).to_owned();
            proof {
                let s = text@.skip(i as int);
                let k = (j - i) as nat;
                assert(forall|m: int| 0 <= m < k ==> s[m] == text@[m + i]);
                lemma_token_len_scan(s, k);
                assert(s.take(k as int) =~= text@.subrange(i as int, j as int));
                assert(s.skip(k as int) =~= text@.skip(j as int));
                let old_view = toks@.map_values(|t: String| t@);
                assert(toks@.push(tok).map_values(|t: String| t@) =~= old_view.push(tok@));
                assert(old_view.push(tok@) =~= old_view + seq![s.take(k as int)]);
            }
            toks.push(tok);
            i = j;
        }
    }
    proof {
        assert(text@.skip(n as int) =~= Seq::<char>::empty());
        assert(tokens(text@) =~= toks@.map_values(|t: String| t@));
    }
    toks
}

} // verus!
