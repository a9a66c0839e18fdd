//! Word-frequency counting: a table mapping each distinct token of a text to
//! the number of times it occurs, with the table pinned down exactly as a
//! function of the input text.

use vstd::prelude::*;
use crate::tokenizer::{tokens, is_whitespace, lemma_whitespace_only_no_tokens, tokenize};

verus! {

/// The model of a frequency table: the key/count pairs in first-seen order.
pub type Entries = Seq<(Seq<char>, nat)>;

/// Whether some entry of `es` has key `t`.
pub open spec fn has_key(es: Entries, t: Seq<char>) -> bool
    decreases es.len(),
{
    if es.len() == 0 {
        false
    } else {
        es[0].0 == t || has_key(es.drop_first(), t)
    }
}

/// The count stored under key `t`, or 0 when `t` is absent.
pub open spec fn lookup(es: Entries, t: Seq<char>) -> nat
    decreases es.len(),
{
    if es.len() == 0 {
        0
    } else if es[0].0 == t {
        es[0].1
    } else {
        lookup(es.drop_first(), t)
    }
}

/// `es` with the count under the first entry keyed `t` raised by one.
pub open spec fn bump(es: Entries, t: Seq<char>) -> Entries
    decreases es.len(),
{
    if es.len() == 0 {
        es
    } else if es[0].0 == t {
        es.update(0, (t, (es[0].1 + 1) as nat))
    } else {
        seq![es[0]] + bump(es.drop_first(), t)
    }
}

/// Recording one more occurrence of token `t`: raise its count if present,
/// else append a fresh entry with count 1.
pub open spec fn step(es: Entries, t: Seq<char>) -> Entries {
    if has_key(es, t) {
        bump(es, t)
    } else {
        es.push((t, 1nat))
    }
}

/// The sum of all counts in `es`.
pub open spec fn total(es: Entries) -> nat
    decreases es.len(),
{
    if es.len() == 0 {
        0
    } else {
        es[0].1 + total(es.drop_first())
    }
}

/// No two entries of `es` share a key.
pub open spec fn keys_distinct(es: Entries) -> bool {
    forall|i: int, j: int| 0 <= i < j < es.len() ==> es[i].0 != es[j].0
}

/// How many elements of `toks` equal `t`.
pub open spec fn occurrences(toks: Seq<Seq<char>>, t: Seq<char>) -> nat
    decreases toks.len(),
{
    if toks.len() == 0 {
        0
    } else {
        occurrences(toks.drop_last(), t) + (if toks.last() == t { 1nat } else { 0nat })
    }
}

/// The table built by recording each element of `toks` in turn.
pub open spec fn table_of_toks(toks: Seq<Seq<char>>) -> Entries
    decreases toks.len(),
{
    if toks.len() == 0 {
        Seq::empty()
    } else {
        step(table_of_toks(toks.drop_last()), toks.last())
    }
}

/// The frequency table of a text: its tokens, each with its occurrence count.
pub open spec fn table_of(s: Seq<char>) -> Entries {
    table_of_toks(tokens(s))
}

/// A key occurs among the entries exactly when some index holds it, and an
/// absent key looks up to 0.
pub proof fn lemma_key_facts(es: Entries, t: Seq<char>)
    ensures
        has_key(es, t) <==> exists|i: int| 0 <= i < es.len() && es[i].0 == t,
        !has_key(es, t) ==> lookup(es, t) == 0,
    decreases es.len(),
{
    if es.len() > 0 {
        let rest = es.drop_first();
        lemma_key_facts(rest, t);
        assert(forall|m: int| 0 <= m < rest.len() ==> rest[m] == es[m + 1]);
        if has_key(es, t) && es[0].0 != t {
            let i = choose|i: int| 0 <= i < rest.len() && rest[i].0 == t;
            assert(es[i + 1].0 == t);
        }
        if exists|i: int| 0 <= i < es.len() && es[i].0 == t {
            let i = choose|i: int| 0 <= i < es.len() && es[i].0 == t;
            if i > 0 {
                assert(rest[i - 1].0 == t);
            }
        }
    }
}

/// What `bump` does, entry by entry, when the key is present.
pub proof fn lemma_bump_props(es: Entries, t: Seq<char>)
    requires
        has_key(es, t),
    ensures
        bump(es, t).len() == es.len(),
        forall|i: int| 0 <= i < es.len() ==> (#[trigger] bump(es, t)[i]).0 == es[i].0,
        lookup(bump(es, t), t) == lookup(es, t) + 1,
        forall|u: Seq<char>| u != t ==> #[trigger] lookup(bump(es, t), u) == lookup(es, u),
        forall|u: Seq<char>| #[trigger] has_key(bump(es, t), u) == has_key(es, u),
        total(bump(es, t)) == total(es) + 1,
    decreases es.len(),
{
    let b = bump(es, t);
    if es[0].0 == t {
        assert(b.drop_first() =~= es.drop_first());
        assert forall|u: Seq<char>| u != t implies #[trigger] lookup(b, u) == lookup(es, u) by {
            assert(lookup(b, u) == lookup(b.drop_first(), u));
            assert(lookup(es, u) == lookup(es.drop_first(), u));
        }
        assert forall|u: Seq<char>| #[trigger] has_key(b, u) == has_key(es, u) by {
            assert(has_key(b, u) == (b[0].0 == u || has_key(b.drop_first(), u)));
            assert(has_key(es, u) == (es[0].0 == u || has_key(es.drop_first(), u)));
        }
        assert(total(b) == b[0].1 + total(b.drop_first()));
        assert(total(es) == es[0].1 + total(es.drop_first()));
    } else {
        let rest = es.drop_first();
        lemma_bump_props(rest, t);
        let br = bump(rest, t);
        assert(b[0] == es[0]);
        assert(b.drop_first() =~= br);
        assert forall|i: int| 0 <= i < es.len() implies (#[trigger] b[i]).0 == es[i].0 by {
            if i > 0 {
                assert(b[i] == br[i - 1]);
                assert(rest[i - 1] == es[i]);
            }
        }
        assert(lookup(b, t) == lookup(br, t));
        assert(lookup(es, t) == lookup(rest, t));
        assert forall|u: Seq<char>| u != t implies #[trigger] lookup(b, u) == lookup(es, u) by {
            assert(lookup(b, u) == (if b[0].0 == u { b[0].1 } else { lookup(br, u) }));
            assert(lookup(es, u) == (if es[0].0 == u { es[0].1 } else { lookup(rest, u) }));
            assert(lookup(br, u) == lookup(rest, u));
        }
        assert forall|u: Seq<char>| #[trigger] has_key(b, u) == has_key(es, u) by {
            assert(has_key(b, u) == (b[0].0 == u || has_key(br, u)));
            assert(has_key(es, u) == (es[0].0 == u || has_key(rest, u)));
            assert(has_key(br, u) == has_key(rest, u));
        }
        assert(total(b) == b[0].1 + total(br));
        assert(total(es) == es[0].1 + total(rest));
    }
}

/// What appending a fresh entry does to lookups, keys and the total.
pub proof fn lemma_push_props(es: Entries, t: Seq<char>, c: nat)
    ensures
        forall|u: Seq<char>| #[trigger] lookup(es.push((t, c)), u) == (if has_key(es, u) {
            lookup(es, u)
        } else if u == t {
            c
        } else {
            0nat
        }),
        forall|u: Seq<char>| #[trigger] has_key(es.push((t, c)), u) == (has_key(es, u) || u == t),
        total(es.push((t, c))) == total(es) + c,
    decreases es.len(),
{
    let p = es.push((t, c));
    if es.len() == 0 {
        assert(p[0] == (t, c));
        assert(p.drop_first() =~= Seq::<(Seq<char>, nat)>::empty());
        assert forall|u: Seq<char>| #[trigger] lookup(p, u) == (if has_key(es, u) {
            lookup(es, u)
        } else if u == t {
            c
        } else {
            0nat
        }) by {
            assert(lookup(p, u) == (if p[0].0 == u { p[0].1 } else { lookup(p.drop_first(), u) }));
        }
        assert forall|u: Seq<char>| #[trigger] has_key(p, u) == (has_key(es, u) || u == t) by {
            assert(has_key(p, u) == (p[0].0 == u || has_key(p.drop_first(), u)));
        }
        assert(total(p) == p[0].1 + total(p.drop_first()));
    } else {
        let rest = es.drop_first();
        lemma_push_props(rest, t, c);
        let q = rest.push((t, c));
        assert(p[0] == es[0]);
        assert(p.drop_first() =~= q);
        assert forall|u: Seq<char>| #[trigger] lookup(p, u) == (if has_key(es, u) {
            lookup(es, u)
        } else if u == t {
            c
        } else {
            0nat
        }) by {
            assert(lookup(p, u) == (if p[0].0 == u { p[0].1 } else { lookup(q, u) }));
            assert(lookup(es, u) == (if es[0].0 == u { es[0].1 } else { lookup(rest, u) }));
            assert(has_key(es, u) == (es[0].0 == u || has_key(rest, u)));
        }
        assert forall|u: Seq<char>| #[trigger] has_key(p, u) == (has_key(es, u) || u == t) by {
            assert(has_key(p, u) == (p[0].0 == u || has_key(q, u)));
            assert(has_key(es, u) == (es[0].0 == u || has_key(rest, u)));
        }
        assert(total(p) == p[0].1 + total(q));
        assert(total(es) == es[0].1 + total(rest));
    }
}

/// At the first index whose key is `t`, `bump` raises exactly that entry's
/// count, and `lookup` reads exactly that entry.
pub proof fn lemma_first_match(es: Entries, t: Seq<char>, j: int)
    requires
        0 <= j < es.len(),
        es[j].0 == t,
        forall|m: int| 0 <= m < j ==> es[m].0 != t,
    ensures
        has_key(es, t),
        lookup(es, t) == es[j].1,
        bump(es, t) == es.update(j, (t, (es[j].1 + 1) as nat)),
    decreases j,
{
    if j == 0 {
    } else {
        let rest = es.drop_first();
        assert(forall|m: int| 0 <= m < rest.len() ==> rest[m] == es[m + 1]);
        lemma_first_match(rest, t, j - 1);
        assert(es[0].0 != t);
        assert(bump(es, t) =~= seq![es[0]] + rest.update(j - 1, (t, (es[j].1 + 1) as nat)));
        assert(seq![es[0]] + rest.update(j - 1, (t, (es[j].1 + 1) as nat))
            =~= es.update(j, (t, (es[j].1 + 1) as nat)));
    }
}

/// No entry has key `t` when no index holds it.
pub proof fn lemma_no_match(es: Entries, t: Seq<char>)
    requires
        forall|m: int| 0 <= m < es.len() ==> es[m].0 != t,
    ensures
        !has_key(es, t),
        lookup(es, t) == 0,
{
    lemma_key_facts(es, t);
}

/// A token cannot occur more often than there are tokens.
pub proof fn lemma_occ_le_len(toks: Seq<Seq<char>>, t: Seq<char>)
    ensures
        occurrences(toks, t) <= toks.len(),
    decreases toks.len(),
{
    if toks.len() > 0 {
        lemma_occ_le_len(toks.drop_last(), t);
    }
}

/// A token occurs a positive number of times exactly when it is an element.
pub proof fn lemma_occ_positive_iff_contains(toks: Seq<Seq<char>>, t: Seq<char>)
    ensures
        occurrences(toks, t) > 0 <==> toks.contains(t),
    decreases toks.len(),
{
    if toks.len() > 0 {
        let pre = toks.drop_last();
        lemma_occ_positive_iff_contains(pre, t);
        if toks.last() == t {
            assert(toks[toks.len() - 1] == t);
        } else {
            if occurrences(pre, t) > 0 {
                let i = choose|i: int| 0 <= i < pre.len() && pre[i] == t;
                assert(toks[i] == t);
            }
            if toks.contains(t) {
                let i = choose|i: int| 0 <= i < toks.len() && toks[i] == t;
                assert(pre[i] == t);
            }
        }
    }
}

/// The invariant of the table built from a token sequence: every lookup is
/// the token's occurrence count, keys are exactly the occurring tokens and
/// are pairwise distinct, and the counts sum to the number of tokens.
pub proof fn lemma_table_props(toks: Seq<Seq<char>>)
    ensures
        forall|t: Seq<char>| #[trigger] lookup(table_of_toks(toks), t) == occurrences(toks, t),
        forall|t: Seq<char>| #[trigger] has_key(table_of_toks(toks), t) <==> occurrences(toks, t) > 0,
        keys_distinct(table_of_toks(toks)),
        total(table_of_toks(toks)) == toks.len(),
    decreases toks.len(),
{
    if toks.len() > 0 {
        let pre = toks.drop_last();
        let x = toks.last();
        let tp = table_of_toks(pre);
        let tb = table_of_toks(toks);
        lemma_table_props(pre);
        if has_key(tp, x) {
            lemma_bump_props(tp, x);
            assert forall|i: int, j: int| 0 <= i < j < tb.len() implies tb[i].0 != tb[j].0 by {
                assert(tb[i].0 == tp[i].0);
                assert(tb[j].0 == tp[j].0);
            }
        } else {
            lemma_push_props(tp, x, 1nat);
            lemma_key_facts(tp, x);
            assert forall|i: int, j: int| 0 <= i < j < tb.len() implies tb[i].0 != tb[j].0 by {
                if j < tb.len() - 1 {
                    assert(tb[i].0 == tp[i].0 && tb[j].0 == tp[j].0);
                } else {
                    assert(tb[i].0 == tp[i].0 && tb[j].0 == x);
                }
            }
        }
    }
}

/// A table of word counts: each distinct token of the counted text, in
/// first-seen order, with the number of times it occurs.
pub struct FrequencyTable {
    entries: Vec<(String, u64)>,
}

impl View for FrequencyTable {
    type V = Entries;

    closed spec fn view(&self) -> Entries {
        self.entries@.map_values(|e: (String, u64)| (e.0@, e.1 as nat))
    }
}

impl FrequencyTable {
    /// The empty table: no tokens recorded yet.
    pub fn new() -> (table: FrequencyTable)
        ensures
            table@ == Seq::<(Seq<char>, nat)>::empty(),
    {
        let table = FrequencyTable { entries: Vec::new() };
        proof {
            assert(table@ =~= Seq::<(Seq<char>, nat)>::empty());
        }
        table
    }

    /// Records one occurrence of `token`: its count rises by one, counts of
    /// all other tokens stay as they were.
    pub fn record(&mut self, token: String)
        requires
            lookup(old(self)@, token@) < u64::MAX,
        ensures
            final(self)@ == step(old(self)@, token@),
    {
        let ghost tkv = token@;
        let ghost orig = *self;
        let n = self.entries.len();
        let mut j: usize = 0;
        while j < n
            invariant
                *self == orig,
                orig == *old(self),
                n == self.entries@.len(),
                j <= n,
                forall|m: int| 0 <= m < j ==> (#[trigger] self@[m]).0 != tkv,
                lookup(orig@, tkv) < u64::MAX,
                tkv == token@,
            decreases n - j,
        {
            if self.entries[j].0 == token {
                let c = self.entries[j].1;
                proof {
                    assert(self@[j as int].0 == tkv && self@[j as int].1 == c as nat);
                    lemma_first_match(self@, tkv, j as int);
                }
                self.entries[j] = (token, c + 1);
                proof {
                    assert(self@ =~= orig@.update(j as int, (tkv, (c + 1) as nat)));
                    assert(self@ == step(orig@, tkv));
                }
                return;
            }
            j += 1;
        }
        proof {
            lemma_no_match(self@, tkv);
        }
        self.entries.push((token, 1));
        proof {
            assert(self@ =~= orig@.push((tkv, 1nat)));
        }
    }

    /// How many distinct tokens the table holds.
    pub fn len(&self) -> (n: usize)
        ensures
            n == self@.len(),
    {
        self.entries.len()
    }

    /// The count recorded for `token`, or 0 when it was never recorded.
    pub fn get(&self, token: &str) -> (c: u64)
        ensures
            c as nat == lookup(self@, token@),
    {
        let key = token.to_owned();
        let n = self.entries.len();
        let mut j: usize = 0;
        while j < n
            invariant
                n == self.entries@.len(),
                key@ == token@,
                forall|m: int| 0 <= m < j ==> (#[trigger] self@[m]).0 != token@,
            decreases n - j,
        {
            if self.entries[j].0 == key {
                proof {
                    lemma_first_match(self@, token@, j as int);
                }
                return self.entries[j].1;
            }
            j += 1;
        }
        proof {
            lemma_no_match(self@, token@);
        }
        0
    }

    /// The key of the entry at position `i` in first-seen order.
    pub fn key_at(&self, i: usize) -> (k: &str)
        requires
            i < self@.len(),
        ensures
            k@ == self@[i as int].0,
    {
        self.entries[i].0.as_str()
    }

    /// The count of the entry at position `i` in first-seen order.
    pub fn count_at(&self, i: usize) -> (c: u64)
        requires
            i < self@.len(),
        ensures
            c as nat == self@[i as int].1,
    {
        self.entries[i].1
    }
}

/// Counts the whitespace-delimited tokens of `text`: the resulting table is
/// exactly the frequency table of the text, holding each distinct token with
/// its occurrence count.
pub fn count(text: &str) -> (table: FrequencyTable)
    ensures
        table@ == table_of(text@),
{
    let toks = tokenize(text);
    let ghost toks_view = toks@.map_values(|t: String| t@);
    let mut table = FrequencyTable::new();
    let n = toks.len();
    proof {
        assert(toks_view.take(0) =~= Seq::<Seq<char>>::empty());
    }
    let mut i: usize = 0;
    while i < n
        invariant
            n == toks@.len(),
            i <= n,
            toks_view == toks@.map_values(|t: String| t@),
            toks_view == tokens(text@),
            table@ == table_of_toks(toks_view.take(i as int)),
        decreases n - i,
    {
        let t = toks[i].clone();
        proof {
            assert(t@ == toks_view[i as int]);
            let prefix = toks_view.take(i as int);
            lemma_table_props(prefix);
            lemma_occ_le_len(prefix, t@);
            assert(lookup(table@, t@) <= i);
        }
        table.record(t);
        proof {
            let prefix = toks_view.take(i as int);
            let next = toks_view.take(i as int + 1);
            assert(next.drop_last() =~= prefix);
            assert(next.last() == toks_view[i as int]);
            assert(table@ == table_of_toks(next));
        }
        i += 1;
    }
    proof {
        assert(toks_view.take(n as int) =~= toks_view);
    }
    table
}

/// The sum of all counts in the table of a text equals the number of its
/// whitespace-delimited tokens.
pub proof fn lemma_total_count(s: Seq<char>)
    ensures
        total(table_of(s)) == tokens(s).len(),
{
    lemma_table_props(tokens(s));
}

/// The keys of the table of a text are exactly its distinct tokens, each
/// appearing as a key once.
pub proof fn lemma_keys_exactly_tokens(s: Seq<char>)
    ensures
        keys_distinct(table_of(s)),
        forall|t: Seq<char>| #[trigger] has_key(table_of(s), t) <==> tokens(s).contains(t),
{
    lemma_table_props(tokens(s));
    assert forall|t: Seq<char>| #[trigger] has_key(table_of(s), t) <==> tokens(s).contains(t) by {
        lemma_occ_positive_iff_contains(tokens(s), t);
    }
}

/// Every lookup in the table of a text is that token's occurrence count
/// among the text's tokens.
pub proof fn lemma_counts_are_occurrences(s: Seq<char>)
    ensures
        forall|t: Seq<char>| #[trigger] lookup(table_of(s), t) == occurrences(tokens(s), t),
{
    lemma_table_props(tokens(s));
}

/// Counting is a function of the input alone: two runs over the same text
/// yield identical tables.
pub proof fn lemma_count_idempotent(first: Entries, second: Entries, s: Seq<char>)
    requires
        first == table_of(s),
        second == table_of(s),
    ensures
        first == second,
{
}

/// An empty or all-whitespace text yields the empty table.
pub proof fn lemma_whitespace_only_empty(s: Seq<char>)
    requires
        forall|i: int| 0 <= i < s.len() ==> is_whitespace(s[i]),
    ensures
        table_of(s) == Seq::<(Seq<char>, nat)>::empty(),
{
    lemma_whitespace_only_no_tokens(s);
}

} // verus!
