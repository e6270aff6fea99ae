//! Splitting input text into whitespace-delimited tokens.

use vstd::prelude::*;
use vstd::string::*;

use crate::chars::is_whitespace_char;
use crate::chars::is_ws_char;

verus! {

/// Length of the maximal run of non-whitespace characters at the head of `s`.
pub open spec fn run_len(s: Seq<char>) -> nat
    decreases s.len(),
{
    if s.len() == 0 || is_ws_char(s[0]) {
        0
    } else {
        1 + run_len(s.drop_first())
    }
}

pub proof fn lemma_run_len_le(s: Seq<char>)
    ensures
        run_len(s) <= s.len(),
    decreases s.len(),
{
    if s.len() == 0 || is_ws_char(s[0]) {
    } else {
        lemma_run_len_le(s.drop_first());
    }
}

/// The head run of non-whitespace characters is exactly `m` long when the
/// first `m` characters are non-whitespace and the run stops there.
pub proof fn lemma_run_len_exact(s: Seq<char>, m: int)
    requires
        0 <= m <= s.len(),
        forall|k: int| 0 <= k < m ==> !is_ws_char(s[k]),
        m == s.len() || is_ws_char(s[m]),
    ensures
        run_len(s) == m,
    decreases m,
{
    if m == 0 {
    } else {
        assert(!is_ws_char(s[0]));
        assert forall|k: int| 0 <= k < m - 1 implies !is_ws_char(s.drop_first()[k]) by {
            assert(s.drop_first()[k] == s[k + 1]);
        }
        if m < s.len() {
            assert(s.drop_first()[m - 1] == s[m]);
        }
        lemma_run_len_exact(s.drop_first(), m - 1);
    }
}

/// The whitespace-separated tokens of `s`: the maximal runs of non-whitespace
/// characters, in encounter order. Whitespace runs of any length and kind act
/// only as separators, so no empty token ever appears.
pub open spec fn split_ws(s: Seq<char>) -> Seq<Seq<char>>
    decreases s.len(),
{
    if s.len() == 0 {
        Seq::empty()
    } else if is_ws_char(s[0]) {
        split_ws(s.drop_first())
    } else {
        let n = run_len(s) as int;
        proof {
            lemma_run_len_le(s);
        }
        seq![s.take(n)] + split_ws(s.skip(n))
    }
}

/// A sequence made of whitespace characters only (possibly empty).
pub open spec fn all_ws(w: Seq<char>) -> bool {
    forall|i: int| 0 <= i < w.len() ==> is_ws_char(w[i])
}

/// A non-empty sequence free of whitespace characters: the shape of a token.
pub open spec fn ws_free_token(t: Seq<char>) -> bool {
    t.len() > 0 && forall|i: int| 0 <= i < t.len() ==> !is_ws_char(t[i])
}

/// Leading whitespace contributes no token.
pub proof fn lemma_split_ws_drops_leading_ws(w: Seq<char>, s: Seq<char>)
    requires
        all_ws(w),
    ensures
        split_ws(w + s) == split_ws(s),
    decreases w.len(),
{
    if w.len() == 0 {
        assert(w + s =~= s);
    } else {
        assert((w + s)[0] == w[0]);
        assert((w + s).drop_first() =~= w.drop_first() + s);
        assert(all_ws(w.drop_first())) by {
            assert forall|i: int| 0 <= i < w.drop_first().len() implies is_ws_char(
                w.drop_first()[i],
            ) by {
                assert(w.drop_first()[i] == w[i + 1]);
            }
        }
        lemma_split_ws_drops_leading_ws(w.drop_first(), s);
    }
}

/// A token at the head of the input, ended by whitespace or the end of the
/// input, splits off whole.
pub proof fn lemma_split_ws_takes_head_token(t: Seq<char>, s: Seq<char>)
    requires
        ws_free_token(t),
        s.len() == 0 || is_ws_char(s[0]),
    ensures
        split_ws(t + s) == seq![t] + split_ws(s),
{
    let u = t + s;
    assert forall|k: int| 0 <= k < t.len() implies !is_ws_char(u[k]) by {
        assert(u[k] == t[k]);
    }
    if t.len() < u.len() {
        assert(u[t.len() as int] == s[0]);
    }
    lemma_run_len_exact(u, t.len() as int);
    assert(!is_ws_char(u[0]));
    assert(u.take(t.len() as int) =~= t);
    assert(u.skip(t.len() as int) =~= s);
}

/// The given tokens interleaved with the given separators: each token is
/// followed by its separator run.
pub open spec fn interleaved(tokens: Seq<Seq<char>>, seps: Seq<Seq<char>>) -> Seq<char>
    decreases tokens.len(),
{
    if tokens.len() == 0 {
        Seq::empty()
    } else {
        tokens[0] + seps[0] + interleaved(tokens.drop_first(), seps.drop_first())
    }
}

/// Law: tokenization is insensitive to the particular whitespace characters
/// used as separators and to the length of each separator run. Any text
/// assembled from the given tokens — an arbitrary whitespace run in front,
/// arbitrary non-empty whitespace runs between consecutive tokens, an
/// arbitrary whitespace run after the last — splits back into exactly those
/// tokens, whatever the separators were.
pub proof fn lemma_split_ws_separator_insensitive(
    lead: Seq<char>,
    tokens: Seq<Seq<char>>,
    seps: Seq<Seq<char>>,
)
    requires
        all_ws(lead),
        seps.len() == tokens.len(),
        forall|i: int| 0 <= i < tokens.len() ==> ws_free_token(#[trigger] tokens[i]),
        forall|i: int| 0 <= i < seps.len() ==> all_ws(#[trigger] seps[i]),
        forall|i: int| 0 <= i < seps.len() - 1 ==> (#[trigger] seps[i]).len() > 0,
    ensures
        split_ws(lead + interleaved(tokens, seps)) == tokens,
    decreases tokens.len(),
{
    lemma_split_ws_drops_leading_ws(lead, interleaved(tokens, seps));
    if tokens.len() == 0 {
        assert(interleaved(tokens, seps) =~= Seq::<char>::empty());
        assert(split_ws(lead + interleaved(tokens, seps)) =~= Seq::<Seq<char>>::empty());
        assert(tokens =~= Seq::<Seq<char>>::empty());
    } else {
        let rest = interleaved(tokens.drop_first(), seps.drop_first());
        assert(interleaved(tokens, seps) == tokens[0] + seps[0] + rest);
        assert((tokens[0] + seps[0]) + rest =~= tokens[0] + (seps[0] + rest));
        if tokens.len() == 1 {
            assert(rest =~= Seq::<char>::empty());
            assert(seps[0] + rest =~= seps[0]);
        }
        if (seps[0] + rest).len() > 0 {
            if seps[0].len() > 0 {
                assert((seps[0] + rest)[0] == seps[0][0]);
            } else {
                assert(tokens.len() > 1);
                assert(seps[0].len() > 0);
            }
        }
        lemma_split_ws_takes_head_token(tokens[0], seps[0] + rest);
        lemma_split_ws_drops_leading_ws(seps[0], rest);
        assert forall|i: int| 0 <= i < tokens.drop_first().len() implies ws_free_token(
            #[trigger] tokens.drop_first()[i],
        ) by {
            assert(tokens.drop_first()[i] == tokens[i + 1]);
        }
        assert forall|i: int| 0 <= i < seps.drop_first().len() implies all_ws(
            #[trigger] seps.drop_first()[i],
        ) by {
            assert(seps.drop_first()[i] == seps[i + 1]);
        }
        assert forall|i: int| 0 <= i < seps.drop_first().len() - 1 implies (#[trigger] seps.drop_first()[i]).len()
            > 0 by {
            assert(seps.drop_first()[i] == seps[i + 1]);
        }
        lemma_split_ws_separator_insensitive(
            Seq::<char>::empty(),
            tokens.drop_first(),
            seps.drop_first(),
        );
        assert(Seq::<char>::empty() + rest =~= rest);
        assert(seq![tokens[0]] + tokens.drop_first() =~= tokens);
    }
}

/// The character sequences held by a vector of strings.
pub open spec fn str_views(v: Seq<String>) -> Seq<Seq<char>> {
    v.map_values(|s: String| s@)
}

/// Finds the end of the token that starts at `start`: the first whitespace
/// position at or after `start`, or the end of the input.
fn scan_token_end(input: &str, start: usize) -> (end: usize)
    requires
        start < input@.len(),
        !is_ws_char(input@[start as int]),
    ensures
        start < end <= input@.len(),
        forall|k: int| start <= k < end ==> !is_ws_char(input@[k]),
        end < input@.len() ==> is_ws_char(input@[end as int]),
{
    let n = input.unicode_len();
    let mut j = start;
    while j < n
        invariant
            n == input@.len(),
            start <= j <= n,
            forall|k: int| start <= k < j ==> !is_ws_char(input@[k]),
            start < input@.len(),
            !is_ws_char(input@[start as int]),
        decreases n - j,
    {
        if is_whitespace_char(input.get_char(j)) {
            return j;
        }
        j += 1;
    }
    n
}

/// Splits the input into its whitespace-delimited tokens, as fresh strings in
/// encounter order.
pub fn tokenize(input: &str) -> (tokens: Vec<String>)
    ensures
        str_views(tokens@) == split_ws(input@),
{
    let n = input.unicode_len();
    let mut tokens: Vec<String> = Vec::new();
    let mut i: usize = 0;
    proof {
        assert(input@.skip(0) =~= input@);
        assert(str_views(tokens@) + split_ws(input@) =~= split_ws(input@));
    }
    while i < n
        invariant
            n == input@.len(),
            i <= n,
            split_ws(input@) == str_views(tokens@) + split_ws(input@.skip(i as int)),
        decreases n - i,
    {
        let c = input.get_char(i);
        if is_whitespace_char(c) {
            proof {
                assert(input@.skip(i as int)[0] == input@[i as int]);
                assert(input@.skip(i as int).drop_first() =~= input@.skip(i as int + 1));
            }
            i += 1;
        } else {
            let start = i;
            let end = scan_token_end(input, start);
            let tok = input.substring_char(start, end).to_owned();
            proof {
                let rest = input@.skip(start as int);
                let m = end - start;
                assert forall|k: int| 0 <= k < m implies !is_ws_char(rest[k]) by {
                    assert(rest[k] == input@[start + k]);
                }
                if end < n {
                    assert(rest[m] == input@[end as int]);
                }
                lemma_run_len_exact(rest, m);
                assert(rest[0] == input@[start as int]);
                assert(split_ws(rest) == seq![rest.take(m)] + split_ws(rest.skip(m)));
                assert(rest.take(m) =~= input@.subrange(start as int, end as int));
                assert(rest.skip(m) =~= input@.skip(end as int));
                assert(str_views(tokens@.push(tok)) =~= str_views(tokens@).push(tok@));
                assert(str_views(tokens@).push(tok@) + split_ws(input@.skip(end as int))
                    =~= str_views(tokens@) + (seq![tok@] + split_ws(input@.skip(end as int))));
            }
            tokens.push(tok);
            i = end;
        }
    }
    proof {
        assert(split_ws(input@.skip(n as int)) =~= Seq::<Seq<char>>::empty());
        assert(str_views(tokens@) + Seq::<Seq<char>>::empty() =~= str_views(tokens@));
    }
    tokens
}

} // verus!
