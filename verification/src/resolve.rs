//! The resolver: case-fold each token, look it up, keep hits in order and
//! report misses.

use vstd::prelude::*;
use vstd::string::*;

use crate::chars::upper_seq;
use crate::table::assoc;
use crate::table::entries_view;
use crate::table::get_keymap;
use crate::table::keycode_of;
use crate::table::lookup_keycode;
use crate::table::table_model;
use crate::tokenize::split_ws;
use crate::tokenize::str_views;
use crate::tokenize::tokenize;

verus! {

/// Whether a token resolves: its case-folded form is a key of the table.
pub open spec fn is_known(t: Seq<char>) -> bool {
    keycode_of(upper_seq(t)) is Some
}

/// The identifiers the resolver emits for a token sequence: the mapped
/// identifier of each token that resolves, in encounter order; tokens that
/// fail lookup contribute nothing.
pub open spec fn keycodes_of(tokens: Seq<Seq<char>>) -> Seq<Seq<char>>
    decreases tokens.len(),
{
    if tokens.len() == 0 {
        Seq::empty()
    } else {
        let rest = keycodes_of(tokens.drop_last());
        match keycode_of(upper_seq(tokens.last())) {
            Some(id) => rest.push(id),
            None => rest,
        }
    }
}

/// The tokens the resolver reports as unknown, each with its original
/// (unfolded) text, in encounter order.
pub open spec fn unknowns_of(tokens: Seq<Seq<char>>) -> Seq<Seq<char>>
    decreases tokens.len(),
{
    if tokens.len() == 0 {
        Seq::empty()
    } else {
        let rest = unknowns_of(tokens.drop_last());
        if is_known(tokens.last()) {
            rest
        } else {
            rest.push(tokens.last())
        }
    }
}

/// The predicate holding of the tokens that resolve.
pub open spec fn known_token() -> spec_fn(Seq<char>) -> bool {
    |t: Seq<char>| is_known(t)
}

/// The predicate holding of the tokens that fail lookup.
pub open spec fn unknown_token() -> spec_fn(Seq<char>) -> bool {
    |t: Seq<char>| !is_known(t)
}

/// The mapping from a resolving token to its identifier.
pub open spec fn token_ident() -> spec_fn(Seq<char>) -> Seq<char> {
    |t: Seq<char>| keycode_of(upper_seq(t))->0
}

/// Law: the resolver's output is exactly the sequence of mapped identifiers
/// of those tokens whose case-folded form is a key of the table, in the same
/// relative order as the tokens appeared; tokens absent from the table
/// contribute no entry.
pub proof fn lemma_keycodes_are_ordered_hits(tokens: Seq<Seq<char>>)
    ensures
        keycodes_of(tokens) == tokens.filter(known_token()).map_values(token_ident()),
    decreases tokens.len(),
{
    reveal(Seq::filter);
    let pred = known_token();
    let ident = token_ident();
    if tokens.len() == 0 {
        assert(tokens.filter(pred) =~= Seq::<Seq<char>>::empty());
        assert(tokens.filter(pred).map_values(ident) =~= Seq::<Seq<char>>::empty());
    } else {
        let pre = tokens.drop_last();
        lemma_keycodes_are_ordered_hits(pre);
        if is_known(tokens.last()) {
            assert(pre.filter(pred).push(tokens.last()).map_values(ident) =~= pre.filter(
                pred,
            ).map_values(ident).push(ident(tokens.last())));
        }
    }
}

/// Law: the tokens reported unknown are exactly those whose case-folded form
/// is absent from the table, with their original text, in encounter order.
pub proof fn lemma_unknowns_are_ordered_misses(tokens: Seq<Seq<char>>)
    ensures
        unknowns_of(tokens) == tokens.filter(unknown_token()),
    decreases tokens.len(),
{
    reveal(Seq::filter);
    let pred = unknown_token();
    if tokens.len() == 0 {
        assert(tokens.filter(pred) =~= Seq::<Seq<char>>::empty());
    } else {
        lemma_unknowns_are_ordered_misses(tokens.drop_last());
    }
}

/// Law: resolution is case-insensitive — two token sequences whose tokens
/// agree after case folding resolve to identical keycode sequences.
pub proof fn lemma_resolution_case_insensitive(a: Seq<Seq<char>>, b: Seq<Seq<char>>)
    requires
        a.len() == b.len(),
        forall|i: int| 0 <= i < a.len() ==> upper_seq(a[i]) == upper_seq(b[i]),
    ensures
        keycodes_of(a) == keycodes_of(b),
    decreases a.len(),
{
    if a.len() > 0 {
        assert forall|i: int|
            0 <= i < a.len() - 1 implies upper_seq(a.drop_last()[i]) == upper_seq(
            b.drop_last()[i],
        ) by {
            assert(a.drop_last()[i] == a[i]);
            assert(b.drop_last()[i] == b[i]);
        }
        lemma_resolution_case_insensitive(a.drop_last(), b.drop_last());
        assert(a.last() == a[a.len() - 1]);
        assert(b.last() == b[b.len() - 1]);
        assert(upper_seq(a.last()) == upper_seq(b.last()));
    }
}

/// Resolves each token against the symbol table: the first component holds
/// the identifiers of the tokens that resolved, the second the original text
/// of the tokens that did not, both in encounter order.
pub fn resolve_tokens(table: &Vec<(&str, &str)>, tokens: &Vec<String>) -> (r: (
    Vec<String>,
    Vec<String>,
))
    requires
        entries_view(table@) == table_model(),
    ensures
        str_views(r.0@) == keycodes_of(str_views(tokens@)),
        str_views(r.1@) == unknowns_of(str_views(tokens@)),
{
    let mut found: Vec<String> = Vec::new();
    let mut unknown: Vec<String> = Vec::new();
    let n = tokens.len();
    let mut i: usize = 0;
    proof {
        assert(str_views(tokens@).take(0) =~= Seq::<Seq<char>>::empty());
    }
    while i < n
        invariant
            n == tokens@.len(),
            i <= n,
            entries_view(table@) == table_model(),
            str_views(found@) == keycodes_of(str_views(tokens@).take(i as int)),
            str_views(unknown@) == unknowns_of(str_views(tokens@).take(i as int)),
        decreases n - i,
    {
        let tok = &tokens[i];
        proof {
            let tv = str_views(tokens@);
            assert(tv.take(i as int + 1).drop_last() =~= tv.take(i as int));
            assert(tv.take(i as int + 1).last() == tv[i as int]);
            assert(tv[i as int] == tokens@[i as int]@);
        }
        match lookup_keycode(table, tok.as_str()) {
            Some(code) => {
                let owned = code.to_owned();
                proof {
                    assert(str_views(found@.push(owned)) =~= str_views(found@).push(owned@));
                }
                found.push(owned);
            },
            None => {
                let copy = tok.clone();
                proof {
                    assert(str_views(unknown@.push(copy)) =~= str_views(unknown@).push(copy@));
                }
                unknown.push(copy);
            },
        }
        i += 1;
    }
    proof {
        assert(str_views(tokens@).take(n as int) =~= str_views(tokens@));
    }
    (found, unknown)
}

/// Resolves every token of `input`: the keycode identifiers in encounter
/// order, and the tokens that failed lookup, each with its original text, in
/// encounter order.
pub fn translate(input: &str) -> (r: (Vec<String>, Vec<String>))
    ensures
        str_views(r.0@) == keycodes_of(split_ws(input@)),
        str_views(r.1@) == unknowns_of(split_ws(input@)),
{
    let tokens = tokenize(input);
    let keymap = get_keymap();
    resolve_tokens(&keymap, &tokens)
}

/// Maps input text to the keycode identifiers of its tokens, dropping the
/// tokens that fail lookup.
pub fn lines_to_keycodes(input: String) -> (r: Vec<String>)
    ensures
        str_views(r@) == keycodes_of(split_ws(input@)),
{
    let (found, _unknown) = translate(input.as_str());
    found
}

} // verus!
