//! The fixed symbol table: canonical token text mapped to keycode identifiers.

use vstd::prelude::*;
use vstd::string::*;

use crate::chars::upper_seq;
use crate::chars::to_upper_char;

verus! {

/// The table as a mathematical association list, in its fixed order: uppercase
/// letters, digits, punctuation, modifier names, special names. Keys are
/// unique, so the order never affects a lookup.
pub open spec fn table_model() -> Seq<(Seq<char>, Seq<char>)> {
    seq![
        ("A"@, "KC_A"@),
        ("B"@, "KC_B"@),
        ("C"@, "KC_C"@),
        ("D"@, "KC_D"@),
        ("E"@, "KC_E"@),
        ("F"@, "KC_F"@),
        ("G"@, "KC_G"@),
        ("H"@, "KC_H"@),
        ("I"@, "KC_I"@),
        ("J"@, "KC_J"@),
        ("K"@, "KC_K"@),
        ("L"@, "KC_L"@),
        ("M"@, "KC_M"@),
        ("N"@, "KC_N"@),
        ("O"@, "KC_O"@),
        ("P"@, "KC_P"@),
        ("Q"@, "KC_Q"@),
        ("R"@, "KC_R"@),
        ("S"@, "KC_S"@),
        ("T"@, "KC_T"@),
        ("U"@, "KC_U"@),
        ("V"@, "KC_V"@),
        ("W"@, "KC_W"@),
        ("X"@, "KC_X"@),
        ("Y"@, "KC_Y"@),
        ("Z"@, "KC_Z"@),
        ("1"@, "KC_1"@),
        ("2"@, "KC_2"@),
        ("3"@, "KC_3"@),
        ("4"@, "KC_4"@),
        ("5"@, "KC_5"@),
        ("6"@, "KC_6"@),
        ("7"@, "KC_7"@),
        ("8"@, "KC_8"@),
        ("9"@, "KC_9"@),
        ("0"@, "KC_0"@),
        ("!"@, "KC_EXCLAIM"@),
        ("@"@, "KC_AT"@),
        ("#"@, "KC_HASH"@),
        ("$"@, "KC_DOLLAR"@),
        ("%"@, "KC_PERCENT"@),
        ("^"@, "KC_CIRCUMFLEX"@),
        ("&"@, "KC_AMPERSAND"@),
        ("*"@, "KC_ASTERISK"@),
        ("("@, "KC_LPAREN"@),
        (")"@, "KC_RPAREN"@),
        ("-"@, "KC_MINUS"@),
        ("_"@, "KC_UNDERSCORE"@),
        ("="@, "KC_EQUAL"@),
        ("+"@, "KC_PLUS"@),
        ("SHIFT"@, "KC_LSFT"@),
        ("CTRL"@, "KC_LCTL"@),
        ("ALT"@, "KC_LALT"@),
        ("GUI"@, "KC_LGUI"@),
        ("TODO"@, "KC_TODO"@),
        ("TRANS"@, "KC_TRNS"@),
        ("NO"@, "KC_NO"@),
    ]
}

/// First-match lookup in an association list.
pub open spec fn assoc(entries: Seq<(Seq<char>, Seq<char>)>, key: Seq<char>) -> Option<Seq<char>>
    decreases entries.len(),
{
    if entries.len() == 0 {
        None
    } else if entries[0].0 == key {
        Some(entries[0].1)
    } else {
        assoc(entries.drop_first(), key)
    }
}

/// What a canonical (already case-folded) token maps to, if anything.
pub open spec fn keycode_of(key: Seq<char>) -> Option<Seq<char>> {
    assoc(table_model(), key)
}

/// The character sequences held by a vector of key/identifier pairs.
pub open spec fn entries_view(entries: Seq<(&str, &str)>) -> Seq<(Seq<char>, Seq<char>)> {
    entries.map_values(|p: (&str, &str)| (p.0@, p.1@))
}

/// Builds the symbol table as key/identifier pairs, in the fixed order of
/// [`table_model`].
pub fn get_keymap() -> (t: Vec<(&'static str, &'static str)>)
    ensures
        entries_view(t@) == table_model(),
{
    let t: Vec<(&'static str, &'static str)> = vec![
        ("A", "KC_A"),
        ("B", "KC_B"),
        ("C", "KC_C"),
        ("D", "KC_D"),
        ("E", "KC_E"),
        ("F", "KC_F"),
        ("G", "KC_G"),
        ("H", "KC_H"),
        ("I", "KC_I"),
        ("J", "KC_J"),
        ("K", "KC_K"),
        ("L", "KC_L"),
        ("M", "KC_M"),
        ("N", "KC_N"),
        ("O", "KC_O"),
        ("P", "KC_P"),
        ("Q", "KC_Q"),
        ("R", "KC_R"),
        ("S", "KC_S"),
        ("T", "KC_T"),
        ("U", "KC_U"),
        ("V", "KC_V"),
        ("W", "KC_W"),
        ("X", "KC_X"),
        ("Y", "KC_Y"),
        ("Z", "KC_Z"),
        ("1", "KC_1"),
        ("2", "KC_2"),
        ("3", "KC_3"),
        ("4", "KC_4"),
        ("5", "KC_5"),
        ("6", "KC_6"),
        ("7", "KC_7"),
        ("8", "KC_8"),
        ("9", "KC_9"),
        ("0", "KC_0"),
        ("!", "KC_EXCLAIM"),
        ("@", "KC_AT"),
        ("#", "KC_HASH"),
        ("$", "KC_DOLLAR"),
        ("%", "KC_PERCENT"),
        ("^", "KC_CIRCUMFLEX"),
        ("&", "KC_AMPERSAND"),
        ("*", "KC_ASTERISK"),
        ("(", "KC_LPAREN"),
        (")", "KC_RPAREN"),
        ("-", "KC_MINUS"),
        ("_", "KC_UNDERSCORE"),
        ("=", "KC_EQUAL"),
        ("+", "KC_PLUS"),
        ("SHIFT", "KC_LSFT"),
        ("CTRL", "KC_LCTL"),
        ("ALT", "KC_LALT"),
        ("GUI", "KC_LGUI"),
        ("TODO", "KC_TODO"),
        ("TRANS", "KC_TRNS"),
        ("NO", "KC_NO"),
    ];
    proof {
        assert(entries_view(t@) =~= table_model());
    }
    t
}

/// Whether a table key equals the case-folded form of a token, compared
/// character by character.
fn key_matches(key: &str, token: &str) -> (r: bool)
    ensures
        r == (key@ == upper_seq(token@)),
{
    let nk = key.unicode_len();
    let nt = token.unicode_len();
    if nk != nt {
        proof {
            assert(upper_seq(token@).len() == token@.len());
        }
        return false;
    }
    let mut i: usize = 0;
    while i < nk
        invariant
            nk == key@.len(),
            nk == nt,
            nt == token@.len(),
            i <= nk,
            forall|j: int| 0 <= j < i ==> key@[j] == upper_seq(token@)[j],
        decreases nk - i,
    {
        let kc = key.get_char(i);
        let tc = to_upper_char(token.get_char(i));
        if kc != tc {
            proof {
                assert(key@[i as int] != upper_seq(token@)[i as int]);
            }
            return false;
        }
        i += 1;
    }
    proof {
        assert(key@ =~= upper_seq(token@));
    }
    true
}

/// Looks a token up in a table of key/identifier pairs, comparing keys against
/// the token's case-folded form; returns the identifier of the first matching
/// key, if any.
pub fn lookup_keycode<'a>(table: &Vec<(&'a str, &'a str)>, token: &str) -> (r: Option<&'a str>)
    ensures
        r is Some <==> assoc(entries_view(table@), upper_seq(token@)) is Some,
        r is Some ==> r->0@ == assoc(entries_view(table@), upper_seq(token@))->0,
{
    let n = table.len();
    let mut i: usize = 0;
    proof {
        assert(entries_view(table@).skip(0) =~= entries_view(table@));
    }
    while i < n
        invariant
            n == table@.len(),
            i <= n,
            assoc(entries_view(table@), upper_seq(token@)) == assoc(
                entries_view(table@).skip(i as int),
                upper_seq(token@),
            ),
        decreases n - i,
    {
        let pair = table[i];
        proof {
            let ev = entries_view(table@);
            assert(ev.skip(i as int)[0] == ev[i as int]);
            assert(ev[i as int] == (table@[i as int].0@, table@[i as int].1@));
        }
        if key_matches(pair.0, token) {
            return Some(pair.1);
        }
        proof {
            let ev = entries_view(table@);
            assert(ev.skip(i as int).drop_first() =~= ev.skip(i as int + 1));
        }
        i += 1;
    }
    proof {
        assert(entries_view(table@).skip(n as int).len() == 0);
    }
    None
}

} // verus!
