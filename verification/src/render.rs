//! Rendering a keycode sequence as a C array initializer line.

use vstd::prelude::*;
use vstd::string::*;

use crate::tokenize::str_views;

verus! {

/// The identifiers joined by `", "`.
pub open spec fn joined(ids: Seq<Seq<char>>) -> Seq<char>
    decreases ids.len(),
{
    if ids.len() == 0 {
        Seq::empty()
    } else if ids.len() == 1 {
        ids[0]
    } else {
        joined(ids.drop_last()) + ", "@ + ids.last()
    }
}

/// The rendered line: the literal prefix, the joined identifiers, the literal
/// suffix. An empty sequence renders with nothing between the braces' inner
/// spaces.
pub open spec fn rendered(ids: Seq<Seq<char>>) -> Seq<char> {
    "const uint16_t keycodes[] = { "@ + joined(ids) + " };"@
}

/// Formats the keycodes as a single C array initializer line.
pub fn render_keycodes(keycodes: &Vec<String>) -> (r: String)
    ensures
        r@ == rendered(str_views(keycodes@)),
{
    let mut out = "const uint16_t keycodes[] = { ".to_owned();
    let ghost prefix: Seq<char> = out@;
    let n = keycodes.len();
    let mut i: usize = 0;
    proof {
        assert(prefix + joined(str_views(keycodes@).take(0)) =~= prefix);
    }
    while i < n
        invariant
            n == keycodes@.len(),
            i <= n,
            prefix == "const uint16_t keycodes[] = { "@,
            out@ == prefix + joined(str_views(keycodes@).take(i as int)),
        decreases n - i,
    {
        if i > 0 {
            out.append(", ");
        }
        let kc = &keycodes[i];
        out.append(kc.as_str());
        proof {
            let ids = str_views(keycodes@);
            assert(ids.take(i as int + 1).drop_last() =~= ids.take(i as int));
            assert(ids.take(i as int + 1).last() == keycodes@[i as int]@);
            if i == 0 {
                assert(joined(ids.take(1)) == ids.take(1)[0]);
                assert((prefix + joined(ids.take(0))) + keycodes@[0]@ =~= prefix + joined(
                    ids.take(1),
                ));
            } else {
                assert(joined(ids.take(i as int + 1)) == joined(ids.take(i as int)) + ", "@
                    + ids[i as int]);
                assert(((prefix + joined(ids.take(i as int))) + ", "@) + keycodes@[i as int]@
                    =~= prefix + joined(ids.take(i as int + 1)));
            }
        }
        i += 1;
    }
    out.append(" };");
    proof {
        assert(str_views(keycodes@).take(n as int) =~= str_views(keycodes@));
    }
    out
}

} // verus!
