//! Questions about text, answered character by character.

use vstd::prelude::*;

verus! {

broadcast use vstd::string::group_string_axioms;

/// Whether `prefix` is how `text` begins.
pub open spec fn begins_with(text: Seq<char>, prefix: Seq<char>) -> bool {
    prefix.len() <= text.len() && text.take(prefix.len() as int) == prefix
}

/// A text begins with another exactly when it is no shorter and they agree on every character of
/// the other.
pub proof fn law_beginning(text: Seq<char>, prefix: Seq<char>)
    ensures
        begins_with(text, prefix) <==> prefix.len() <= text.len() && forall|i: int|
            0 <= i < prefix.len() ==> #[trigger] text[i] == prefix[i],
{
    if begins_with(text, prefix) {
        assert forall|i: int| 0 <= i < prefix.len() implies #[trigger] text[i] == prefix[i] by {
            assert(text.take(prefix.len() as int)[i] == text[i]);
        }
    }
    if prefix.len() <= text.len() && forall|i: int|
        0 <= i < prefix.len() ==> #[trigger] text[i] == prefix[i] {
        assert(text.take(prefix.len() as int) =~= prefix);
    }
}

/// A text begins with every text that it continues.
pub proof fn law_continuation(prefix: Seq<char>, rest: Seq<char>)
    ensures
        begins_with(prefix + rest, prefix),
{
    law_beginning(prefix + rest, prefix);
}

/// Whether `text` begins with `prefix`.
pub fn starts_with(text: &str, prefix: &str) -> (yes: bool)
    ensures
        yes == begins_with(text@, prefix@),
        yes == (prefix@.len() <= text@.len() && forall|i: int|
            0 <= i < prefix@.len() ==> #[trigger] text@[i] == prefix@[i]),
{
    let mut rest = text.chars();
    let ghost mut seen: nat = 0;
    assert(vstd::std_specs::iter::IteratorSpec::remaining(&rest) =~= text@.skip(0));
    for wanted in it: prefix.chars()
        invariant
            seen == it.index(),
            it.seq() == prefix@,
            seen <= text@.len(),
            vstd::std_specs::iter::IteratorSpec::remaining(&rest) == text@.skip(seen as int),
            text@.take(seen as int) == prefix@.take(seen as int),
    {
        let next = rest.next();
        match next {
            None => {
                proof {
                    law_beginning(text@, prefix@);
                }
                return false;
            },
            Some(c) => {
                if c != wanted {
                    proof {
                        assert(text@[seen as int] == c);
                        law_beginning(text@, prefix@);
                        assert(text@[seen as int] != prefix@[seen as int]);
                    }
                    return false;
                }
                proof {
                    assert(text@.take(seen as int + 1) =~= text@.take(seen as int).push(c));
                    assert(prefix@.take(seen as int + 1) =~= prefix@.take(seen as int).push(c));
                    seen = seen + 1;
                }
            },
        }
    }
    proof {
        assert(prefix@.take(prefix@.len() as int) =~= prefix@);
        law_beginning(text@, prefix@);
    }
    true
}

/// Whether the two texts are the same.
pub fn same_text(a: &str, b: &str) -> (yes: bool)
    ensures
        yes == (a@ == b@),
{
    let yes = starts_with(a, b) && starts_with(b, a);
    proof {
        assert(a@.take(a@.len() as int) =~= a@);
        assert(b@.take(b@.len() as int) =~= b@);
    }
    yes
}

} // verus!
