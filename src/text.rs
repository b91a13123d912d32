use vstd::prelude::*;
use vstd::std_specs::iter::IteratorSpec;

verus! {

/// Whether `s` holds at least one and at most `max` characters.
pub fn length_within(s: &str, max: usize) -> (r: bool)
    ensures
        r == (1 <= s@.len() <= max),
{
    broadcast use vstd::string::group_string_axioms;

    let mut it = s.chars();
    let mut n: usize = 0;
    loop
        invariant
            n <= max,
            n <= s@.len(),
            it.obeys_prophetic_iter_laws(),
            IteratorSpec::remaining(&it) == s@.subrange(n as int, s@.len() as int),
        decreases s@.len() - n,
    {
        match it.next() {
            Some(_) => {
                if n == max {
                    return false;
                }
                n += 1;
            },
            None => {
                return n >= 1;
            },
        }
    }
}

} // verus!
