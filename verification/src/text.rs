use vstd::prelude::*;
use vstd::std_specs::iter::IteratorSpec;

verus! {

/// Tests whether `s` begins with `prefix`. Reads no more of `s` than the prefix is long.
pub fn begins_with(s: &str, prefix: &str) -> (found: bool)
    ensures
        found == prefix@.is_prefix_of(s@),
{
    let mut rest = s.chars();
    let mut found: bool = true;
    for c in it: prefix.chars()
        invariant
            it.seq() == prefix@,
            rest.obeys_prophetic_iter_laws(),
            found ==> it.index() <= s@.len() && rest.remaining() =~= s@.skip(it.index())
                && s@.take(it.index()) =~= it.seq().take(it.index()),
            !found ==> !prefix@.is_prefix_of(s@),
    {
        if found {
            match rest.next() {
                Some(d) => {
                    if d != c {
                        assert(!prefix@.is_prefix_of(s@)) by {
                            if prefix@.is_prefix_of(s@) {
                                assert(s@.subrange(0, prefix@.len() as int)[it.index()]
                                    == s@[it.index()]);
                            }
                        }
                        found = false;
                    } else {
                        assert(s@.take(it.index() + 1) =~= s@.take(it.index()).push(d));
                    }
                },
                None => {
                    found = false;
                },
            }
        }
    }
    found
}

/// Tests whether `s` ends with `suffix`.
pub fn ends_with(s: &str, suffix: &str) -> (found: bool)
    ensures
        found == suffix@.is_suffix_of(s@),
{
    let n = s.unicode_len();
    let m = suffix.unicode_len();
    if m > n {
        return false;
    }
    let tail = s.substring_char(n - m, n);
    let found = begins_with(tail, suffix);
    assert(found ==> suffix@ =~= tail@.subrange(0, m as int));
    found
}

/// Tests whether `s` and `other` are the same text.
pub fn equals(s: &str, other: &str) -> (same: bool)
    ensures
        same == (s@ == other@),
{
    let same = s.unicode_len() == other.unicode_len() && begins_with(s, other);
    assert(same ==> s@ =~= s@.subrange(0, s@.len() as int));
    same
}

/// The part of `s` from index `from` up to index `to`, counted in characters.
pub(crate) fn part(s: &str, from: usize, to: usize) -> (out: String)
    requires
        from <= to <= s@.len(),
    ensures
        out@ == s@.subrange(from as int, to as int),
{
    s.substring_char(from, to).to_owned()
}

} // verus!
