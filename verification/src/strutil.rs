use vstd::prelude::*;

verus! {

/// `needle` occurs in `hay` starting at position `i`.
pub open spec fn matches_at(hay: Seq<char>, i: int, needle: Seq<char>) -> bool {
    0 <= i && i + needle.len() <= hay.len() && hay.subrange(i, i + needle.len()) == needle
}

/// `needle` occurs somewhere in `hay`.
pub open spec fn contains_seq(hay: Seq<char>, needle: Seq<char>) -> bool {
    exists|i: int| matches_at(hay, i, needle)
}

/// Whether `needle` occurs in `hay` at position `i`.
pub(crate) fn match_at_exec(hay: &str, i: usize, needle: &str) -> (r: bool)
    requires
        i + needle@.len() <= hay@.len(),
    ensures
        r == matches_at(hay@, i as int, needle@),
{
    let hl = hay.unicode_len();
    let nl = needle.unicode_len();
    let mut j: usize = 0;
    while j < nl
        invariant
            j <= nl,
            hl == hay@.len(),
            nl == needle@.len(),
            i + nl <= hl,
            forall|k: int| 0 <= k < j ==> hay@[i + k] == needle@[k],
        decreases nl - j,
    {
        if hay.get_char(i + j) != needle.get_char(j) {
            proof {
                assert(hay@.subrange(i as int, i + needle@.len())[j as int] == hay@[i + j]);
            }
            return false;
        }
        j = j + 1;
    }
    proof {
        assert(hay@.subrange(i as int, i + needle@.len()) =~= needle@);
    }
    true
}

/// Case-sensitive substring test, the matching used by project search.
pub fn str_contains(hay: &str, needle: &str) -> (r: bool)
    ensures
        r == contains_seq(hay@, needle@),
{
    let hl = hay.unicode_len();
    let nl = needle.unicode_len();
    if nl > hl {
        proof {
            assert(forall|i: int| !matches_at(hay@, i, needle@));
        }
        return false;
    }
    if nl == 0 {
        proof {
            assert(hay@.subrange(0, 0) =~= needle@);
            assert(matches_at(hay@, 0, needle@));
        }
        return true;
    }
    let mut i: usize = 0;
    while i <= hl - nl
        invariant
            1 <= nl <= hl,
            hl == hay@.len(),
            nl == needle@.len(),
            i <= hl - nl + 1,
            forall|k: int| 0 <= k < i ==> !matches_at(hay@, k, needle@),
        decreases hl - nl + 1 - i,
    {
        if match_at_exec(hay, i, needle) {
            return true;
        }
        i = i + 1;
    }
    proof {
        assert(forall|k: int| k >= i ==> !matches_at(hay@, k, needle@));
    }
    false
}

/// Relies on String::push: appends exactly the given character.
#[verifier::external_body]
pub fn push_char(s: &mut String, c: char)
    ensures
        final(s)@ == old(s)@.push(c),
{
    s.push(c);
}

/// A match of a concatenation is a match of both parts in place.
pub proof fn lemma_matches_split(s: Seq<char>, i: int, a: Seq<char>, b: Seq<char>)
    ensures
        matches_at(s, i, a + b) <==> matches_at(s, i, a) && matches_at(s, i + a.len(), b),
{
    if matches_at(s, i, a + b) {
        assert(s.subrange(i, i + a.len()) =~= a) by {
            assert forall|k: int| 0 <= k < a.len() implies s.subrange(i, i + a.len())[k]
                == a[k] by {
                assert(s.subrange(i, i + (a + b).len())[k] == (a + b)[k]);
            }
        }
        assert(s.subrange(i + a.len(), i + a.len() + b.len()) =~= b) by {
            assert forall|k: int| 0 <= k < b.len() implies s.subrange(
                i + a.len(),
                i + a.len() + b.len(),
            )[k] == b[k] by {
                assert(s.subrange(i, i + (a + b).len())[a.len() + k] == (a + b)[a.len() + k]);
            }
        }
    }
    if matches_at(s, i, a) && matches_at(s, i + a.len(), b) {
        assert(s.subrange(i, i + (a + b).len()) =~= a + b) by {
            assert forall|k: int| 0 <= k < (a + b).len() implies s.subrange(
                i,
                i + (a + b).len(),
            )[k] == (a + b)[k] by {
                if k < a.len() {
                    assert(s.subrange(i, i + a.len())[k] == a[k]);
                } else {
                    assert(s.subrange(i + a.len(), i + a.len() + b.len())[k - a.len()] == b[k
                        - a.len()]);
                }
            }
        }
    }
}

/// Recognizes a fixed token at a position.
pub fn expect_lit(s: &str, i: usize, lit: &str) -> (r: Option<usize>)
    ensures
        r matches Some(j) ==> j == i + lit@.len() && matches_at(s@, i as int, lit@),
        r is None ==> !matches_at(s@, i as int, lit@),
{
    let hl = s.unicode_len();
    let nl = lit.unicode_len();
    if i > hl || nl > hl - i {
        return Option::None;
    }
    if match_at_exec(s, i, lit) {
        Option::Some(i + nl)
    } else {
        Option::None
    }
}

} // verus!
