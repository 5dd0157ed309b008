use std::cmp::Ordering;
use vstd::prelude::*;

verus! {

/// Lexicographic order on character sequences, by code point.
/// On strings this is the order of `str`'s `Ord` (UTF-8 keeps code point order).
pub open spec fn key_lt(a: Seq<char>, b: Seq<char>) -> bool
    decreases a.len(),
{
    if a.len() == 0 {
        b.len() > 0
    } else if b.len() == 0 {
        false
    } else if a[0] != b[0] {
        a[0] < b[0]
    } else {
        key_lt(a.drop_first(), b.drop_first())
    }
}

pub proof fn lemma_key_lt_irreflexive(a: Seq<char>)
    ensures
        !key_lt(a, a),
    decreases a.len(),
{
    if a.len() > 0 {
        lemma_key_lt_irreflexive(a.drop_first());
    }
}

pub proof fn lemma_key_lt_transitive(a: Seq<char>, b: Seq<char>, c: Seq<char>)
    requires
        key_lt(a, b),
        key_lt(b, c),
    ensures
        key_lt(a, c),
    decreases a.len(),
{
    if a.len() > 0 && b.len() > 0 && c.len() > 0 {
        if a[0] == b[0] && b[0] == c[0] {
            lemma_key_lt_transitive(a.drop_first(), b.drop_first(), c.drop_first());
        }
    }
}

/// Two distinct keys are ordered one way or the other.
pub proof fn lemma_key_lt_total(a: Seq<char>, b: Seq<char>)
    requires
        a != b,
    ensures
        key_lt(a, b) || key_lt(b, a),
    decreases a.len(),
{
    if a.len() == 0 {
        assert(b.len() > 0) by {
            if b.len() == 0 {
                assert(a =~= b);
            }
        }
    } else if b.len() > 0 && a[0] == b[0] {
        if a.drop_first() == b.drop_first() {
            assert(a =~= seq![a[0]] + a.drop_first());
            assert(b =~= seq![b[0]] + b.drop_first());
        }
        lemma_key_lt_total(a.drop_first(), b.drop_first());
    } else if b.len() > 0 {
    }
}

/// Ordering of two identities under `key_lt`.
pub open spec fn compare_spec(a: Seq<char>, b: Seq<char>) -> Ordering {
    if a == b {
        Ordering::Equal
    } else if key_lt(a, b) {
        Ordering::Less
    } else {
        Ordering::Greater
    }
}

/// Compares two identities in the order of `key_lt`.
pub fn compare_keys(a: &str, b: &str) -> (r: Ordering)
    ensures
        r == compare_spec(a@, b@),
{
    let la = a.unicode_len();
    let lb = b.unicode_len();
    let mut i: usize = 0;
    assert(a@.subrange(0, la as int) =~= a@);
    assert(b@.subrange(0, lb as int) =~= b@);
    while i < la && i < lb
        invariant
            la == a@.len(),
            lb == b@.len(),
            i <= la,
            i <= lb,
            a@.subrange(0, i as int) == b@.subrange(0, i as int),
            key_lt(a@, b@) == key_lt(a@.subrange(i as int, la as int), b@.subrange(i as int, lb as int)),
            key_lt(b@, a@) == key_lt(b@.subrange(i as int, lb as int), a@.subrange(i as int, la as int)),
        decreases la - i,
    {
        let ca = a.get_char(i);
        let cb = b.get_char(i);
        let ghost sa = a@.subrange(i as int, la as int);
        let ghost sb = b@.subrange(i as int, lb as int);
        assert(sa[0] == ca && sb[0] == cb);
        if ca != cb {
            proof {
                if a@ == b@ {
                    assert(a@[i as int] == b@[i as int]);
                }
            }
            if ca < cb {
                return Ordering::Less;
            } else {
                return Ordering::Greater;
            }
        }
        assert(sa.drop_first() =~= a@.subrange(i + 1, la as int));
        assert(sb.drop_first() =~= b@.subrange(i + 1, lb as int));
        assert(a@.subrange(0, i + 1) =~= a@.subrange(0, i as int).push(ca));
        assert(b@.subrange(0, i + 1) =~= b@.subrange(0, i as int).push(cb));
        i = i + 1;
    }
    if la == lb {
        assert(a@ =~= a@.subrange(0, i as int));
        assert(b@ =~= b@.subrange(0, i as int));
        Ordering::Equal
    } else if la < lb {
        assert(a@.subrange(i as int, la as int).len() == 0);
        proof {
            if a@ == b@ {
                assert(false);
            }
        }
        Ordering::Less
    } else {
        assert(b@.subrange(i as int, lb as int).len() == 0);
        proof {
            if a@ == b@ {
                assert(false);
            }
            lemma_key_lt_total(a@, b@);
        }
        Ordering::Greater
    }
}

/// Whether two identities are the same text.
pub fn same_key(a: &str, b: &str) -> (r: bool)
    ensures
        r == (a@ == b@),
{
    match compare_keys(a, b) {
        Ordering::Equal => true,
        _ => false,
    }
}

} // verus!
