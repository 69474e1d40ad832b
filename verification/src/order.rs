//! The order of names: byte by byte over their UTF-8 encoding, a shorter
//! name before each of its extensions.

use vstd::prelude::*;
use vstd::utf8::{decode_utf8, encode_utf8, encode_utf8_decode_utf8};

verus! {

/// `a` and `b` hold the same bytes in their first `k` places.
pub open spec fn agree(a: Seq<u8>, b: Seq<u8>, k: int) -> bool {
    &&& 0 <= k <= a.len()
    &&& k <= b.len()
    &&& forall|j: int| 0 <= j < k ==> a[j] == b[j]
}

/// `a` comes strictly before `b`: at the first place where they part,
/// `a` has ended or holds the smaller byte.
pub open spec fn precedes(a: Seq<u8>, b: Seq<u8>) -> bool {
    exists|k: int| #[trigger] agree(a, b, k) && k < b.len() && (k == a.len() || a[k] < b[k])
}

/// The bytes by which a name is ordered.
pub open spec fn key(name: Seq<char>) -> Seq<u8> {
    encode_utf8(name)
}

/// Each name comes strictly before all that follow it.
pub open spec fn ascending(names: Seq<Seq<char>>) -> bool {
    forall|i: int, j: int|
        0 <= i < j < names.len() ==> precedes(key(#[trigger] names[i]), key(#[trigger] names[j]))
}

/// How one name stands to another.
#[derive(Clone, Copy, Debug, PartialEq, Eq)]
pub enum Rank {
    Before,
    Same,
    After,
}

/// No byte string comes before itself, and of two at most one comes first.
pub proof fn lemma_precedes_asymmetric(a: Seq<u8>, b: Seq<u8>)
    requires
        precedes(a, b),
    ensures
        !precedes(b, a),
        a != b,
{
    let k = choose|k: int|
        #[trigger] agree(a, b, k) && k < b.len() && (k == a.len() || a[k] < b[k]);
    assert forall|m: int| #[trigger] agree(b, a, m) && m < a.len() implies !(m == b.len() || b[m]
        < a[m]) by {
        if m < k {
            assert(a[m] == b[m]);
        } else if m > k {
            assert(b[k] == a[k]);
        }
    }
    if a == b {
        assert(a.len() == b.len());
    }
}

/// What comes before something that comes before `c` comes before `c`.
pub proof fn lemma_precedes_transitive(a: Seq<u8>, b: Seq<u8>, c: Seq<u8>)
    requires
        precedes(a, b),
        precedes(b, c),
    ensures
        precedes(a, c),
{
    let k1 = choose|k: int|
        #[trigger] agree(a, b, k) && k < b.len() && (k == a.len() || a[k] < b[k]);
    let k2 = choose|k: int|
        #[trigger] agree(b, c, k) && k < c.len() && (k == b.len() || b[k] < c[k]);
    let k = if k1 <= k2 {
        k1
    } else {
        k2
    };
    assert(agree(a, c, k)) by {
        assert forall|j: int| 0 <= j < k implies a[j] == c[j] by {
            assert(a[j] == b[j]);
            assert(b[j] == c[j]);
        }
    }
    if k1 < k2 {
        assert(b[k1] == c[k1]);
    } else if k2 < k1 {
        assert(a[k2] == b[k2]);
    }
    assert(k < c.len() && (k == a.len() || a[k] < c[k]));
}

/// Of two different byte strings one comes before the other.
pub proof fn lemma_precedes_total(a: Seq<u8>, b: Seq<u8>)
    requires
        a != b,
    ensures
        precedes(a, b) || precedes(b, a),
{
    lemma_first_parting(a, b, 0);
}

/// From a place up to which they agree, two different byte strings part.
proof fn lemma_first_parting(a: Seq<u8>, b: Seq<u8>, k: int)
    requires
        a != b,
        agree(a, b, k),
    ensures
        precedes(a, b) || precedes(b, a),
    decreases a.len() - k,
{
    if k == a.len() {
        if k == b.len() {
            assert(a =~= b);
        } else {
            assert(agree(a, b, k) && k < b.len());
        }
    } else if k == b.len() {
        assert(agree(b, a, k) && k < a.len());
    } else if a[k] < b[k] {
        assert(agree(a, b, k) && k < b.len());
    } else if b[k] < a[k] {
        assert(agree(b, a, k) && k < a.len());
    } else {
        assert(agree(a, b, k + 1));
        lemma_first_parting(a, b, k + 1);
    }
}

/// Names with the same key are the same name.
pub proof fn lemma_key_injective(a: Seq<char>, b: Seq<char>)
    requires
        key(a) == key(b),
    ensures
        a == b,
{
    encode_utf8_decode_utf8(a);
    encode_utf8_decode_utf8(b);
    assert(decode_utf8(key(a)) == a);
    assert(decode_utf8(key(b)) == b);
}

/// An ascending list holds no name twice.
pub proof fn lemma_ascending_distinct(names: Seq<Seq<char>>, i: int, j: int)
    requires
        ascending(names),
        0 <= i < names.len(),
        0 <= j < names.len(),
        i != j,
    ensures
        names[i] != names[j],
{
    if i < j {
        lemma_precedes_asymmetric(key(names[i]), key(names[j]));
    } else {
        lemma_precedes_asymmetric(key(names[j]), key(names[i]));
    }
}

/// Two ascending lists with the same members are the same list.
pub proof fn lemma_ascending_unique(a: Seq<Seq<char>>, b: Seq<Seq<char>>)
    requires
        ascending(a),
        ascending(b),
        forall|name: Seq<char>| a.contains(name) <==> b.contains(name),
    ensures
        a == b,
    decreases a.len(),
{
    if a.len() == 0 {
        if b.len() > 0 {
            assert(b.contains(b[0]));
        }
        assert(a =~= b);
    } else if b.len() == 0 {
        assert(a.contains(a[0]));
    } else {
        assert(a.contains(a[0]));
        assert(b.contains(b[0]));
        let k = choose|k: int| 0 <= k < b.len() && b[k] == a[0];
        let m = choose|m: int| 0 <= m < a.len() && a[m] == b[0];
        if k > 0 {
            assert(precedes(key(b[0]), key(b[k])));
            if m > 0 {
                assert(precedes(key(a[0]), key(a[m])));
            }
            lemma_precedes_asymmetric(key(b[0]), key(b[k]));
        }
        assert(a[0] == b[0]);
        let ta = a.skip(1);
        let tb = b.skip(1);
        assert(ascending(ta)) by {
            assert forall|i: int, j: int| 0 <= i < j < ta.len() implies precedes(
                key(#[trigger] ta[i]),
                key(#[trigger] ta[j]),
            ) by {
                assert(ta[i] == a[i + 1] && ta[j] == a[j + 1]);
            }
        }
        assert(ascending(tb)) by {
            assert forall|i: int, j: int| 0 <= i < j < tb.len() implies precedes(
                key(#[trigger] tb[i]),
                key(#[trigger] tb[j]),
            ) by {
                assert(tb[i] == b[i + 1] && tb[j] == b[j + 1]);
            }
        }
        assert forall|name: Seq<char>| ta.contains(name) <==> tb.contains(name) by {
            if ta.contains(name) {
                let i = choose|i: int| 0 <= i < ta.len() && ta[i] == name;
                assert(a[i + 1] == name);
                assert(precedes(key(a[0]), key(a[i + 1])));
                lemma_precedes_asymmetric(key(a[0]), key(name));
                assert(a.contains(name));
                let j = choose|j: int| 0 <= j < b.len() && b[j] == name;
                assert(j > 0);
                assert(tb[j - 1] == name);
            }
            if tb.contains(name) {
                let i = choose|i: int| 0 <= i < tb.len() && tb[i] == name;
                assert(b[i + 1] == name);
                assert(precedes(key(b[0]), key(b[i + 1])));
                lemma_precedes_asymmetric(key(b[0]), key(name));
                assert(b.contains(name));
                let j = choose|j: int| 0 <= j < a.len() && a[j] == name;
                assert(j > 0);
                assert(ta[j - 1] == name);
            }
        }
        lemma_ascending_unique(ta, tb);
        assert(a =~= seq![a[0]] + ta);
        assert(b =~= seq![b[0]] + tb);
    }
}

/// Ranks the bytes `a` against the bytes `b`.
pub fn rank_of(a: &[u8], b: &[u8]) -> (r: Rank)
    ensures
        r is Before <==> precedes(a@, b@),
        r is After <==> precedes(b@, a@),
        r is Same <==> a@ == b@,
{
    let mut i: usize = 0;
    while i < a.len() && i < b.len()
        invariant
            agree(a@, b@, i as int),
        decreases a.len() - i,
    {
        if a[i] < b[i] {
            proof {
                assert(agree(a@, b@, i as int) && i < b@.len());
                lemma_precedes_asymmetric(a@, b@);
            }
            return Rank::Before;
        }
        if b[i] < a[i] {
            proof {
                assert(agree(b@, a@, i as int) && i < a@.len());
                lemma_precedes_asymmetric(b@, a@);
            }
            return Rank::After;
        }
        i += 1;
    }
    if i < b.len() {
        proof {
            assert(agree(a@, b@, i as int) && i < b@.len());
            lemma_precedes_asymmetric(a@, b@);
        }
        Rank::Before
    } else if i < a.len() {
        proof {
            assert(agree(b@, a@, i as int) && i < a@.len());
            lemma_precedes_asymmetric(b@, a@);
        }
        Rank::After
    } else {
        proof {
            assert(a@ =~= b@);
            if precedes(a@, b@) {
                lemma_precedes_asymmetric(a@, b@);
            }
            if precedes(b@, a@) {
                lemma_precedes_asymmetric(b@, a@);
            }
        }
        Rank::Same
    }
}

} // verus!
