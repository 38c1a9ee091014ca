//! Lexicographic order on strings by their UTF-8 bytes.
//!
//! Report rows and the active-session view are ordered by category and
//! instance name; ties are broken by the record id. String columns compare by
//! their byte sequences, the binary collation of the ledger's text fields.

use vstd::prelude::*;
use vstd::string::StringSliceAdditionalSpecFns;
use vstd::string::StrSliceExecFns;

verus! {

broadcast use vstd::slice::axiom_spec_len;

/// Strict lexicographic order on byte sequences.
pub open spec fn bytes_lt(a: Seq<u8>, b: Seq<u8>) -> bool
    decreases a.len(),
{
    if b.len() == 0 {
        false
    } else if a.len() == 0 {
        true
    } else if a[0] < b[0] {
        true
    } else if a[0] > b[0] {
        false
    } else {
        bytes_lt(a.drop_first(), b.drop_first())
    }
}

/// The UTF-8 bytes of a string, the key by which text columns are ordered.
pub open spec fn str_bytes(s: &str) -> Seq<u8> {
    s.spec_bytes()
}

pub proof fn lemma_bytes_lt_irrefl(a: Seq<u8>)
    ensures
        !bytes_lt(a, a),
    decreases a.len(),
{
    if a.len() > 0 {
        lemma_bytes_lt_irrefl(a.drop_first());
    }
}

pub proof fn lemma_bytes_lt_asym(a: Seq<u8>, b: Seq<u8>)
    requires
        bytes_lt(a, b),
    ensures
        !bytes_lt(b, a),
        a != b,
    decreases a.len(),
{
    if a.len() > 0 && b.len() > 0 && a[0] == b[0] {
        lemma_bytes_lt_asym(a.drop_first(), b.drop_first());
        if a == b {
            assert(a.drop_first() =~= b.drop_first());
        }
    }
}

pub proof fn lemma_bytes_trichotomy(a: Seq<u8>, b: Seq<u8>)
    ensures
        bytes_lt(a, b) || bytes_lt(b, a) || a == b,
    decreases a.len(),
{
    if a.len() == 0 && b.len() == 0 {
        assert(a =~= b);
    } else if a.len() > 0 && b.len() > 0 && a[0] == b[0] {
        lemma_bytes_trichotomy(a.drop_first(), b.drop_first());
        if a.drop_first() == b.drop_first() {
            assert(a.drop_first().len() == b.drop_first().len());
            assert(a.len() == b.len());
            assert forall|k: int| 0 <= k < a.len() implies a[k] == b[k] by {
                if k > 0 {
                    assert(a[k] == a.drop_first()[k - 1]);
                    assert(b[k] == b.drop_first()[k - 1]);
                }
            }
            assert(a =~= b);
        }
    }
}

pub proof fn lemma_bytes_lt_trans(a: Seq<u8>, b: Seq<u8>, c: Seq<u8>)
    requires
        bytes_lt(a, b),
        bytes_lt(b, c),
    ensures
        bytes_lt(a, c),
    decreases a.len(),
{
    if a.len() > 0 && b.len() > 0 && c.len() > 0 && a[0] == b[0] && b[0] == c[0] {
        lemma_bytes_lt_trans(a.drop_first(), b.drop_first(), c.drop_first());
    }
}

/// If the first `i` bytes agree, the order of the whole sequences is the
/// order of the suffixes from `i` on.
proof fn lemma_bytes_lt_skip(a: Seq<u8>, b: Seq<u8>, i: int)
    requires
        0 <= i <= a.len(),
        i <= b.len(),
        forall|k: int| 0 <= k < i ==> a[k] == b[k],
    ensures
        bytes_lt(a, b) == bytes_lt(a.skip(i), b.skip(i)),
    decreases i,
{
    if i > 0 {
        assert(a.len() > 0 && b.len() > 0 && a[0] == b[0]);
        assert(bytes_lt(a, b) == bytes_lt(a.drop_first(), b.drop_first()));
        lemma_bytes_lt_skip(a.drop_first(), b.drop_first(), i - 1);
        assert(a.drop_first().skip(i - 1) =~= a.skip(i));
        assert(b.drop_first().skip(i - 1) =~= b.skip(i));
    } else {
        assert(a.skip(0) =~= a);
        assert(b.skip(0) =~= b);
    }
}

/// Character-wise string equality.
pub fn str_eq(a: &str, b: &str) -> (r: bool)
    ensures
        r == (a@ == b@),
{
    let al = a.unicode_len();
    let bl = b.unicode_len();
    if al != bl {
        return false;
    }
    let mut i: usize = 0;
    while i < al
        invariant
            al == a@.len(),
            bl == b@.len(),
            al == bl,
            0 <= i <= al,
            forall|k: int| 0 <= k < i ==> a@[k] == b@[k],
        decreases al - i,
    {
        if a.get_char(i) != b.get_char(i) {
            return false;
        }
        i = i + 1;
    }
    proof {
        assert(a@ =~= b@);
    }
    true
}

/// Three-way comparison of two strings by their UTF-8 bytes: 0 when the
/// first is smaller, 1 when they are equal, 2 when the first is greater.
pub fn str_cmp(a: &str, b: &str) -> (r: u8)
    ensures
        (r == 0) == bytes_lt(str_bytes(a), str_bytes(b)),
        (r == 1) == (str_bytes(a) == str_bytes(b)),
        (r == 2) == bytes_lt(str_bytes(b), str_bytes(a)),
        r <= 2,
{
    let ab = a.as_bytes();
    let bb = b.as_bytes();
    let ghost ga = str_bytes(a);
    let ghost gb = str_bytes(b);
    let mut i: usize = 0;
    loop
        invariant
            ga == str_bytes(a),
            gb == str_bytes(b),
            ab@ == ga,
            bb@ == gb,
            0 <= i <= ga.len(),
            i <= gb.len(),
            forall|k: int| 0 <= k < i ==> ga[k] == gb[k],
        decreases ga.len() - i,
    {
        proof {
            lemma_bytes_lt_skip(ga, gb, i as int);
            lemma_bytes_lt_skip(gb, ga, i as int);
        }
        if i == ab.len() && i == bb.len() {
            proof {
                assert(ga =~= gb);
                lemma_bytes_lt_irrefl(ga);
            }
            return 1;
        }
        if i == ab.len() {
            proof {
                assert(ga.skip(i as int).len() == 0 && gb.skip(i as int).len() > 0);
                assert(bytes_lt(ga, gb));
                lemma_bytes_lt_asym(ga, gb);
            }
            return 0;
        }
        if i == bb.len() {
            proof {
                assert(gb.skip(i as int).len() == 0 && ga.skip(i as int).len() > 0);
                assert(bytes_lt(gb, ga));
                lemma_bytes_lt_asym(gb, ga);
            }
            return 2;
        }
        let x = ab[i];
        let y = bb[i];
        if x < y {
            proof {
                assert(ga.skip(i as int)[0] == ga[i as int]);
                assert(gb.skip(i as int)[0] == gb[i as int]);
                assert(bytes_lt(ga.skip(i as int), gb.skip(i as int)));
                assert(bytes_lt(ga, gb));
                lemma_bytes_lt_asym(ga, gb);
            }
            return 0;
        }
        if x > y {
            proof {
                assert(gb.skip(i as int)[0] == gb[i as int]);
                assert(ga.skip(i as int)[0] == ga[i as int]);
                assert(bytes_lt(gb.skip(i as int), ga.skip(i as int)));
                assert(bytes_lt(gb, ga));
                lemma_bytes_lt_asym(gb, ga);
            }
            return 2;
        }
        i = i + 1;
    }
}

} // verus!
