//! Display ordering of the cached list: distributions are presented sorted
//! by name, compared case-insensitively. Name comparison for business logic
//! stays case-sensitive; the folding here is display normalization only.

use vstd::prelude::*;
use vstd::multiset::Multiset;
use vstd::relations::sorted_by;

use crate::models::WslDistro;
use crate::text::{ascii_lower, ascii_lower_string};

verus! {

broadcast use vstd::seq::group_seq_axioms;

/// Lexicographic order on character sequences, by scalar value, shorter
/// prefixes first.
pub open spec fn lex_le(a: Seq<char>, b: Seq<char>) -> bool
    decreases a.len(),
{
    if a.len() == 0 {
        true
    } else if b.len() == 0 {
        false
    } else if a[0] != b[0] {
        (a[0] as u32) < (b[0] as u32)
    } else {
        lex_le(a.drop_first(), b.drop_first())
    }
}

/// Any two sequences are comparable.
pub proof fn lemma_lex_le_connected(a: Seq<char>, b: Seq<char>)
    ensures
        lex_le(a, b) || lex_le(b, a),
    decreases a.len(),
{
    if a.len() > 0 && b.len() > 0 {
        if a[0] == b[0] {
            lemma_lex_le_connected(a.drop_first(), b.drop_first());
        } else {
            vstd::utf8::char_u32_cast(a[0], a[0] as u32);
            vstd::utf8::char_u32_cast(b[0], b[0] as u32);
        }
    }
}

/// The order is transitive.
pub proof fn lemma_lex_le_transitive(a: Seq<char>, b: Seq<char>, c: Seq<char>)
    requires
        lex_le(a, b),
        lex_le(b, c),
    ensures
        lex_le(a, c),
    decreases a.len(),
{
    if a.len() == 0 {
    } else {
        if a[0] == b[0] && b[0] == c[0] {
            lemma_lex_le_transitive(a.drop_first(), b.drop_first(), c.drop_first());
        }
    }
}

/// The display order: by name, folded to lower case.
pub open spec fn display_le(a: WslDistro, b: WslDistro) -> bool {
    lex_le(ascii_lower(a.name@), ascii_lower(b.name@))
}

/// The display order as a relation value, for `sorted_by`.
pub open spec fn display_order() -> spec_fn(WslDistro, WslDistro) -> bool {
    |a: WslDistro, b: WslDistro| display_le(a, b)
}

/// Compares two texts in the lexicographic order.
fn lex_leq_str(a: &str, b: &str) -> (r: bool)
    ensures
        r == lex_le(a@, b@),
{
    let alen = a.unicode_len();
    let blen = b.unicode_len();
    let mut i: usize = 0;
    proof {
        assert(a@.skip(0) =~= a@);
        assert(b@.skip(0) =~= b@);
    }
    while i < alen && i < blen
        invariant
            i <= alen,
            i <= blen,
            alen == a@.len(),
            blen == b@.len(),
            lex_le(a@, b@) == lex_le(a@.skip(i as int), b@.skip(i as int)),
        decreases alen - i,
    {
        let ca = a.get_char(i);
        let cb = b.get_char(i);
        proof {
            assert(a@.skip(i as int)[0] == a@[i as int]);
            assert(b@.skip(i as int)[0] == b@[i as int]);
            assert(a@.skip(i as int).drop_first() =~= a@.skip(i as int + 1));
            assert(b@.skip(i as int).drop_first() =~= b@.skip(i as int + 1));
        }
        if ca != cb {
            return (ca as u32) < (cb as u32);
        }
        i = i + 1;
    }
    proof {
        if i == alen {
            assert(a@.skip(i as int) =~= Seq::<char>::empty());
        } else {
            assert(b@.skip(i as int) =~= Seq::<char>::empty());
            assert(a@.skip(i as int).len() > 0);
        }
    }
    i == alen
}

/// Compares two cached entries in the display order.
fn display_leq(a: &WslDistro, b: &WslDistro) -> (r: bool)
    ensures
        r == display_le(*a, *b),
{
    let la = ascii_lower_string(a.name.as_str());
    let lb = ascii_lower_string(b.name.as_str());
    lex_leq_str(la.as_str(), lb.as_str())
}

/// Sorts the cached list into display order: the result holds exactly the
/// given entries, arranged so that every earlier entry's folded name is
/// lexicographically at most every later one's.
pub fn sort_distros_by_name(list: Vec<WslDistro>) -> (r: Vec<WslDistro>)
    ensures
        sorted_by(r@, display_order()),
        r@.to_multiset() == list@.to_multiset(),
{
    broadcast use vstd::seq_lib::group_to_multiset_ensures;
    broadcast use vstd::multiset::group_multiset_axioms;

    let mut src = list;
    let mut out: Vec<WslDistro> = Vec::new();
    proof {
        assert(out@.to_multiset().add(src@.to_multiset()) =~= list@.to_multiset());
    }
    while src.len() > 0
        invariant
            sorted_by(out@, display_order()),
            out@.to_multiset().add(src@.to_multiset()) == list@.to_multiset(),
        decreases src.len(),
    {
        let ghost src0 = src@;
        let ghost out0 = out@;
        let x = src.pop().unwrap();
        proof {
            assert(src0 =~= src@.push(x));
        }
        let n = out.len();
        let mut p: usize = 0;
        while p < n && display_leq(&out[p], &x)
            invariant
                p <= n,
                n == out@.len(),
                out@ == out0,
                forall|k: int| 0 <= k < p ==> display_le(#[trigger] out@[k], x),
            decreases n - p,
        {
            p = p + 1;
        }
        proof {
            if p < n {
                lemma_lex_le_connected(ascii_lower(out@[p as int].name@), ascii_lower(x.name@));
            }
            assert forall|j: int| p <= j < n implies display_le(x, #[trigger] out@[j]) by {
                lemma_lex_le_connected(ascii_lower(out@[p as int].name@), ascii_lower(x.name@));
                if j > p {
                    assert(display_order()(out@[p as int], out@[j]));
                    lemma_lex_le_transitive(
                        ascii_lower(x.name@),
                        ascii_lower(out@[p as int].name@),
                        ascii_lower(out@[j].name@),
                    );
                }
            }
        }
        out.insert(p, x);
        proof {
            assert(out@ == out0.insert(p as int, x));
            lemma_insert_sorted(out0, x, p as int);
            lemma_insert_multiset(out0, x, p as int);
            vstd::seq_lib::to_multiset_build(src@, x);
            assert(src0.to_multiset() == src@.to_multiset().insert(x));
            assert(out@.to_multiset() == out0.to_multiset().insert(x));
            assert(out@.to_multiset().add(src@.to_multiset()) =~= out0.to_multiset().add(
                src0.to_multiset(),
            ));
        }
    }
    proof {
        assert(src@.to_multiset() =~= Multiset::<WslDistro>::empty());
        assert(out@.to_multiset() =~= list@.to_multiset());
    }
    out
}

/// Inserting an entry between the entries at most it and the entries at
/// least it keeps the list sorted.
proof fn lemma_insert_sorted(s: Seq<WslDistro>, x: WslDistro, p: int)
    requires
        0 <= p <= s.len(),
        sorted_by(s, display_order()),
        forall|k: int| 0 <= k < p ==> display_le(#[trigger] s[k], x),
        forall|j: int| p <= j < s.len() ==> display_le(x, #[trigger] s[j]),
    ensures
        sorted_by(s.insert(p, x), display_order()),
{
    let t = s.insert(p, x);
    assert forall|i: int, j: int| 0 <= i < j < t.len() implies display_order()(t[i], t[j]) by {
        if i < p && j < p {
            assert(t[i] == s[i] && t[j] == s[j]);
        } else if i < p && j == p {
            assert(t[i] == s[i] && t[j] == x);
        } else if i < p && j > p {
            assert(t[i] == s[i] && t[j] == s[j - 1]);
        } else if i == p {
            assert(t[i] == x && t[j] == s[j - 1]);
        } else {
            assert(t[i] == s[i - 1] && t[j] == s[j - 1]);
        }
    }
}

/// Inserting an entry anywhere adds exactly that entry to the multiset.
proof fn lemma_insert_multiset(s: Seq<WslDistro>, x: WslDistro, p: int)
    requires
        0 <= p <= s.len(),
    ensures
        s.insert(p, x).to_multiset() == s.to_multiset().insert(x),
{
    broadcast use vstd::seq_lib::group_to_multiset_ensures;

    let t = s.insert(p, x);
    assert(t =~= s.take(p) + (seq![x] + s.skip(p)));
    vstd::seq_lib::lemma_multiset_commutative(s.take(p), seq![x] + s.skip(p));
    vstd::seq_lib::lemma_multiset_commutative(seq![x], s.skip(p));
    assert(s =~= s.take(p) + s.skip(p));
    vstd::seq_lib::lemma_multiset_commutative(s.take(p), s.skip(p));
    assert(seq![x].to_multiset() =~= Multiset::<WslDistro>::empty().insert(x));
    assert(t.to_multiset() =~= s.to_multiset().insert(x));
}

} // verus!
