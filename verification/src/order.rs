//! The byte-wise order on strings that `String`'s `Ord` uses, and a stable sort by it.

use vstd::prelude::*;
use vstd::utf8::*;

use crate::text::views_of;

verus! {

/// Lexicographic order on byte sequences; a proper prefix comes first.
pub open spec fn bytes_lt(a: Seq<u8>, b: Seq<u8>) -> bool
    decreases a.len(),
{
    if a.len() == 0 {
        b.len() > 0
    } else if b.len() == 0 {
        false
    } else if a[0] != b[0] {
        a[0] < b[0]
    } else {
        bytes_lt(a.drop_first(), b.drop_first())
    }
}

/// The order of `String`s: lexicographic on their UTF-8 bytes.
pub open spec fn text_lt(a: Seq<char>, b: Seq<char>) -> bool {
    bytes_lt(encode_utf8(a), encode_utf8(b))
}

/// No byte sequence comes before itself.
pub proof fn lemma_bytes_lt_irreflexive(a: Seq<u8>)
    ensures
        !bytes_lt(a, a),
    decreases a.len(),
{
    if a.len() > 0 {
        lemma_bytes_lt_irreflexive(a.drop_first());
    }
}

/// The byte order is transitive.
pub proof fn lemma_bytes_lt_transitive(a: Seq<u8>, b: Seq<u8>, c: Seq<u8>)
    requires
        bytes_lt(a, b),
        bytes_lt(b, c),
    ensures
        bytes_lt(a, c),
    decreases a.len(),
{
    if a.len() > 0 && b.len() > 0 && c.len() > 0 {
        if a[0] == b[0] && b[0] == c[0] {
            lemma_bytes_lt_transitive(a.drop_first(), b.drop_first(), c.drop_first());
        }
    }
}

/// Two different byte sequences are ordered one way or the other.
pub proof fn lemma_bytes_lt_total(a: Seq<u8>, b: Seq<u8>)
    ensures
        a == b || bytes_lt(a, b) || bytes_lt(b, a),
    decreases a.len(),
{
    if a.len() > 0 && b.len() > 0 && a[0] == b[0] {
        lemma_bytes_lt_total(a.drop_first(), b.drop_first());
        if a.drop_first() == b.drop_first() {
            assert(a =~= seq![a[0]] + a.drop_first());
            assert(b =~= seq![b[0]] + b.drop_first());
        }
    } else if a.len() == 0 && b.len() == 0 {
        assert(a =~= b);
    }
}

/// No string comes before itself.
pub proof fn lemma_text_lt_irreflexive(a: Seq<char>)
    ensures
        !text_lt(a, a),
{
    lemma_bytes_lt_irreflexive(encode_utf8(a));
}

/// The string order is transitive.
pub proof fn lemma_text_lt_transitive(a: Seq<char>, b: Seq<char>, c: Seq<char>)
    requires
        text_lt(a, b),
        text_lt(b, c),
    ensures
        text_lt(a, c),
{
    lemma_bytes_lt_transitive(encode_utf8(a), encode_utf8(b), encode_utf8(c));
}

/// Two different strings are ordered one way or the other.
pub proof fn lemma_text_lt_total(a: Seq<char>, b: Seq<char>)
    ensures
        a == b || text_lt(a, b) || text_lt(b, a),
{
    lemma_bytes_lt_total(encode_utf8(a), encode_utf8(b));
    if encode_utf8(a) == encode_utf8(b) {
        encode_utf8_decode_utf8(a);
        encode_utf8_decode_utf8(b);
    }
}

/// Whether `a` sorts strictly before `b` by `String`'s order.
pub fn text_less(a: &str, b: &str) -> (r: bool)
    ensures
        r == text_lt(a@, b@),
{
    let x = a.as_bytes();
    let y = b.as_bytes();
    let ghost ex = encode_utf8(a@);
    let ghost ey = encode_utf8(b@);
    let mut i: usize = 0;
    assert(ex.skip(0) =~= ex && ey.skip(0) =~= ey);
    while i < x.len() && i < y.len() && x[i] == y[i]
        invariant
            x@ == ex,
            y@ == ey,
            i <= x.len(),
            i <= y.len(),
            bytes_lt(ex, ey) == bytes_lt(ex.skip(i as int), ey.skip(i as int)),
        decreases x.len() - i,
    {
        proof {
            assert(ex.skip(i as int).drop_first() =~= ex.skip(i + 1));
            assert(ey.skip(i as int).drop_first() =~= ey.skip(i + 1));
        }
        i = i + 1;
    }
    if i == x.len() {
        i < y.len()
    } else if i == y.len() {
        false
    } else {
        x[i] < y[i]
    }
}

/// Where the index `i` stands with respect to `j` when `keys` are sorted stably:
/// a smaller key first, and among equal keys the earlier index first.
pub open spec fn sorts_before(keys: Seq<Seq<char>>, i: int, j: int) -> bool {
    text_lt(keys[i], keys[j]) || (keys[i] == keys[j] && i < j)
}

/// `order` lists the indices of `keys` in the order of a stable sort by key.
pub open spec fn is_stable_order(keys: Seq<Seq<char>>, order: Seq<usize>) -> bool {
    &&& order.len() == keys.len()
    &&& forall|a: int| 0 <= a < order.len() ==> #[trigger] order[a] < keys.len()
    &&& forall|a: int, b: int|
        0 <= a < b < order.len() ==> sorts_before(keys, #[trigger] order[a] as int, #[trigger] order[b] as int)
}

/// The indices of `keys` in the order of a stable sort by `String`'s order.
pub fn stable_order(keys: &Vec<String>) -> (order: Vec<usize>)
    ensures
        is_stable_order(views_of(keys@), order@),
{
    let ghost k = views_of(keys@);
    let mut order: Vec<usize> = Vec::new();
    let mut i: usize = 0;
    while i < keys.len()
        invariant
            k == views_of(keys@),
            i <= keys.len(),
            order.len() == i,
            forall|a: int| 0 <= a < order.len() ==> #[trigger] order@[a] < i,
            forall|a: int, b: int|
                0 <= a < b < order.len() ==> sorts_before(k, #[trigger] order@[a] as int, #[trigger] order@[b] as int),
        decreases keys.len() - i,
    {
        let mut pos: usize = 0;
        while pos < order.len() && !text_less(keys[i].as_str(), keys[order[pos]].as_str())
            invariant
                k == views_of(keys@),
                i < keys.len(),
                order.len() == i,
                pos <= order.len(),
                forall|a: int| 0 <= a < order.len() ==> #[trigger] order@[a] < i,
                forall|a: int| 0 <= a < pos ==> !text_lt(k[i as int], k[#[trigger] order@[a] as int]),
            decreases order.len() - pos,
        {
            pos = pos + 1;
        }
        let ghost prev = order@;
        order.insert(pos, i);
        proof {
            assert forall|a: int, b: int| 0 <= a < b < order.len() implies sorts_before(
                k,
                #[trigger] order@[a] as int,
                #[trigger] order@[b] as int,
            ) by {
                if b < pos {
                    assert(order@[a] == prev[a] && order@[b] == prev[b]);
                } else if a > pos {
                    assert(order@[a] == prev[a - 1] && order@[b] == prev[b - 1]);
                } else if b == pos {
                    let x = prev[a] as int;
                    assert(order@[a] == x);
                    lemma_text_lt_total(k[x], k[i as int]);
                } else if a == pos {
                    let y = prev[b - 1] as int;
                    assert(order@[b] == y);
                    let z = prev[pos as int] as int;
                    assert(text_lt(k[i as int], k[z]));
                    if b - 1 > pos {
                        assert(sorts_before(k, z, y));
                        if text_lt(k[z], k[y]) {
                            lemma_text_lt_transitive(k[i as int], k[z], k[y]);
                        }
                    }
                } else {
                    assert(a < pos < b);
                    assert(order@[a] == prev[a] && order@[b] == prev[b - 1]);
                }
            }
        }
        i = i + 1;
    }
    order
}

} // verus!
