use vstd::prelude::*;
use vstd::slice::*;
use vstd::string::*;
use vstd::utf8::*;

verus! {

/// Where one value stands relative to another in a total order.
#[derive(Clone, Copy, PartialEq, Eq, Structural, Debug)]
pub enum Rank {
    Before,
    Same,
    After,
}

/// Lexicographic order of byte sequences: the first differing byte decides,
/// and a proper prefix comes first.
pub open spec fn bytes_rank(a: Seq<u8>, b: Seq<u8>) -> Rank
    decreases a.len(),
{
    if a.len() == 0 {
        if b.len() == 0 {
            Rank::Same
        } else {
            Rank::Before
        }
    } else if b.len() == 0 {
        Rank::After
    } else if a[0] < b[0] {
        Rank::Before
    } else if a[0] > b[0] {
        Rank::After
    } else {
        bytes_rank(a.drop_first(), b.drop_first())
    }
}

/// Order of texts: that of their UTF-8 bytes, which is also the order of
/// their code points.
pub open spec fn text_rank(a: Seq<char>, b: Seq<char>) -> Rank {
    bytes_rank(encode_utf8(a), encode_utf8(b))
}

/// Order of integers.
pub open spec fn int_rank(a: int, b: int) -> Rank {
    if a < b {
        Rank::Before
    } else if a > b {
        Rank::After
    } else {
        Rank::Same
    }
}

/// Lexicographic combination: the first rank decides unless it is `Same`.
pub open spec fn rank_then(first: Rank, second: Rank) -> Rank {
    if first == Rank::Same {
        second
    } else {
        first
    }
}

/// Byte sequences rank `Same` exactly when they are equal.
pub proof fn lemma_bytes_rank_same(a: Seq<u8>, b: Seq<u8>)
    ensures
        bytes_rank(a, b) == Rank::Same <==> a == b,
    decreases a.len(),
{
    if a.len() == 0 || b.len() == 0 {
        if a.len() == 0 && b.len() == 0 {
            assert(a =~= b);
        }
    } else {
        lemma_bytes_rank_same(a.drop_first(), b.drop_first());
        if a[0] == b[0] && a.drop_first() == b.drop_first() {
            assert(a =~= seq![a[0]] + a.drop_first());
            assert(b =~= seq![b[0]] + b.drop_first());
        }
    }
}

/// Swapping the arguments mirrors the rank.
pub proof fn lemma_bytes_rank_flip(a: Seq<u8>, b: Seq<u8>)
    ensures
        bytes_rank(a, b) == Rank::Before <==> bytes_rank(b, a) == Rank::After,
        bytes_rank(a, b) == Rank::Same <==> bytes_rank(b, a) == Rank::Same,
    decreases a.len(),
{
    if a.len() != 0 && b.len() != 0 {
        lemma_bytes_rank_flip(a.drop_first(), b.drop_first());
    }
}

/// `Before` is transitive on byte sequences.
pub proof fn lemma_bytes_rank_trans(a: Seq<u8>, b: Seq<u8>, c: Seq<u8>)
    requires
        bytes_rank(a, b) == Rank::Before,
        bytes_rank(b, c) == Rank::Before,
    ensures
        bytes_rank(a, c) == Rank::Before,
    decreases a.len(),
{
    if a.len() != 0 && b.len() != 0 && c.len() != 0 {
        if a[0] == b[0] && b[0] == c[0] {
            lemma_bytes_rank_trans(a.drop_first(), b.drop_first(), c.drop_first());
        }
    }
}

/// Texts rank `Same` exactly when they hold the same characters.
pub proof fn lemma_text_rank_same(a: Seq<char>, b: Seq<char>)
    ensures
        text_rank(a, b) == Rank::Same <==> a == b,
{
    lemma_bytes_rank_same(encode_utf8(a), encode_utf8(b));
    if encode_utf8(a) == encode_utf8(b) {
        encode_utf8_decode_utf8(a);
        encode_utf8_decode_utf8(b);
    }
}

/// Ranks two byte slices.
pub fn rank_bytes(a: &[u8], b: &[u8]) -> (rank: Rank)
    ensures
        rank == bytes_rank(a@, b@),
{
    let mut i: usize = 0;
    proof {
        assert(a@.skip(0) =~= a@);
        assert(b@.skip(0) =~= b@);
    }
    while i < a.len() && i < b.len()
        invariant
            i <= a@.len(),
            i <= b@.len(),
            bytes_rank(a@, b@) == bytes_rank(a@.skip(i as int), b@.skip(i as int)),
        decreases a@.len() - i,
    {
        let x: u8 = a[i];
        let y: u8 = b[i];
        proof {
            assert(a@.skip(i as int)[0] == x);
            assert(b@.skip(i as int)[0] == y);
            assert(a@.skip(i as int).drop_first() =~= a@.skip(i + 1));
            assert(b@.skip(i as int).drop_first() =~= b@.skip(i + 1));
        }
        if x < y {
            return Rank::Before;
        }
        if x > y {
            return Rank::After;
        }
        i = i + 1;
    }
    if i < b.len() {
        Rank::Before
    } else if i < a.len() {
        Rank::After
    } else {
        Rank::Same
    }
}

/// Ranks two texts by their UTF-8 bytes.
pub fn rank_text(a: &str, b: &str) -> (rank: Rank)
    ensures
        rank == text_rank(a@, b@),
{
    rank_bytes(a.as_bytes(), b.as_bytes())
}

/// Ranks two integers.
pub fn rank_i64(a: i64, b: i64) -> (rank: Rank)
    ensures
        rank == int_rank(a as int, b as int),
{
    if a < b {
        Rank::Before
    } else if a > b {
        Rank::After
    } else {
        Rank::Same
    }
}

} // verus!
