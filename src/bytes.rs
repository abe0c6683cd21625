//! Little-endian bytes of 32-bit words.
use vstd::prelude::*;

verus! {

/// Byte `k` of a word, least significant first.
pub open spec fn byte_of(w: u32, k: int) -> u8 {
    ((w >> ((8 * k) as u32)) & 0xff) as u8
}

/// The four little-endian bytes of a word.
pub open spec fn word_bytes(w: u32) -> Seq<u8> {
    seq![byte_of(w, 0), byte_of(w, 1), byte_of(w, 2), byte_of(w, 3)]
}

/// The little-endian bytes of each word, in order.
pub open spec fn words_bytes(s: Seq<u32>) -> Seq<u8>
    decreases s.len(),
{
    if s.len() == 0 {
        seq![]
    } else {
        words_bytes(s.drop_last()) + word_bytes(s.last())
    }
}

/// Byte `k` of `w`.
pub fn le_byte(w: u32, k: usize) -> (r: u8)
    requires
        k < 4,
    ensures
        r == byte_of(w, k as int),
{
    ((w >> (8 * k as u32)) & 0xff) as u8
}

/// The little-endian bytes of `words`.
pub fn words_to_le_bytes(words: &[u32]) -> (r: Vec<u8>)
    requires
        words@.len() * 4 <= usize::MAX,
    ensures
        r@ == words_bytes(words@),
{
    let mut out: Vec<u8> = Vec::new();
    let mut i: usize = 0;
    while i < words.len()
        invariant
            0 <= i <= words@.len(),
            out@ == words_bytes(words@.take(i as int)),
        decreases words@.len() - i,
    {
        let w = words[i];
        out.push(le_byte(w, 0));
        out.push(le_byte(w, 1));
        out.push(le_byte(w, 2));
        out.push(le_byte(w, 3));
        assert(words@.take(i + 1).drop_last() =~= words@.take(i as int));
        assert(out@ =~= words_bytes(words@.take(i as int)) + word_bytes(w));
        i = i + 1;
    }
    assert(words@.take(words@.len() as int) =~= words@);
    out
}

/// The bytes of a word determine it.
pub proof fn lemma_word_bytes_injective(a: u32, b: u32)
    requires
        word_bytes(a) == word_bytes(b),
    ensures
        a == b,
{
    assert(word_bytes(a)[0] == word_bytes(b)[0]);
    assert(word_bytes(a)[1] == word_bytes(b)[1]);
    assert(word_bytes(a)[2] == word_bytes(b)[2]);
    assert(word_bytes(a)[3] == word_bytes(b)[3]);
    assert(((a >> 0u32) & 0xff) as u8 == ((b >> 0u32) & 0xff) as u8 && ((a >> 8u32) & 0xff) as u8
        == ((b >> 8u32) & 0xff) as u8 && ((a >> 16u32) & 0xff) as u8 == ((b >> 16u32) & 0xff) as u8
        && ((a >> 24u32) & 0xff) as u8 == ((b >> 24u32) & 0xff) as u8 ==> a == b) by (bit_vector);
}

/// Four bytes per word.
pub proof fn lemma_words_bytes_len(s: Seq<u32>)
    ensures
        words_bytes(s).len() == 4 * s.len(),
    decreases s.len(),
{
    if s.len() > 0 {
        lemma_words_bytes_len(s.drop_last());
    }
}

/// Word sequences of one length with the same bytes are equal.
pub proof fn lemma_words_bytes_injective(s: Seq<u32>, t: Seq<u32>)
    requires
        s.len() == t.len(),
        words_bytes(s) == words_bytes(t),
    ensures
        s == t,
    decreases s.len(),
{
    if s.len() > 0 {
        let bs = words_bytes(s.drop_last());
        let bt = words_bytes(t.drop_last());
        lemma_words_bytes_len(s.drop_last());
        lemma_words_bytes_len(t.drop_last());
        let n = bs.len() as int;
        assert((bs + word_bytes(s.last())).subrange(0, n) =~= bs);
        assert((bt + word_bytes(t.last())).subrange(0, n) =~= bt);
        assert((bs + word_bytes(s.last())).subrange(n, n + 4) =~= word_bytes(s.last()));
        assert((bt + word_bytes(t.last())).subrange(n, n + 4) =~= word_bytes(t.last()));
        lemma_words_bytes_injective(s.drop_last(), t.drop_last());
        lemma_word_bytes_injective(s.last(), t.last());
        assert(s =~= s.drop_last().push(s.last()));
        assert(t =~= t.drop_last().push(t.last()));
    } else {
        assert(s =~= t);
    }
}

} // verus!
