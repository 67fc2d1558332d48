use vstd::prelude::*;
use vstd::utf8::encode_utf8;

use sha3::Digest;

verus! {

/// The SHA3-256 digest of `data`.
pub uninterp spec fn sha3_256_of(data: Seq<u8>) -> Seq<u8>;

/// Relies on `sha3::Sha3_256::digest` (the `Digest` trait): the SHA3-256
/// digest of the bytes, whose output size is 32 bytes.
#[verifier::external_body]
fn sha3_256(data: &Vec<u8>) -> (r: Vec<u8>)
    ensures
        r@ == sha3_256_of(data@),
        r@.len() == 32,
{
    sha3::Sha3_256::digest(data.as_slice()).to_vec()
}

/// The big-endian 32-bit word at word position `i` of `b`.
pub open spec fn be_word(b: Seq<u8>, i: int) -> u32 {
    (b[4 * i] as int * 0x100_0000 + b[4 * i + 1] as int * 0x1_0000 + b[4 * i + 2] as int * 0x100
        + b[4 * i + 3] as int) as u32
}

/// `b` read as consecutive big-endian 32-bit words; a trailing partial
/// word is dropped.
pub open spec fn be_words(b: Seq<u8>) -> Seq<u32> {
    Seq::new((b.len() / 4) as nat, |i: int| be_word(b, i))
}

/// The placeholder embedding of `text` under `model`: the SHA3-256 digest
/// of the model's UTF-8 bytes followed by the text's, read as big-endian
/// words, each the bit pattern of an `f32`.
pub open spec fn embedding(text: Seq<char>, model: Seq<char>) -> Seq<u32> {
    be_words(sha3_256_of(encode_utf8(model) + encode_utf8(text)))
}

/// Reads `b` as big-endian 32-bit words.
pub fn words_be(b: &Vec<u8>) -> (r: Vec<u32>)
    ensures
        r@ == be_words(b@),
{
    let len = b.len();
    let n = len / 4;
    let mut r: Vec<u32> = Vec::new();
    let mut i: usize = 0;
    while i < n
        invariant
            len == b@.len(),
            n == b@.len() / 4,
            i <= n,
            r@.len() == i,
            forall|j: int| 0 <= j < i ==> r@[j] == be_word(b@, j),
        decreases n - i,
    {
        proof {
            assert(4 * i + 3 < len) by (nonlinear_arith)
                requires
                    i < n,
                    n == len / 4,
            ;
        }
        let base = 4 * i;
        let w = (b[base] as u32) * 0x100_0000 + (b[base + 1] as u32) * 0x1_0000 + (b[base + 2]
            as u32) * 0x100 + (b[base + 3] as u32);
        r.push(w);
        i = i + 1;
    }
    assert(r@ =~= be_words(b@));
    r
}

/// The placeholder embedding of `text` under `model`. The same text and
/// model always give the same vector.
pub fn embed_text(text: &str, model: &str) -> (r: Vec<u32>)
    ensures
        r@ == embedding(text@, model@),
        r@.len() == 8,
        sha3_256_of(encode_utf8(model@) + encode_utf8(text@)).len() == 32,
{
    let mut data = model.as_bytes_vec();
    let mut tail = text.as_bytes_vec();
    data.append(&mut tail);
    let digest = sha3_256(&data);
    words_be(&digest)
}

proof fn lemma_word_digits(x0: int, x1: int, x2: int, x3: int, y0: int, y1: int, y2: int, y3: int)
    requires
        0 <= x0 < 256,
        0 <= x1 < 256,
        0 <= x2 < 256,
        0 <= x3 < 256,
        0 <= y0 < 256,
        0 <= y1 < 256,
        0 <= y2 < 256,
        0 <= y3 < 256,
        x0 * 0x100_0000 + x1 * 0x1_0000 + x2 * 0x100 + x3 == y0 * 0x100_0000 + y1 * 0x1_0000 + y2
            * 0x100 + y3,
    ensures
        x0 == y0 && x1 == y1 && x2 == y2 && x3 == y3,
{
    assert(x3 == y3) by (nonlinear_arith)
        requires
            0 <= x3 < 256,
            0 <= y3 < 256,
            (x0 * 0x1_0000 + x1 * 0x100 + x2) * 0x100 + x3 == (y0 * 0x1_0000 + y1 * 0x100 + y2)
                * 0x100 + y3,
    ;
    assert(x2 == y2) by (nonlinear_arith)
        requires
            0 <= x2 < 256,
            0 <= y2 < 256,
            (x0 * 0x100 + x1) * 0x100 + x2 == (y0 * 0x100 + y1) * 0x100 + y2,
    ;
    assert(x1 == y1) by (nonlinear_arith)
        requires
            0 <= x1 < 256,
            0 <= y1 < 256,
            x0 * 0x100 + x1 == y0 * 0x100 + y1,
    ;
}

/// Reading words is one-to-one on digests: two 32-byte digests that differ
/// give word vectors that differ.
pub proof fn lemma_be_words_injective(d1: Seq<u8>, d2: Seq<u8>)
    requires
        d1.len() == 32,
        d2.len() == 32,
        be_words(d1) == be_words(d2),
    ensures
        d1 == d2,
{
    assert forall|j: int| 0 <= j < 32 implies d1[j] == d2[j] by {
        let i = j / 4;
        assert(be_words(d1)[i] == be_words(d2)[i]);
        let a = d1[4 * i] as int * 0x100_0000 + d1[4 * i + 1] as int * 0x1_0000 + d1[4 * i + 2] as int
            * 0x100 + d1[4 * i + 3] as int;
        let b = d2[4 * i] as int * 0x100_0000 + d2[4 * i + 1] as int * 0x1_0000 + d2[4 * i + 2] as int
            * 0x100 + d2[4 * i + 3] as int;
        assert(0 <= i < 8 && 4 * i + 3 < 32);
        assert(0 <= a < 0x1_0000_0000 && 0 <= b < 0x1_0000_0000);
        assert(be_word(d1, i) == a && be_word(d2, i) == b);
        assert(be_words(d1)[i] == be_word(d1, i) && be_words(d2)[i] == be_word(d2, i));
        assert(a == b);
        lemma_word_digits(
            d1[4 * i] as int,
            d1[4 * i + 1] as int,
            d1[4 * i + 2] as int,
            d1[4 * i + 3] as int,
            d2[4 * i] as int,
            d2[4 * i + 1] as int,
            d2[4 * i + 2] as int,
            d2[4 * i + 3] as int,
        );
    }
    assert(d1 =~= d2);
}

/// Embeddings that hash to different digests differ: a different model or
/// text gives a different vector whenever SHA3-256 tells the inputs apart.
pub proof fn lemma_embedding_differs(t1: Seq<char>, m1: Seq<char>, t2: Seq<char>, m2: Seq<char>)
    requires
        sha3_256_of(encode_utf8(m1) + encode_utf8(t1)).len() == 32,
        sha3_256_of(encode_utf8(m2) + encode_utf8(t2)).len() == 32,
        sha3_256_of(encode_utf8(m1) + encode_utf8(t1)) != sha3_256_of(
            encode_utf8(m2) + encode_utf8(t2),
        ),
    ensures
        embedding(t1, m1) != embedding(t2, m2),
{
    if embedding(t1, m1) == embedding(t2, m2) {
        lemma_be_words_injective(
            sha3_256_of(encode_utf8(m1) + encode_utf8(t1)),
            sha3_256_of(encode_utf8(m2) + encode_utf8(t2)),
        );
    }
}

/// Embedding is a function of its text and model: equal inputs give
/// equal vectors.
pub proof fn lemma_embedding_deterministic(t1: Seq<char>, m1: Seq<char>, t2: Seq<char>, m2: Seq<char>)
    requires
        t1 == t2,
        m1 == m2,
    ensures
        embedding(t1, m1) == embedding(t2, m2),
{
}

} // verus!
