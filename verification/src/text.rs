//! Comparison of string slices, proved against their character sequences.
//!
//! The executable functions compare the UTF-8 bytes of their arguments; the
//! lemmas of this module show that on encoded text a comparison of bytes and a
//! comparison of characters agree.

use vstd::prelude::*;
use vstd::utf8::{
    char_u32_cast, decode_first_scalar, encode_scalar, encode_utf8, encode_utf8_decode_utf8,
    encode_utf8_first_scalar, length_of_first_scalar,
};

verus! {

/// The encoding of a concatenation is the concatenation of the encodings.
pub proof fn lemma_encode_concat(a: Seq<char>, b: Seq<char>)
    ensures
        encode_utf8(a + b) == encode_utf8(a) + encode_utf8(b),
    decreases a.len(),
{
    if a.len() == 0 {
        assert(a + b =~= b);
        assert(encode_utf8(a) + encode_utf8(b) =~= encode_utf8(b));
    } else {
        assert((a + b).drop_first() =~= a.drop_first() + b);
        assert((a + b)[0] == a[0]);
        lemma_encode_concat(a.drop_first(), b);
        assert(encode_utf8(a + b) =~= encode_utf8(a) + encode_utf8(b));
    }
}

/// Two character sequences with the same encoding are the same sequence.
pub proof fn lemma_encode_injective(a: Seq<char>, b: Seq<char>)
    requires
        encode_utf8(a) == encode_utf8(b),
    ensures
        a == b,
{
    encode_utf8_decode_utf8(a);
    encode_utf8_decode_utf8(b);
}

/// Every character takes at least one byte.
proof fn lemma_encode_scalar_nonempty(c: char)
    ensures
        1 <= encode_scalar(c as u32).len() <= 4,
{
}

/// Where the encoding of `p` starts the encoding of `n`, `p` starts `n`.
pub proof fn lemma_encoded_prefix(p: Seq<char>, n: Seq<char>)
    requires
        encode_utf8(p).is_prefix_of(encode_utf8(n)),
    ensures
        p.is_prefix_of(n),
    decreases p.len(),
{
    if p.len() == 0 {
        assert(p =~= n.subrange(0, 0));
    } else {
        let pb = encode_utf8(p);
        let nb = encode_utf8(n);
        // Both encodings begin with the same bytes, so with the same character.
        lemma_encode_scalar_nonempty(p[0]);
        assert(pb.len() >= 1);
        assert(n.len() > 0);
        lemma_encode_scalar_nonempty(n[0]);
        encode_utf8_first_scalar(p);
        encode_utf8_first_scalar(n);
        let width = encode_scalar(p[0] as u32).len() as int;
        assert(forall|j: int| 0 <= j < pb.len() ==> pb[j] == nb.subrange(0, pb.len() as int)[j]);
        assert(forall|j: int| 0 <= j < pb.len() ==> pb[j] == nb[j]);
        assert(pb[0] == nb[0]);
        assert(length_of_first_scalar(pb) == length_of_first_scalar(nb));
        assert(width <= pb.len());
        assert(decode_first_scalar(pb) == decode_first_scalar(nb));
        assert(p[0] as u32 == n[0] as u32);
        char_u32_cast(p[0], p[0] as u32);
        char_u32_cast(n[0], n[0] as u32);
        assert(p[0] == n[0]);
        // What follows the first character of `p` starts what follows it in `n`.
        let pr = encode_utf8(p.drop_first());
        let nr = encode_utf8(n.drop_first());
        assert(pb =~= encode_scalar(p[0] as u32) + pr);
        assert(nb =~= encode_scalar(n[0] as u32) + nr);
        assert(pr.len() <= nr.len());
        assert forall|j: int| 0 <= j < pr.len() implies pr[j] == nr.subrange(0, pr.len() as int)[j] by {
            assert(pr[j] == pb[j + width]);
            assert(nr[j] == nb[j + width]);
        }
        assert(pr =~= nr.subrange(0, pr.len() as int));
        lemma_encoded_prefix(p.drop_first(), n.drop_first());
        let pt = p.drop_first();
        let nt = n.drop_first();
        assert forall|j: int| 0 <= j < p.len() implies p[j] == n.subrange(0, p.len() as int)[j] by {
            if j > 0 {
                assert(p[j] == pt[j - 1]);
                assert(pt[j - 1] == nt.subrange(0, pt.len() as int)[j - 1]);
                assert(nt[j - 1] == n[j]);
            }
        }
        assert(p =~= n.subrange(0, p.len() as int));
    }
}

/// Where `p` starts `n`, the encoding of `p` starts the encoding of `n`.
pub proof fn lemma_prefix_encoded(p: Seq<char>, n: Seq<char>)
    requires
        p.is_prefix_of(n),
    ensures
        encode_utf8(p).is_prefix_of(encode_utf8(n)),
{
    let rest = n.subrange(p.len() as int, n.len() as int);
    assert(n =~= p + rest);
    lemma_encode_concat(p, rest);
    let pb = encode_utf8(p);
    assert(pb =~= (pb + encode_utf8(rest)).subrange(0, pb.len() as int));
}

/// Whether `head` is an initial segment of `bytes`.
fn bytes_start_with(bytes: &[u8], head: &[u8]) -> (starts: bool)
    ensures
        starts == head@.is_prefix_of(bytes@),
{
    if head.len() > bytes.len() {
        return false;
    }
    let mut i: usize = 0;
    while i < head.len()
        invariant
            i <= head.len(),
            head.len() <= bytes.len(),
            forall|j: int| 0 <= j < i ==> head@[j] == bytes@[j],
        decreases head.len() - i,
    {
        if head[i] != bytes[i] {
            proof {
                assert(bytes@.subrange(0, head@.len() as int)[i as int] == bytes@[i as int]);
            }
            return false;
        }
        i += 1;
    }
    proof {
        assert(head@ =~= bytes@.subrange(0, head@.len() as int));
    }
    true
}

/// Whether `text` begins with the characters of `prefix`.
///
/// The empty prefix begins every text.
pub fn starts_with(text: &str, prefix: &str) -> (starts: bool)
    ensures
        starts == prefix@.is_prefix_of(text@),
{
    let starts = bytes_start_with(text.as_bytes(), prefix.as_bytes());
    proof {
        if starts {
            lemma_encoded_prefix(prefix@, text@);
        }
        if prefix@.is_prefix_of(text@) {
            lemma_prefix_encoded(prefix@, text@);
        }
    }
    starts
}

/// Whether `a` and `b` hold the same characters.
pub fn same_text(a: &str, b: &str) -> (same: bool)
    ensures
        same == (a@ == b@),
{
    let x = a.as_bytes();
    let y = b.as_bytes();
    let same = x.len() == y.len() && bytes_start_with(x, y);
    proof {
        if same {
            assert(x@ =~= y@);
            lemma_encode_injective(a@, b@);
        }
        if a@ == b@ {
            assert(y@ =~= x@.subrange(0, y@.len() as int));
        }
    }
    same
}

} // verus!
