//! Per-character two-bit encoding of nucleotide text.

use vstd::prelude::*;

verus! {

/// The two-bit code for one nucleotide symbol, as a `(high bit, low bit)`
/// pair.
pub type EncodedUnit = (u8, u8);

/// The code that `encode` assigns to each character: the four recognized
/// bases have fixed codes, and every other character shares the code of
/// `'T'`. The collision between `'T'` and unrecognized input is deliberate:
/// the encoding is lossy on out-of-alphabet characters.
pub open spec fn encode_char(c: char) -> EncodedUnit {
    if c == 'A' {
        (1u8, 1u8)
    } else if c == 'C' {
        (1u8, 0u8)
    } else if c == 'G' {
        (0u8, 1u8)
    } else {
        (0u8, 0u8)
    }
}

/// The encoding of a whole character sequence: one unit per character, in
/// order.
pub open spec fn encoded(s: Seq<char>) -> Seq<EncodedUnit> {
    s.map_values(|c: char| encode_char(c))
}

/// Encode one nucleotide character.
pub fn encode(c: char) -> (r: EncodedUnit)
    ensures
        r == encode_char(c),
{
    match c {
        'A' => (1, 1),
        'C' => (1, 0),
        'G' => (0, 1),
        'T' => (0, 0),
        _ => (0, 0),
    }
}

/// Convert a genome string to its two-bit encoding, one unit per character,
/// in order.
pub fn genome_to_binary(genome: String) -> (r: Vec<EncodedUnit>)
    ensures
        r@ == encoded(genome@),
{
    let g: &str = genome.as_str();
    let n: usize = g.unicode_len();
    let mut binary: Vec<EncodedUnit> = Vec::new();
    let mut i: usize = 0;
    while i < n
        invariant
            i <= n,
            n == g@.len(),
            g@ == genome@,
            binary@ == encoded(genome@.take(i as int)),
        decreases n - i,
    {
        let c = g.get_char(i);
        binary.push(encode(c));
        i = i + 1;
        proof {
            assert(genome@.take(i as int) =~= genome@.take(i - 1 as int).push(genome@[i - 1 as int]));
            assert(encoded(genome@.take(i as int)) =~= encoded(
                genome@.take(i - 1 as int),
            ).push(encode_char(genome@[i - 1 as int])));
        }
    }
    proof {
        assert(genome@.take(n as int) =~= genome@);
    }
    binary
}

/// Law: every character outside the four recognized bases is encoded as
/// `(0, 0)`, the same unit as `'T'`.
pub proof fn lemma_encode_unrecognized(c: char)
    requires
        c != 'A',
        c != 'C',
        c != 'G',
        c != 'T',
    ensures
        encode_char(c) == (0u8, 0u8),
        encode_char(c) == encode_char('T'),
{
}

/// Law: encoding the empty sequence yields the empty sequence.
pub proof fn lemma_encoded_empty()
    ensures
        encoded(Seq::<char>::empty()) == Seq::<EncodedUnit>::empty(),
{
    assert(encoded(Seq::<char>::empty()) =~= Seq::<EncodedUnit>::empty());
}

/// Law: encoding is per-character and order-preserving, with no state
/// carried between characters: the encoding of a concatenation is the
/// concatenation of the encodings.
pub proof fn lemma_encoded_concat(s1: Seq<char>, s2: Seq<char>)
    ensures
        encoded(s1 + s2) == encoded(s1) + encoded(s2),
{
    assert(encoded(s1 + s2) =~= encoded(s1) + encoded(s2));
}

} // verus!
