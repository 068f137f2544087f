//! Conversions between Phred scores and their ASCII quality characters.
use vstd::prelude::*;

verus! {

/// Relies on std's String::push: it appends one character.
pub assume_specification[ String::push ](s: &mut String, ch: char)
    ensures
        final(s)@ == old(s)@.push(ch),
;

/// The Phred offset of the ASCII quality encoding.
pub const PHRED_OFFSET: u8 = 33;

/// The character that encodes a Phred score.
pub open spec fn phred_char(score: u8) -> char {
    ((score + PHRED_OFFSET) as u32) as char
}

/// The Phred score a quality character decodes to: its code taken as a byte,
/// less the offset, and zero below the offset.
pub open spec fn phred_score(c: char) -> u8 {
    let b = ((c as u32) % 256) as u8;
    if b < PHRED_OFFSET {
        0
    } else {
        (b - PHRED_OFFSET) as u8
    }
}

/// The quality text that encodes a run of Phred scores.
pub open spec fn phred_text(scores: Seq<u8>) -> Seq<char> {
    scores.map_values(|s: u8| phred_char(s))
}

/// The Phred scores that a quality text decodes to.
pub open spec fn phred_scores(qual: Seq<char>) -> Seq<u8> {
    qual.map_values(|c: char| phred_score(c))
}

/// Encodes Phred scores as quality characters by adding 33 to each.
pub fn phred_to_ascii(scores: Vec<u8>) -> (r: String)
    requires
        forall|i: int| 0 <= i < scores@.len() ==> scores@[i] <= 255 - PHRED_OFFSET,
    ensures
        r@ == phred_text(scores@),
{
    let mut out = String::new();
    let mut i: usize = 0;
    while i < scores.len()
        invariant
            i <= scores@.len(),
            forall|j: int| 0 <= j < scores@.len() ==> scores@[j] <= 255 - PHRED_OFFSET,
            out@ == phred_text(scores@.subrange(0, i as int)),
        decreases scores@.len() - i,
    {
        let c = (scores[i] + PHRED_OFFSET) as char;
        out.push(c);
        i = i + 1;
        assert(out@ =~= phred_text(scores@.subrange(0, i as int)));
    }
    assert(scores@.subrange(0, scores@.len() as int) =~= scores@);
    out
}

/// Decodes quality characters to Phred scores by subtracting 33 from each
/// character's byte, clamping at zero instead of underflowing.
pub fn ascii_to_phred(qual: String) -> (r: Vec<u8>)
    ensures
        r@ == phred_scores(qual@),
{
    let s = qual.as_str();
    let n = s.unicode_len();
    let ascii = s.is_ascii();
    let mut out: Vec<u8> = Vec::new();
    let mut i: usize = 0;
    while i < n
        invariant
            n == s@.len(),
            s@ == qual@,
            ascii == vstd::string::is_ascii(s),
            i <= n,
            out@ == phred_scores(s@.subrange(0, i as int)),
        decreases n - i,
    {
        let b: u8 = if ascii {
            s.get_ascii(i)
        } else {
            ((s.get_char(i) as u32) % 256) as u8
        };
        proof {
            if ascii {
                vstd::utf8::is_ascii_chars_nat_bound(s@);
            }
        }
        assert(b == ((s@[i as int] as u32) % 256) as u8);
        let score: u8 = if b < PHRED_OFFSET {
            0
        } else {
            b - PHRED_OFFSET
        };
        out.push(score);
        i = i + 1;
        assert(out@ =~= phred_scores(s@.subrange(0, i as int)));
    }
    assert(s@.subrange(0, n as int) =~= s@);
    out
}

/// Encoding Phred scores in [0, 93] as quality characters and decoding them
/// again gives back the same scores.
pub proof fn lemma_quality_round_trip(scores: Seq<u8>)
    requires
        forall|i: int| 0 <= i < scores.len() ==> scores[i] <= 93,
    ensures
        phred_scores(phred_text(scores)) == scores,
{
    assert forall|i: int| 0 <= i < scores.len() implies #[trigger] phred_score(phred_char(scores[i])) == scores[i] by {
        let c = phred_char(scores[i]);
        assert((c as u32) == scores[i] + 33);
    }
    assert(phred_scores(phred_text(scores)) =~= scores);
}

/// A quality character below the encoding floor decodes to zero.
pub proof fn lemma_quality_floor(c: char)
    requires
        (c as u32) < PHRED_OFFSET,
    ensures
        phred_scores(seq![c]) == seq![0u8],
{
    assert(phred_scores(seq![c]) =~= seq![0u8]);
}

} // verus!
