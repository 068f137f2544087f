//! The record type, the format tag, and format detection from a path.
use vstd::prelude::*;

use vstd::string::StringSliceAdditionalSpecFns;

use crate::error::SeqError;

verus! {

pub const DOT: u8 = 46;
pub const LOWER_A: u8 = 97;
pub const LOWER_F: u8 = 102;
pub const LOWER_G: u8 = 103;
pub const LOWER_N: u8 = 110;
pub const LOWER_Q: u8 = 113;
pub const LOWER_S: u8 = 115;
pub const LOWER_T: u8 = 116;
pub const LOWER_Z: u8 = 122;

/// The two sequence-file formats.
#[derive(Debug, Clone, Copy, PartialEq, Eq, Structural)]
pub enum SeqFormat {
    Fasta,
    Fastq,
}

/// One sequence entry, normalized across FASTA and FASTQ.
///
/// `qual` is empty for FASTA records; for FASTQ records it is aligned with `seq`
/// character by character.
pub struct Sequence {
    /// Identifier: the header line up to its first whitespace.
    pub id: String,
    /// The rest of the header line, possibly empty.
    pub desc: String,
    /// The sequence symbols, all sequence lines concatenated.
    pub seq: String,
    /// The per-symbol quality string (FASTQ only).
    pub qual: String,
}

impl Sequence {
    /// Creates a record from its four fields.
    pub fn new(id: String, desc: String, seq: String, qual: String) -> (r: Sequence)
        ensures
            r.id@ == id@,
            r.desc@ == desc@,
            r.seq@ == seq@,
            r.qual@ == qual@,
    {
        Sequence { id, desc, seq, qual }
    }
}

/// Whether `suffix` is a suffix of `s`.
pub open spec fn has_suffix(s: Seq<u8>, suffix: Seq<u8>) -> bool {
    suffix.len() <= s.len() && s.subrange(s.len() - suffix.len(), s.len() as int) == suffix
}

/// The compression suffix `.gz`.
pub open spec fn gz_suffix() -> Seq<u8> {
    seq![DOT, LOWER_G, LOWER_Z]
}

/// The path with one trailing `.gz` removed, if it has one.
pub open spec fn strip_gz(path: Seq<u8>) -> Seq<u8> {
    if has_suffix(path, gz_suffix()) {
        path.subrange(0, path.len() - 3)
    } else {
        path
    }
}

/// The format that a path's suffix selects, after one `.gz` is stripped.
pub open spec fn format_of(path: Seq<u8>) -> Option<SeqFormat> {
    let p = strip_gz(path);
    if has_suffix(p, ext_fq()) || has_suffix(p, ext_fastq()) {
        Some(SeqFormat::Fastq)
    } else if has_suffix(p, ext_fasta()) || has_suffix(p, ext_fa()) || has_suffix(p, ext_fna()) {
        Some(SeqFormat::Fasta)
    } else {
        None
    }
}

/// The file extensions of the detection table.
pub open spec fn ext_fq() -> Seq<u8> {
    seq![DOT, LOWER_F, LOWER_Q]
}

pub open spec fn ext_fastq() -> Seq<u8> {
    seq![DOT, LOWER_F, LOWER_A, LOWER_S, LOWER_T, LOWER_Q]
}

pub open spec fn ext_fasta() -> Seq<u8> {
    seq![DOT, LOWER_F, LOWER_A, LOWER_S, LOWER_T, LOWER_A]
}

pub open spec fn ext_fa() -> Seq<u8> {
    seq![DOT, LOWER_F, LOWER_A]
}

pub open spec fn ext_fna() -> Seq<u8> {
    seq![DOT, LOWER_F, LOWER_N, LOWER_A]
}

proof fn lemma_suffix_of_concat(stem: Seq<u8>, ext: Seq<u8>)
    ensures
        has_suffix(stem + ext, ext),
        ext.len() > 0 ==> (stem + ext).last() == ext.last(),
{
    assert((stem + ext).subrange(stem.len() as int, (stem + ext).len() as int) =~= ext);
}

proof fn lemma_detect_one(stem: Seq<u8>, ext: Seq<u8>)
    requires
        ext.len() >= 3,
        ext.last() == LOWER_Q || ext.last() == LOWER_A,
    ensures
        strip_gz(stem + ext) == stem + ext,
        strip_gz(stem + ext + gz_suffix()) == stem + ext,
        has_suffix(stem + ext, ext),
        (stem + ext).last() == ext.last(),
{
    lemma_suffix_of_concat(stem, ext);
    lemma_suffix_of_concat(stem + ext, gz_suffix());
    let p = stem + ext;
    assert((p + gz_suffix()).subrange(0, (p + gz_suffix()).len() - 3) =~= p);
    if has_suffix(p, gz_suffix()) {
        assert(p.subrange(p.len() - 3, p.len() as int).last() == p.last());
    }
}

/// Every extension of the detection table selects its format, with or without
/// one trailing `.gz`: `.fq` and `.fastq` select FASTQ; `.fasta`, `.fa` and
/// `.fna` select FASTA.
pub proof fn lemma_format_table(stem: Seq<u8>)
    ensures
        format_of(stem + ext_fq()) == Some(SeqFormat::Fastq),
        format_of(stem + ext_fq() + gz_suffix()) == Some(SeqFormat::Fastq),
        format_of(stem + ext_fastq()) == Some(SeqFormat::Fastq),
        format_of(stem + ext_fastq() + gz_suffix()) == Some(SeqFormat::Fastq),
        format_of(stem + ext_fasta()) == Some(SeqFormat::Fasta),
        format_of(stem + ext_fasta() + gz_suffix()) == Some(SeqFormat::Fasta),
        format_of(stem + ext_fa()) == Some(SeqFormat::Fasta),
        format_of(stem + ext_fa() + gz_suffix()) == Some(SeqFormat::Fasta),
        format_of(stem + ext_fna()) == Some(SeqFormat::Fasta),
        format_of(stem + ext_fna() + gz_suffix()) == Some(SeqFormat::Fasta),
{
    lemma_detect_one(stem, ext_fq());
    lemma_detect_one(stem, ext_fastq());
    lemma_detect_one(stem, ext_fasta());
    lemma_detect_one(stem, ext_fa());
    lemma_detect_one(stem, ext_fna());
    assert forall|p: Seq<u8>| p.len() > 0 && p.last() == LOWER_A implies !has_suffix(p, ext_fq()) && !has_suffix(
        p,
        ext_fastq(),
    ) by {
        if has_suffix(p, ext_fq()) {
            assert(p.subrange(p.len() - 3, p.len() as int).last() == p.last());
        }
        if has_suffix(p, ext_fastq()) {
            assert(p.subrange(p.len() - 6, p.len() as int).last() == p.last());
        }
    }
}

/// Whether the first `len` bytes of `s` end with `suffix`.
pub fn prefix_has_suffix(s: &[u8], len: usize, suffix: &[u8]) -> (r: bool)
    requires
        len <= s@.len(),
    ensures
        r == has_suffix(s@.subrange(0, len as int), suffix@),
{
    if suffix.len() > len {
        return false;
    }
    let start: usize = len - suffix.len();
    let mut i: usize = 0;
    while i < suffix.len()
        invariant
            start + suffix@.len() == len,
            len <= s@.len(),
            i <= suffix@.len(),
            forall|j: int| 0 <= j < i ==> s@[start + j] == suffix@[j],
        decreases suffix@.len() - i,
    {
        if s[start + i] != suffix[i] {
            assert(s@.subrange(0, len as int).subrange(start as int, len as int)[i as int] != suffix@[i as int]);
            return false;
        }
        i = i + 1;
    }
    assert(s@.subrange(0, len as int).subrange(start as int, len as int) =~= suffix@);
    true
}

/// Whether a path ends with `.gz`, which selects gzip compression.
pub fn is_gz_path(path: &str) -> (r: bool)
    ensures
        r == has_suffix(path.spec_bytes(), gz_suffix()),
{
    let bytes = path.as_bytes();
    let gz: [u8; 3] = [DOT, LOWER_G, LOWER_Z];
    let r = prefix_has_suffix(bytes, bytes.len(), gz.as_slice());
    assert(bytes@.subrange(0, bytes@.len() as int) =~= bytes@);
    assert(gz@ =~= gz_suffix());
    r
}

impl SeqFormat {
    /// Detects the format of a path from its suffix, ignoring one trailing `.gz`.
    pub fn get(path: &str) -> (r: Result<SeqFormat, SeqError>)
        ensures
            format_of(path.spec_bytes()) matches Some(f) ==> r == Ok::<SeqFormat, SeqError>(f),
            format_of(path.spec_bytes()) is None ==> r matches Err(SeqError::FormatUnknown),
    {
        let bytes = path.as_bytes();
        let mut len: usize = bytes.len();
        assert(bytes@.subrange(0, len as int) =~= bytes@);
        if is_gz_path(path) {
            len = len - 3;
        }
        let p = Ghost(bytes@.subrange(0, len as int));
        assert(p@ =~= strip_gz(bytes@));
        let fq: [u8; 3] = [DOT, LOWER_F, LOWER_Q];
        let fastq: [u8; 6] = [DOT, LOWER_F, LOWER_A, LOWER_S, LOWER_T, LOWER_Q];
        let fasta: [u8; 6] = [DOT, LOWER_F, LOWER_A, LOWER_S, LOWER_T, LOWER_A];
        let fa: [u8; 3] = [DOT, LOWER_F, LOWER_A];
        let fna: [u8; 4] = [DOT, LOWER_F, LOWER_N, LOWER_A];
        assert(fq@ =~= ext_fq());
        assert(fastq@ =~= ext_fastq());
        assert(fasta@ =~= ext_fasta());
        assert(fa@ =~= ext_fa());
        assert(fna@ =~= ext_fna());
        if prefix_has_suffix(bytes, len, fq.as_slice()) || prefix_has_suffix(bytes, len, fastq.as_slice()) {
            Ok(SeqFormat::Fastq)
        } else if prefix_has_suffix(bytes, len, fasta.as_slice()) || prefix_has_suffix(bytes, len, fa.as_slice())
            || prefix_has_suffix(bytes, len, fna.as_slice()) {
            Ok(SeqFormat::Fasta)
        } else {
            Err(SeqError::FormatUnknown)
        }
    }
}

} // verus!
