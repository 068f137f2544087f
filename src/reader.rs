//! Reading: gzip decoding by suffix, and a forward-only record stream that
//! normalizes what the FASTA or FASTQ parser of `bio` reports.
use vstd::prelude::*;
use vstd::string::StringSliceAdditionalSpecFns;
use vstd::utf8::{decode_utf8, valid_utf8};

use std::io::Cursor;
use std::io::Read;

use crate::error::SeqError;
use crate::seq::{SeqFormat, Sequence};

verus! {

/// A FASTA record stream of `bio`'s parser over in-memory bytes; only the
/// functions below look inside it.
#[verifier::external_body]
pub struct FastaRecords {
    inner: bio::io::fasta::Records<Cursor<Vec<u8>>>,
}

/// A FASTQ record stream of `bio`'s parser over in-memory bytes; only the
/// functions below look inside it.
#[verifier::external_body]
pub struct FastqRecords {
    inner: bio::io::fastq::Records<Cursor<Vec<u8>>>,
}

/// The items a parser reports, in order, up to the end of its records: each is
/// a record's id, description if any, sequence bytes and quality bytes (empty
/// for FASTA), or a parse error.
pub type RawItems = Seq<Result<(Seq<char>, Option<Seq<char>>, Seq<u8>, Seq<u8>), ()>>;

/// The items that `bio`'s FASTA parser reports for `data`.
pub uninterp spec fn fasta_parse(data: Seq<u8>) -> Seq<Result<(Seq<char>, Option<Seq<char>>, Seq<u8>, Seq<u8>), ()>>;

/// The items that `bio`'s FASTQ parser reports for `data`.
pub uninterp spec fn fastq_parse(data: Seq<u8>) -> Seq<Result<(Seq<char>, Option<Seq<char>>, Seq<u8>, Seq<u8>), ()>>;

/// The items a FASTA record stream has yet to report before its end.
pub uninterp spec fn fasta_pending(r: FastaRecords) -> Seq<Result<(Seq<char>, Option<Seq<char>>, Seq<u8>, Seq<u8>), ()>>;

/// The items a FASTQ record stream has yet to report before its end.
pub uninterp spec fn fastq_pending(r: FastqRecords) -> Seq<Result<(Seq<char>, Option<Seq<char>>, Seq<u8>, Seq<u8>), ()>>;

/// The text that `String::from_utf8_lossy` makes of some bytes.
pub uninterp spec fn lossy_text(b: Seq<u8>) -> Seq<char>;

/// What gzip decoding of `data` yields: the bytes decoded before any failure,
/// and whether `data` decoded completely as a valid gzip stream.
pub uninterp spec fn gunzip_of(data: Seq<u8>) -> (Seq<u8>, bool);

/// The view of an optional text.
pub open spec fn opt_view(d: Option<String>) -> Option<Seq<char>> {
    match d {
        Some(x) => Some(x@),
        None => None,
    }
}

/// The item that a FASTA parser result stands for.
pub open spec fn fasta_item(x: Option<Result<(String, Option<String>, Vec<u8>), String>>) -> Option<
    Result<(Seq<char>, Option<Seq<char>>, Seq<u8>, Seq<u8>), ()>,
> {
    match x {
        Some(Ok(t)) => Some(Ok((t.0@, opt_view(t.1), t.2@, Seq::<u8>::empty()))),
        Some(Err(_)) => Some(Err(())),
        None => None,
    }
}

/// The item that a FASTQ parser result stands for.
pub open spec fn fastq_item(x: Option<Result<(String, Option<String>, Vec<u8>, Vec<u8>), String>>) -> Option<
    Result<(Seq<char>, Option<Seq<char>>, Seq<u8>, Seq<u8>), ()>,
> {
    match x {
        Some(Ok(t)) => Some(Ok((t.0@, opt_view(t.1), t.2@, t.3@))),
        Some(Err(_)) => Some(Err(())),
        None => None,
    }
}

/// Relies on bio::io::fasta::Reader::from_bufread and Reader::records: a lazy
/// FASTA record stream over `data`.
#[verifier::external_body]
fn fasta_records(data: Vec<u8>) -> (r: FastaRecords)
    ensures
        fasta_pending(r) == fasta_parse(data@),
{
    FastaRecords { inner: bio::io::fasta::Reader::from_bufread(Cursor::new(data)).records() }
}

/// Relies on bio::io::fastq::Reader::from_bufread and Reader::records: a lazy
/// FASTQ record stream over `data`.
#[verifier::external_body]
fn fastq_records(data: Vec<u8>) -> (r: FastqRecords)
    ensures
        fastq_pending(r) == fastq_parse(data@),
{
    FastqRecords { inner: bio::io::fastq::Reader::from_bufread(Cursor::new(data)).records() }
}

/// Relies on the `next` of bio::io::fasta::Records: the next pending item
/// (id, description and sequence bytes of a record, or a parse error), or
/// `None` at the end.
#[verifier::external_body]
fn fasta_next(r: &mut FastaRecords) -> (out: Option<Result<(String, Option<String>, Vec<u8>), String>>)
    ensures
        fasta_pending(*old(r)).len() == 0 ==> out is None,
        fasta_pending(*old(r)).len() > 0 ==> fasta_item(out) == Some(fasta_pending(*old(r))[0]),
        fasta_pending(*old(r)).len() > 0 ==> fasta_pending(*final(r)) == fasta_pending(*old(r)).drop_first(),
{
    r.inner.next().map(
        |res| res.map(|rec| (rec.id().to_string(), rec.desc().map(|d| d.to_string()), rec.seq().to_vec())).map_err(
            |e| e.to_string(),
        ),
    )
}

/// Relies on the `next` of bio::io::fastq::Records: the next pending item
/// (id, description, sequence and quality bytes of a record, or a parse
/// error), or `None` at the end.
#[verifier::external_body]
fn fastq_next(r: &mut FastqRecords) -> (out: Option<
    Result<(String, Option<String>, Vec<u8>, Vec<u8>), String>,
>)
    ensures
        fastq_pending(*old(r)).len() == 0 ==> out is None,
        fastq_pending(*old(r)).len() > 0 ==> fastq_item(out) == Some(fastq_pending(*old(r))[0]),
        fastq_pending(*old(r)).len() > 0 ==> fastq_pending(*final(r)) == fastq_pending(*old(r)).drop_first(),
{
    r.inner.next().map(
        |res|
            res.map(
                |rec|
                    (rec.id().to_string(), rec.desc().map(|d| d.to_string()), rec.seq().to_vec(), rec.qual().to_vec()),
            ).map_err(|e| e.to_string()),
    )
}

/// Relies on String::from_utf8_lossy: valid UTF-8 is decoded unchanged.
#[verifier::external_body]
fn text_of(b: &[u8]) -> (r: String)
    ensures
        r@ == lossy_text(b@),
        valid_utf8(b@) ==> r@ == decode_utf8(b@),
{
    String::from_utf8_lossy(b).into_owned()
}

/// Relies on flate2::read::GzDecoder read to the end with std's
/// `Read::read_to_end`, which keeps the bytes read before an error: the
/// decoded bytes up to any failure, and the failure.
#[verifier::external_body]
fn gunzip(data: &[u8]) -> (r: (Vec<u8>, Option<String>))
    ensures
        gunzip_of(data@) == (r.0@, r.1 is None),
{
    let mut out: Vec<u8> = Vec::new();
    let res = flate2::read::GzDecoder::new(data).read_to_end(&mut out);
    (out, res.err().map(|e| e.to_string()))
}

/// The description text of a header: empty when there is none.
pub open spec fn desc_text(desc: Option<Seq<char>>) -> Seq<char> {
    match desc {
        Some(d) => d,
        None => Seq::<char>::empty(),
    }
}

/// Whether `r` is what reading gives for a parser item in the given format:
/// a parse error for an error; for FASTA the normalized record with empty
/// quality; for FASTQ a parse error when the sequence and quality texts differ
/// in length, and the normalized record otherwise.
pub open spec fn normalized(
    format: SeqFormat,
    item: Result<(Seq<char>, Option<Seq<char>>, Seq<u8>, Seq<u8>), ()>,
    r: Result<Sequence, SeqError>,
) -> bool {
    match item {
        Err(_) => r matches Err(e) && e is Parse,
        Ok(t) => match format {
            SeqFormat::Fasta => r matches Ok(s) && s.id@ == t.0 && s.desc@ == desc_text(t.1) && s.seq@ == lossy_text(t.2)
                && s.qual@.len() == 0,
            SeqFormat::Fastq => if lossy_text(t.2).len() != lossy_text(t.3).len() {
                r matches Err(e) && e is Parse
            } else {
                r matches Ok(s) && s.id@ == t.0 && s.desc@ == desc_text(t.1) && s.seq@ == lossy_text(t.2)
                    && s.qual@ == lossy_text(t.3)
            },
        },
    }
}

/// The items the parser of `format` reports for `data`.
pub open spec fn parse(format: SeqFormat, data: Seq<u8>) -> RawItems {
    match format {
        SeqFormat::Fasta => fasta_parse(data),
        SeqFormat::Fastq => fastq_parse(data),
    }
}

/// Turns the bytes of a path's content into the bytes to parse, and an error
/// to report once they are used up. A `.gz` path's content is gzip-decoded:
/// the bytes decoded before any failure are kept, and the failure, naming the
/// path, is deferred. Other content is kept unchanged.
pub fn get_reader(path: &str, raw: Vec<u8>) -> (r: (Vec<u8>, Option<SeqError>))
    ensures
        !crate::seq::has_suffix(path.spec_bytes(), crate::seq::gz_suffix()) ==> r.0@ == raw@ && r.1 is None,
        crate::seq::has_suffix(path.spec_bytes(), crate::seq::gz_suffix()) ==> r.0@ == gunzip_of(raw@).0
            && (r.1 is None <==> gunzip_of(raw@).1),
        r.1 matches Some(e) ==> e is Io,
{
    if crate::seq::is_gz_path(path) {
        let (data, failure) = gunzip(raw.as_slice());
        match failure {
            None => (data, None),
            Some(msg) => {
                let mut text = path.to_string();
                text.append(": ");
                text.append(msg.as_str());
                (data, Some(SeqError::Io(text)))
            },
        }
    } else {
        (raw, None)
    }
}

/// Normalizes the fields of a parsed FASTA record: a missing description
/// becomes empty, the sequence bytes become text, and the quality is empty.
pub fn fasta_sequence(id: String, desc: Option<String>, seq: &[u8]) -> (r: Sequence)
    ensures
        r.id@ == id@,
        r.desc@ == desc_text(opt_view(desc)),
        r.seq@ == lossy_text(seq@),
        valid_utf8(seq@) ==> r.seq@ == decode_utf8(seq@),
        r.qual@ == Seq::<char>::empty(),
{
    let d = match desc {
        Some(d) => d,
        None => String::new(),
    };
    Sequence { id, desc: d, seq: text_of(seq), qual: String::new() }
}

/// Normalizes the fields of a parsed FASTQ record. A quality text whose
/// length differs from the sequence text's is a parse error.
pub fn fastq_sequence(id: String, desc: Option<String>, seq: &[u8], qual: &[u8]) -> (r: Result<Sequence, SeqError>)
    ensures
        lossy_text(seq@).len() != lossy_text(qual@).len() <==> r is Err,
        r matches Err(e) ==> e is Parse,
        r matches Ok(s) ==> s.id@ == id@ && s.desc@ == desc_text(opt_view(desc)) && s.seq@ == lossy_text(seq@)
            && s.qual@ == lossy_text(qual@) && s.qual@.len() == s.seq@.len(),
        valid_utf8(seq@) && valid_utf8(qual@) ==> (r is Err <==> decode_utf8(seq@).len() != decode_utf8(qual@).len()),
        valid_utf8(seq@) ==> (r matches Ok(s) ==> s.seq@ == decode_utf8(seq@)),
        valid_utf8(qual@) ==> (r matches Ok(s) ==> s.qual@ == decode_utf8(qual@)),
{
    let seq_text = text_of(seq);
    let qual_text = text_of(qual);
    if seq_text.as_str().unicode_len() != qual_text.as_str().unicode_len() {
        return Err(SeqError::Parse("quality length differs from sequence length".to_string()));
    }
    let d = match desc {
        Some(d) => d,
        None => String::new(),
    };
    Ok(Sequence { id, desc: d, seq: seq_text, qual: qual_text })
}

/// The parser behind a reader, fixed by its format.
pub enum RecordSet {
    Fasta(FastaRecords),
    Fastq(FastqRecords),
}

/// A forward-only stream of normalized records, followed by an error deferred
/// from decoding the input, if any. Once it has reported the end, it keeps
/// reporting the end.
pub struct Sequences {
    pub records: RecordSet,
    parser_done: bool,
    deferred: Option<SeqError>,
}

impl Sequences {
    /// The format whose parser this reader runs.
    pub closed spec fn format(&self) -> SeqFormat {
        match self.records {
            RecordSet::Fasta(_) => SeqFormat::Fasta,
            RecordSet::Fastq(_) => SeqFormat::Fastq,
        }
    }

    /// Whether the end of the input has been reported.
    pub closed spec fn is_exhausted(&self) -> bool {
        self.parser_done && self.deferred is None
    }

    /// The error still to be reported after the parser's items.
    pub closed spec fn deferred_error(&self) -> Option<SeqError> {
        self.deferred
    }

    /// The parser items this reader has yet to report before its end.
    pub closed spec fn pending(&self) -> RawItems {
        if self.parser_done {
            Seq::empty()
        } else {
            match self.records {
                RecordSet::Fasta(r) => fasta_pending(r),
                RecordSet::Fastq(r) => fastq_pending(r),
            }
        }
    }

    /// A reader of `data` with the parser of `format`; it never fails.
    pub fn new(format: SeqFormat, data: Vec<u8>) -> (r: Result<Sequences, SeqError>)
        ensures
            r matches Ok(s) && s.format() == format && !s.is_exhausted() && s.pending() == parse(format, data@)
                && s.deferred_error() is None,
    {
        Ok(Sequences::with_deferred_error(format, data, None))
    }

    /// A reader of `data` with the parser of `format`, which reports `error`
    /// after the last of the parser's items.
    pub fn with_deferred_error(format: SeqFormat, data: Vec<u8>, error: Option<SeqError>) -> (r: Sequences)
        ensures
            r.format() == format,
            !r.is_exhausted(),
            r.pending() == parse(format, data@),
            r.deferred_error() == error,
    {
        let records = match format {
            SeqFormat::Fastq => RecordSet::Fastq(fastq_records(data)),
            SeqFormat::Fasta => RecordSet::Fasta(fasta_records(data)),
        };
        Sequences { records, parser_done: false, deferred: error }
    }

    /// The next record, or a parse error scoped to the next record, normalized
    /// from the parser's next item; after the parser's items, the deferred
    /// error if there is one; then `None`, from then on.
    pub fn next(&mut self) -> (r: Option<Result<Sequence, SeqError>>)
        ensures
            final(self).format() == old(self).format(),
            old(self).pending().len() > 0 ==> (r matches Some(x) && normalized(
                old(self).format(),
                old(self).pending()[0],
                x,
            )),
            old(self).pending().len() > 0 ==> final(self).pending() == old(self).pending().drop_first()
                && final(self).deferred_error() == old(self).deferred_error(),
            old(self).pending().len() == 0 ==> (old(self).deferred_error() matches Some(e) ==> r == Some(
                Err::<Sequence, SeqError>(e),
            )),
            old(self).pending().len() == 0 ==> (old(self).deferred_error() is None ==> r is None),
            old(self).pending().len() == 0 ==> final(self).is_exhausted() && final(self).pending().len() == 0,
            old(self).is_exhausted() ==> r is None,
            r is None ==> final(self).is_exhausted(),
            r matches Some(Err(e)) ==> e is Parse || old(self).deferred_error() == Some(e),
            old(self).format() == SeqFormat::Fasta ==> (r matches Some(Ok(s)) ==> s.qual@.len() == 0),
            old(self).format() == SeqFormat::Fastq ==> (r matches Some(Ok(s)) ==> s.qual@.len() == s.seq@.len()),
    {
        if !self.parser_done {
            let item = match &mut self.records {
                RecordSet::Fastq(records) => match fastq_next(records) {
                    Some(Ok((id, desc, seq, qual))) => Some(fastq_sequence(id, desc, seq.as_slice(), qual.as_slice())),
                    Some(Err(msg)) => Some(Err(SeqError::Parse(msg))),
                    None => None,
                },
                RecordSet::Fasta(records) => match fasta_next(records) {
                    Some(Ok((id, desc, seq))) => Some(Ok(fasta_sequence(id, desc, seq.as_slice()))),
                    Some(Err(msg)) => Some(Err(SeqError::Parse(msg))),
                    None => None,
                },
            };
            if item.is_some() {
                return item;
            }
            self.parser_done = true;
        }
        match self.deferred.take() {
            Some(e) => Some(Err(e)),
            None => None,
        }
    }
}

} // verus!
