//! Streaming codec for FASTA and FASTQ sequence files, optionally gzip-compressed.
//!
//! Parsing of the two grammars is done by `bio`, gzip by `flate2`; this crate
//! detects the format from a path, normalizes parsed records, and serializes
//! records back into their exact wire form.
pub mod error;
pub mod quality;
pub mod reader;
pub mod seq;
pub mod writer;

pub use error::SeqError;
pub use seq::{SeqFormat, Sequence};

use vstd::prelude::*;
use vstd::string::StringSliceAdditionalSpecFns;

use reader::{get_reader, gunzip_of, normalized, parse, Sequences};
use seq::{format_of, gz_suffix, has_suffix};
use writer::{get_writer, record_bytes, wrap_rejected, Writer};

verus! {

/// A reader over the content of a sequence file, set up from the file's path.
pub struct SeqReader {
    pub records: Sequences,
}

impl SeqReader {
    /// A reader for `raw`, the content of the file at `path`. The format comes
    /// from the path's suffix; the content of a `.gz` path is gzip-decoded, and
    /// a decoding failure is reported by `next` after the records decoded
    /// before it. Only an unknown suffix is refused.
    pub fn new(path: &str, raw: Vec<u8>) -> (r: Result<SeqReader, SeqError>)
        ensures
            format_of(path.spec_bytes()) is None <==> r matches Err(SeqError::FormatUnknown),
            format_of(path.spec_bytes()) is Some <==> r is Ok,
            r matches Ok(s) ==> s.records.format() == format_of(path.spec_bytes())->Some_0
                && !s.records.is_exhausted(),
            !has_suffix(path.spec_bytes(), gz_suffix()) ==> (r matches Ok(s) ==> s.records.pending() == parse(
                s.records.format(),
                raw@,
            ) && s.records.deferred_error() is None),
            has_suffix(path.spec_bytes(), gz_suffix()) ==> (r matches Ok(s) ==> s.records.pending() == parse(
                s.records.format(),
                gunzip_of(raw@).0,
            ) && (s.records.deferred_error() is None <==> gunzip_of(raw@).1)),
            r matches Ok(s) ==> (s.records.deferred_error() matches Some(e) ==> e is Io),
    {
        let format = match SeqFormat::get(path) {
            Ok(f) => f,
            Err(e) => {
                return Err(e);
            },
        };
        let (data, deferred) = get_reader(path, raw);
        Ok(SeqReader { records: Sequences::with_deferred_error(format, data, deferred) })
    }

    /// The next record or error (see `Sequences::next`), or `None` once the
    /// input is used up.
    pub fn next(&mut self) -> (r: Option<Result<Sequence, SeqError>>)
        ensures
            final(self).records.format() == old(self).records.format(),
            old(self).records.pending().len() > 0 ==> (r matches Some(x) && normalized(
                old(self).records.format(),
                old(self).records.pending()[0],
                x,
            )),
            old(self).records.pending().len() > 0 ==> final(self).records.pending()
                == old(self).records.pending().drop_first() && final(self).records.deferred_error()
                == old(self).records.deferred_error(),
            old(self).records.pending().len() == 0 ==> (old(self).records.deferred_error() matches Some(e) ==> r
                == Some(Err::<Sequence, SeqError>(e))),
            old(self).records.pending().len() == 0 ==> (old(self).records.deferred_error() is None ==> r is None),
            old(self).records.pending().len() == 0 ==> final(self).records.is_exhausted(),
            old(self).records.is_exhausted() ==> r is None,
            r is None ==> final(self).records.is_exhausted(),
            r matches Some(Err(e)) ==> e is Parse || old(self).records.deferred_error() == Some(e),
            old(self).records.format() == SeqFormat::Fasta ==> (r matches Some(Ok(s)) ==> s.qual@.len() == 0),
            old(self).records.format() == SeqFormat::Fastq ==> (r matches Some(Ok(s)) ==> s.qual@.len()
                == s.seq@.len()),
    {
        self.records.next()
    }
}

/// A writer of records into a sequence file, set up from the file's path.
pub struct SeqWriter {
    pub writer: Writer,
}

impl SeqWriter {
    /// A writer for the file at `path`: the format comes from the path's
    /// suffix, and a `.gz` path gets gzip-compressed output.
    pub fn new(path: &str) -> (r: Result<SeqWriter, SeqError>)
        ensures
            format_of(path.spec_bytes()) is None <==> r matches Err(SeqError::FormatUnknown),
            format_of(path.spec_bytes()) matches Some(f) ==> (r matches Ok(w) && w.writer.wf()
                && w.writer.format() == f && w.writer.payload() == Seq::<u8>::empty() && !w.writer.is_closed()
                && (w.writer.is_gzip() <==> has_suffix(path.spec_bytes(), gz_suffix()))),
    {
        let format = match SeqFormat::get(path) {
            Ok(f) => f,
            Err(e) => {
                return Err(e);
            },
        };
        Ok(SeqWriter { writer: Writer::new(format, get_writer(path)) })
    }

    /// Appends one record (see `Writer::write`).
    pub fn write(&mut self, seq: Sequence, wrap: Option<u32>) -> (r: Result<(), SeqError>)
        requires
            old(self).writer.wf(),
        ensures
            final(self).writer.wf(),
            final(self).writer.format() == old(self).writer.format(),
            final(self).writer.is_closed() == old(self).writer.is_closed(),
            final(self).writer.is_gzip() == old(self).writer.is_gzip(),
            final(self).writer.is_finished() == old(self).writer.is_finished(),
            r is Ok ==> final(self).writer.payload() == old(self).writer.payload() + record_bytes(
                old(self).writer.format(),
                seq,
                wrap,
            ),
            r is Err ==> final(self).writer.payload() == old(self).writer.payload(),
            r matches Err(e) ==> e is Io || e is InvalidArgument,
            old(self).writer.is_closed() ==> r matches Err(SeqError::Io(_)),
            !old(self).writer.is_closed() ==> (wrap_rejected(old(self).writer.format(), wrap)
                <==> r matches Err(SeqError::InvalidArgument(_))),
            !old(self).writer.is_closed() && !wrap_rejected(old(self).writer.format(), wrap) ==> r is Ok,
    {
        self.writer.write(seq, wrap)
    }

    /// Completes the output (see `Writer::close`).
    pub fn close(&mut self) -> (r: Result<(), SeqError>)
        requires
            old(self).writer.wf(),
        ensures
            r is Ok,
            final(self).writer.wf(),
            final(self).writer.is_closed(),
            final(self).writer.is_finished(),
            final(self).writer.format() == old(self).writer.format(),
            final(self).writer.payload() == old(self).writer.payload(),
            final(self).writer.is_gzip() == old(self).writer.is_gzip(),
    {
        self.writer.close()
    }
}

} // verus!
