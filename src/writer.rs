//! Writing: FASTA wrapping, exact record serialization, and plain or gzip sinks.
use vstd::prelude::*;
use vstd::string::StringSliceAdditionalSpecFns;
use vstd::utf8::encode_utf8;

use flate2::write::GzEncoder;
use std::io::Write;

use crate::error::SeqError;
use crate::reader::gunzip_of;
use crate::seq::{SeqFormat, Sequence};

verus! {

pub const NEWLINE: u8 = 10;
pub const SPACE: u8 = 32;
pub const PLUS: u8 = 43;
pub const GREATER_THAN: u8 = 62;
pub const AT_SIGN: u8 = 64;

/// The smallest accepted FASTA wrap width.
pub const MIN_WRAP: u32 = 10;

/// `s` cut into lines of `width` characters (the last one possibly shorter),
/// joined by newlines, with no newline after the last line.
pub open spec fn wrap_text(s: Seq<char>, width: nat) -> Seq<char>
    decreases s.len(),
{
    if width == 0 || s.len() <= width {
        s
    } else {
        s.subrange(0, width as int) + seq!['\n'] + wrap_text(s.subrange(width as int, s.len() as int), width)
    }
}

/// The FASTA sequence block for `s`: wrapped when a width is given.
pub open spec fn fasta_body(s: Seq<char>, wrap: Option<u32>) -> Seq<char> {
    match wrap {
        Some(w) => wrap_text(s, w as nat),
        None => s,
    }
}

/// Whether a write with this format and wrap width is refused: FASTA wrapping
/// below the usability floor.
pub open spec fn wrap_rejected(format: SeqFormat, wrap: Option<u32>) -> bool {
    format == SeqFormat::Fasta && (wrap matches Some(w) && w < MIN_WRAP)
}

/// `>{id} {desc}\n{body}\n` as UTF-8 bytes.
pub open spec fn fasta_bytes(id: Seq<char>, desc: Seq<char>, body: Seq<char>) -> Seq<u8> {
    seq![GREATER_THAN] + encode_utf8(id) + seq![SPACE] + encode_utf8(desc) + seq![NEWLINE]
        + encode_utf8(body) + seq![NEWLINE]
}

/// `@{id} {desc}\n{seq}\n+\n{qual}\n` as UTF-8 bytes.
pub open spec fn fastq_bytes(id: Seq<char>, desc: Seq<char>, s: Seq<char>, qual: Seq<char>) -> Seq<u8> {
    seq![AT_SIGN] + encode_utf8(id) + seq![SPACE] + encode_utf8(desc) + seq![NEWLINE]
        + encode_utf8(s) + seq![NEWLINE, PLUS, NEWLINE] + encode_utf8(qual) + seq![NEWLINE]
}

/// The serialized form of a record in the given format.
pub open spec fn record_bytes(format: SeqFormat, rec: Sequence, wrap: Option<u32>) -> Seq<u8> {
    match format {
        SeqFormat::Fasta => fasta_bytes(rec.id@, rec.desc@, fasta_body(rec.seq@, wrap)),
        SeqFormat::Fastq => fastq_bytes(rec.id@, rec.desc@, rec.seq@, rec.qual@),
    }
}

/// Whether a character is not a line break.
pub open spec fn not_newline(c: char) -> bool {
    c != '\n'
}

/// Wrapping only places line breaks: with the line breaks removed, the wrapped
/// text of a sequence without line breaks is the sequence itself.
pub proof fn lemma_wrap_keeps_symbols(s: Seq<char>, width: nat)
    requires
        forall|i: int| 0 <= i < s.len() ==> s[i] != '\n',
    ensures
        wrap_text(s, width).filter(|c: char| not_newline(c)) == s,
    decreases s.len(),
{
    let keep = |c: char| not_newline(c);
    if width == 0 || s.len() <= width {
        lemma_filter_all(s);
    } else {
        let head = s.subrange(0, width as int);
        let tail = s.subrange(width as int, s.len() as int);
        lemma_wrap_keeps_symbols(tail, width);
        lemma_filter_all(head);
        Seq::filter_distributes_over_add(head + seq!['\n'], wrap_text(tail, width), keep);
        Seq::filter_distributes_over_add(head, seq!['\n'], keep);
        reveal_with_fuel(Seq::<_>::filter, 2);
        assert(seq!['\n'].filter(keep) =~= Seq::<char>::empty());
        assert(head + tail =~= s);
    }
}

/// A sequence without line breaks is unchanged by removing line breaks.
proof fn lemma_filter_all(s: Seq<char>)
    requires
        forall|i: int| 0 <= i < s.len() ==> s[i] != '\n',
    ensures
        s.filter(|c: char| not_newline(c)) == s,
    decreases s.len(),
{
    let keep = |c: char| not_newline(c);
    if s.len() > 0 {
        let init = s.drop_last();
        lemma_filter_all(init);
        Seq::filter_distributes_over_add(init, seq![s.last()], keep);
        reveal_with_fuel(Seq::<_>::filter, 2);
        assert(seq![s.last()].filter(keep) =~= seq![s.last()]);
        assert(init + seq![s.last()] =~= s);
    } else {
        reveal_with_fuel(Seq::<_>::filter, 1);
        assert(s.filter(keep) =~= s);
    }
}

proof fn lemma_wrap_step(s: Seq<char>, i: int, width: nat)
    requires
        0 <= i < s.len(),
        width > 0,
    ensures
        s.len() - i <= width ==> wrap_text(s.subrange(i, s.len() as int), width) == s.subrange(i, s.len() as int),
        s.len() - i > width ==> wrap_text(s.subrange(i, s.len() as int), width)
            == s.subrange(i, i + width) + seq!['\n'] + wrap_text(s.subrange(i + width, s.len() as int), width),
{
    let t = s.subrange(i, s.len() as int);
    if s.len() - i > width {
        assert(t.subrange(0, width as int) =~= s.subrange(i, i + width));
        assert(t.subrange(width as int, t.len() as int) =~= s.subrange(i + width, s.len() as int));
    }
}

/// Re-wraps `s` into lines of exactly `width` characters, the last line
/// possibly shorter, with no trailing newline.
pub fn wrap_string_no_whitespace(s: &str, width: usize) -> (r: String)
    requires
        width > 0,
    ensures
        r@ == wrap_text(s@, width as nat),
{
    let n = s.unicode_len();
    let ascii = s.is_ascii();
    let mut result = String::new();
    let mut i: usize = 0;
    while i < n
        invariant
            n == s@.len(),
            ascii == vstd::string::is_ascii(s),
            width > 0,
            i <= n,
            i == 0 ==> result@ == Seq::<char>::empty(),
            0 < i < n ==> wrap_text(s@, width as nat) == result@ + seq!['\n']
                + wrap_text(s@.subrange(i as int, n as int), width as nat),
            0 < i && i == n ==> wrap_text(s@, width as nat) == result@,
        decreases n - i,
    {
        let ghost before = result@;
        if i > 0 {
            proof {
                reveal_strlit("\n");
            }
            result.append("\n");
        }
        assert(result@ =~= before + (if i > 0 { seq!['\n'] } else { Seq::<char>::empty() }));
        let end: usize = if n - i > width {
            i + width
        } else {
            n
        };
        let piece = if ascii {
            s.substring_ascii(i, end)
        } else {
            s.substring_char(i, end)
        };
        proof {
            lemma_wrap_step(s@, i as int, width as nat);
        }
        result.append(piece);
        proof {
            if i == 0 {
                assert(s@.subrange(0, n as int) =~= s@);
            }
            if end < n {
                assert(result@ + seq!['\n'] + wrap_text(s@.subrange(end as int, n as int), width as nat)
                    =~= before + (if i > 0 { seq!['\n'] } else { Seq::<char>::empty() })
                    + wrap_text(s@.subrange(i as int, n as int), width as nat));
            } else {
                assert(result@ =~= before + (if i > 0 { seq!['\n'] } else { Seq::<char>::empty() })
                    + wrap_text(s@.subrange(i as int, n as int), width as nat));
            }
        }
        i = end;
    }
    result
}

/// Appends every byte of `b` to `buf`.
fn append_bytes(buf: &mut Vec<u8>, b: &[u8])
    ensures
        final(buf)@ == old(buf)@ + b@,
{
    let ghost start = buf@;
    let mut i: usize = 0;
    while i < b.len()
        invariant
            i <= b@.len(),
            buf@ == start + b@.subrange(0, i as int),
        decreases b@.len() - i,
    {
        buf.push(b[i]);
        i = i + 1;
        assert(buf@ =~= start + b@.subrange(0, i as int));
    }
    assert(b@.subrange(0, b@.len() as int) =~= b@);
}

/// Serializes one record: `>{id} {desc}\n{seq}\n` for FASTA, with the sequence
/// wrapped when a width is given, or `@{id} {desc}\n{seq}\n+\n{qual}\n` for
/// FASTQ, where a wrap width is accepted and ignored. A FASTA wrap width below
/// ten is refused.
pub fn encode_record(format: SeqFormat, rec: &Sequence, wrap: Option<u32>) -> (r: Result<Vec<u8>, SeqError>)
    ensures
        wrap_rejected(format, wrap) <==> r matches Err(SeqError::InvalidArgument(_)),
        !wrap_rejected(format, wrap) ==> (r matches Ok(b) && b@ == record_bytes(format, *rec, wrap)),
{
    let mut buffer: Vec<u8> = Vec::new();
    match format {
        SeqFormat::Fasta => {
            let wrapped: String;
            let body: &str = match wrap {
                Some(w) => {
                    if w < MIN_WRAP {
                        return Err(SeqError::InvalidArgument("wrap width must be at least 10".to_string()));
                    }
                    wrapped = wrap_string_no_whitespace(rec.seq.as_str(), w as usize);
                    wrapped.as_str()
                },
                None => rec.seq.as_str(),
            };
            buffer.push(GREATER_THAN);
            append_bytes(&mut buffer, rec.id.as_str().as_bytes());
            buffer.push(SPACE);
            append_bytes(&mut buffer, rec.desc.as_str().as_bytes());
            buffer.push(NEWLINE);
            append_bytes(&mut buffer, body.as_bytes());
            buffer.push(NEWLINE);
            assert(buffer@ =~= fasta_bytes(rec.id@, rec.desc@, fasta_body(rec.seq@, wrap)));
        },
        SeqFormat::Fastq => {
            buffer.push(AT_SIGN);
            append_bytes(&mut buffer, rec.id.as_str().as_bytes());
            buffer.push(SPACE);
            append_bytes(&mut buffer, rec.desc.as_str().as_bytes());
            buffer.push(NEWLINE);
            append_bytes(&mut buffer, rec.seq.as_str().as_bytes());
            buffer.push(NEWLINE);
            buffer.push(PLUS);
            buffer.push(NEWLINE);
            append_bytes(&mut buffer, rec.qual.as_str().as_bytes());
            buffer.push(NEWLINE);
            assert(buffer@ =~= fastq_bytes(rec.id@, rec.desc@, rec.seq@, rec.qual@));
        },
    }
    Ok(buffer)
}

/// A gzip encoder of `flate2` into an in-memory buffer; only the functions
/// below look inside it.
#[verifier::external_body]
pub struct GzSink {
    inner: GzEncoder<Vec<u8>>,
}

/// The uncompressed bytes that have been fed into a gzip encoder.
pub uninterp spec fn gz_input(e: GzSink) -> Seq<u8>;

/// Whether a gzip encoder has begun writing its trailer, after which it takes
/// no more input.
pub uninterp spec fn gz_finished(e: GzSink) -> bool;

/// The compression level a gzip encoder was made with.
pub uninterp spec fn gz_level(e: GzSink) -> u32;

/// The strongest compression level.
pub const BEST_LEVEL: u32 = 9;

/// Relies on flate2::write::GzEncoder::new with Compression::best (level 9):
/// an encoder into an empty buffer, fed nothing yet.
#[verifier::external_body]
fn gz_new() -> (r: GzSink)
    ensures
        gz_input(r) == Seq::<u8>::empty(),
        !gz_finished(r),
        gz_level(r) == BEST_LEVEL,
{
    GzSink { inner: GzEncoder::new(Vec::new(), flate2::Compression::best()) }
}

/// Relies on std::io::Write::write_all for flate2's GzEncoder over a `Vec`:
/// all of `data` is fed to the compressor, and writing into a `Vec` does not
/// fail. Its `write` asserts that the trailer has not been begun, hence the
/// precondition.
#[verifier::external_body]
fn gz_write_all(e: &mut GzSink, data: &[u8]) -> (r: Result<(), String>)
    requires
        !gz_finished(*old(e)),
    ensures
        r is Ok,
        !gz_finished(*final(e)),
        gz_level(*final(e)) == gz_level(*old(e)),
        gz_input(*final(e)) == gz_input(*old(e)) + data@,
{
    e.inner.write_all(data).map_err(|err| err.to_string())
}

/// Relies on flate2::write::GzEncoder::try_finish over a `Vec`: it feeds no
/// input, cannot fail, and writes the gzip trailer.
#[verifier::external_body]
fn gz_try_finish(e: &mut GzSink) -> (r: Result<(), String>)
    ensures
        r is Ok,
        gz_input(*final(e)) == gz_input(*old(e)),
        gz_level(*final(e)) == gz_level(*old(e)),
        gz_finished(*final(e)),
{
    e.inner.try_finish().map_err(|err| err.to_string())
}

/// Relies on flate2::write::GzEncoder::get_ref: the compressed bytes produced
/// so far; once the trailer is written they are a complete gzip stream of the
/// bytes fed in.
#[verifier::external_body]
fn gz_output(e: &GzSink) -> (r: &Vec<u8>)
    ensures
        gz_finished(*e) ==> gunzip_of(r@) == (gz_input(*e), true),
{
    e.inner.get_ref()
}

/// The byte sink of a writer: plain bytes, or a gzip encoder.
pub enum WriterType {
    Plain(Vec<u8>),
    Gzip(GzSink),
}

impl WriterType {
    /// The uncompressed bytes handed to the sink so far.
    pub open spec fn payload(&self) -> Seq<u8> {
        match self {
            WriterType::Plain(v) => v@,
            WriterType::Gzip(e) => gz_input(*e),
        }
    }

    /// The sink still takes input.
    pub open spec fn is_open(&self) -> bool {
        match self {
            WriterType::Plain(_) => true,
            WriterType::Gzip(e) => !gz_finished(*e),
        }
    }
}

/// Opens an empty in-memory sink for a path: gzip-compressed at the strongest
/// level when the path ends in `.gz`, plain otherwise.
pub fn get_writer(path: &str) -> (r: WriterType)
    ensures
        r.payload() == Seq::<u8>::empty(),
        r.is_open(),
        r is Gzip <==> crate::seq::has_suffix(path.spec_bytes(), crate::seq::gz_suffix()),
        r matches WriterType::Gzip(e) ==> gz_level(e) == BEST_LEVEL,
{
    if crate::seq::is_gz_path(path) {
        WriterType::Gzip(gz_new())
    } else {
        WriterType::Plain(Vec::new())
    }
}

/// Serializes records of one format into a sink, in call order.
pub struct Writer {
    writer: WriterType,
    format: SeqFormat,
    closed: bool,
}

impl Writer {
    /// The format records are written in.
    pub closed spec fn format(&self) -> SeqFormat {
        self.format
    }

    /// The uncompressed bytes written so far.
    pub closed spec fn payload(&self) -> Seq<u8> {
        self.writer.payload()
    }

    /// Whether `close` has been called.
    pub closed spec fn is_closed(&self) -> bool {
        self.closed
    }

    /// Whether the sink is gzip-compressed.
    pub closed spec fn is_gzip(&self) -> bool {
        self.writer is Gzip
    }

    /// Whether the sink is complete: always for plain bytes, once the trailer
    /// is written for gzip.
    pub closed spec fn is_finished(&self) -> bool {
        match self.writer {
            WriterType::Plain(_) => true,
            WriterType::Gzip(e) => gz_finished(e),
        }
    }

    /// A writer that has not been closed has a sink that still takes input;
    /// a closed one has a complete sink.
    pub closed spec fn wf(&self) -> bool {
        &&& !self.closed ==> self.writer.is_open()
        &&& self.closed ==> self.is_finished()
    }

    /// Binds a sink to a format.
    pub fn new(format: SeqFormat, writer: WriterType) -> (r: Writer)
        requires
            writer.is_open(),
        ensures
            r.wf(),
            r.format() == format,
            r.payload() == writer.payload(),
            !r.is_closed(),
            r.is_gzip() <==> writer is Gzip,
    {
        Writer { writer, format, closed: false }
    }

    /// Appends one serialized record to the sink (see `encode_record`). A
    /// closed writer refuses with an I/O error.
    pub fn write(&mut self, seq: Sequence, wrap: Option<u32>) -> (r: Result<(), SeqError>)
        requires
            old(self).wf(),
        ensures
            final(self).wf(),
            final(self).format() == old(self).format(),
            final(self).is_closed() == old(self).is_closed(),
            final(self).is_gzip() == old(self).is_gzip(),
            final(self).is_finished() == old(self).is_finished(),
            r is Ok ==> final(self).payload() == old(self).payload() + record_bytes(old(self).format(), seq, wrap),
            r is Err ==> final(self).payload() == old(self).payload(),
            r matches Err(e) ==> e is Io || e is InvalidArgument,
            old(self).is_closed() ==> r matches Err(SeqError::Io(_)),
            !old(self).is_closed() ==> (wrap_rejected(old(self).format(), wrap)
                <==> r matches Err(SeqError::InvalidArgument(_))),
            !old(self).is_closed() && !wrap_rejected(old(self).format(), wrap) ==> r is Ok,
    {
        if self.closed {
            return Err(SeqError::Io("writer is closed".to_string()));
        }
        let bytes = match encode_record(self.format, &seq, wrap) {
            Ok(b) => b,
            Err(e) => {
                return Err(e);
            },
        };
        match &mut self.writer {
            WriterType::Plain(v) => {
                append_bytes(v, bytes.as_slice());
                Ok(())
            },
            WriterType::Gzip(e) => match gz_write_all(e, bytes.as_slice()) {
                Ok(()) => Ok(()),
                Err(msg) => Err(SeqError::Io(msg)),
            },
        }
    }

    /// Completes the output: a plain sink needs nothing more, a gzip sink gets
    /// its trailer. The writer takes no records afterwards; closing again does
    /// nothing.
    pub fn close(&mut self) -> (r: Result<(), SeqError>)
        requires
            old(self).wf(),
        ensures
            r is Ok,
            final(self).wf(),
            final(self).is_closed(),
            final(self).is_finished(),
            final(self).format() == old(self).format(),
            final(self).payload() == old(self).payload(),
            final(self).is_gzip() == old(self).is_gzip(),
    {
        if self.closed {
            return Ok(());
        }
        self.closed = true;
        match &mut self.writer {
            WriterType::Plain(_) => Ok(()),
            WriterType::Gzip(e) => match gz_try_finish(e) {
                Ok(()) => Ok(()),
                Err(msg) => Err(SeqError::Io(msg)),
            },
        }
    }

    /// The bytes to commit to the destination: the plain bytes written so far,
    /// or the gzip stream produced so far, which after `close` decompresses to
    /// exactly the bytes written.
    pub fn output(&self) -> (r: &Vec<u8>)
        ensures
            !self.is_gzip() ==> r@ == self.payload(),
            self.is_gzip() && self.is_finished() ==> gunzip_of(r@) == (self.payload(), true),
    {
        match &self.writer {
            WriterType::Plain(v) => v,
            WriterType::Gzip(e) => gz_output(e),
        }
    }
}

} // verus!
