use std::io::Read;

use flate2::read::GzDecoder;
use rsbio_seq::quality::{ascii_to_phred, phred_to_ascii};
use rsbio_seq::reader::{fasta_sequence, fastq_sequence, get_reader, Sequences};
use rsbio_seq::writer::{encode_record, get_writer, wrap_string_no_whitespace, Writer, WriterType};
use rsbio_seq::{SeqError, SeqFormat, SeqReader, Sequence};

fn record(id: &str, desc: &str, seq: &str, qual: &str) -> Sequence {
    Sequence::new(id.to_string(), desc.to_string(), seq.to_string(), qual.to_string())
}

fn write_one(path: &str, rec: Sequence, wrap: Option<u32>) -> Vec<u8> {
    let format = SeqFormat::get(path).unwrap();
    let mut writer = Writer::new(format, get_writer(path));
    writer.write(rec, wrap).unwrap();
    writer.close().unwrap();
    writer.output().clone()
}

fn decompress(data: &[u8]) -> Vec<u8> {
    let mut out = Vec::new();
    GzDecoder::new(data).read_to_end(&mut out).unwrap();
    out
}

#[test]
fn detect_every_table_suffix() {
    for stem in ["reads", "dir.v2/reads", ""] {
        for (ext, format) in [
            (".fq", SeqFormat::Fastq),
            (".fastq", SeqFormat::Fastq),
            (".fa", SeqFormat::Fasta),
            (".fasta", SeqFormat::Fasta),
            (".fna", SeqFormat::Fasta),
        ] {
            assert_eq!(SeqFormat::get(&format!("{stem}{ext}")).unwrap(), format);
            assert_eq!(SeqFormat::get(&format!("{stem}{ext}.gz")).unwrap(), format);
        }
    }
}

#[test]
fn detect_rejects_other_suffixes() {
    for path in ["reads.txt", "reads.gz", "reads", "reads.FQ", "reads.fq.gz.gz", "reads.fq.bz2", "reads.fa.", ".gz"] {
        assert!(matches!(SeqFormat::get(path), Err(SeqError::FormatUnknown)), "{path}");
    }
}

#[test]
fn wrap_at_four() {
    assert_eq!(wrap_string_no_whitespace("ACGTACGTAC", 4), "ACGT\nACGT\nAC");
    assert_eq!(wrap_string_no_whitespace("ACGTACGT", 4), "ACGT\nACGT");
    assert_eq!(wrap_string_no_whitespace("", 4), "");
    assert_eq!(wrap_string_no_whitespace("ACG", 4), "ACG");
}

#[test]
fn wrap_keeps_symbols() {
    let s = "ACGTNNACGTTGCAAGCT";
    for width in 1..25 {
        let wrapped = wrap_string_no_whitespace(s, width);
        assert_eq!(wrapped.replace('\n', ""), s);
        for line in wrapped.split('\n') {
            assert!(line.len() <= width);
        }
    }
}

#[test]
fn wrap_counts_characters() {
    assert_eq!(wrap_string_no_whitespace("ééééé", 2), "éé\néé\né");
}

#[test]
fn fasta_wrapped_write() {
    // the usability floor is ten, so five is refused; the wrapping itself is at five
    let rec = record("rec_1", "desc 1", "ACGTCCGT", "");
    let mut writer = Writer::new(SeqFormat::Fasta, get_writer("out.fa"));
    assert!(matches!(writer.write(rec, Some(5)), Err(SeqError::InvalidArgument(_))));
    assert_eq!(writer.output().len(), 0);
    assert_eq!(wrap_string_no_whitespace("ACGTCCGT", 5), "ACGTC\nCGT");
}

#[test]
fn fasta_wrapped_at_ten() {
    let rec = record("rec_1", "desc 1", "ACGTCCGTACGTA", "");
    let bytes = write_one("out.fa", rec, Some(10));
    assert_eq!(bytes, b">rec_1 desc 1\nACGTCCGTAC\nGTA\n".to_vec());
}

#[test]
fn fasta_wrap_at_exact_length_has_no_blank_line() {
    let rec = record("r", "", "ACGTACGTAC", "");
    let bytes = write_one("out.fa", rec, Some(10));
    assert_eq!(bytes, b">r \nACGTACGTAC\n".to_vec());
}

#[test]
fn fastq_write_exact_bytes() {
    let rec = record("rec_1", "desc 1", "ACGTCCGT", "IIIIIIII");
    let bytes = write_one("out.fq", rec, None);
    assert_eq!(bytes, b"@rec_1 desc 1\nACGTCCGT\n+\nIIIIIIII\n".to_vec());
}

#[test]
fn fastq_write_ignores_wrap() {
    let rec = record("rec_1", "desc 1", "ACGTCCGT", "IIIIIIII");
    let bytes = write_one("out.fq", rec, Some(3));
    assert_eq!(bytes, b"@rec_1 desc 1\nACGTCCGT\n+\nIIIIIIII\n".to_vec());
}

#[test]
fn encode_record_refuses_small_wrap() {
    let rec = record("a", "b", "ACGT", "");
    assert!(matches!(encode_record(SeqFormat::Fasta, &rec, Some(9)), Err(SeqError::InvalidArgument(_))));
    assert_eq!(encode_record(SeqFormat::Fasta, &rec, Some(10)).unwrap(), b">a b\nACGT\n".to_vec());
}

#[test]
fn writes_keep_call_order() {
    let mut writer = Writer::new(SeqFormat::Fasta, get_writer("out.fa"));
    writer.write(record("a", "", "AC", ""), None).unwrap();
    writer.write(record("b", "x", "GT", ""), None).unwrap();
    writer.close().unwrap();
    assert_eq!(writer.output().clone(), b">a \nAC\n>b x\nGT\n".to_vec());
}

#[test]
fn closed_writer_refuses_records() {
    let mut writer = Writer::new(SeqFormat::Fasta, get_writer("out.fa.gz"));
    writer.close().unwrap();
    assert!(writer.close().is_ok());
    assert!(matches!(writer.write(record("a", "", "AC", ""), None), Err(SeqError::Io(_))));
}

#[test]
fn get_writer_selects_compression() {
    assert!(matches!(get_writer("x.fa.gz"), WriterType::Gzip(_)));
    assert!(matches!(get_writer("x.fa"), WriterType::Plain(_)));
}

#[test]
fn compressed_output_matches_plain() {
    for (path, rec) in [
        ("out.fa", record("rec_1", "desc 1", "ACGTCCGTACGTACGT", "")),
        ("out.fq", record("rec_1", "desc 1", "ACGTCCGT", "IIIIIIII")),
    ] {
        let rec2 = record(&rec.id, &rec.desc, &rec.seq, &rec.qual);
        let plain = write_one(path, rec, Some(10));
        let compressed = write_one(&format!("{path}.gz"), rec2, Some(10));
        assert_ne!(compressed, plain);
        assert_eq!(decompress(&compressed), plain);
    }
}

#[test]
fn round_trip_fasta() {
    let rec = record("rec_1", "desc 1", "ACGTCCGTACGTACGTAAAC", "");
    let bytes = write_one("out.fa", rec, Some(10));
    let mut seqs = Sequences::new(SeqFormat::Fasta, bytes).unwrap();
    let back = seqs.next().unwrap().unwrap();
    assert_eq!(back.id, "rec_1");
    assert_eq!(back.desc, "desc 1");
    assert_eq!(back.seq, "ACGTCCGTACGTACGTAAAC");
    assert_eq!(back.qual, "");
    assert!(seqs.next().is_none());
}

#[test]
fn round_trip_fastq_gz() {
    let rec = record("rec_1", "desc 1", "ACGTCCGT", "IIII#III");
    let bytes = write_one("out.fq.gz", rec, None);
    let (data, failure) = get_reader("out.fq.gz", bytes);
    assert!(failure.is_none());
    let mut seqs = Sequences::new(SeqFormat::Fastq, data).unwrap();
    let back = seqs.next().unwrap().unwrap();
    assert_eq!(back.id, "rec_1");
    assert_eq!(back.desc, "desc 1");
    assert_eq!(back.seq, "ACGTCCGT");
    assert_eq!(back.qual, "IIII#III");
}

#[test]
fn exhausted_reader_stays_exhausted() {
    let mut seqs = Sequences::new(SeqFormat::Fasta, b">a\nAC\n".to_vec()).unwrap();
    assert!(seqs.next().unwrap().is_ok());
    for _ in 0..5 {
        assert!(seqs.next().is_none());
    }
}

#[test]
fn empty_input_is_exhausted() {
    let mut seqs = Sequences::new(SeqFormat::Fastq, Vec::new()).unwrap();
    assert!(seqs.next().is_none());
    assert!(seqs.next().is_none());
}

#[test]
fn end_marker_is_final_even_if_bytes_follow() {
    // an empty header ends the parser's stream; the reader does not resume after it
    let mut seqs = Sequences::new(SeqFormat::Fasta, b">\n>b\nAC\n".to_vec()).unwrap();
    assert!(seqs.next().is_none());
    assert!(seqs.next().is_none());
}

#[test]
fn phred_round_trip() {
    let scores: Vec<u8> = (0..=93).collect();
    let text = phred_to_ascii(scores.clone());
    assert_eq!(text.len(), 94);
    assert_eq!(text.chars().next(), Some('!'));
    assert_eq!(text.chars().last(), Some('~'));
    assert_eq!(ascii_to_phred(text), scores);
}

#[test]
fn phred_values() {
    assert_eq!(phred_to_ascii(vec![40, 0, 93]), "I!~");
    assert_eq!(ascii_to_phred("I!~".to_string()), vec![40, 0, 93]);
}

#[test]
fn phred_clamps_below_floor() {
    assert_eq!(ascii_to_phred(" \n\u{0}!\"".to_string()), vec![0, 0, 0, 0, 1]);
}

#[test]
fn malformed_fastq_is_scoped() {
    let data = b"@r1\nACGT\n+\nIIII\n@r2\nACGT\n+\nII\n@r3\nAC\n+\nII\n".to_vec();
    let mut seqs = Sequences::new(SeqFormat::Fastq, data).unwrap();
    let first = seqs.next().unwrap().unwrap();
    assert_eq!(first.id, "r1");
    assert_eq!(first.qual, "IIII");
    assert!(matches!(seqs.next(), Some(Err(SeqError::Parse(_)))));
    let third = seqs.next().unwrap().unwrap();
    assert_eq!(third.id, "r3");
    assert!(seqs.next().is_none());
    assert_eq!(first.seq, "ACGT");
}

#[test]
fn fastq_header_without_at_is_parse_error() {
    let mut seqs = Sequences::new(SeqFormat::Fastq, b">r1\nACGT\n".to_vec()).unwrap();
    assert!(matches!(seqs.next(), Some(Err(SeqError::Parse(_)))));
}

#[test]
fn fasta_header_without_marker_is_parse_error() {
    let mut seqs = Sequences::new(SeqFormat::Fasta, b"@r1\nACGT\n+\nIIII\n".to_vec()).unwrap();
    assert!(matches!(seqs.next(), Some(Err(SeqError::Parse(_)))));
    assert!(seqs.next().is_none());
}

#[test]
fn normalizes_fasta_fields() {
    let s = fasta_sequence("id".to_string(), None, b"AC\xffG");
    assert_eq!(s.desc, "");
    assert_eq!(s.seq, "AC\u{FFFD}G");
    assert_eq!(s.qual, "");
    let s = fasta_sequence("id".to_string(), Some("d e".to_string()), b"ACG");
    assert_eq!(s.desc, "d e");
    assert_eq!(s.seq, "ACG");
}

#[test]
fn normalizes_fastq_fields() {
    let s = fastq_sequence("id".to_string(), Some("x".to_string()), b"ACG", b"II#").unwrap();
    assert_eq!((s.id.as_str(), s.desc.as_str(), s.seq.as_str(), s.qual.as_str()), ("id", "x", "ACG", "II#"));
    assert!(matches!(fastq_sequence("id".to_string(), None, b"ACG", b"II"), Err(SeqError::Parse(_))));
}

#[test]
fn get_reader_decodes_by_suffix() {
    let (plain, failure) = get_reader("x.fa", b"raw".to_vec());
    assert_eq!(plain, b"raw".to_vec());
    assert!(failure.is_none());
    let compressed = write_one("x.fa.gz", record("a", "", "AC", ""), None);
    let (decoded, failure) = get_reader("x.fa.gz", compressed);
    assert_eq!(decoded, b">a \nAC\n".to_vec());
    assert!(failure.is_none());
    let (decoded, failure) = get_reader("x.fa.gz", b"not gzip".to_vec());
    assert!(decoded.is_empty());
    match failure {
        Some(SeqError::Io(msg)) => assert!(msg.starts_with("x.fa.gz: ")),
        _ => panic!("expected a deferred I/O error"),
    }
}

#[test]
fn corrupt_gzip_is_reported_by_next() {
    let mut reader = SeqReader::new("x.fa.gz", b"not gzip".to_vec()).unwrap();
    assert!(matches!(reader.next(), Some(Err(SeqError::Io(_)))));
    assert!(reader.next().is_none());
    assert!(reader.next().is_none());
}

#[test]
fn truncated_gzip_yields_records_then_error() {
    let mut writer = Writer::new(SeqFormat::Fasta, get_writer("x.fa.gz"));
    writer.write(record("a", "", "ACGT", ""), None).unwrap();
    writer.write(record("b", "", "GGCC", ""), None).unwrap();
    writer.close().unwrap();
    let mut bytes = writer.output().clone();
    // drop the gzip trailer: all data decodes, then the stream ends early
    bytes.truncate(bytes.len() - 8);
    let mut reader = SeqReader::new("x.fa.gz", bytes).unwrap();
    assert_eq!(reader.next().unwrap().unwrap().seq, "ACGT");
    assert_eq!(reader.next().unwrap().unwrap().seq, "GGCC");
    assert!(matches!(reader.next(), Some(Err(SeqError::Io(_)))));
    assert!(reader.next().is_none());
}

#[test]
fn reader_setup_fails_only_on_unknown_suffix() {
    assert!(matches!(SeqReader::new("x.txt", b">a\nAC\n".to_vec()), Err(SeqError::FormatUnknown)));
    let mut reader = SeqReader::new("x.fa", b">a\nAC\n".to_vec()).unwrap();
    assert_eq!(reader.next().unwrap().unwrap().id, "a");
    assert!(reader.next().is_none());
}

#[test]
fn deferred_error_follows_records() {
    let err = SeqError::Io("broken".to_string());
    let mut seqs = Sequences::with_deferred_error(SeqFormat::Fasta, b">a\nAC\n".to_vec(), Some(err));
    assert!(seqs.next().unwrap().is_ok());
    assert!(matches!(seqs.next(), Some(Err(SeqError::Io(m))) if m == "broken"));
    assert!(seqs.next().is_none());
}

#[test]
fn description_with_spaces_round_trips() {
    let rec = record("r", "a b  c", "ACGT", "");
    let bytes = write_one("out.fasta", rec, None);
    let mut seqs = Sequences::new(SeqFormat::Fasta, bytes).unwrap();
    let back = seqs.next().unwrap().unwrap();
    assert_eq!(back.id, "r");
    assert_eq!(back.desc, "a b  c");
}

#[test]
fn gzip_writer_uses_best_compression() {
    let bytes = write_one("out.fa.gz", record("a", "", "ACGT", ""), None);
    // the gzip header's extra-flags byte is 2 for the strongest level
    assert_eq!(bytes[8], 2);
}

#[test]
fn fastq_lengths_count_characters() {
    let ok = fastq_sequence("id".to_string(), None, "AéC".as_bytes(), b"III").unwrap();
    assert_eq!(ok.seq, "AéC");
    assert!(matches!(fastq_sequence("id".to_string(), None, "AéC".as_bytes(), b"IIII"), Err(SeqError::Parse(_))));
}

#[test]
fn gzip_close_twice_keeps_stream() {
    let mut writer = Writer::new(SeqFormat::Fastq, get_writer("out.fq.gz"));
    writer.write(record("r", "d", "AC", "II"), None).unwrap();
    writer.close().unwrap();
    let first = writer.output().clone();
    writer.close().unwrap();
    assert_eq!(writer.output().clone(), first);
    assert_eq!(decompress(&first), b"@r d\nAC\n+\nII\n".to_vec());
}
