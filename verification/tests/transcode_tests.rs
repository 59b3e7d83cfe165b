use transcoder::codec::{codec_for_name, decode, encode, Codec};
use transcoder::transcode::{plan_run, process_lines, split_lines, Counters, TranscodeError,
    UsageError};

fn bytes(s: &str) -> Vec<u8> {
    s.as_bytes().to_vec()
}

#[test]
fn codec_by_suffix() {
    assert_eq!(codec_for_name(&bytes("a.txt.gz")), Codec::Gz);
    assert_eq!(codec_for_name(&bytes("b.xz")), Codec::Xz);
    assert_eq!(codec_for_name(&bytes("c.txt")), Codec::Raw);
    assert_eq!(codec_for_name(&bytes(".gz")), Codec::Gz);
    assert_eq!(codec_for_name(&bytes("gz")), Codec::Raw);
    assert_eq!(codec_for_name(&bytes("a.GZ")), Codec::Raw);
}

#[test]
fn split_plain_lines() {
    let lines = split_lines(&bytes("a\n\nb"));
    assert_eq!(lines, vec![bytes("a"), bytes(""), bytes("b")]);
}

#[test]
fn split_strips_crlf() {
    let lines = split_lines(&bytes("a\r\nb\r\n"));
    assert_eq!(lines, vec![bytes("a"), bytes("b")]);
}

#[test]
fn counts_lines() {
    let rep = process_lines(&bytes("alpha\nbeta\ngamma")).unwrap();
    assert_eq!(rep.counters.total_lines, 3);
    assert_eq!(rep.counters.error_lines, 0);
    assert_eq!(rep.output, bytes("alpha\nbeta\ngamma\n"));
}

#[test]
fn counts_nothing_on_empty_input() {
    let rep = process_lines(&Vec::new()).unwrap();
    assert_eq!(rep.counters.total_lines, 0);
    assert_eq!(rep.counters.error_lines, 0);
    assert_eq!(rep.output, Vec::<u8>::new());
}

#[test]
fn final_line_gains_newline() {
    let rep = process_lines(&bytes("x")).unwrap();
    assert_eq!(rep.output, bytes("x\n"));
    let rep2 = process_lines(&bytes("x\n")).unwrap();
    assert_eq!(rep2.output, bytes("x\n"));
}

#[test]
fn crlf_is_normalized() {
    let rep = process_lines(&bytes("a\r\nb")).unwrap();
    assert_eq!(rep.output, bytes("a\nb\n"));
    assert_eq!(rep.counters.total_lines, 2);
}

#[test]
fn final_line_keeps_lone_carriage_return() {
    assert_eq!(split_lines(&bytes("a\r")), vec![bytes("a\r")]);
    let rep = process_lines(&bytes("a\r")).unwrap();
    assert_eq!(rep.output, bytes("a\r\n"));
    assert_eq!(rep.counters.total_lines, 1);
}

#[test]
fn malformed_text_is_refused() {
    let input = vec![0xffu8, 0xfeu8, 10u8, 97u8];
    let r = process_lines(&input);
    assert_eq!(r.unwrap_err(), TranscodeError::MalformedLine);
}

#[test]
fn failure_counter_tracks_failed_writes() {
    let mut c = Counters::new();
    c.record_line(true);
    c.record_line(false);
    c.record_line(true);
    assert_eq!(c.total_lines, 3);
    assert_eq!(c.error_lines, 1);
}

#[test]
fn gzip_round_trip() {
    let data = bytes("one\ntwo\nthree\n");
    let packed = encode(&data, Codec::Gz);
    assert_ne!(packed, data);
    let unpacked = decode(&packed, Codec::Gz).unwrap();
    assert_eq!(unpacked, data);
    let first = transcoder::transcode::transcode(&data, Codec::Raw, Codec::Gz).unwrap();
    let back = transcoder::transcode::transcode(&first.output, Codec::Gz, Codec::Raw).unwrap();
    assert_eq!(split_lines(&back.output), split_lines(&data));
    assert_eq!(back.output, data);
}

#[test]
fn xz_round_trip() {
    let data = bytes("one\ntwo\nthree\n");
    let packed = encode(&data, Codec::Xz);
    assert_ne!(packed, data);
    let unpacked = decode(&packed, Codec::Xz).unwrap();
    assert_eq!(unpacked, data);
    let first = transcoder::transcode::transcode(&data, Codec::Raw, Codec::Xz).unwrap();
    let back = transcoder::transcode::transcode(&first.output, Codec::Xz, Codec::Raw).unwrap();
    assert_eq!(split_lines(&back.output), split_lines(&data));
    assert_eq!(back.output, data);
}

#[test]
fn gz_to_xz_transcode() {
    let gz_in = encode(&bytes("hello\nworld\n"), Codec::Gz);
    let t = transcoder::transcode::transcode(&gz_in, Codec::Gz, Codec::Xz).unwrap();
    assert_eq!(t.counters.total_lines, 2);
    assert_eq!(t.counters.error_lines, 0);
    let plain = decode(&t.output, Codec::Xz).unwrap();
    assert_eq!(plain, bytes("hello\nworld\n"));
}

#[test]
fn invalid_gzip_stream_is_refused() {
    let r = transcoder::transcode::transcode(&bytes("not gzip"), Codec::Gz, Codec::Xz);
    assert_eq!(r.unwrap_err(), TranscodeError::InvalidStream);
    assert!(decode(&bytes("not gzip"), Codec::Gz).is_none());
}

#[test]
fn invalid_xz_stream_is_refused() {
    assert!(decode(&bytes("not xz"), Codec::Xz).is_none());
}

#[test]
fn plan_accepts_two_names_with_compressed_output() {
    let args = vec![bytes("prog"), bytes("in.txt.gz"), bytes("out.txt.xz")];
    let plan = plan_run(&args).unwrap();
    assert_eq!(plan.in_codec, Codec::Gz);
    assert_eq!(plan.out_codec, Codec::Xz);
}

#[test]
fn plan_refuses_raw_output_name() {
    let args = vec![bytes("prog"), bytes("in.gz"), bytes("out.txt")];
    assert_eq!(plan_run(&args).unwrap_err(), UsageError::BadOutputSuffix);
}

#[test]
fn plan_refuses_wrong_arg_count() {
    let one = vec![bytes("prog"), bytes("in.gz")];
    assert_eq!(plan_run(&one).unwrap_err(), UsageError::WrongArgCount);
    let three = vec![bytes("prog"), bytes("a.gz"), bytes("b.xz"), bytes("c.xz")];
    assert_eq!(plan_run(&three).unwrap_err(), UsageError::WrongArgCount);
}
