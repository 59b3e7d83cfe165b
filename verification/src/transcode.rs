//! The line-copy loop and what surrounds it: splitting a decoded stream into
//! lines, checking each line is valid text, re-framing the lines with
//! newlines, counting lines and per-line write failures, and choosing the
//! codecs for one run from the command line.

use vstd::prelude::*;

use crate::codec::{codec_for_name, codec_of, decode, decoded_of, encode, Codec};
use crate::lines::{joined, lemma_joined_push, lemma_line_seqs_no_nl, lemma_line_seqs_split_at_nl,
    line_seqs, strip_cr};

verus! {

/// UTF-8 validity of a byte sequence; it depends on the bytes alone.
pub uninterp spec fn is_utf8(bytes: Seq<u8>) -> bool;

/// Relies on std's `str::from_utf8`: it accepts exactly the well-formed UTF-8
/// byte sequences.
#[verifier::external_body]
fn utf8_check(bytes: &Vec<u8>) -> (r: bool)
    ensures
        r == is_utf8(bytes@),
{
    core::str::from_utf8(bytes.as_slice()).is_ok()
}

/// True when every line of the stream `s` is valid UTF-8 text.
pub open spec fn all_lines_utf8(s: Seq<u8>) -> bool {
    forall|i: int| 0 <= i < line_seqs(s).len() ==> is_utf8(#[trigger] line_seqs(s)[i])
}

/// The two counters that one run accumulates. A write failure is only counted
/// for a line that was already counted as read, so the failure count never
/// passes the total.
#[derive(Clone, Copy, Debug)]
pub struct Counters {
    pub total_lines: usize,
    pub error_lines: usize,
}

impl Counters {
    /// The counters' invariant: failed lines never outnumber read lines.
    pub open spec fn wf(self) -> bool {
        self.error_lines <= self.total_lines
    }

    /// Both counters start at zero.
    pub fn new() -> (c: Counters)
        ensures
            c.total_lines == 0,
            c.error_lines == 0,
            c.wf(),
    {
        Counters { total_lines: 0, error_lines: 0 }
    }

    /// One line was read: it is counted, and counted once more as failed when
    /// the write of it failed. There is no retry, so a failed line moves both
    /// counters by exactly one.
    pub fn record_line(&mut self, write_ok: bool)
        requires
            old(self).wf(),
            old(self).total_lines < usize::MAX,
        ensures
            final(self).total_lines == old(self).total_lines + 1,
            final(self).error_lines == old(self).error_lines + (if write_ok {
                0int
            } else {
                1int
            }),
            final(self).wf(),
    {
        self.total_lines = self.total_lines + 1;
        if !write_ok {
            self.error_lines = self.error_lines + 1;
        }
    }
}

/// Copy of `v[from..to]`.
fn copy_range(v: &Vec<u8>, from: usize, to: usize) -> (r: Vec<u8>)
    requires
        from <= to <= v@.len(),
    ensures
        r@ == v@.subrange(from as int, to as int),
{
    let mut r: Vec<u8> = Vec::new();
    let mut i: usize = from;
    while i < to
        invariant
            from <= i <= to <= v@.len(),
            r@ == v@.subrange(from as int, i as int),
        decreases to - i,
    {
        r.push(v[i]);
        i += 1;
    }
    r
}

/// Copy of the newline-terminated segment `v[from..to]` with one trailing
/// carriage return dropped.
fn copy_line(v: &Vec<u8>, from: usize, to: usize) -> (r: Vec<u8>)
    requires
        from <= to <= v@.len(),
    ensures
        r@ == strip_cr(v@.subrange(from as int, to as int)),
{
    let end = if to > from && v[to - 1] == 13 {
        to - 1
    } else {
        to
    };
    let r = copy_range(v, from, end);
    proof {
        assert(r@ =~= strip_cr(v@.subrange(from as int, to as int)));
    }
    r
}

/// Split a byte stream into its newline-delimited lines. A carriage return is
/// dropped only together with the newline that follows it, so a final line
/// without a newline keeps a trailing carriage return.
pub fn split_lines(input: &Vec<u8>) -> (r: Vec<Vec<u8>>)
    ensures
        r.deep_view() == line_seqs(input@),
{
    let n = input.len();
    let mut r: Vec<Vec<u8>> = Vec::new();
    let mut start: usize = 0;
    let mut i: usize = 0;
    proof {
        assert(r.deep_view() =~= Seq::<Seq<u8>>::empty());
        assert(input@.subrange(0, n as int) =~= input@);
        assert(r.deep_view() + line_seqs(input@) =~= line_seqs(input@));
    }
    while i < n
        invariant
            n == input@.len(),
            start <= i <= n,
            forall|j: int| start <= j < i ==> input@[j] != 10u8,
            r.deep_view() + line_seqs(input@.subrange(start as int, n as int)) == line_seqs(
                input@,
            ),
        decreases n - i,
    {
        if input[i] == 10 {
            let ghost prev = r.deep_view();
            let ghost rest = input@.subrange(start as int, n as int);
            let line = copy_line(input, start, i);
            r.push(line);
            proof {
                lemma_line_seqs_split_at_nl(rest, i - start);
                assert(rest.subrange(0, i - start) =~= input@.subrange(start as int, i as int));
                assert(rest.subrange(i - start + 1, rest.len() as int) =~= input@.subrange(
                    i + 1,
                    n as int,
                ));
                assert(line.deep_view() =~= line@);
                assert(r.deep_view() =~= prev + seq![line@]);
                assert(r.deep_view() + line_seqs(input@.subrange(i + 1, n as int)) =~= line_seqs(
                    input@,
                ));
            }
            start = i + 1;
        }
        i += 1;
    }
    if start < n {
        let ghost prev = r.deep_view();
        let ghost rest = input@.subrange(start as int, n as int);
        let line = copy_range(input, start, n);
        r.push(line);
        proof {
            lemma_line_seqs_no_nl(rest);
            assert(line.deep_view() =~= line@);
            assert(r.deep_view() =~= prev + seq![line@]);
            assert(r.deep_view() =~= line_seqs(input@));
        }
    } else {
        proof {
            assert(line_seqs(input@.subrange(start as int, n as int)) =~= Seq::<Seq<u8>>::empty());
            assert(r.deep_view() =~= line_seqs(input@));
        }
    }
    r
}

/// Append one line and a newline to the output buffer.
fn append_line(out: &mut Vec<u8>, line: &Vec<u8>)
    ensures
        final(out)@ == old(out)@ + line@ + seq![10u8],
{
    let ghost base = out@;
    let mut i: usize = 0;
    while i < line.len()
        invariant
            i <= line@.len(),
            out@ == base + line@.subrange(0, i as int),
        decreases line@.len() - i,
    {
        out.push(line[i]);
        i += 1;
    }
    out.push(10);
    proof {
        assert(out@ =~= base + line@ + seq![10u8]);
    }
}

/// Why a run fails after the codecs were chosen.
#[derive(Clone, Copy, Debug, PartialEq, Eq, Structural)]
pub enum TranscodeError {
    /// The input is not a well-formed stream of its codec.
    InvalidStream,
    /// A decoded line is not valid text.
    MalformedLine,
}

/// What one run of the line-copy loop produced: the re-framed byte stream and
/// the two counters.
#[derive(Debug)]
pub struct LineReport {
    pub output: Vec<u8>,
    pub counters: Counters,
}

/// The line-copy loop: read the newline-delimited lines of `input`, count
/// each, and write each back followed by a newline. A line that is not valid
/// UTF-8 text ends the run with `MalformedLine`. Writes into the in-memory
/// output buffer cannot fail, so the failure counter of a completed run is
/// zero.
pub fn process_lines(input: &Vec<u8>) -> (r: Result<LineReport, TranscodeError>)
    ensures
        r matches Ok(rep) ==> {
            &&& all_lines_utf8(input@)
            &&& rep.output@ == joined(line_seqs(input@))
            &&& rep.counters.total_lines == line_seqs(input@).len()
            &&& rep.counters.error_lines == 0
            &&& rep.counters.wf()
        },
        r is Err ==> !all_lines_utf8(input@) && r == Err::<LineReport, TranscodeError>(
            TranscodeError::MalformedLine,
        ),
{
    let lines = split_lines(input);
    let ghost ls = line_seqs(input@);
    let mut output: Vec<u8> = Vec::new();
    let mut counters = Counters::new();
    let mut k: usize = 0;
    while k < lines.len()
        invariant
            lines.deep_view() == ls,
            ls == line_seqs(input@),
            k <= lines@.len(),
            counters.total_lines == k,
            counters.error_lines == 0,
            counters.wf(),
            output@ == joined(ls.take(k as int)),
            forall|i: int| 0 <= i < k ==> is_utf8(#[trigger] ls[i]),
        decreases lines@.len() - k,
    {
        proof {
            assert(lines@[k as int].deep_view() =~= lines@[k as int]@);
            assert(lines@[k as int]@ == ls[k as int]);
        }
        if !utf8_check(&lines[k]) {
            proof {
                assert(!is_utf8(ls[k as int]));
            }
            return Err(TranscodeError::MalformedLine);
        }
        counters.record_line(true);
        append_line(&mut output, &lines[k]);
        proof {
            lemma_joined_push(ls.take(k as int), ls[k as int]);
            assert(ls.take(k + 1) =~= ls.take(k as int).push(ls[k as int]));
        }
        k += 1;
    }
    proof {
        assert(ls.take(k as int) =~= ls);
    }
    Ok(LineReport { output, counters })
}

/// What a whole transcode run yields: the encoded output stream and the two
/// counters of the line-copy loop.
#[derive(Debug)]
pub struct Transcoded {
    pub output: Vec<u8>,
    pub counters: Counters,
}

/// One whole run over in-memory streams: decode `data` under `in_codec`, copy
/// its lines through the line-copy loop, and encode the result under
/// `out_codec`. It succeeds exactly when the input decodes and every decoded
/// line is valid text; the output then decodes, under `out_codec`, to the
/// re-framed lines of the decoded input.
pub fn transcode(data: &Vec<u8>, in_codec: Codec, out_codec: Codec) -> (r: Result<
    Transcoded,
    TranscodeError,
>)
    ensures
        ({
            let dec = decoded_of(data@, in_codec);
            match r {
                Ok(t) => dec matches Some(plain) && {
                    &&& all_lines_utf8(plain)
                    &&& decoded_of(t.output@, out_codec) == Some(joined(line_seqs(plain)))
                    &&& t.counters.total_lines == line_seqs(plain).len()
                    &&& t.counters.error_lines == 0
                },
                Err(TranscodeError::InvalidStream) => dec is None,
                Err(TranscodeError::MalformedLine) => dec matches Some(plain) && !all_lines_utf8(
                    plain,
                ),
            }
        }),
{
    let plain = match decode(data, in_codec) {
        Some(p) => p,
        None => {
            return Err(TranscodeError::InvalidStream);
        },
    };
    let rep = match process_lines(&plain) {
        Ok(rep) => rep,
        Err(e) => {
            return Err(e);
        },
    };
    let output = encode(&rep.output, out_codec);
    Ok(Transcoded { output, counters: rep.counters })
}

/// Why a run is refused before any work is done.
#[derive(Clone, Copy, Debug, PartialEq, Eq, Structural)]
pub enum UsageError {
    /// The command line does not hold exactly the two file names.
    WrongArgCount,
    /// The output file name selects no compressed codec.
    BadOutputSuffix,
}

/// The codecs chosen for one run.
#[derive(Clone, Copy, Debug)]
pub struct Plan {
    pub in_codec: Codec,
    pub out_codec: Codec,
}

/// Check the command line and choose the codecs. `args` holds the program
/// name and then the arguments, as handed to the process. A run is refused
/// when there are not exactly two arguments, or when the output name selects
/// no compressed codec: raw output is not a permitted output mode, though raw
/// input is.
pub fn plan_run(args: &Vec<Vec<u8>>) -> (r: Result<Plan, UsageError>)
    ensures
        match r {
            Ok(p) => {
                &&& args@.len() == 3
                &&& codec_of(args@[2]@) != Codec::Raw
                &&& p.in_codec == codec_of(args@[1]@)
                &&& p.out_codec == codec_of(args@[2]@)
            },
            Err(UsageError::WrongArgCount) => args@.len() != 3,
            Err(UsageError::BadOutputSuffix) => args@.len() == 3 && codec_of(args@[2]@)
                == Codec::Raw,
        },
{
    if args.len() != 3 {
        return Err(UsageError::WrongArgCount);
    }
    let out_codec = codec_for_name(&args[2]);
    if out_codec == Codec::Raw {
        return Err(UsageError::BadOutputSuffix);
    }
    let in_codec = codec_for_name(&args[1]);
    Ok(Plan { in_codec, out_codec })
}

} // verus!
