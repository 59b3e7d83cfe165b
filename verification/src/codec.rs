//! Codec selection by file-name suffix, and the gzip and xz codecs behind
//! trusted wrappers around flate2 and xz2. The only facts assumed of the two
//! crates are that a decoder is a function of the bytes alone and that it
//! recovers what the matching encoder wrote.

use vstd::prelude::*;

use crate::lines::{ends_in_cr, joined, line_seqs};
use std::io::Read;
use std::io::Write;

verus! {

/// The compression schemes that a file name can select.
#[derive(Clone, Copy, Debug, PartialEq, Eq, Structural)]
pub enum Codec {
    Raw,
    Gz,
    Xz,
}

/// True when `s` ends with the byte sequence `suffix`.
pub open spec fn ends_with(s: Seq<u8>, suffix: Seq<u8>) -> bool {
    s.len() >= suffix.len() && s.subrange(s.len() - suffix.len(), s.len() as int) == suffix
}

/// The bytes of the suffix ".gz".
pub open spec fn gz_suffix() -> Seq<u8> {
    seq![46u8, 103u8, 122u8]
}

/// The bytes of the suffix ".xz".
pub open spec fn xz_suffix() -> Seq<u8> {
    seq![46u8, 120u8, 122u8]
}

/// The codec that a file name selects: gzip for a name ending in ".gz", xz
/// for one ending in ".xz", and no codec otherwise. The match is
/// case-sensitive and exact.
pub open spec fn codec_of(name: Seq<u8>) -> Codec {
    if ends_with(name, gz_suffix()) {
        Codec::Gz
    } else if ends_with(name, xz_suffix()) {
        Codec::Xz
    } else {
        Codec::Raw
    }
}

/// Reports whether `name` ends with the three-byte suffix `b0 b1 b2`.
fn has_suffix3(name: &Vec<u8>, b0: u8, b1: u8, b2: u8) -> (r: bool)
    ensures
        r == ends_with(name@, seq![b0, b1, b2]),
{
    let n = name.len();
    if n < 3 {
        return false;
    }
    let r = name[n - 3] == b0 && name[n - 2] == b1 && name[n - 1] == b2;
    proof {
        let tail = name@.subrange(n - 3, n as int);
        if r {
            assert(tail =~= seq![b0, b1, b2]);
        } else {
            assert(tail[0] == name@[n - 3] && tail[1] == name@[n - 2] && tail[2] == name@[n - 1]);
        }
    }
    r
}

/// The codec that a file name selects.
pub fn codec_for_name(name: &Vec<u8>) -> (c: Codec)
    ensures
        c == codec_of(name@),
{
    if has_suffix3(name, 46, 103, 122) {
        Codec::Gz
    } else if has_suffix3(name, 46, 120, 122) {
        Codec::Xz
    } else {
        Codec::Raw
    }
}

/// What gzip decoding yields for a byte stream: `Some` of the decoded bytes
/// for a well-formed gzip stream, `None` otherwise. Decoding depends on the
/// bytes alone.
pub uninterp spec fn gunzip_of(data: Seq<u8>) -> Option<Seq<u8>>;

/// What xz decoding yields for a byte stream: `Some` of the decoded bytes for
/// a well-formed xz stream, `None` otherwise. Decoding depends on the bytes
/// alone.
pub uninterp spec fn unxz_of(data: Seq<u8>) -> Option<Seq<u8>>;

/// Relies on flate2's `write::GzEncoder` at `Compression::best()`: it writes
/// a well-formed gzip stream holding exactly the bytes given to it, so
/// decoding its output returns those bytes; writes into an in-memory buffer
/// do not fail.
#[verifier::external_body]
fn gzip_compress(data: &Vec<u8>) -> (r: Vec<u8>)
    ensures
        gunzip_of(r@) == Some(data@),
{
    let mut enc = flate2::write::GzEncoder::new(Vec::new(), flate2::Compression::best());
    enc.write_all(data.as_slice()).unwrap();
    enc.finish().unwrap()
}

/// Relies on flate2's `read::GzDecoder`: reading it to the end yields the
/// decoded bytes of a well-formed gzip stream, and an error otherwise, as a
/// function of the input bytes alone.
#[verifier::external_body]
fn gzip_decompress(data: &Vec<u8>) -> (r: Option<Vec<u8>>)
    ensures
        r is Some <==> gunzip_of(data@) is Some,
        r matches Some(v) ==> gunzip_of(data@) == Some(v@),
{
    let mut dec = flate2::read::GzDecoder::new(data.as_slice());
    let mut out = Vec::new();
    match dec.read_to_end(&mut out) {
        Ok(_) => Some(out),
        Err(_) => None,
    }
}

/// Relies on xz2's `write::XzEncoder` at level 9: it writes a well-formed xz
/// stream holding exactly the bytes given to it, so decoding its output
/// returns those bytes; writes into an in-memory buffer do not fail.
#[verifier::external_body]
fn xz_compress(data: &Vec<u8>) -> (r: Vec<u8>)
    ensures
        unxz_of(r@) == Some(data@),
{
    let mut enc = xz2::write::XzEncoder::new(Vec::new(), 9);
    enc.write_all(data.as_slice()).unwrap();
    enc.finish().unwrap()
}

/// Relies on xz2's `read::XzDecoder`: reading it to the end yields the
/// decoded bytes of a well-formed xz stream, and an error otherwise, as a
/// function of the input bytes alone.
#[verifier::external_body]
fn xz_decompress(data: &Vec<u8>) -> (r: Option<Vec<u8>>)
    ensures
        r is Some <==> unxz_of(data@) is Some,
        r matches Some(v) ==> unxz_of(data@) == Some(v@),
{
    let mut dec = xz2::read::XzDecoder::new(data.as_slice());
    let mut out = Vec::new();
    match dec.read_to_end(&mut out) {
        Ok(_) => Some(out),
        Err(_) => None,
    }
}

/// The bytes that decoding `data` under `codec` yields; raw data passes
/// through unchanged.
pub open spec fn decoded_of(data: Seq<u8>, codec: Codec) -> Option<Seq<u8>> {
    match codec {
        Codec::Raw => Some(data),
        Codec::Gz => gunzip_of(data),
        Codec::Xz => unxz_of(data),
    }
}

/// A fresh copy of the given bytes.
fn clone_bytes(data: &Vec<u8>) -> (r: Vec<u8>)
    ensures
        r@ == data@,
{
    let mut r: Vec<u8> = Vec::new();
    let mut i: usize = 0;
    while i < data.len()
        invariant
            i <= data@.len(),
            r@ == data@.subrange(0, i as int),
        decreases data@.len() - i,
    {
        r.push(data[i]);
        i += 1;
    }
    proof {
        assert(r@ =~= data@);
    }
    r
}

/// Decode `data` under `codec`. It fails exactly on the streams that the
/// codec rejects; raw input never fails.
pub fn decode(data: &Vec<u8>, codec: Codec) -> (r: Option<Vec<u8>>)
    ensures
        r is Some <==> decoded_of(data@, codec) is Some,
        r matches Some(v) ==> decoded_of(data@, codec) == Some(v@),
{
    match codec {
        Codec::Raw => Some(clone_bytes(data)),
        Codec::Gz => gzip_decompress(data),
        Codec::Xz => xz_decompress(data),
    }
}

/// Encode `data` under `codec`: the result is a stream that decodes, under
/// the same codec, to exactly `data`.
pub fn encode(data: &Vec<u8>, codec: Codec) -> (r: Vec<u8>)
    ensures
        decoded_of(r@, codec) == Some(data@),
{
    match codec {
        Codec::Raw => clone_bytes(data),
        Codec::Gz => gzip_compress(data),
        Codec::Xz => xz_compress(data),
    }
}

/// Law: a raw-to-gzip transcode and a decode back reproduce the line
/// sequence. When a gzip stream `b` decodes to the joined lines of a stream
/// `s`, and no line of `s` ends in a carriage return, the decoded stream has
/// exactly the lines of `s`. A line ending in a carriage return loses that
/// byte on the way through, so it stands outside the law.
pub proof fn lemma_gz_round_trip(s: Seq<u8>, b: Seq<u8>)
    requires
        gunzip_of(b) == Some(joined(line_seqs(s))),
        forall|i: int| 0 <= i < line_seqs(s).len() ==> !ends_in_cr(#[trigger] line_seqs(s)[i]),
    ensures
        gunzip_of(b) matches Some(d) && line_seqs(d) == line_seqs(s),
{
    crate::lines::lemma_stream_round_trip(s);
}

/// Law: a raw-to-xz transcode and a decode back reproduce the line sequence,
/// under the same carriage-return condition as the gzip law.
pub proof fn lemma_xz_round_trip(s: Seq<u8>, b: Seq<u8>)
    requires
        unxz_of(b) == Some(joined(line_seqs(s))),
        forall|i: int| 0 <= i < line_seqs(s).len() ==> !ends_in_cr(#[trigger] line_seqs(s)[i]),
    ensures
        unxz_of(b) matches Some(d) && line_seqs(d) == line_seqs(s),
{
    crate::lines::lemma_stream_round_trip(s);
}

} // verus!
