//! The line model: how a byte stream is read as newline-delimited lines, and
//! how lines are written back out. Everything here is pure mathematics; the
//! executable functions over it live in the transcode module.

use vstd::prelude::*;

verus! {

/// True when `l` ends in a carriage-return byte.
pub open spec fn ends_in_cr(l: Seq<u8>) -> bool {
    l.len() > 0 && l.last() == 13u8
}

/// One trailing carriage return is dropped from a line, so that a stream with
/// CRLF endings yields the same lines as one with LF endings.
pub open spec fn strip_cr(l: Seq<u8>) -> Seq<u8> {
    if ends_in_cr(l) {
        l.drop_last()
    } else {
        l
    }
}

/// Index of the first newline byte in `s`, or -1 when there is none.
pub open spec fn find_nl(s: Seq<u8>) -> int
    decreases s.len(),
{
    if s.len() == 0 {
        -1
    } else if s[0] == 10u8 {
        0
    } else {
        let r = find_nl(s.skip(1));
        if r < 0 {
            -1
        } else {
            r + 1
        }
    }
}

/// The newline-delimited lines of a byte stream: the stream is split at each
/// newline byte, the newline is not part of the line, and a final newline
/// opens no further line. A carriage return is dropped only together with the
/// newline that follows it, so a final line without a newline keeps a
/// trailing carriage return.
pub open spec fn line_seqs(s: Seq<u8>) -> Seq<Seq<u8>>
    decreases s.len(),
{
    if s.len() == 0 {
        seq![]
    } else {
        let i = find_nl(s);
        if 0 <= i < s.len() {
            seq![strip_cr(s.subrange(0, i))] + line_seqs(s.subrange(i + 1, s.len() as int))
        } else {
            seq![s]
        }
    }
}

/// The byte stream that writing each line followed by a newline produces.
pub open spec fn joined(lines: Seq<Seq<u8>>) -> Seq<u8>
    decreases lines.len(),
{
    if lines.len() == 0 {
        seq![]
    } else {
        lines[0] + seq![10u8] + joined(lines.skip(1))
    }
}

/// True when `l` holds no newline byte.
pub open spec fn no_nl(l: Seq<u8>) -> bool {
    forall|j: int| 0 <= j < l.len() ==> l[j] != 10u8
}

/// A sequence that can stand as one written line: it holds no newline byte
/// and does not end in a carriage return, so reading it back recovers it
/// exactly.
pub open spec fn is_exact_line(l: Seq<u8>) -> bool {
    no_nl(l) && !ends_in_cr(l)
}

/// `find_nl` finds the first newline: a non-negative result points at a
/// newline byte with none before it, and -1 means the stream holds none.
pub proof fn lemma_find_nl(s: Seq<u8>)
    ensures
        -1 <= find_nl(s) < s.len(),
        find_nl(s) >= 0 ==> s[find_nl(s)] == 10u8,
        forall|j: int| 0 <= j < s.len() && s[j] == 10u8 ==> 0 <= find_nl(s) <= j,
    decreases s.len(),
{
    if s.len() > 0 && s[0] != 10u8 {
        lemma_find_nl(s.skip(1));
        assert(forall|j: int| 1 <= j < s.len() ==> s.skip(1)[j - 1] == s[j]);
    }
}

/// `find_nl` returns the position of a newline whenever nothing before that
/// position is a newline.
pub proof fn lemma_find_nl_at(s: Seq<u8>, k: int)
    requires
        0 <= k < s.len(),
        s[k] == 10u8,
        forall|j: int| 0 <= j < k ==> s[j] != 10u8,
    ensures
        find_nl(s) == k,
    decreases s.len(),
{
    if k > 0 {
        assert(forall|j: int| 0 <= j < k - 1 ==> s.skip(1)[j] == s[j + 1]);
        lemma_find_nl_at(s.skip(1), k - 1);
    }
}

/// A stream without newlines is one single line, kept byte for byte.
pub proof fn lemma_line_seqs_no_nl(s: Seq<u8>)
    requires
        s.len() > 0,
        forall|j: int| 0 <= j < s.len() ==> s[j] != 10u8,
    ensures
        line_seqs(s) == seq![s],
{
    lemma_find_nl(s);
    if find_nl(s) >= 0 {
        assert(s[find_nl(s)] == 10u8);
    }
}

/// Splitting at the first newline peels off one line.
pub proof fn lemma_line_seqs_split_at_nl(s: Seq<u8>, k: int)
    requires
        0 <= k < s.len(),
        s[k] == 10u8,
        forall|j: int| 0 <= j < k ==> s[j] != 10u8,
    ensures
        line_seqs(s) == seq![strip_cr(s.subrange(0, k))] + line_seqs(
            s.subrange(k + 1, s.len() as int),
        ),
{
    lemma_find_nl_at(s, k);
}

/// `strip_cr` keeps every byte it keeps in place, so a line without newlines
/// stays without newlines.
pub proof fn lemma_strip_cr_no_nl(l: Seq<u8>)
    requires
        no_nl(l),
    ensures
        no_nl(strip_cr(l)),
{
    assert(forall|j: int| 0 <= j < strip_cr(l).len() ==> strip_cr(l)[j] == l[j]);
}

/// Every line that `line_seqs` yields is free of newline bytes.
pub proof fn lemma_line_seqs_no_nl_in_lines(s: Seq<u8>)
    ensures
        forall|i: int| 0 <= i < line_seqs(s).len() ==> no_nl(#[trigger] line_seqs(s)[i]),
    decreases s.len(),
{
    if s.len() > 0 {
        lemma_find_nl(s);
        let i = find_nl(s);
        if 0 <= i < s.len() {
            let head = s.subrange(0, i);
            assert(no_nl(head)) by {
                assert(forall|j: int| 0 <= j < head.len() ==> head[j] == s[j] && head[j] != 10u8);
            }
            lemma_strip_cr_no_nl(head);
            let rest = s.subrange(i + 1, s.len() as int);
            lemma_line_seqs_no_nl_in_lines(rest);
            assert(line_seqs(s) == seq![strip_cr(head)] + line_seqs(rest));
            assert(forall|k: int|
                0 <= k < line_seqs(rest).len() ==> line_seqs(s)[k + 1] == #[trigger] line_seqs(
                    rest,
                )[k]);
            assert(line_seqs(s)[0] == strip_cr(head));
        } else {
            assert(no_nl(s));
            assert(line_seqs(s) == seq![s]);
            assert(line_seqs(s)[0] == s);
        }
    }
}

/// Appending one line to a joined stream appends its bytes and a newline.
pub proof fn lemma_joined_push(lines: Seq<Seq<u8>>, l: Seq<u8>)
    ensures
        joined(lines.push(l)) == joined(lines) + l + seq![10u8],
    decreases lines.len(),
{
    if lines.len() == 0 {
        let pushed = lines.push(l);
        assert(pushed.len() == 1);
        assert(pushed[0] == l);
        assert(pushed.skip(1) =~= Seq::<Seq<u8>>::empty());
        assert(joined(pushed.skip(1)) =~= Seq::<u8>::empty());
        assert(joined(pushed) == pushed[0] + seq![10u8] + joined(pushed.skip(1)));
        assert(joined(lines.push(l)) =~= l + seq![10u8]);
        assert(joined(lines) + l + seq![10u8] =~= l + seq![10u8]);
    } else {
        assert(lines.push(l).skip(1) =~= lines.skip(1).push(l));
        lemma_joined_push(lines.skip(1), l);
        assert(joined(lines.push(l)) =~= joined(lines) + l + seq![10u8]);
    }
}

/// Law: writing lines out and reading them back is the identity, for every
/// sequence of exact lines. A line that holds a newline or ends in a carriage
/// return cannot come back unchanged, so those stand outside the law.
pub proof fn lemma_lines_round_trip(lines: Seq<Seq<u8>>)
    requires
        forall|i: int| 0 <= i < lines.len() ==> is_exact_line(#[trigger] lines[i]),
    ensures
        line_seqs(joined(lines)) == lines,
    decreases lines.len(),
{
    if lines.len() > 0 {
        let s = joined(lines);
        let head = lines[0];
        let k = head.len() as int;
        assert(s =~= head + seq![10u8] + joined(lines.skip(1)));
        assert(s[k] == 10u8);
        assert(forall|j: int| 0 <= j < k ==> s[j] == head[j] && s[j] != 10u8);
        lemma_line_seqs_split_at_nl(s, k);
        assert(s.subrange(0, k) =~= head);
        assert(strip_cr(head) == head);
        assert(s.subrange(k + 1, s.len() as int) =~= joined(lines.skip(1)));
        lemma_lines_round_trip(lines.skip(1));
        assert(line_seqs(s) =~= lines);
    }
}

/// Law: the lines that a stream of freshly written lines yields are the lines
/// it was written from, provided none of them ended in a carriage return. The
/// lines of an arbitrary stream never hold a newline, so only the
/// carriage-return condition is asked for.
pub proof fn lemma_stream_round_trip(s: Seq<u8>)
    requires
        forall|i: int| 0 <= i < line_seqs(s).len() ==> !ends_in_cr(#[trigger] line_seqs(s)[i]),
    ensures
        line_seqs(joined(line_seqs(s))) == line_seqs(s),
{
    lemma_line_seqs_no_nl_in_lines(s);
    assert(forall|i: int| 0 <= i < line_seqs(s).len() ==> is_exact_line(#[trigger] line_seqs(s)[i]));
    lemma_lines_round_trip(line_seqs(s));
}

} // verus!
