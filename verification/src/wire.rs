//! Replies and frames as bytes, and the laws that tie them to the parser.
use vstd::prelude::*;
use vstd::utf8::*;

use crate::numbers::{
    all_digits, decimal_digits, is_digit, law_digits_read_back, numeral, push_decimal,
};
use crate::readings::ParseEnv;
use crate::resp::{
    array_command, crlf_from, lemma_crlf_from, lemma_crlf_is, length_of, line_ends,
    parse_step, scan_array, scan_bulks, Scan,
};

verus! {

/// The end of a line.
pub open spec fn crlf() -> Seq<u8> {
    seq![13u8, 10u8]
}

/// A line that opens with a mark and holds a number.
pub open spec fn count_line(mark: u8, n: nat) -> Seq<u8> {
    seq![mark] + decimal_digits(n) + crlf()
}

/// A bulk string.
pub open spec fn bulk(x: Seq<u8>) -> Seq<u8> {
    count_line(36, x.len()) + x + crlf()
}

/// The bulk string that stands for nothing.
pub open spec fn null_bulk() -> Seq<u8> {
    seq![36u8, 45u8, 49u8, 13u8, 10u8]
}

/// Bulk strings, one behind the other.
pub open spec fn bulks(a: Seq<Seq<u8>>) -> Seq<u8>
    decreases a.len(),
{
    if a.len() == 0 {
        Seq::empty()
    } else {
        bulk(a[0]) + bulks(a.skip(1))
    }
}

/// An array of bulk strings: the frame of a command.
pub open spec fn array_of_bulks(a: Seq<Seq<u8>>) -> Seq<u8> {
    count_line(42, a.len()) + bulks(a)
}

/// Appends the line that opens an array of `n` items.
pub fn write_resp_array_header(out: &mut Vec<u8>, n: usize)
    ensures
        final(out)@ == old(out)@ + count_line(42, n as nat),
{
    write_count_line(out, 42, n)
}

/// Appends a line that opens with a mark and holds a number.
pub(crate) fn write_count_line(out: &mut Vec<u8>, mark: u8, n: usize)
    ensures
        final(out)@ == old(out)@ + count_line(mark, n as nat),
{
    write_number_line(out, mark, n as u64)
}

/// Appends a line that opens with a mark and holds a number.
pub(crate) fn write_number_line(out: &mut Vec<u8>, mark: u8, n: u64)
    ensures
        final(out)@ == old(out)@ + count_line(mark, n as nat),
{
    out.push(mark);
    push_decimal(out, n);
    out.push(13);
    out.push(10);
    assert(out@ =~= old(out)@ + count_line(mark, n as nat));
}

/// Appends a word as a bulk string.
pub(crate) fn write_word(out: &mut Vec<u8>, word: &str)
    ensures
        final(out)@ == old(out)@ + bulk(encode_utf8(word@)),
{
    write_resp_bulk(out, word.as_bytes())
}

/// Appends a bulk string.
pub fn write_resp_bulk(out: &mut Vec<u8>, x: &[u8])
    ensures
        final(out)@ == old(out)@ + bulk(x@),
{
    write_count_line(out, 36, x.len());
    out.extend_from_slice(x);
    out.push(13);
    out.push(10);
    assert(out@ =~= old(out)@ + bulk(x@));
}

/// Appends the bulk string that stands for nothing.
pub fn write_resp_null(out: &mut Vec<u8>)
    ensures
        final(out)@ == old(out)@ + null_bulk(),
{
    out.push(36);
    out.push(45);
    out.push(49);
    out.push(13);
    out.push(10);
    assert(out@ =~= old(out)@ + null_bulk());
}

/// The digits of a number are digits.
proof fn lemma_digits(n: nat)
    ensures
        all_digits(decimal_digits(n)),
        decimal_digits(n).len() > 0,
{
    law_digits_read_back(n);
}

/// Where a line that opens with a mark and holds a number stands in `b`, its end is the first one
/// from its mark on, if the bytes reach so far, and there is none if they do not; between mark and
/// end stands the number.
pub(crate) proof fn lemma_count_line(b: Seq<u8>, pos: int, mark: u8, n: nat, whole: Seq<u8>)
    requires
        0 <= pos <= b.len() <= whole.len(),
        b == whole.take(b.len() as int),
        mark != 13,
        n <= usize::MAX,
        pos + count_line(mark, n).len() <= whole.len(),
        whole.subrange(pos, pos + count_line(mark, n).len()) == count_line(mark, n),
    ensures
        ({
            let c = pos + 1 + decimal_digits(n).len();
            &&& pos < b.len() ==> b[pos] == mark
            &&& b.len() >= c + 2 ==> crlf_from(b, pos) == Some(c) && length_of(
                b.subrange(pos + 1, c),
            ) == Some(n as int)
            &&& b.len() < c + 2 ==> crlf_from(b, pos) is None
        }),
{
    let d = decimal_digits(n);
    let line = count_line(mark, n);
    let c = pos + 1 + d.len();
    lemma_digits(n);
    law_digits_read_back(n);
    assert(line.len() == 1 + d.len() + 2);
    assert(line[0] == mark);
    assert forall|i: int| 0 <= i < d.len() implies line[1 + i] == d[i] by {}
    assert(line[1 + d.len() as int] == 13);
    assert(line[2 + d.len() as int] == 10);
    assert forall|i: int| 0 <= i < line.len() && pos + i < b.len() implies b[pos + i] == line[i] by {
        assert(whole.subrange(pos, pos + line.len())[i] == whole[pos + i]);
        assert(b[pos + i] == whole[pos + i]);
    }
    if pos < b.len() {
        assert(b[pos + 0] == line[0]);
    }
    assert forall|q: int| pos <= q < c implies !line_ends(b, q) by {
        if q < b.len() {
            assert(b[pos + (q - pos)] == line[q - pos]);
            if q > pos {
                assert(line[1 + (q - pos - 1)] == d[q - pos - 1]);
                assert(is_digit(d[q - pos - 1]));
            }
        }
    }
    if b.len() >= c + 2 {
        assert(b[pos + (1 + d.len())] == line[(1 + d.len()) as int]);
        assert(b[pos + (2 + d.len())] == line[(2 + d.len()) as int]);
        lemma_crlf_is(b, pos, c);
        assert(b.subrange(pos + 1, c) =~= d) by {
            assert forall|i: int| 0 <= i < d.len() implies b.subrange(pos + 1, c)[i] == d[i] by {
                assert(b[pos + (1 + i)] == line[1 + i]);
            }
        }
        assert(numeral(d) == Some(n));
    } else {
        lemma_crlf_from(b, pos);
        if let Some(p) = crlf_from(b, pos) {
            assert(p < c ==> !line_ends(b, p));
            assert(line_ends(b, p));
            assert(p + 1 < b.len());
            assert(false);
        }
    }
}

/// A scan of bulk strings finds all of them where all are there, and waits where they are cut off.
proof fn lemma_scan_bulks(
    b: Seq<u8>,
    whole: Seq<u8>,
    limit: usize,
    pos: int,
    before: Seq<Seq<u8>>,
    a: Seq<Seq<u8>>,
)
    requires
        0 <= pos <= b.len() <= whole.len(),
        b == whole.take(b.len() as int),
        pos + bulks(a).len() <= whole.len(),
        whole.subrange(pos, pos + bulks(a).len()) == bulks(a),
        forall|i: int| 0 <= i < a.len() ==> (#[trigger] a[i]).len() <= limit,
    ensures
        b.len() >= pos + bulks(a).len() ==> scan_bulks(b, limit, a.len(), pos, before)
            == Scan::Done(before + a, pos + bulks(a).len()),
        b.len() < pos + bulks(a).len() ==> scan_bulks(b, limit, a.len(), pos, before)
            == Scan::Incomplete,
    decreases a.len(),
{
    if a.len() == 0 {
        assert(before + a =~= before);
    } else {
        let x = a[0];
        let rest = a.skip(1);
        let line = count_line(36, x.len());
        let d = decimal_digits(x.len());
        let c = pos + 1 + d.len();
        let all = bulks(a);
        assert(all == bulk(x) + bulks(rest));
        assert(bulk(x) == line + x + crlf());
        assert(whole.subrange(pos, pos + line.len()) =~= line) by {
            assert forall|i: int| 0 <= i < line.len() implies whole.subrange(
                pos,
                pos + line.len(),
            )[i] == line[i] by {
                assert(whole.subrange(pos, pos + all.len())[i] == all[i]);
            }
        }
        lemma_count_line(b, pos, 36, x.len(), whole);
        if pos < b.len() && b.len() >= c + 2 + x.len() + 2 {
            let end = c + 2 + x.len();
            assert forall|i: int| 0 <= i < all.len() && pos + i < b.len() implies b[pos + i]
                == all[i] by {
                assert(whole.subrange(pos, pos + all.len())[i] == all[i]);
            }
            assert(b.subrange(c + 2, end) =~= x) by {
                assert forall|i: int| 0 <= i < x.len() implies b.subrange(c + 2, end)[i]
                    == x[i] by {
                    assert(b[pos + (line.len() + i)] == all[line.len() + i]);
                }
            }
            assert(b[pos + (line.len() + x.len())] == all[(line.len() + x.len()) as int]);
            assert(b[pos + (line.len() + x.len() + 1)] == all[(line.len() + x.len() + 1) as int]);
            assert(line_ends(b, end));
            assert(whole.subrange(end + 2, end + 2 + bulks(rest).len()) =~= bulks(rest)) by {
                assert forall|i: int| 0 <= i < bulks(rest).len() implies whole.subrange(
                    end + 2,
                    end + 2 + bulks(rest).len(),
                )[i] == bulks(rest)[i] by {
                    let j = bulk(x).len() + i;
                    assert(whole.subrange(pos, pos + all.len())[j] == all[j]);
                }
            }
            assert forall|i: int| 0 <= i < rest.len() implies (#[trigger] rest[i]).len()
                <= limit by {
                assert(rest[i] == a[i + 1]);
            }
            lemma_scan_bulks(b, whole, limit, end + 2, before.push(x), rest);
            assert(before.push(x) + rest =~= before + a);
        }
    }
}

/// A scan of a command frame finds its arguments and its end.
pub(crate) proof fn lemma_scan_frame(a: Seq<Seq<u8>>, rest: Seq<u8>, limit: usize)
    requires
        a.len() <= usize::MAX,
        forall|i: int| 0 <= i < a.len() ==> (#[trigger] a[i]).len() <= limit,
    ensures
        scan_array(array_of_bulks(a) + rest, limit) == Scan::Done(
            a,
            array_of_bulks(a).len() as int,
        ),
        (array_of_bulks(a) + rest).len() > 0,
        (array_of_bulks(a) + rest)[0] == 42,
{
    let b = array_of_bulks(a) + rest;
    let line = count_line(42, a.len());
    assert(b.take(b.len() as int) =~= b);
    assert(b.subrange(0, line.len() as int) =~= line);
    lemma_count_line(b, 0, 42, a.len(), b);
    let pos = line.len() as int;
    assert(b.subrange(pos, pos + bulks(a).len()) =~= bulks(a));
    lemma_scan_bulks(b, b, limit, pos, Seq::empty(), a);
    assert(Seq::<Seq<u8>>::empty() + a =~= a);
}

/// What the parser reads of a command frame is what was written: the arguments, and where the
/// frame ends, whatever follows it.
#[verifier::spinoff_prover]
pub proof fn law_frame_round_trip(a: Seq<Seq<u8>>, rest: Seq<u8>, env: &ParseEnv)
    requires
        a.len() <= usize::MAX,
        forall|i: int| 0 <= i < a.len() ==> (#[trigger] a[i]).len() <= env.max_bulk_len,
    ensures
        scan_array(array_of_bulks(a) + rest, env.max_bulk_len) == Scan::Done(
            a,
            array_of_bulks(a).len() as int,
        ),
        parse_step(array_of_bulks(a) + rest, env) == (
            array_command(a, env),
            array_of_bulks(a).len() as int,
        ),
{
    lemma_scan_frame(a, rest, env.max_bulk_len);
}

/// A command frame that is cut off anywhere is left in the buffer, and no command comes of it.
#[verifier::spinoff_prover]
pub proof fn law_cut_frame_waits(a: Seq<Seq<u8>>, k: int, env: &ParseEnv)
    requires
        a.len() <= usize::MAX,
        forall|i: int| 0 <= i < a.len() ==> (#[trigger] a[i]).len() <= env.max_bulk_len,
        0 <= k < array_of_bulks(a).len(),
    ensures
        parse_step(array_of_bulks(a).take(k), env) == (Ok::<
            Option<crate::command::CommandView>,
            Seq<char>,
        >(None), 0int),
{
    let whole = array_of_bulks(a);
    let b = whole.take(k);
    let line = count_line(42, a.len());
    assert(whole.subrange(0, line.len() as int) =~= line);
    lemma_count_line(b, 0, 42, a.len(), whole);
    if k >= line.len() {
        let pos = line.len() as int;
        assert(whole.subrange(pos, pos + bulks(a).len()) =~= bulks(a));
        lemma_scan_bulks(b, whole, env.max_bulk_len, pos, Seq::empty(), a);
    }
}

/// Frames that are not what they should be are refused, and nothing of them is taken: where an argument
/// does not begin with a dollar sign, where it is longer than the limit, and where it does not end
/// with the end of a line.
pub proof fn law_bad_frames_are_refused(
    n: nat,
    rest: Seq<u8>,
    x: Seq<u8>,
    len: nat,
    limit: usize,
)
    requires
        0 < n <= usize::MAX,
        len <= usize::MAX,
    ensures
        rest.len() > 0 && rest[0] != 36 ==> scan_array(count_line(42, n) + rest, limit) == Scan::Bad(
            "Expected bulk string in command array"@,
        ),
        len > limit ==> scan_array(count_line(42, n) + (count_line(36, len) + rest), limit)
            == Scan::Bad("Protocol error: excessive bulk string length"@),
        x.len() <= limit && rest.len() >= 2 && !(rest[0] == 13 && rest[1] == 10) ==> scan_array(
            count_line(42, n) + (count_line(36, x.len()) + x + rest),
            limit,
        ) == Scan::Bad("Expected CRLF after bulk string data"@),
        rest.len() < 2 && x.len() <= limit ==> scan_array(
            count_line(42, n) + (count_line(36, x.len()) + x + rest),
            limit,
        ) == Scan::Incomplete,
{
    let head = count_line(42, n);
    let p = head.len() as int;
    lemma_headed(head, rest, n);
    let b2 = count_line(36, len) + rest;
    lemma_headed(head, b2, n);
    let w2 = head + b2;
    assert(w2.take(w2.len() as int) =~= w2);
    assert(w2.subrange(p, p + count_line(36, len).len()) =~= count_line(36, len));
    lemma_count_line(w2, p, 36, len, w2);
    let line = count_line(36, x.len());
    let b3 = line + x + rest;
    lemma_headed(head, b3, n);
    let w3 = head + b3;
    if x.len() <= limit {
        assert(w3.take(w3.len() as int) =~= w3);
        assert(w3.subrange(p, p + line.len()) =~= line);
        lemma_count_line(w3, p, 36, x.len(), w3);
        let end = p + line.len() + x.len();
        if rest.len() >= 2 {
            assert(w3[end] == rest[0]);
            assert(w3[end + 1] == rest[1]);
        }
    }
}

/// What follows the line that opens an array is read as its arguments.
proof fn lemma_headed(head: Seq<u8>, rest: Seq<u8>, n: nat)
    requires
        head == count_line(42, n),
        n <= usize::MAX,
    ensures
        forall|limit: usize| #[trigger]
            scan_array(head + rest, limit) == scan_bulks(
                head + rest,
                limit,
                n,
                head.len() as int,
                Seq::empty(),
            ),
        rest.len() > 0 ==> (head + rest)[head.len() as int] == rest[0],
{
    let b = head + rest;
    assert(b.take(b.len() as int) =~= b);
    assert(b.subrange(0, head.len() as int) =~= head);
    lemma_count_line(b, 0, 42, n, b);
}

} // verus!
