//! What lines stand for: inline commands, and the storage commands of the memcached protocol.
use vstd::prelude::*;

use crate::command::CommandView;
use crate::numbers::{decimal_digits, is_digit, law_digits_read_back, u32_of, usize_of};
use crate::readings::ParseEnv;
use crate::resp::{
    blank_from, build_command_spec, crlf_from, inline_step, is_blank, lemma_blank_from,
    lemma_crlf_is, line_ends, parse_step, scan_storage, words_from, Storage,
};
use crate::text::spells;
use crate::wire::crlf;

verus! {

/// A word: bytes, but no blank and no carriage return.
pub open spec fn is_word(w: Seq<u8>) -> bool {
    w.len() > 0 && forall|i: int|
        0 <= i < w.len() ==> #[trigger] w[i] != 32 && w[i] != 9 && w[i] != 13
}

/// Words with a space between each two of them.
pub open spec fn line_of(words: Seq<Seq<u8>>) -> Seq<u8>
    decreases words.len(),
{
    if words.len() == 0 {
        Seq::empty()
    } else if words.len() == 1 {
        words[0]
    } else {
        words[0] + seq![32u8] + line_of(words.skip(1))
    }
}

/// Each is a word.
pub open spec fn all_words(words: Seq<Seq<u8>>) -> bool {
    forall|i: int| 0 <= i < words.len() ==> is_word(#[trigger] words[i])
}

/// The first blank behind bytes that stand in front.
proof fn lemma_blank_shift(p: Seq<u8>, s: Seq<u8>, i: int)
    requires
        0 <= i <= s.len(),
    ensures
        blank_from(p + s, p.len() + i) == p.len() + blank_from(s, i),
    decreases s.len() - i,
{
    if i < s.len() {
        assert((p + s)[p.len() + i] == s[i]);
        if !is_blank(s[i]) {
            lemma_blank_shift(p, s, i + 1);
        }
    }
}

/// The words behind bytes that stand in front.
proof fn lemma_words_shift(p: Seq<u8>, s: Seq<u8>, i: int)
    requires
        0 <= i <= s.len(),
    ensures
        words_from(p + s, p.len() + i) == words_from(s, i),
    decreases s.len() - i,
{
    if i < s.len() {
        assert((p + s)[p.len() + i] == s[i]);
        if is_blank(s[i]) {
            lemma_words_shift(p, s, i + 1);
        } else {
            lemma_blank_shift(p, s, i);
            lemma_blank_from(s, i);
            let e = blank_from(s, i);
            lemma_words_shift(p, s, e);
            assert((p + s).subrange(p.len() + i, p.len() + e) =~= s.subrange(i, e));
        }
    }
}

/// A word reaches to the blank behind it.
proof fn lemma_word_end(w: Seq<u8>, rest: Seq<u8>, i: int)
    requires
        is_word(w),
        0 <= i <= w.len(),
        rest.len() == 0 || is_blank(rest[0]),
    ensures
        blank_from(w + rest, i) == w.len(),
    decreases w.len() - i,
{
    if i < w.len() {
        assert((w + rest)[i] == w[i]);
        lemma_word_end(w, rest, i + 1);
    } else if rest.len() > 0 {
        assert((w + rest)[i] == rest[0]);
    }
}

/// The words of a line are the words that it was made of.
pub proof fn law_line_reads_back(words: Seq<Seq<u8>>)
    requires
        all_words(words),
    ensures
        words_from(line_of(words), 0) == words,
    decreases words.len(),
{
    let line = line_of(words);
    if words.len() == 0 {
        assert(words_from(line, 0) =~= words);
    } else {
        let w = words[0];
        assert(is_word(words[0]));
        if words.len() == 1 {
            assert(w + Seq::<u8>::empty() =~= w);
            lemma_word_end(w, Seq::empty(), 0);
            assert(w.subrange(0, w.len() as int) =~= w);
            assert(words_from(w, w.len() as int) =~= Seq::<Seq<u8>>::empty());
            assert(words_from(line, 0) =~= words);
        } else {
            let more = words.skip(1);
            let tail = line_of(more);
            let rest = seq![32u8] + tail;
            assert forall|i: int| 0 <= i < more.len() implies is_word(#[trigger] more[i]) by {
                assert(more[i] == words[i + 1]);
            }
            law_line_reads_back(more);
            assert(line =~= w + rest);
            assert((w + rest)[0] == w[0]);
            lemma_word_end(w, rest, 0);
            assert((w + rest).subrange(0, w.len() as int) =~= w);
            assert((w + rest)[w.len() as int] == 32);
            lemma_words_shift(w + seq![32u8], tail, 0);
            assert(w + seq![32u8] + tail =~= w + rest);
            assert(words_from(w + rest, w.len() as int) == words_from(
                w + rest,
                w.len() as int + 1,
            ));
            assert(seq![w] + more =~= words);
        }
    }
}

/// A line of words has no carriage return, and is as long as it looks.
proof fn lemma_line_plain(words: Seq<Seq<u8>>)
    requires
        all_words(words),
    ensures
        forall|i: int| 0 <= i < line_of(words).len() ==> #[trigger] line_of(words)[i] != 13,
        words.len() > 0 ==> line_of(words).len() >= words[0].len() && line_of(words)[0]
            == words[0][0],
        words.len() > 1 ==> blank_from(line_of(words), 0) == words[0].len()
            && line_of(words).take(words[0].len() as int) == words[0] && line_of(words).len()
            > words[0].len(),
        words.len() == 1 ==> blank_from(line_of(words), 0) == line_of(words).len(),
    decreases words.len(),
{
    if words.len() > 0 {
        let w = words[0];
        assert(is_word(words[0]));
        if words.len() > 1 {
            let more = words.skip(1);
            assert forall|i: int| 0 <= i < more.len() implies is_word(#[trigger] more[i]) by {
                assert(more[i] == words[i + 1]);
            }
            lemma_line_plain(more);
            let rest = seq![32u8] + line_of(more);
            assert(line_of(words) =~= w + rest);
            lemma_word_end(w, rest, 0);
            assert((w + rest).take(w.len() as int) =~= w);
        } else {
            assert(w + Seq::<u8>::empty() =~= w);
            lemma_word_end(w, Seq::empty(), 0);
        }
    }
}

/// An inline command is the command of its words, and takes its line and no more, whatever follows;
/// without the end of its line it waits. A line that opens a storage command is another matter.
pub proof fn law_inline_command(words: Seq<Seq<u8>>, rest: Seq<u8>, env: &ParseEnv)
    requires
        all_words(words),
        words.len() > 0,
        words[0][0] != 42,
        words.len() < 5 || !(spells(words[0], "SET"@) || spells(words[0], "ADD"@) || spells(
            words[0],
            "REPLACE"@,
        )),
    ensures
        scan_storage(line_of(words) + crlf() + rest) == Storage::Other,
        inline_step(line_of(words) + crlf() + rest, env) == (
            build_command_spec(words, env),
            line_of(words).len() as int + 2,
        ),
        crlf_from(line_of(words), 0) is None,
{
    let line = line_of(words);
    let b = line + crlf() + rest;
    let n = line.len() as int;
    lemma_line_plain(words);
    law_line_reads_back(words);
    assert(b[n] == 13 && b[n + 1] == 10);
    assert forall|q: int| 0 <= q < n implies !line_ends(b, q) by {
        assert(b[q] == line[q]);
    }
    lemma_crlf_is(b, 0, n);
    assert(b.take(n) =~= line);
    crate::resp::lemma_crlf_from(line, 0);
    if let Some(p) = crlf_from(line, 0) {
        assert(line[p] == 13);
    }
}

/// A whole inline command is read as such by the parser.
#[verifier::spinoff_prover]
pub proof fn law_inline_step(words: Seq<Seq<u8>>, rest: Seq<u8>, env: &ParseEnv)
    requires
        all_words(words),
        words.len() > 0,
        words[0][0] != 42,
        words.len() < 5 || !(spells(words[0], "SET"@) || spells(words[0], "ADD"@) || spells(
            words[0],
            "REPLACE"@,
        )),
    ensures
        parse_step(line_of(words) + crlf() + rest, env) == inline_step(
            line_of(words) + crlf() + rest,
            env,
        ),
{
    law_inline_command(words, rest, env);
    lemma_line_plain(words);
    assert((line_of(words) + crlf() + rest)[0] == words[0][0]);
}

/// The digits of a number are a word, and are read as the number.
proof fn lemma_number_word(n: nat)
    ensures
        is_word(decimal_digits(n)),
        n <= u32::MAX ==> u32_of(decimal_digits(n)) == Some(n as u32),
        n <= usize::MAX ==> usize_of(decimal_digits(n)) == Some(n as usize),
{
    law_digits_read_back(n);
    let d = decimal_digits(n);
    assert forall|i: int| 0 <= i < d.len() implies #[trigger] d[i] != 32 && d[i] != 9 && d[i]
        != 13 by {
        assert(is_digit(d[i]));
    }
    assert(is_digit(d[0]));
}

/// A storage command stores the block of data that follows its line under its key, with its flags and
/// its time of expiry: `set` always, `add` where there is none and `replace` where there is one. It
/// takes its line, its data and the end of that, and no more; and it is quiet where it says so.
pub proof fn law_storage_command(
    name: Seq<u8>,
    key: Seq<u8>,
    flags: u32,
    exptime: u32,
    data: Seq<u8>,
    quiet: Seq<u8>,
    rest: Seq<u8>,
)
    requires
        is_word(name),
        is_word(key),
        is_word(quiet),
        data.len() <= usize::MAX,
        spells(name, "SET"@) || spells(name, "ADD"@) || spells(name, "REPLACE"@),
    ensures
        ({
            let words = seq![
                name,
                key,
                decimal_digits(flags as nat),
                decimal_digits(exptime as nat),
                decimal_digits(data.len()),
            ];
            &&& stores(words, name, key, flags, exptime, data, false, rest)
            &&& stores(
                words.push(quiet),
                name,
                key,
                flags,
                exptime,
                data,
                spells(quiet, "NOREPLY"@),
                rest,
            )
        }),
{
    let words = seq![
        name,
        key,
        decimal_digits(flags as nat),
        decimal_digits(exptime as nat),
        decimal_digits(data.len()),
    ];
    lemma_number_word(flags as nat);
    lemma_number_word(exptime as nat);
    lemma_number_word(data.len());
    lemma_stores(words, name, key, flags, exptime, data, false, rest);
    lemma_stores(
        words.push(quiet),
        name,
        key,
        flags,
        exptime,
        data,
        spells(quiet, "NOREPLY"@),
        rest,
    );
}

/// Whether a line of words, a block of data and what follows are read as a storage command.
pub open spec fn stores(
    words: Seq<Seq<u8>>,
    name: Seq<u8>,
    key: Seq<u8>,
    flags: u32,
    exptime: u32,
    data: Seq<u8>,
    noreply: bool,
    rest: Seq<u8>,
) -> bool {
    scan_storage(line_of(words) + crlf() + (data + crlf() + rest)) == Storage::Done(
        if spells(name, "SET"@) {
            CommandView::MemcachedSet {
                key,
                flags,
                exptime,
                bytes: data.len() as usize,
                noreply,
                data,
            }
        } else if spells(name, "ADD"@) {
            CommandView::MemcachedAdd {
                key,
                flags,
                exptime,
                bytes: data.len() as usize,
                noreply,
                data,
            }
        } else {
            CommandView::MemcachedReplace {
                key,
                flags,
                exptime,
                bytes: data.len() as usize,
                noreply,
                data,
            }
        },
        line_of(words).len() as int + 2 + data.len() + 2,
    )
}

/// A storage command with its words.
proof fn lemma_stores(
    words: Seq<Seq<u8>>,
    name: Seq<u8>,
    key: Seq<u8>,
    flags: u32,
    exptime: u32,
    data: Seq<u8>,
    noreply: bool,
    rest: Seq<u8>,
)
    requires
        all_words(words),
        words.len() >= 5,
        words[0] == name,
        words[1] == key,
        u32_of(words[2]) == Some(flags),
        u32_of(words[3]) == Some(exptime),
        usize_of(words[4]) == Some(data.len() as usize),
        data.len() <= usize::MAX,
        noreply == (words.len() > 5 && spells(words[5], "NOREPLY"@)),
        spells(name, "SET"@) || spells(name, "ADD"@) || spells(name, "REPLACE"@),
    ensures
        stores(words, name, key, flags, exptime, data, noreply, rest),
{
    let line = line_of(words);
    let b = line + crlf() + (data + crlf() + rest);
    let n = line.len() as int;
    lemma_line_plain(words);
    law_line_reads_back(words);
    assert(b[n] == 13 && b[n + 1] == 10);
    assert forall|q: int| 0 <= q < n implies !line_ends(b, q) by {
        assert(b[q] == line[q]);
    }
    lemma_crlf_is(b, 0, n);
    assert(b.take(n) =~= line);
    let start = n + 2;
    assert(b.subrange(start, start + data.len()) =~= data);
    assert(b[start + data.len()] == 13 && b[start + data.len() + 1] == 10);
    assert(line_ends(b, start + data.len()));
}

} // verus!
