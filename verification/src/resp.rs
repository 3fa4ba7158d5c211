//! The wire protocol: arrays of bulk strings, inline commands, and the storage commands of the
//! memcached text protocol.
use bytes::{Bytes, BytesMut};
use vstd::prelude::*;
use vstd::utf8::*;

use crate::build::{claimed, named_command, named_command_spec};
use crate::command::{Command, CommandView};
use crate::lists::{contents, push_key, ScoreList};
use crate::numbers::{
    numeral, parse_decimal_bytes, read_u32, read_usize, u32_of, usize_of,
};
use crate::octets::{advance, buffered, bytes_from_vec, content, slice_bytes};
use crate::operands::ZAddFlags;
use crate::readings::{double_of, ParseEnv};
use crate::text::{
    decode_lossy, lemma_same_letters, lossy_text, same_letters, spells, spells_word, to_upper,
    upper_word,
};

verus! {

/// The limit on the length of one argument that a server starts with.
pub const PROTO_MAX_BULK_LEN: usize = 536870912;

/// The greatest length of one argument.
pub fn get_proto_max_bulk_len(env: &ParseEnv) -> (r: usize)
    ensures
        r == env.max_bulk_len,
{
    env.max_bulk_len
}

/// Sets the greatest length of one argument.
pub fn set_proto_max_bulk_len(env: &mut ParseEnv, val: usize)
    ensures
        *final(env) == (ParseEnv { max_bulk_len: val, ..*old(env) }),
{
    env.max_bulk_len = val;
}

/// What a parse came to, as contracts see it.
pub open spec fn parsed(r: Result<Option<Command>, String>) -> Result<
    Option<CommandView>,
    Seq<char>,
> {
    match r {
        Ok(Some(c)) => Ok(Some(c@)),
        Ok(None) => Ok(None),
        Err(e) => Err(e@),
    }
}

/// The upper-case form of a word.
pub fn bytes_to_uppercase_ascii(bytes: &[u8]) -> (r: String)
    ensures
        r@ == upper_word(bytes@),
{
    let s: String = decode_lossy(bytes);
    assert(s@ == lossy_text(bytes@));
    to_upper(s.as_str())
}

/// Arguments whose first, which names the command, has been read and is set aside.
pub open spec fn unnamed(a: Seq<Seq<u8>>) -> Seq<Seq<u8>> {
    a.update(0, Seq::empty())
}

/// The command that arguments stand for: none where there are none, and else the command that the
/// first of them names.
pub open spec fn build_command_spec(a: Seq<Seq<u8>>, env: &ParseEnv) -> Result<
    Option<CommandView>,
    Seq<char>,
> {
    if a.len() == 0 {
        Ok(None)
    } else {
        match named_command_spec(upper_word(a[0]), unnamed(a), env) {
            Ok(c) => Ok(Some(c)),
            Err(e) => Err(e),
        }
    }
}

/// The command that arguments stand for.
pub fn build_command(args: Vec<Bytes>, env: &ParseEnv) -> (r: Result<Option<Command>, String>)
    ensures
        parsed(r) == build_command_spec(contents(args@), env),
{
    if args.len() == 0 {
        return Ok(None);
    }
    let name: String = bytes_to_uppercase_ascii(args[0].as_ref());
    let mut rest: Vec<Bytes> = args;
    rest.set(0, bytes_from_vec(Vec::new()));
    assert(contents(rest@) =~= unnamed(contents(args@)));
    match named_command(name.as_str(), &rest, env) {
        Ok(c) => Ok(Some(c)),
        Err(e) => Err(e),
    }
}

/// Commands may be named in any case: names that come to the same in upper case, with the same
/// arguments behind them, make the same command or the same complaint.
pub proof fn law_case_of_names(a: Seq<Seq<u8>>, b: Seq<Seq<u8>>, env: &ParseEnv)
    requires
        a.len() == b.len(),
        a.len() > 0,
        upper_word(a[0]) == upper_word(b[0]) || same_letters(a[0], b[0]),
        forall|i: int| 1 <= i < a.len() ==> a[i] == b[i],
    ensures
        build_command_spec(a, env) == build_command_spec(b, env),
{
    assert(unnamed(a) =~= unnamed(b));
    if same_letters(a[0], b[0]) {
        lemma_same_letters(a[0], b[0]);
    }
}

/// Arguments always come to something: only where there are none is there no command. A name that
/// belongs to no family makes an unknown command, which keeps it in upper case.
pub proof fn law_every_name_is_answered(a: Seq<Seq<u8>>, env: &ParseEnv)
    ensures
        build_command_spec(a, env) == Ok::<Option<CommandView>, Seq<char>>(None) <==> a.len() == 0,
        a.len() > 0 && !claimed(upper_word(a[0]), unnamed(a), env) ==> build_command_spec(a, env)
            == Ok::<Option<CommandView>, Seq<char>>(
            Some(CommandView::Unknown(upper_word(a[0]))),
        ),
{
}

/// Whether a line ends at `p`.
pub open spec fn line_ends(b: Seq<u8>, p: int) -> bool {
    0 <= p && p + 1 < b.len() && b[p] == 13 && b[p + 1] == 10
}

/// The first place from `start` on where a line ends.
pub open spec fn crlf_from(b: Seq<u8>, start: int) -> Option<int>
    decreases b.len() - start,
{
    if start + 1 >= b.len() {
        None
    } else if line_ends(b, start) {
        Some(start)
    } else {
        crlf_from(b, start + 1)
    }
}

/// The place that [`crlf_from`] finds is the first one.
pub proof fn lemma_crlf_from(b: Seq<u8>, start: int)
    requires
        0 <= start,
    ensures
        match crlf_from(b, start) {
            Some(p) => start <= p && line_ends(b, p) && forall|q: int|
                start <= q < p ==> !line_ends(b, q),
            None => forall|q: int| start <= q ==> !line_ends(b, q),
        },
    decreases b.len() - start,
{
    if start + 1 < b.len() && !line_ends(b, start) {
        lemma_crlf_from(b, start + 1);
    }
}

/// A place that is the first one is the one that [`crlf_from`] finds.
pub proof fn lemma_crlf_is(b: Seq<u8>, start: int, p: int)
    requires
        0 <= start <= p,
        line_ends(b, p),
        forall|q: int| start <= q < p ==> !line_ends(b, q),
    ensures
        crlf_from(b, start) == Some(p),
    decreases p - start,
{
    if start < p {
        assert(!line_ends(b, start));
        lemma_crlf_is(b, start + 1, p);
    }
}

pub open spec fn place(p: Option<usize>) -> Option<int> {
    match p {
        Some(x) => Some(x as int),
        None => None,
    }
}

/// The first place where a line ends.
pub fn find_crlf(buf: &[u8]) -> (r: Option<usize>)
    ensures
        place(r) == crlf_from(buf@, 0),
{
    find_crlf_at(buf, 0)
}

/// The first place from `start` on where a line ends.
pub fn find_crlf_at(buf: &[u8], start: usize) -> (r: Option<usize>)
    ensures
        place(r) == crlf_from(buf@, start as int),
{
    let n: usize = buf.len();
    if n < 2 || start > n - 2 {
        return None;
    }
    let mut i: usize = start;
    while i < n - 1
        invariant
            n == buf.len(),
            n >= 2,
            start <= i <= n - 1,
            crlf_from(buf@, start as int) == crlf_from(buf@, i as int),
        decreases n - i,
    {
        if buf[i] == 13 && buf[i + 1] == 10 {
            return Some(i);
        }
        i = i + 1;
    }
    None
}

/// What a scan of an array's arguments came to.
pub enum Scan {
    /// More bytes are needed.
    Incomplete,
    /// The bytes are no array of bulk strings.
    Bad(Seq<char>),
    /// The arguments, and where the array ends.
    Done(Seq<Seq<u8>>, int),
}

/// The number that a line holds, if it fits.
pub open spec fn length_of(line: Seq<u8>) -> Option<int> {
    match numeral(line) {
        Some(v) => if v <= usize::MAX {
            Some(v as int)
        } else {
            None
        },
        None => None,
    }
}

/// Reads `n` bulk strings from `pos` on, behind those in `before`.
pub open spec fn scan_bulks(
    b: Seq<u8>,
    limit: usize,
    n: nat,
    pos: int,
    before: Seq<Seq<u8>>,
) -> Scan
    decreases n,
{
    if n == 0 {
        Scan::Done(before, pos)
    } else if pos >= b.len() {
        Scan::Incomplete
    } else if b[pos] != 36 {
        Scan::Bad("Expected bulk string in command array"@)
    } else {
        match crlf_from(b, pos) {
            None => Scan::Incomplete,
            Some(c) => match length_of(b.subrange(pos + 1, c)) {
                None => Scan::Bad("Invalid bulk string length"@),
                Some(len) => if len > limit {
                    Scan::Bad("Protocol error: excessive bulk string length"@)
                } else if c + 2 + len + 2 > b.len() {
                    Scan::Incomplete
                } else if !line_ends(b, c + 2 + len) {
                    Scan::Bad("Expected CRLF after bulk string data"@)
                } else {
                    scan_bulks(
                        b,
                        limit,
                        (n - 1) as nat,
                        c + 2 + len + 2,
                        before.push(b.subrange(c + 2, c + 2 + len)),
                    )
                },
            },
        }
    }
}

/// Reads the array at the front of `b`.
pub open spec fn scan_array(b: Seq<u8>, limit: usize) -> Scan {
    match crlf_from(b, 0) {
        None => Scan::Incomplete,
        Some(c) => match length_of(b.subrange(1, c)) {
            None => Scan::Bad("Invalid array length in RESP frame"@),
            Some(n) => scan_bulks(b, limit, n as nat, c + 2, Seq::empty()),
        },
    }
}

/// A scan ends within the buffer, behind where it started.
pub proof fn lemma_scan_end(b: Seq<u8>, limit: usize, n: nat, pos: int, before: Seq<Seq<u8>>)
    requires
        0 <= pos <= b.len(),
    ensures
        scan_bulks(b, limit, n, pos, before) matches Scan::Done(a, end) ==> pos <= end <= b.len()
            && a.len() == before.len() + n,
    decreases n,
{
    if n > 0 && pos < b.len() && b[pos] == 36 {
        lemma_crlf_from(b, pos);
        if let Some(c) = crlf_from(b, pos) {
            if let Some(len) = length_of(b.subrange(pos + 1, c)) {
                if len <= limit && c + 2 + len + 2 <= b.len() && line_ends(b, c + 2 + len) {
                    lemma_scan_end(
                        b,
                        limit,
                        (n - 1) as nat,
                        c + 2 + len + 2,
                        before.push(b.subrange(c + 2, c + 2 + len)),
                    );
                }
            }
        }
    }
}

/// Where the arguments of an array stand in its bytes.
struct Frame {
    /// The start and the end of each argument.
    spans: Vec<(usize, usize)>,
    /// Where the array ends.
    end: usize,
}

/// The byte strings between the given places.
pub open spec fn cut(b: Seq<u8>, spans: Seq<(usize, usize)>) -> Seq<Seq<u8>> {
    spans.map_values(|s: (usize, usize)| b.subrange(s.0 as int, s.1 as int))
}

pub open spec fn spans_within(spans: Seq<(usize, usize)>, end: int) -> bool {
    forall|i: int|
        0 <= i < spans.len() ==> (#[trigger] spans[i]).0 <= spans[i].1 && spans[i].1 <= end
}

/// What a scan of the wire came to: nothing yet, the places of the arguments, or an error.
fn scan_frame(b: &[u8], limit: usize) -> (r: Result<Option<Frame>, String>)
    requires
        b@.len() > 0,
        b@[0] == 42,
    ensures
        match scan_array(b@, limit) {
            Scan::Incomplete => r matches Ok(None),
            Scan::Bad(e) => r matches Err(m) && m@ == e,
            Scan::Done(a, end) => r matches Ok(Some(f)) && f.end == end && end <= b@.len() && cut(
                b@,
                f.spans@,
            ) == a && spans_within(f.spans@, end),
        },
{
    let c: usize = match find_crlf(b) {
        Some(c) => c,
        None => return Ok(None),
    };
    proof {
        lemma_crlf_from(b@, 0);
    }
    assert(c != 0);
    assert(c + 2 <= b.len());
    let line: &[u8] = vstd::slice::slice_subrange(b, 1, c);
    let n: usize = match parse_decimal_bytes(line) {
        Some(n) => n,
        None => return Err("Invalid array length in RESP frame".to_owned()),
    };
    let mut spans: Vec<(usize, usize)> = Vec::new();
    let mut pos: usize = c + 2;
    let mut left: usize = n;
    assert(cut(b@, spans@) =~= Seq::<Seq<u8>>::empty());
    while left > 0
        invariant
            pos <= b@.len(),
            spans_within(spans@, pos as int),
            scan_array(b@, limit) == scan_bulks(
                b@,
                limit,
                left as nat,
                pos as int,
                cut(b@, spans@),
            ),
        decreases left,
    {
        if pos >= b.len() {
            return Ok(None);
        }
        if b[pos] != 36 {
            return Err("Expected bulk string in command array".to_owned());
        }
        let c: usize = match find_crlf_at(b, pos) {
            Some(c) => c,
            None => return Ok(None),
        };
        proof {
            lemma_crlf_from(b@, pos as int);
        }
        assert(c != pos);
        let line: &[u8] = vstd::slice::slice_subrange(b, pos + 1, c);
        let len: usize = match parse_decimal_bytes(line) {
            Some(len) => len,
            None => return Err("Invalid bulk string length".to_owned()),
        };
        if len > limit {
            return Err("Protocol error: excessive bulk string length".to_owned());
        }
        let start: usize = c + 2;
        if b.len() - start < 2 || len > b.len() - start - 2 {
            return Ok(None);
        }
        let end: usize = start + len;
        if b[end] != 13 || b[end + 1] != 10 {
            return Err("Expected CRLF after bulk string data".to_owned());
        }
        let ghost before = spans@;
        spans.push((start, end));
        assert(cut(b@, spans@) =~= cut(b@, before).push(b@.subrange(start as int, end as int)));
        pos = end + 2;
        left = left - 1;
    }
    Ok(Some(Frame { spans, end: pos }))
}

/// The arguments between the given places of a frozen frame.
fn cut_frame(frame: &Bytes, spans: &Vec<(usize, usize)>) -> (r: Vec<Bytes>)
    requires
        spans_within(spans@, content(*frame).len() as int),
    ensures
        contents(r@) == cut(content(*frame), spans@),
{
    let mut args: Vec<Bytes> = Vec::with_capacity(spans.len());
    assert(contents(args@) =~= cut(content(*frame), spans@.take(0)));
    let mut i: usize = 0;
    while i < spans.len()
        invariant
            i <= spans.len(),
            spans_within(spans@, content(*frame).len() as int),
            contents(args@) == cut(content(*frame), spans@.take(i as int)),
        decreases spans.len() - i,
    {
        let arg: Bytes = slice_bytes(frame, spans[i].0, spans[i].1);
        push_key(&mut args, arg);
        i = i + 1;
        assert(contents(args@) =~= cut(content(*frame), spans@.take(i as int)));
    }
    assert(spans@.take(i as int) =~= spans@);
    args
}

/// The command of an array. A `ZADD` of one member takes any number as its score; every other
/// command is the one that its arguments stand for.
pub open spec fn array_command(a: Seq<Seq<u8>>, env: &ParseEnv) -> Result<
    Option<CommandView>,
    Seq<char>,
> {
    if a.len() == 4 && spells(a[0], "ZADD"@) && double_of(env, a[2]) is Some {
        Ok(
            Some(
                CommandView::Zadd {
                    key: a[1],
                    elements: seq![(double_of(env, a[2])->0, a[3])],
                    flags: ZAddFlags::none(),
                },
            ),
        )
    } else {
        build_command_spec(a, env)
    }
}

/// The commands of arrays may be named in any case too.
pub proof fn law_case_of_names_in_arrays(a: Seq<Seq<u8>>, b: Seq<Seq<u8>>, env: &ParseEnv)
    requires
        a.len() == b.len(),
        a.len() > 0,
        same_letters(a[0], b[0]),
        forall|i: int| 1 <= i < a.len() ==> a[i] == b[i],
    ensures
        array_command(a, env) == array_command(b, env),
{
    law_case_of_names(a, b, env);
}

fn build_array_command(args: Vec<Bytes>, env: &ParseEnv) -> (r: Result<Option<Command>, String>)
    ensures
        parsed(r) == array_command(contents(args@), env),
{
    if args.len() == 4 && spells_word(args[0].as_ref(), "ZADD") {
        match env.double(args[2].as_ref()) {
            Some(score) => {
                let mut elements: ScoreList = ScoreList::new();
                elements.push(score, args[3].clone());
                assert(crate::lists::listed_scores(elements) =~= seq![
                    (score, content(args@[3])),
                ]);
                return Ok(
                    Some(
                        Command::Zadd {
                            key: args[1].clone(),
                            elements,
                            flags: ZAddFlags::default(),
                        },
                    ),
                );
            },
            None => {},
        }
    }
    build_command(args, env)
}

/// What one step of parsing comes to, and how many bytes it takes from the buffer.
pub type Step = (Result<Option<CommandView>, Seq<char>>, int);

/// A step on an array: nothing is taken before the whole array is there, or where it is ill-formed.
pub open spec fn array_step(b: Seq<u8>, env: &ParseEnv) -> Step {
    match scan_array(b, env.max_bulk_len) {
        Scan::Incomplete => (Ok(None), 0),
        Scan::Bad(e) => (Err(e), 0),
        Scan::Done(a, end) => (array_command(a, env), end),
    }
}

fn parse_resp_array(buf: &mut BytesMut, env: &ParseEnv) -> (r: Result<Option<Command>, String>)
    requires
        buffered(*old(buf)).len() > 0,
        buffered(*old(buf))[0] == 42,
    ensures
        parsed(r) == array_step(buffered(*old(buf)), env).0,
        buffered(*final(buf)) == buffered(*old(buf)).skip(
            array_step(buffered(*old(buf)), env).1,
        ),
        0 <= array_step(buffered(*old(buf)), env).1 <= buffered(*old(buf)).len(),
{
    let ghost b = buffered(*buf);
    assert(b.skip(0) =~= b);
    let scan: Result<Option<Frame>, String> = {
        let all: &BytesMut = &*buf;
        scan_frame(all.as_ref(), env.max_bulk_len)
    };
    match scan {
        Err(e) => Err(e),
        Ok(None) => Ok(None),
        Ok(Some(f)) => {
            let frame: Bytes = buf.split_to(f.end).freeze();
            let args: Vec<Bytes> = cut_frame(&frame, &f.spans);
            assert(cut(b.take(f.end as int), f.spans@) =~= cut(b, f.spans@)) by {
                assert forall|i: int| 0 <= i < f.spans@.len() implies cut(
                    b.take(f.end as int),
                    f.spans@,
                )[i] == cut(b, f.spans@)[i] by {
                    let s = f.spans@[i];
                    assert(b.take(f.end as int).subrange(s.0 as int, s.1 as int) =~= b.subrange(
                        s.0 as int,
                        s.1 as int,
                    ));
                }
            }
            build_array_command(args, env)
        },
    }
}

/// The bytes that part the words of an inline command.
pub open spec fn is_blank(b: u8) -> bool {
    b == 32 || b == 9
}

/// The first place from `i` on that holds a blank, or the length of the line.
pub open spec fn blank_from(s: Seq<u8>, i: int) -> int
    decreases s.len() - i,
{
    if i >= s.len() || is_blank(s[i]) {
        i
    } else {
        blank_from(s, i + 1)
    }
}

pub proof fn lemma_blank_from(s: Seq<u8>, i: int)
    requires
        0 <= i <= s.len(),
    ensures
        i <= blank_from(s, i) <= s.len(),
        i < s.len() && !is_blank(s[i]) ==> i < blank_from(s, i),
    decreases s.len() - i,
{
    if i < s.len() && !is_blank(s[i]) {
        lemma_blank_from(s, i + 1);
    }
}

/// The words of a line from `i` on.
pub open spec fn words_from(s: Seq<u8>, i: int) -> Seq<Seq<u8>>
    decreases s.len() - i,
{
    if i < 0 || i >= s.len() {
        Seq::empty()
    } else if is_blank(s[i]) {
        words_from(s, i + 1)
    } else {
        proof {
            lemma_blank_from(s, i);
        }
        seq![s.subrange(i, blank_from(s, i))] + words_from(s, blank_from(s, i))
    }
}

fn find_blank(s: &[u8], from: usize) -> (r: usize)
    requires
        from <= s@.len(),
    ensures
        r == blank_from(s@, from as int),
        from <= r <= s@.len(),
{
    let mut i: usize = from;
    while i < s.len()
        invariant
            from <= i <= s@.len(),
            blank_from(s@, from as int) == blank_from(s@, i as int),
        decreases s.len() - i,
    {
        if s[i] == 32 || s[i] == 9 {
            return i;
        }
        i = i + 1;
    }
    i
}

/// The words of a line.
fn split_words(s: &[u8]) -> (r: Vec<Bytes>)
    ensures
        contents(r@) == words_from(s@, 0),
{
    let mut words: Vec<Bytes> = Vec::new();
    let mut i: usize = 0;
    assert(contents(words@) + words_from(s@, 0) =~= words_from(s@, 0));
    while i < s.len()
        invariant
            i <= s@.len(),
            contents(words@) + words_from(s@, i as int) == words_from(s@, 0),
        decreases s.len() - i,
    {
        if s[i] == 32 || s[i] == 9 {
            i = i + 1;
        } else {
            let end: usize = find_blank(s, i);
            proof {
                lemma_blank_from(s@, i as int);
            }
            let ghost before = contents(words@);
            let word: Bytes = Bytes::copy_from_slice(vstd::slice::slice_subrange(s, i, end));
            push_key(&mut words, word);
            assert(contents(words@) + words_from(s@, end as int) =~= before + (seq![
                s@.subrange(i as int, end as int),
            ] + words_from(s@, end as int)));
            i = end;
        }
    }
    assert(contents(words@) + words_from(s@, i as int) =~= contents(words@));
    words
}

/// A step on an inline command: its line is taken once it is whole.
pub open spec fn inline_step(b: Seq<u8>, env: &ParseEnv) -> Step {
    match crlf_from(b, 0) {
        None => (Ok(None), 0),
        Some(c) => (build_command_spec(words_from(b.take(c), 0), env), c + 2),
    }
}

fn parse_inline_command(buf: &mut BytesMut, env: &ParseEnv) -> (r: Result<Option<Command>, String>)
    ensures
        parsed(r) == inline_step(buffered(*old(buf)), env).0,
        buffered(*final(buf)) == buffered(*old(buf)).skip(
            inline_step(buffered(*old(buf)), env).1,
        ),
        0 <= inline_step(buffered(*old(buf)), env).1 <= buffered(*old(buf)).len(),
{
    let ghost b = buffered(*buf);
    assert(b.skip(0) =~= b);
    let found: Option<(Vec<Bytes>, usize)> = {
        let all: &BytesMut = &*buf;
        let bytes: &[u8] = all.as_ref();
        match find_crlf(bytes) {
            None => None,
            Some(c) => {
                proof {
                    lemma_crlf_from(b, 0);
                }
                let line: &[u8] = vstd::slice::slice_subrange(bytes, 0, c);
                assert(line@ =~= b.take(c as int));
                assert(c + 2 <= bytes.len());
                Some((split_words(line), c + 2))
            },
        }
    };
    match found {
        None => Ok(None),
        Some((words, end)) => {
            advance(buf, end);
            build_command(words, env)
        },
    }
}

/// What a line comes to that may open a storage command of the memcached protocol.
pub enum Storage {
    /// It opens none.
    Other,
    /// It opens one whose data block is not whole yet.
    Incomplete,
    /// It opens one whose data block does not end where it should.
    Bad,
    /// It opens one, which takes the given number of bytes.
    Done(CommandView, int),
}

/// The storage command at the front of `b`: a word that names it, a key, flags, an expiry time and
/// a length, perhaps `noreply`, and on the next line a data block of that length.
pub open spec fn scan_storage(b: Seq<u8>) -> Storage {
    match crlf_from(b, 0) {
        None => Storage::Other,
        Some(c) => {
            let line = b.take(c);
            let first = line.take(blank_from(line, 0));
            let w = words_from(line, 0);
            if blank_from(line, 0) == c || !(spells(first, "SET"@) || spells(first, "ADD"@)
                || spells(first, "REPLACE"@)) || w.len() < 5 {
                Storage::Other
            } else {
                match (u32_of(w[2]), u32_of(w[3]), usize_of(w[4])) {
                    (Some(flags), Some(exptime), Some(len)) => {
                        let start = c + 2;
                        if b.len() < start + len + 2 {
                            Storage::Incomplete
                        } else if !line_ends(b, start + len) {
                            Storage::Bad
                        } else {
                            let noreply = w.len() > 5 && spells(w[5], "NOREPLY"@);
                            let data = b.subrange(start, start + len);
                            let command = if spells(first, "SET"@) {
                                CommandView::MemcachedSet {
                                    key: w[1],
                                    flags,
                                    exptime,
                                    bytes: len,
                                    noreply,
                                    data,
                                }
                            } else if spells(first, "ADD"@) {
                                CommandView::MemcachedAdd {
                                    key: w[1],
                                    flags,
                                    exptime,
                                    bytes: len,
                                    noreply,
                                    data,
                                }
                            } else {
                                CommandView::MemcachedReplace {
                                    key: w[1],
                                    flags,
                                    exptime,
                                    bytes: len,
                                    noreply,
                                    data,
                                }
                            };
                            Storage::Done(command, start + len + 2)
                        }
                    },
                    _ => Storage::Other,
                }
            }
        },
    }
}

pub open spec fn storage_view(r: Result<Option<Option<(Command, usize)>>, String>) -> Storage {
    match r {
        Err(_) => Storage::Bad,
        Ok(None) => Storage::Other,
        Ok(Some(None)) => Storage::Incomplete,
        Ok(Some(Some((c, n)))) => Storage::Done(c@, n as int),
    }
}

/// Reads the storage command at the front of `b`.
fn read_storage(b: &[u8]) -> (r: Result<Option<Option<(Command, usize)>>, String>)
    ensures
        storage_view(r) == scan_storage(b@),
        r matches Err(e) ==> e@ == "CLIENT_ERROR bad data chunk"@,
        r matches Ok(Some(Some((_, n)))) ==> n <= b@.len(),
{
    let c: usize = match find_crlf(b) {
        Some(c) => c,
        None => return Ok(None),
    };
    proof {
        lemma_crlf_from(b@, 0);
    }
    assert(c + 2 <= b.len());
    let line: &[u8] = vstd::slice::slice_subrange(b, 0, c);
    assert(line@ =~= b@.take(c as int));
    let p: usize = find_blank(line, 0);
    if p == c {
        return Ok(None);
    }
    let first: &[u8] = vstd::slice::slice_subrange(line, 0, p);
    assert(first@ =~= line@.take(p as int));
    let is_set: bool = spells_word(first, "SET");
    let is_add: bool = spells_word(first, "ADD");
    let is_replace: bool = spells_word(first, "REPLACE");
    if !is_set && !is_add && !is_replace {
        return Ok(None);
    }
    let words: Vec<Bytes> = split_words(line);
    if words.len() < 5 {
        return Ok(None);
    }
    let flags: u32 = match read_u32(words[2].as_ref()) {
        Some(v) => v,
        None => return Ok(None),
    };
    let exptime: u32 = match read_u32(words[3].as_ref()) {
        Some(v) => v,
        None => return Ok(None),
    };
    let len: usize = match read_usize(words[4].as_ref()) {
        Some(v) => v,
        None => return Ok(None),
    };
    let noreply: bool = words.len() > 5 && spells_word(words[5].as_ref(), "NOREPLY");
    let start: usize = c + 2;
    if b.len() - start < 2 || len > b.len() - start - 2 {
        return Ok(Some(None));
    }
    let end: usize = start + len;
    if b[end] != 13 || b[end + 1] != 10 {
        return Err("CLIENT_ERROR bad data chunk".to_owned());
    }
    let key: Bytes = words[1].clone();
    let data: Bytes = Bytes::copy_from_slice(vstd::slice::slice_subrange(b, start, end));
    let command: Command = if is_set {
        Command::MemcachedSet { key, flags, exptime, bytes: len, noreply, data }
    } else if is_add {
        Command::MemcachedAdd { key, flags, exptime, bytes: len, noreply, data }
    } else {
        Command::MemcachedReplace { key, flags, exptime, bytes: len, noreply, data }
    };
    Ok(Some(Some((command, end + 2))))
}

/// Takes a storage command from the buffer: nothing where the line opens none, and nothing within
/// where its data block is not whole.
fn parse_memcached_storage_command(buf: &mut BytesMut) -> (r: Result<
    Option<Option<Command>>,
    String,
>)
    ensures
        match scan_storage(buffered(*old(buf))) {
            Storage::Other => r matches Ok(None) && buffered(*final(buf)) == buffered(*old(buf)),
            Storage::Incomplete => r matches Ok(Some(None)) && buffered(*final(buf)) == buffered(
                *old(buf),
            ),
            Storage::Bad => r matches Err(e) && e@ == "CLIENT_ERROR bad data chunk"@ && buffered(
                *final(buf),
            ) == buffered(*old(buf)),
            Storage::Done(c, n) => r matches Ok(Some(Some(x))) && x@ == c && buffered(*final(buf))
                == buffered(*old(buf)).skip(n) && 0 <= n <= buffered(*old(buf)).len(),
        },
{
    let found: Result<Option<Option<(Command, usize)>>, String> = {
        let all: &BytesMut = &*buf;
        read_storage(all.as_ref())
    };
    match found {
        Err(e) => Err(e),
        Ok(None) => Ok(None),
        Ok(Some(None)) => Ok(Some(None)),
        Ok(Some(Some((command, n)))) => {
            advance(buf, n);
            Ok(Some(Some(command)))
        },
    }
}

/// One step of parsing: what stands at the front of the buffer, and how many bytes it takes.
pub open spec fn parse_step(b: Seq<u8>, env: &ParseEnv) -> Step {
    if b.len() == 0 {
        (Ok(None), 0)
    } else if b[0] == 42 {
        array_step(b, env)
    } else {
        match scan_storage(b) {
            Storage::Done(c, n) => (Ok(Some(c)), n),
            Storage::Incomplete => (Ok(None), 0),
            Storage::Bad => (Err("CLIENT_ERROR bad data chunk"@), 0),
            Storage::Other => inline_step(b, env),
        }
    }
}

/// Takes one command from the buffer: an array of bulk strings, a storage command of the memcached
/// protocol, or an inline command.
pub fn parse_command(buf: &mut BytesMut, env: &ParseEnv) -> (r: Result<Option<Command>, String>)
    ensures
        parsed(r) == parse_step(buffered(*old(buf)), env).0,
        buffered(*final(buf)) == buffered(*old(buf)).skip(
            parse_step(buffered(*old(buf)), env).1,
        ),
        0 <= parse_step(buffered(*old(buf)), env).1 <= buffered(*old(buf)).len(),
{
    let ghost b = buffered(*buf);
    assert(b.skip(0) =~= b);
    let first: Option<u8> = {
        let all: &BytesMut = &*buf;
        let bytes: &[u8] = all.as_ref();
        if bytes.len() == 0 {
            None
        } else {
            Some(bytes[0])
        }
    };
    match first {
        None => Ok(None),
        Some(x) => if x == 42 {
            parse_resp_array(buf, env)
        } else {
            match parse_memcached_storage_command(buf) {
                Err(e) => Err(e),
                Ok(Some(Some(command))) => Ok(Some(command)),
                Ok(Some(None)) => Ok(None),
                Ok(None) => parse_inline_command(buf, env),
            }
        },
    }
}

/// The arguments that stand at the front of the buffer: those of a whole array, the words of a
/// whole line, or none. A caller reads numerals in them before it parses.
pub open spec fn waiting_arguments(b: Seq<u8>, limit: usize) -> Seq<Seq<u8>> {
    if b.len() > 0 && b[0] == 42 {
        match scan_array(b, limit) {
            Scan::Done(a, _) => a,
            _ => Seq::empty(),
        }
    } else {
        match crlf_from(b, 0) {
            Some(c) => words_from(b.take(c), 0),
            None => Seq::empty(),
        }
    }
}

/// The arguments that stand at the front of the buffer.
pub fn peek_arguments(buf: &BytesMut, limit: usize) -> (r: Vec<Bytes>)
    ensures
        contents(r@) == waiting_arguments(buffered(*buf), limit),
{
    let bytes: &[u8] = buf.as_ref();
    if bytes.len() > 0 && bytes[0] == 42 {
        match scan_frame(bytes, limit) {
            Ok(Some(f)) => {
                let frame: Bytes = Bytes::copy_from_slice(bytes);
                cut_frame(&frame, &f.spans)
            },
            _ => crate::lists::no_keys(),
        }
    } else {
        match find_crlf(bytes) {
            Some(c) => {
                proof {
                    lemma_crlf_from(bytes@, 0);
                }
                let line: &[u8] = vstd::slice::slice_subrange(bytes, 0, c);
                assert(line@ =~= bytes@.take(c as int));
                split_words(line)
            },
            None => crate::lists::no_keys(),
        }
    }
}

} // verus!
