//! Text as it is read out of byte strings: lossy decoding, upper and lower case, and the
//! comparison of words.
use bytes::Bytes;
use vstd::prelude::*;
use vstd::utf8::*;

use crate::octets::content;

verus! {

/// Whether every byte of `b` is an ASCII byte.
pub open spec fn is_ascii_seq(b: Seq<u8>) -> bool {
    forall|i: int| 0 <= i < b.len() ==> #[trigger] b[i] < 128
}

/// The characters that ASCII bytes stand for.
pub open spec fn ascii_chars(b: Seq<u8>) -> Seq<char> {
    Seq::new(b.len(), |i: int| b[i] as char)
}

pub open spec fn ascii_upper_char(c: char) -> char {
    if 'a' <= c <= 'z' {
        (c as u32 - 32) as u32 as char
    } else {
        c
    }
}

pub open spec fn ascii_lower_char(c: char) -> char {
    if 'A' <= c <= 'Z' {
        (c as u32 + 32) as u32 as char
    } else {
        c
    }
}

/// The upper-case form of an ASCII byte; any other byte is its own.
pub open spec fn upper_byte(b: u8) -> u8 {
    if 97 <= b <= 122 {
        (b - 32) as u8
    } else {
        b
    }
}

/// What `String::from_utf8_lossy` makes of bytes that are not all ASCII.
pub uninterp spec fn lossy_unicode(b: Seq<u8>) -> Seq<char>;

/// What `str::to_uppercase` makes of text that is not all ASCII.
pub uninterp spec fn upper_unicode(s: Seq<char>) -> Seq<char>;

/// What `str::to_lowercase` makes of text that is not all ASCII.
pub uninterp spec fn lower_unicode(s: Seq<char>) -> Seq<char>;

/// The text of a byte string, each ill-formed part of it replaced.
pub open spec fn lossy_text(b: Seq<u8>) -> Seq<char> {
    if is_ascii_seq(b) {
        ascii_chars(b)
    } else {
        lossy_unicode(b)
    }
}

pub open spec fn upper_text(s: Seq<char>) -> Seq<char> {
    if is_ascii_chars(s) {
        s.map_values(|c: char| ascii_upper_char(c))
    } else {
        upper_unicode(s)
    }
}

pub open spec fn lower_text(s: Seq<char>) -> Seq<char> {
    if is_ascii_chars(s) {
        s.map_values(|c: char| ascii_lower_char(c))
    } else {
        lower_unicode(s)
    }
}

/// The text of a byte string in upper case: the form in which command and option words are
/// compared.
pub open spec fn upper_word(b: Seq<u8>) -> Seq<char> {
    upper_text(lossy_text(b))
}

pub open spec fn lower_word(b: Seq<u8>) -> Seq<char> {
    lower_text(lossy_text(b))
}

/// Whether two words of ASCII bytes differ in the case of their letters alone.
pub open spec fn same_letters(x: Seq<u8>, y: Seq<u8>) -> bool {
    &&& is_ascii_seq(x)
    &&& is_ascii_seq(y)
    &&& x.map_values(|b: u8| upper_byte(b)) == y.map_values(|b: u8| upper_byte(b))
}

/// Words that differ in the case of their letters alone have one form in upper case.
pub proof fn lemma_same_letters(x: Seq<u8>, y: Seq<u8>)
    requires
        same_letters(x, y),
    ensures
        upper_word(x) == upper_word(y),
{
    let p = x.map_values(|b: u8| upper_byte(b));
    let q = y.map_values(|b: u8| upper_byte(b));
    assert(p.len() == q.len());
    assert(is_ascii_chars(ascii_chars(x)) && is_ascii_chars(ascii_chars(y)));
    assert forall|i: int| 0 <= i < x.len() implies #[trigger] upper_word(x)[i] == upper_word(
        y,
    )[i] by {
        assert(p[i] == q[i]);
    }
    assert(upper_word(x) =~= upper_word(y));
}

/// Whether the bytes of `b`, with ASCII letters in upper case, are those of `word`.
pub open spec fn spells(b: Seq<u8>, word: Seq<char>) -> bool {
    b.map_values(|x: u8| upper_byte(x)) == encode_utf8(word)
}

/// `String::from_utf8_lossy`: ASCII bytes become the characters they stand for. What the function
/// makes of other bytes is a function of them alone.
#[verifier::external_body]
pub(crate) fn decode_lossy(b: &[u8]) -> (r: String)
    ensures
        is_ascii_seq(b@) ==> r@ == ascii_chars(b@),
        !is_ascii_seq(b@) ==> r@ == lossy_unicode(b@),
        valid_utf8(b@) ==> r@ == decode_utf8(b@),
{
    String::from_utf8_lossy(b).into_owned()
}

/// `str::to_uppercase`: ASCII letters become their capitals and other ASCII characters stay. What
/// the function makes of other text is a function of it alone.
#[verifier::external_body]
pub(crate) fn to_upper(s: &str) -> (r: String)
    ensures
        is_ascii_chars(s@) ==> r@ == s@.map_values(|c: char| ascii_upper_char(c)),
        !is_ascii_chars(s@) ==> r@ == upper_unicode(s@),
{
    s.to_uppercase()
}

/// `str::to_lowercase`: ASCII capitals become small letters and other ASCII characters stay. What
/// the function makes of other text is a function of it alone.
#[verifier::external_body]
pub(crate) fn to_lower(s: &str) -> (r: String)
    ensures
        is_ascii_chars(s@) ==> r@ == s@.map_values(|c: char| ascii_lower_char(c)),
        !is_ascii_chars(s@) ==> r@ == lower_unicode(s@),
{
    s.to_lowercase()
}

/// `str::from_utf8`: accepts exactly the well-formed UTF-8 byte strings.
#[verifier::external_body]
pub(crate) fn is_utf8(b: &[u8]) -> (r: bool)
    ensures
        r == valid_utf8(b@),
{
    std::str::from_utf8(b).is_ok()
}

pub(crate) fn lossy(b: &Bytes) -> (r: String)
    ensures
        r@ == lossy_text(content(*b)),
{
    decode_lossy(b.as_ref())
}

pub(crate) fn upper(b: &Bytes) -> (r: String)
    ensures
        r@ == upper_word(content(*b)),
{
    let s: String = lossy(b);
    to_upper(s.as_str())
}

pub(crate) fn lower(b: &Bytes) -> (r: String)
    ensures
        r@ == lower_word(content(*b)),
{
    let s: String = lossy(b);
    to_lower(s.as_str())
}

/// Whether two slices hold the same bytes.
pub(crate) fn same_bytes(x: &[u8], y: &[u8]) -> (r: bool)
    ensures
        r == (x@ == y@),
{
    if x.len() != y.len() {
        return false;
    }
    let mut i: usize = 0;
    while i < x.len()
        invariant
            i <= x.len(),
            x.len() == y.len(),
            forall|k: int| 0 <= k < i ==> x@[k] == y@[k],
        decreases x.len() - i,
    {
        if x[i] != y[i] {
            return false;
        }
        i = i + 1;
    }
    assert(x@ =~= y@);
    true
}

/// Whether two texts are equal.
pub(crate) fn same_text(s: &str, word: &str) -> (r: bool)
    ensures
        r == (s@ == word@),
{
    broadcast use encode_utf8_decode_utf8;

    let r: bool = same_bytes(s.as_bytes(), word.as_bytes());
    assert(decode_utf8(encode_utf8(s@)) == s@);
    assert(decode_utf8(encode_utf8(word@)) == word@);
    r
}

pub(crate) fn to_upper_byte(b: u8) -> (r: u8)
    ensures
        r == upper_byte(b),
{
    if 97 <= b && b <= 122 {
        b - 32
    } else {
        b
    }
}

/// Whether the bytes of `b`, in either case, spell the upper-case `word`.
pub(crate) fn spells_word(b: &[u8], word: &str) -> (r: bool)
    ensures
        r == spells(b@, word@),
{
    let w: &[u8] = word.as_bytes();
    let ghost up = b@.map_values(|x: u8| upper_byte(x));
    if b.len() != w.len() {
        return false;
    }
    let mut i: usize = 0;
    while i < b.len()
        invariant
            i <= b.len(),
            b.len() == w.len(),
            up == b@.map_values(|x: u8| upper_byte(x)),
            w@ == encode_utf8(word@),
            forall|k: int| 0 <= k < i ==> up[k] == w@[k],
        decreases b.len() - i,
    {
        if to_upper_byte(b[i]) != w[i] {
            assert(up[i as int] != w@[i as int]);
            return false;
        }
        i = i + 1;
    }
    assert(up =~= w@);
    true
}

/// The upper-case form of well-formed text; nothing of other bytes.
pub open spec fn upper_utf8_word(b: Seq<u8>) -> Seq<char> {
    if valid_utf8(b) {
        upper_word(b)
    } else {
        Seq::empty()
    }
}

pub(crate) fn upper_utf8(b: &Bytes) -> (r: String)
    ensures
        r@ == upper_utf8_word(content(*b)),
{
    if is_utf8(b.as_ref()) {
        upper(b)
    } else {
        String::new()
    }
}

/// The characters that Unicode counts as white space.
pub open spec fn white_space(c: char) -> bool {
    let u = c as u32;
    ||| 9 <= u <= 13
    ||| u == 0x20
    ||| u == 0x85
    ||| u == 0xa0
    ||| u == 0x1680
    ||| 0x2000 <= u <= 0x200a
    ||| u == 0x2028
    ||| u == 0x2029
    ||| u == 0x202f
    ||| u == 0x205f
    ||| u == 0x3000
}

/// The words of a text: the longest runs of characters other than white space. A character goes on
/// with the word of the character before it, if that is in one, and begins a word otherwise.
pub open spec fn white_words(s: Seq<char>) -> Seq<Seq<char>>
    decreases s.len(),
{
    if s.len() == 0 {
        Seq::empty()
    } else {
        let before = white_words(s.drop_last());
        if white_space(s.last()) {
            before
        } else if s.len() == 1 || white_space(s[s.len() - 2]) {
            before.push(seq![s.last()])
        } else {
            before.drop_last().push(before.last().push(s.last()))
        }
    }
}

/// `str::split_whitespace`: the longest runs of characters that are not white space by the Unicode
/// property `White_Space`, in order.
#[verifier::external_body]
pub(crate) fn split_white(s: &str) -> (r: Vec<String>)
    ensures
        r@.map_values(|w: String| w@) == white_words(s@),
{
    s.split_whitespace().map(String::from).collect()
}

/// White space ends a word and makes none; a run of other characters at the beginning or behind
/// white space is one word more. So the words of a text are its runs, whatever stands between them.
pub proof fn law_words_are_runs(s: Seq<char>, w: Seq<char>, c: char)
    ensures
        white_words(Seq::empty()) == Seq::<Seq<char>>::empty(),
        white_space(c) ==> white_words(s.push(c)) == white_words(s),
        w.len() > 0 && (s.len() == 0 || white_space(s.last())) && (forall|i: int|
            0 <= i < w.len() ==> !white_space(#[trigger] w[i])) ==> white_words(s + w)
            == white_words(s).push(w),
    decreases w.len(),
{
    assert(s.push(c).drop_last() =~= s);
    if w.len() > 0 && (s.len() == 0 || white_space(s.last())) && (forall|i: int|
        0 <= i < w.len() ==> !white_space(#[trigger] w[i])) {
        let x = w.last();
        let rest = w.drop_last();
        assert((s + w).drop_last() =~= s + rest);
        assert((s + w).last() == x);
        assert(!white_space(w[w.len() - 1]));
        if rest.len() == 0 {
            assert(s + rest =~= s);
            assert(w =~= seq![x]);
            if s.len() > 0 {
                assert((s + w)[(s + w).len() - 2] == s.last());
            }
        } else {
            law_words_are_runs(s, rest, c);
            assert((s + w)[(s + w).len() - 2] == rest.last());
            assert(!white_space(w[w.len() - 2]));
            assert(rest.push(x) =~= w);
            let before = white_words(s + rest);
            assert(before == white_words(s).push(rest));
            assert(before.drop_last() =~= white_words(s));
        }
    }
}

/// The upper-case form of ASCII bytes has a character for each: small letters become capitals, and
/// all others stay.
pub proof fn law_upper_word(b: Seq<u8>)
    requires
        is_ascii_seq(b),
    ensures
        upper_word(b).len() == b.len(),
        forall|i: int|
            0 <= i < b.len() ==> #[trigger] upper_word(b)[i] == if 97 <= b[i] <= 122 {
                (b[i] - 32) as u8 as char
            } else {
                b[i] as char
            },
{
    assert(is_ascii_chars(ascii_chars(b)));
}

/// White space is what Unicode counts as such: of the ASCII characters the tab, the line feed, the
/// vertical tab, the form feed, the carriage return and the space.
pub proof fn law_ascii_white_space(b: u8)
    requires
        b < 128,
    ensures
        white_space(b as char) <==> b == 9 || b == 10 || b == 11 || b == 12 || b == 13 || b == 32,
{
}

/// Text made of two parts.
pub(crate) fn join2(x: &str, y: &str) -> (r: String)
    ensures
        r@ == x@ + y@,
{
    let mut s: String = x.to_owned();
    s.append(y);
    s
}

/// Text made of three parts.
pub(crate) fn join3(x: &str, y: &str, z: &str) -> (r: String)
    ensures
        r@ == x@ + y@ + z@,
{
    let mut s: String = x.to_owned();
    s.append(y);
    s.append(z);
    s
}

} // verus!
