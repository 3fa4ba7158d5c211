//! What a command parser is told from outside, and the operands that it reads with its help.
//!
//! Floating-point numerals are read by the caller, who knows the machine's numbers; the parser is
//! handed the readings and works with their bits.
use bytes::Bytes;
use vstd::prelude::*;
use vstd::utf8::*;

use crate::numbers::{read_u64, u64_of};
use crate::octets::{content, slice_bytes};
use crate::operands::{
    Double, GeoUnit, LexBound, LexBoundView, Single, StreamAddId, StreamId, VectorMetric,
};
use crate::text::{
    decode_lossy, is_utf8, same_bytes, same_text, spells, spells_word, white_space,
};

verus! {

/// How one piece of text reads as a floating-point numeral.
pub struct FloatReading {
    pub text: Vec<u8>,
    /// The double-precision value, if the text is a decimal numeral or names an infinity or NaN.
    pub double: Option<Double>,
    /// The single-precision value, under the same condition.
    pub single: Option<Single>,
    /// The value that the C library gives to the whole text.
    pub strtod: Option<Double>,
    /// The double nearest to the integer whose hexadecimal digits stand behind `0x`.
    pub hexadecimal: Option<Double>,
}

/// What the parser is told from outside.
pub struct ParseEnv {
    /// The greatest length of one argument.
    pub max_bulk_len: usize,
    /// The time, in milliseconds since the epoch.
    pub now_ms: u64,
    /// The readings of texts that may be floating-point numerals. A text without one is none.
    pub floats: Vec<FloatReading>,
}

/// The first reading of `text`.
pub open spec fn reading_of(readings: Seq<FloatReading>, text: Seq<u8>) -> Option<FloatReading>
    decreases readings.len(),
{
    if readings.len() == 0 {
        None
    } else if readings[0].text@ == text {
        Some(readings[0])
    } else {
        reading_of(readings.skip(1), text)
    }
}

/// The double-precision value of `text`, if it has one.
pub open spec fn double_of(env: &ParseEnv, text: Seq<u8>) -> Option<Double> {
    match reading_of(env.floats@, text) {
        Some(r) => r.double,
        None => None,
    }
}

/// The single-precision value of `text`, if it has one.
pub open spec fn single_of(env: &ParseEnv, text: Seq<u8>) -> Option<Single> {
    match reading_of(env.floats@, text) {
        Some(r) => r.single,
        None => None,
    }
}

/// The value that the C library gives to `text`, if it reads the whole of it.
pub open spec fn strtod_of(env: &ParseEnv, text: Seq<u8>) -> Option<Double> {
    match reading_of(env.floats@, text) {
        Some(r) => r.strtod,
        None => None,
    }
}

/// The double nearest to the hexadecimal integer that `text` stands for, if it does.
pub open spec fn hex_double_of(env: &ParseEnv, text: Seq<u8>) -> Option<Double> {
    match reading_of(env.floats@, text) {
        Some(r) => r.hexadecimal,
        None => None,
    }
}

impl ParseEnv {
    fn find(&self, text: &[u8]) -> (r: Option<usize>)
        ensures
            match r {
                Some(i) => i < self.floats.len() && reading_of(self.floats@, text@) == Some(
                    self.floats@[i as int],
                ),
                None => reading_of(self.floats@, text@) is None,
            },
    {
        let mut i: usize = 0;
        assert(self.floats@.skip(0) =~= self.floats@);
        while i < self.floats.len()
            invariant
                i <= self.floats.len(),
                reading_of(self.floats@, text@) == reading_of(self.floats@.skip(i as int), text@),
            decreases self.floats.len() - i,
        {
            assert(self.floats@.skip(i as int)[0] == self.floats@[i as int]);
            assert(self.floats@.skip(i as int).skip(1) =~= self.floats@.skip(i + 1));
            if same_bytes(self.floats[i].text.as_slice(), text) {
                return Some(i);
            }
            i = i + 1;
        }
        None
    }

    pub(crate) fn double(&self, text: &[u8]) -> (r: Option<Double>)
        ensures
            r == double_of(self, text@),
    {
        match self.find(text) {
            Some(i) => self.floats[i].double,
            None => None,
        }
    }

    pub(crate) fn single(&self, text: &[u8]) -> (r: Option<Single>)
        ensures
            r == single_of(self, text@),
    {
        match self.find(text) {
            Some(i) => self.floats[i].single,
            None => None,
        }
    }

    pub(crate) fn hex_double(&self, text: &[u8]) -> (r: Option<Double>)
        ensures
            r == hex_double_of(self, text@),
    {
        match self.find(text) {
            Some(i) => self.floats[i].hexadecimal,
            None => None,
        }
    }

    pub(crate) fn strtod(&self, text: &[u8]) -> (r: Option<Double>)
        ensures
            r == strtod_of(self, text@),
    {
        match self.find(text) {
            Some(i) => self.floats[i].strtod,
            None => None,
        }
    }
}

fn is_white_space(c: char) -> (r: bool)
    ensures
        r == white_space(c),
{
    let u: u32 = c as u32;
    (9 <= u && u <= 13) || u == 0x20 || u == 0x85 || u == 0xa0 || u == 0x1680 || (0x2000 <= u && u
        <= 0x200a) || u == 0x2028 || u == 0x2029 || u == 0x202f || u == 0x205f || u == 0x3000
}

/// Whether `b` names NaN, with or without a sign.
pub open spec fn names_nan(b: Seq<u8>) -> bool {
    spells(b, "NAN"@) || spells(b, "+NAN"@) || spells(b, "-NAN"@)
}

/// Whether `b` names an infinity, with or without a sign.
pub open spec fn names_infinity(b: Seq<u8>) -> bool {
    spells(b, "INF"@) || spells(b, "+INF"@) || spells(b, "-INF"@) || spells(b, "INFINITY"@)
        || spells(b, "+INFINITY"@) || spells(b, "-INFINITY"@)
}

/// A value as a number of the command language: never NaN, and infinite only by name.
pub open spec fn number_or_none(v: Double, by_name: bool) -> Option<Double> {
    if v.nan() || (v.infinite() && !by_name) {
        None
    } else {
        Some(v)
    }
}

/// The number that a text stands for: the decimal reading goes first, and the C library's reading
/// counts where there is none.
pub open spec fn redis_number(env: &ParseEnv, s: Seq<char>) -> Option<Double> {
    let b = encode_utf8(s);
    if s.len() == 0 || white_space(s[0]) || white_space(s.last()) || names_nan(b) {
        None
    } else {
        match double_of(env, b) {
            Some(v) => number_or_none(v, names_infinity(b)),
            None => match strtod_of(env, b) {
                Some(v) => number_or_none(v, names_infinity(b)),
                None => None,
            },
        }
    }
}

/// The number that a text stands for.
pub fn parse_redis_f64(s: &str, env: &ParseEnv) -> (r: Option<Double>)
    ensures
        r == redis_number(env, s@),
{
    let n: usize = s.unicode_len();
    if n == 0 {
        return None;
    }
    if is_white_space(s.get_char(0)) || is_white_space(s.get_char(n - 1)) {
        return None;
    }
    let b: &[u8] = s.as_bytes();
    if spells_word(b, "NAN") || spells_word(b, "+NAN") || spells_word(b, "-NAN") {
        return None;
    }
    let by_name: bool = spells_word(b, "INF") || spells_word(b, "+INF") || spells_word(b, "-INF")
        || spells_word(b, "INFINITY") || spells_word(b, "+INFINITY") || spells_word(
        b,
        "-INFINITY",
    );
    match env.double(b) {
        Some(v) => if v.is_nan() || (v.is_infinite() && !by_name) {
            None
        } else {
            Some(v)
        },
        None => match env.strtod(b) {
            Some(v) => if v.is_nan() || (v.is_infinite() && !by_name) {
                None
            } else {
                Some(v)
            },
            None => None,
        },
    }
}

/// The number that a byte string stands for, if it is text.
pub open spec fn redis_double_of(env: &ParseEnv, b: Seq<u8>) -> Option<Double> {
    if valid_utf8(b) {
        redis_number(env, decode_utf8(b))
    } else {
        None
    }
}

pub(crate) fn redis_double(env: &ParseEnv, b: &[u8]) -> (r: Option<Double>)
    ensures
        r == redis_double_of(env, b@),
{
    if is_utf8(b) {
        let s: String = decode_lossy(b);
        parse_redis_f64(s.as_str(), env)
    } else {
        None
    }
}

/// One end of a range of scores: a number, and whether the range includes it. A round bracket in
/// front excludes it.
pub open spec fn score_bound(env: &ParseEnv, b: Seq<u8>) -> Result<(Double, bool), Seq<char>> {
    if b.len() == 0 {
        Err("min or max not specified"@)
    } else {
        let open = b[0] == 40;
        let t = if open {
            b.skip(1)
        } else {
            b
        };
        if !valid_utf8(t) {
            Err("value is not a valid float"@)
        } else if spells(t, "-INF"@) {
            Ok((Double::neg_inf(), !open))
        } else if spells(t, "+INF"@) || spells(t, "INF"@) {
            Ok((Double::inf(), !open))
        } else {
            match redis_double_of(env, t) {
                Some(v) => Ok((v, !open)),
                None => Err("value is not a valid float"@),
            }
        }
    }
}

/// What a fallible reader returned, as contracts see it.
pub open spec fn read<T>(r: Result<T, String>) -> Result<T, Seq<char>> {
    match r {
        Ok(v) => Ok(v),
        Err(e) => Err(e@),
    }
}

/// One end of a range of scores.
pub fn parse_score_bound(arg: &[u8], env: &ParseEnv) -> (r: Result<(Double, bool), String>)
    ensures
        read(r) == score_bound(env, arg@),
{
    if arg.len() == 0 {
        return Err("min or max not specified".to_owned());
    }
    let open: bool = arg[0] == 40;
    let t: &[u8] = if open {
        vstd::slice::slice_subrange(arg, 1, arg.len())
    } else {
        arg
    };
    assert(open ==> t@ =~= arg@.skip(1));
    if !is_utf8(t) {
        return Err("value is not a valid float".to_owned());
    }
    if spells_word(t, "-INF") {
        Ok((Double::negative_infinity(), !open))
    } else if spells_word(t, "+INF") || spells_word(t, "INF") {
        Ok((Double::infinity(), !open))
    } else {
        match redis_double(env, t) {
            Some(v) => Ok((v, !open)),
            None => Err("value is not a valid float".to_owned()),
        }
    }
}

/// The longest time that a command may block: the milliseconds that a signed 64-bit number holds,
/// in seconds.
pub open spec fn longest_timeout() -> Double {
    Double { bits: 0x4340_624d_d2f1_a9fc }
}

/// How long a blocking command waits, if the text reads as a number that is neither negative nor
/// too great.
pub open spec fn timeout_spec(reading: Option<Double>) -> Result<Double, Seq<char>> {
    match reading {
        None => Err("timeout is not a float or out of range"@),
        Some(v) => if v.below_zero() || v.nan() {
            Err("timeout is negative"@)
        } else if v.above(longest_timeout()) {
            Err("timeout is out of range"@)
        } else {
            Ok(v)
        },
    }
}

pub(crate) fn checked_timeout(reading: Option<Double>) -> (r: Result<Double, String>)
    ensures
        read(r) == timeout_spec(reading),
{
    match reading {
        None => Err("timeout is not a float or out of range".to_owned()),
        Some(v) => if v.is_below_zero() || v.is_nan() {
            Err("timeout is negative".to_owned())
        } else if v.is_above(Double { bits: 0x4340_624d_d2f1_a9fc }) {
            Err("timeout is out of range".to_owned())
        } else {
            Ok(v)
        },
    }
}

/// One end of a range of members: `-` and `+` for none, or a member behind a bracket that says
/// whether the range includes it.
pub open spec fn lex_bound_spec(b: Seq<u8>) -> Result<LexBoundView, Seq<char>> {
    if b == seq![45u8] {
        Ok(LexBoundView::UnboundedMin)
    } else if b == seq![43u8] {
        Ok(LexBoundView::UnboundedMax)
    } else if b.len() > 0 && b[0] == 91 {
        Ok(LexBoundView::Inclusive(b.skip(1)))
    } else if b.len() > 0 && b[0] == 40 {
        Ok(LexBoundView::Exclusive(b.skip(1)))
    } else {
        Err("min or max not valid string range item"@)
    }
}

pub open spec fn lex_bound_view(r: Result<LexBound, String>) -> Result<LexBoundView, Seq<char>> {
    match r {
        Ok(v) => Ok(v@),
        Err(e) => Err(e@),
    }
}

pub fn parse_lex_bound(b: &Bytes) -> (r: Result<LexBound, String>)
    ensures
        lex_bound_view(r) == lex_bound_spec(content(*b)),
{
    let s: &[u8] = b.as_ref();
    let ghost c = content(*b);
    if s.len() == 1 && s[0] == 45 {
        assert(c =~= seq![45u8]);
        return Ok(LexBound::UnboundedMin);
    }
    if s.len() == 1 && s[0] == 43 {
        assert(c =~= seq![43u8]);
        return Ok(LexBound::UnboundedMax);
    }
    assert(c != seq![45u8]) by {
        if c == seq![45u8] {
            assert(c[0] == 45);
        }
    }
    assert(c != seq![43u8]) by {
        if c == seq![43u8] {
            assert(c[0] == 43);
        }
    }
    if s.len() > 0 && (s[0] == 91 || s[0] == 40) {
        let rest: Bytes = slice_bytes(b, 1, s.len());
        assert(content(rest) =~= c.skip(1));
        if s[0] == 91 {
            return Ok(LexBound::Inclusive(rest));
        }
        return Ok(LexBound::Exclusive(rest));
    }
    Err("min or max not valid string range item".to_owned())
}

/// The place of the first byte `x` in `b`, or the length of `b`.
pub open spec fn first_place(b: Seq<u8>, x: u8) -> int
    decreases b.len(),
{
    if b.len() == 0 || b[0] == x {
        0
    } else {
        1 + first_place(b.skip(1), x)
    }
}

pub proof fn lemma_first_place(b: Seq<u8>, x: u8)
    ensures
        0 <= first_place(b, x) <= b.len(),
        first_place(b, x) < b.len() ==> b[first_place(b, x)] == x,
        forall|i: int| 0 <= i < first_place(b, x) ==> b[i] != x,
    decreases b.len(),
{
    if b.len() > 0 && b[0] != x {
        lemma_first_place(b.skip(1), x);
        assert forall|i: int| 0 <= i < first_place(b, x) implies b[i] != x by {
            if i > 0 {
                assert(b[i] == b.skip(1)[i - 1]);
            }
        }
    }
}

/// The place of the first byte `x`, or the length where there is none.
pub(crate) fn find_byte(b: &[u8], x: u8) -> (r: usize)
    ensures
        r == first_place(b@, x),
        r <= b.len(),
{
    proof {
        lemma_first_place(b@, x);
    }
    let mut i: usize = 0;
    while i < b.len()
        invariant
            i <= first_place(b@, x) <= b.len(),
            first_place(b@, x) < b.len() ==> b@[first_place(b@, x)] == x,
            forall|k: int| 0 <= k < first_place(b@, x) ==> b@[k] != x,
        decreases b.len() - i,
    {
        if b[i] == x {
            return i;
        }
        i = i + 1;
    }
    i
}

/// Whether the first byte of `b` is `x`.
pub(crate) fn starts_with_byte(b: &[u8], x: u8) -> (r: bool)
    ensures
        r == (b@.len() > 0 && b@[0] == x),
{
    b.len() > 0 && b[0] == x
}

impl StreamId {
    pub fn new(ms: u64, seq: u64) -> (r: StreamId)
        ensures
            r == (StreamId { ms, seq }),
    {
        StreamId { ms, seq }
    }
}

/// A stream identifier: milliseconds, and after a hyphen the number within them, which is zero
/// where it is left out.
pub open spec fn stream_id_spec(b: Seq<u8>) -> Result<StreamId, Seq<char>> {
    let h = first_place(b, 45);
    match u64_of(b.take(h)) {
        None => Err("Invalid stream ID specified as stream command argument"@),
        Some(ms) => if h == b.len() {
            Ok(StreamId { ms, seq: 0 })
        } else {
            match u64_of(b.skip(h + 1)) {
                None => Err("Invalid stream ID specified as stream command argument"@),
                Some(seq) => Ok(StreamId { ms, seq }),
            }
        },
    }
}

pub(crate) fn stream_id(b: &[u8]) -> (r: Result<StreamId, String>)
    ensures
        read(r) == stream_id_spec(b@),
{
    let h: usize = find_byte(b, 45);
    let head: &[u8] = vstd::slice::slice_subrange(b, 0, h);
    assert(head@ =~= b@.take(h as int));
    match read_u64(head) {
        None => Err("Invalid stream ID specified as stream command argument".to_owned()),
        Some(ms) => if h == b.len() {
            Ok(StreamId { ms, seq: 0 })
        } else {
            let tail: &[u8] = vstd::slice::slice_subrange(b, h + 1, b.len());
            assert(tail@ =~= b@.skip(h + 1));
            match read_u64(tail) {
                None => Err("Invalid stream ID specified as stream command argument".to_owned()),
                Some(seq) => Ok(StreamId { ms, seq }),
            }
        },
    }
}

/// The identifier that a new entry asks for: an asterisk leaves the choice to the stream, for the
/// whole identifier or for the number behind the hyphen.
pub open spec fn stream_add_id_spec(b: Seq<u8>) -> Result<StreamAddId, Seq<char>> {
    let h = first_place(b, 45);
    if b == seq![42u8] {
        Ok(StreamAddId::Auto)
    } else if h + 2 == b.len() && b[h + 1] == 42 {
        match u64_of(b.take(h)) {
            None => Err("Invalid stream ID specified as stream command argument"@),
            Some(ms) => Ok(StreamAddId::AutoSeq(ms)),
        }
    } else {
        match stream_id_spec(b) {
            Err(e) => Err(e),
            Ok(id) => Ok(StreamAddId::Explicit(id)),
        }
    }
}

pub(crate) fn stream_add_id(b: &[u8]) -> (r: Result<StreamAddId, String>)
    ensures
        read(r) == stream_add_id_spec(b@),
{
    if b.len() == 1 && b[0] == 42 {
        assert(b@ =~= seq![42u8]);
        return Ok(StreamAddId::Auto);
    }
    assert(b@ != seq![42u8]) by {
        if b@ == seq![42u8] {
            assert(b@[0] == 42);
        }
    }
    let h: usize = find_byte(b, 45);
    if h < b.len() && b.len() - h == 2 && b[h + 1] == 42 {
        let head: &[u8] = vstd::slice::slice_subrange(b, 0, h);
        assert(head@ =~= b@.take(h as int));
        return match read_u64(head) {
            None => Err("Invalid stream ID specified as stream command argument".to_owned()),
            Some(ms) => Ok(StreamAddId::AutoSeq(ms)),
        };
    }
    match stream_id(b) {
        Err(e) => Err(e),
        Ok(id) => Ok(StreamAddId::Explicit(id)),
    }
}

/// The unit of length that an upper-case word names.
pub open spec fn geo_unit_spec(word: Seq<char>) -> Result<GeoUnit, Seq<char>> {
    if word == "M"@ {
        Ok(GeoUnit::Meters)
    } else if word == "KM"@ {
        Ok(GeoUnit::Kilometers)
    } else if word == "MI"@ {
        Ok(GeoUnit::Miles)
    } else if word == "FT"@ {
        Ok(GeoUnit::Feet)
    } else {
        Err("unsupported unit provided. please use M, KM, FT, MI"@)
    }
}

pub(crate) fn geo_unit(word: &str) -> (r: Result<GeoUnit, String>)
    ensures
        read(r) == geo_unit_spec(word@),
{
    if same_text(word, "M") {
        Ok(GeoUnit::Meters)
    } else if same_text(word, "KM") {
        Ok(GeoUnit::Kilometers)
    } else if same_text(word, "MI") {
        Ok(GeoUnit::Miles)
    } else if same_text(word, "FT") {
        Ok(GeoUnit::Feet)
    } else {
        Err("unsupported unit provided. please use M, KM, FT, MI".to_owned())
    }
}

/// The distance that an upper-case word names.
pub open spec fn metric_of(word: Seq<char>) -> Option<VectorMetric> {
    if word == "COSINE"@ {
        Some(VectorMetric::Cosine)
    } else if word == "L2"@ || word == "EUCLIDEAN"@ {
        Some(VectorMetric::L2)
    } else if word == "IP"@ || word == "DOT"@ {
        Some(VectorMetric::InnerProduct)
    } else {
        None
    }
}

pub(crate) fn metric(word: &str) -> (r: Option<VectorMetric>)
    ensures
        r == metric_of(word@),
{
    if same_text(word, "COSINE") {
        Some(VectorMetric::Cosine)
    } else if same_text(word, "L2") || same_text(word, "EUCLIDEAN") {
        Some(VectorMetric::L2)
    } else if same_text(word, "IP") || same_text(word, "DOT") {
        Some(VectorMetric::InnerProduct)
    } else {
        None
    }
}

} // verus!
