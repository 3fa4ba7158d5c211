//! What the operands of commands stand for: numbers, the ends of ranges, identifiers and units.
use vstd::prelude::*;
use vstd::utf8::*;

use crate::numbers::{
    all_digits, decimal_digits, decimal_value, i64_of, is_digit, law_digits_read_back, u64_of,
    usize_of,
};
use crate::operands::{
    Double, GeoUnit, LexBoundView, StreamAddId, StreamId, VectorMetric,
};
use crate::readings::{
    first_place, geo_unit_spec, lemma_first_place, lex_bound_spec, longest_timeout, metric_of,
    redis_double_of, score_bound, stream_add_id_spec, stream_id_spec, timeout_spec, ParseEnv,
};
use crate::text::spells;
use crate::build::naming::name_code;

verus! {

/// Numbers are read as they are written: with or without a sign in front, as long as they fit.
pub proof fn law_numbers_read_back(n: nat)
    ensures
        n <= u64::MAX ==> u64_of(decimal_digits(n)) == Some(n as u64),
        n > u64::MAX ==> u64_of(decimal_digits(n)) is None,
        n <= usize::MAX ==> usize_of(decimal_digits(n)) == Some(n as usize),
        n <= i64::MAX ==> i64_of(decimal_digits(n)) == Some(n as i64),
        n <= i64::MAX ==> i64_of(seq![43u8] + decimal_digits(n)) == Some(n as i64),
        n <= i64::MAX + 1 ==> i64_of(seq![45u8] + decimal_digits(n)) == Some((-n) as i64),
        n > i64::MAX ==> i64_of(decimal_digits(n)) is None,
        n > i64::MAX + 1 ==> i64_of(seq![45u8] + decimal_digits(n)) is None,
        u64_of(seq![45u8] + decimal_digits(n)) is None,
{
    law_digits_read_back(n);
    let d = decimal_digits(n);
    assert(is_digit(d[0]));
    assert((seq![43u8] + d).skip(1) =~= d);
    assert((seq![45u8] + d).skip(1) =~= d);
    let m = seq![45u8] + d;
    assert(m[0] == 45);
    assert(!all_digits(m)) by {
        assert(!is_digit(m[0]));
    }
}

/// What holds a byte that is no digit, and does not begin with a sign, is no number; nor is nothing.
pub proof fn law_words_are_no_numbers(b: Seq<u8>, i: int)
    ensures
        0 < i < b.len() && !(48 <= b[i] <= 57) ==> i64_of(b) is None && u64_of(b) is None
            && usize_of(b) is None,
        b.len() == 0 ==> i64_of(b) is None && u64_of(b) is None && usize_of(b) is None,
{
    if 0 < i < b.len() && !(48 <= b[i] <= 57) {
        assert(!is_digit(b[i]));
        assert(!all_digits(b));
        assert(b.skip(1)[i - 1] == b[i]);
        assert(!all_digits(b.skip(1)));
    }
}

/// One end of a range of scores: with a round bracket in front it is the same number, left out of the
/// range; without one the number is in the range.
pub proof fn law_score_bounds(b: Seq<u8>, env: &ParseEnv)
    requires
        b.len() > 0,
        b[0] != 40,
    ensures
        score_bound(env, b) matches Ok(x) ==> x.1 && score_bound(env, seq![40u8] + b) == Ok::<
            (Double, bool),
            Seq<char>,
        >((x.0, false)),
        score_bound(env, b) is Err ==> score_bound(env, seq![40u8] + b) == score_bound(env, b),
        spells(b, "-INF"@) && valid_utf8(b) ==> score_bound(env, b) == Ok::<
            (Double, bool),
            Seq<char>,
        >((Double { bits: 0xfff0_0000_0000_0000 }, true)),
        !spells(b, "-INF"@) && spells(b, "+INF"@) && valid_utf8(b) ==> score_bound(env, b) == Ok::<
            (Double, bool),
            Seq<char>,
        >((Double { bits: 0x7ff0_0000_0000_0000 }, true)),
        valid_utf8(b) && !spells(b, "-INF"@) && !spells(b, "+INF"@) && !spells(b, "INF"@)
            && redis_double_of(env, b) is Some ==> score_bound(env, b) == Ok::<
            (Double, bool),
            Seq<char>,
        >((redis_double_of(env, b)->0, true)),
        valid_utf8(b) && !spells(b, "-INF"@) && !spells(b, "+INF"@) && !spells(b, "INF"@)
            && redis_double_of(env, b) is None ==> score_bound(env, b) is Err,
        score_bound(env, Seq::empty()) is Err,
{
    assert((seq![40u8] + b).skip(1) =~= b);
}

/// One end of a range of names: a square bracket before a name leaves it in, a round one leaves it
/// out, a minus sign is the least and a plus sign the greatest; nothing else is an end.
pub proof fn law_lex_bounds(name: Seq<u8>)
    ensures
        lex_bound_spec(seq![91u8] + name) == Ok::<LexBoundView, Seq<char>>(
            LexBoundView::Inclusive(name),
        ),
        lex_bound_spec(seq![40u8] + name) == Ok::<LexBoundView, Seq<char>>(
            LexBoundView::Exclusive(name),
        ),
        lex_bound_spec(seq![45u8]) == Ok::<LexBoundView, Seq<char>>(LexBoundView::UnboundedMin),
        lex_bound_spec(seq![43u8]) == Ok::<LexBoundView, Seq<char>>(LexBoundView::UnboundedMax),
        name.len() != 1 && (name.len() == 0 || (name[0] != 91 && name[0] != 40))
            ==> lex_bound_spec(name) == Err::<LexBoundView, Seq<char>>(
            "min or max not valid string range item"@,
        ),
{
    let a = seq![91u8] + name;
    let b = seq![40u8] + name;
    assert(a[0] == 91 && b[0] == 40);
    assert(a.skip(1) =~= name);
    assert(b.skip(1) =~= name);
    assert(seq![45u8][0] == 45);
    assert(seq![43u8][0] == 43);
    assert(a != seq![45u8] && a != seq![43u8] && b != seq![45u8] && b != seq![43u8]) by {
        assert(seq![45u8][0] == 45 && seq![43u8][0] == 43);
    }
    assert(name.len() != 1 ==> name != seq![45u8] && name != seq![43u8]);
}

/// Digits hold no hyphen.
proof fn lemma_hyphen(ms: u64, tail: Seq<u8>)
    ensures
        first_place(decimal_digits(ms as nat) + seq![45u8] + tail, 45) == decimal_digits(
            ms as nat,
        ).len(),
        first_place(decimal_digits(ms as nat), 45) == decimal_digits(ms as nat).len(),
{
    law_digits_read_back(ms as nat);
    let d = decimal_digits(ms as nat);
    let b = d + seq![45u8] + tail;
    lemma_first_place(b, 45);
    lemma_first_place(d, 45);
    let p = first_place(b, 45);
    assert(b[d.len() as int] == 45);
    if p < d.len() {
        assert(b[p] == d[p]);
        assert(is_digit(d[p]));
    }
    let q = first_place(d, 45);
    if q < d.len() {
        assert(is_digit(d[q]));
    }
}

/// The identifier of an entry is a time and a number, with a hyphen between them; without a number it
/// is the first of its time. For a new entry a star stands for what the server chooses: the whole
/// identifier, or its number.
pub proof fn law_stream_ids(ms: u64, seq: u64)
    ensures
        ({
            let t = decimal_digits(ms as nat);
            let n = decimal_digits(seq as nat);
            let whole = t + seq![45u8] + n;
            &&& stream_id_spec(whole) == Ok::<StreamId, Seq<char>>(StreamId { ms, seq })
            &&& stream_id_spec(t) == Ok::<StreamId, Seq<char>>(StreamId { ms, seq: 0 })
            &&& stream_add_id_spec(whole) == Ok::<StreamAddId, Seq<char>>(
                StreamAddId::Explicit(StreamId { ms, seq }),
            )
            &&& stream_add_id_spec(t + seq![45u8] + seq![42u8]) == Ok::<StreamAddId, Seq<char>>(
                StreamAddId::AutoSeq(ms),
            )
            &&& stream_add_id_spec(seq![42u8]) == Ok::<StreamAddId, Seq<char>>(StreamAddId::Auto)
        }),
{
    let t = decimal_digits(ms as nat);
    let n = decimal_digits(seq as nat);
    let whole = t + seq![45u8] + n;
    let star = t + seq![45u8] + seq![42u8];
    law_numbers_read_back(ms as nat);
    law_numbers_read_back(seq as nat);
    law_digits_read_back(ms as nat);
    law_digits_read_back(seq as nat);
    lemma_hyphen(ms, n);
    lemma_hyphen(ms, seq![42u8]);
    let h = t.len() as int;
    assert(whole.take(h) =~= t);
    assert(whole.skip(h + 1) =~= n);
    assert(t.take(h) =~= t);
    assert(star.take(h) =~= t);
    assert(is_digit(t[0]));
    assert(is_digit(n[0]));
    assert(whole[h + 1] == n[0]);
    assert(whole != seq![42u8]) by {
        assert(whole[0] == t[0]);
        assert(seq![42u8][0] == 42);
    }
    assert(star != seq![42u8]) by {
        assert(star[0] == t[0]);
        assert(seq![42u8][0] == 42);
    }
}

/// The units of lengths and the measures of vectors, by their words.
pub proof fn law_units()
    ensures
        geo_unit_spec("M"@) == Ok::<GeoUnit, Seq<char>>(GeoUnit::Meters),
        geo_unit_spec("KM"@) == Ok::<GeoUnit, Seq<char>>(GeoUnit::Kilometers),
        geo_unit_spec("MI"@) == Ok::<GeoUnit, Seq<char>>(GeoUnit::Miles),
        geo_unit_spec("FT"@) == Ok::<GeoUnit, Seq<char>>(GeoUnit::Feet),
        forall|w: Seq<char>|
            w != "M"@ && w != "KM"@ && w != "MI"@ && w != "FT"@ ==> (#[trigger] geo_unit_spec(
                w,
            )) is Err,
        metric_of("COSINE"@) == Some(VectorMetric::Cosine),
        metric_of("L2"@) == Some(VectorMetric::L2),
        metric_of("EUCLIDEAN"@) == Some(VectorMetric::L2),
        metric_of("IP"@) == Some(VectorMetric::InnerProduct),
        metric_of("DOT"@) == Some(VectorMetric::InnerProduct),
{
    reveal(name_code);
    reveal_strlit("M");
    reveal_strlit("KM");
    reveal_strlit("MI");
    reveal_strlit("FT");
    reveal_strlit("COSINE");
    reveal_strlit("L2");
    reveal_strlit("EUCLIDEAN");
    reveal_strlit("IP");
    reveal_strlit("DOT");
    assert("M"@.len() == 1 && "KM"@.len() == 2 && "MI"@.len() == 2 && "FT"@.len() == 2);
    assert("KM"@[0] == 'K' && "MI"@[0] == 'M' && "FT"@[0] == 'F');
    assert("COSINE"@.len() == 6 && "L2"@.len() == 2 && "EUCLIDEAN"@.len() == 9 && "IP"@.len() == 2
        && "DOT"@.len() == 3);
    assert("L2"@[0] == 'L' && "IP"@[0] == 'I');
}

/// How long a command waits: a number that is not negative and not too great, as it is.
pub proof fn law_timeouts(v: Double)
    ensures
        timeout_spec(None) is Err,
        v.nan() || v.below_zero() ==> timeout_spec(Some(v)) == Err::<Double, Seq<char>>(
            "timeout is negative"@,
        ),
        !v.nan() && !v.below_zero() && v.above(longest_timeout()) ==> timeout_spec(Some(v)) == Err::<
            Double,
            Seq<char>,
        >("timeout is out of range"@),
        !v.nan() && !v.below_zero() && !v.above(longest_timeout()) ==> timeout_spec(Some(v)) == Ok::<
            Double,
            Seq<char>,
        >(v),
{
}

} // verus!
