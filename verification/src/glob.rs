//! Patterns over channel names: `?` stands for one byte and `*` for any run of bytes. A star of the
//! pattern that faces a star of the text stands for that one byte alone.
use vstd::prelude::*;

verus! {

/// How a stretch of pattern, laid on the text byte by byte, comes to its end: at the end of the
/// text with the pattern at a place, at a star of the pattern with the text at a place, or at two
/// bytes that differ.
pub enum Stretch {
    End(int),
    Star(int, int),
    Clash,
}

/// The pattern from `p` on laid on the text from `t` on. A star that lies on a star of the text is
/// taken as that byte.
pub open spec fn stretch(pattern: Seq<u8>, text: Seq<u8>, p: int, t: int) -> Stretch
    decreases text.len() - t,
{
    if t >= text.len() {
        Stretch::End(p)
    } else if p < pattern.len() && (pattern[p] == 63 || pattern[p] == text[t]) {
        stretch(pattern, text, p + 1, t + 1)
    } else if p < pattern.len() && pattern[p] == 42 {
        Stretch::Star(p, t)
    } else {
        Stretch::Clash
    }
}

/// Nothing but stars from `p` on.
pub open spec fn only_stars(pattern: Seq<u8>, p: int) -> bool {
    forall|i: int| p <= i < pattern.len() ==> pattern[i] == 42
}

/// What a star takes is kept as short as the stretch behind it allows: that stretch is laid on the
/// text from `k` on, at the first place where it does not clash.
pub open spec fn sweep(pattern: Seq<u8>, text: Seq<u8>, q: int, k: int) -> bool
    decreases pattern.len() - q, text.len() - k,
{
    proof {
        lemma_stretch_advances(pattern, text, q, k);
    }
    match stretch(pattern, text, q, k) {
        Stretch::End(p) => only_stars(pattern, p),
        Stretch::Star(p, t) => sweep(pattern, text, p + 1, t),
        Stretch::Clash => k < text.len() && sweep(pattern, text, q, k + 1),
    }
}

/// What `glob_match` decides.
pub open spec fn glob(pattern: Seq<u8>, text: Seq<u8>) -> bool {
    match stretch(pattern, text, 0, 0) {
        Stretch::End(p) => only_stars(pattern, p),
        Stretch::Star(p, t) => sweep(pattern, text, p + 1, t),
        Stretch::Clash => false,
    }
}

/// A stretch never runs backwards.
pub proof fn lemma_stretch_advances(pattern: Seq<u8>, text: Seq<u8>, p: int, t: int)
    ensures
        match stretch(pattern, text, p, t) {
            Stretch::End(a) => a >= p,
            Stretch::Star(a, b) => p <= a < pattern.len() && t <= b < text.len(),
            Stretch::Clash => t < text.len(),
        },
    decreases text.len() - t,
{
    if t < text.len() && p < pattern.len() && (pattern[p] == 63 || pattern[p] == text[t]) {
        lemma_stretch_advances(pattern, text, p + 1, t + 1);
    }
}

/// Whether the text matches the pattern.
#[verifier::loop_isolation(false)]
pub fn glob_match(pattern: &[u8], text: &[u8]) -> (r: bool)
    ensures
        r == glob(pattern@, text@),
{
    let ghost goal = glob(pattern@, text@);
    let mut p: usize = 0;
    let mut t: usize = 0;
    let mut star: Option<usize> = None;
    let mut anchor: usize = 0;
    while t < text.len()
        invariant
            p <= pattern.len(),
            anchor <= t <= text.len(),
            match star {
                None => stretch(pattern@, text@, p as int, t as int) == stretch(
                    pattern@,
                    text@,
                    0,
                    0,
                ),
                Some(s) => {
                    &&& s < p
                    &&& goal == sweep(pattern@, text@, s + 1, anchor as int)
                    &&& stretch(pattern@, text@, p as int, t as int) == stretch(
                        pattern@,
                        text@,
                        s + 1,
                        anchor as int,
                    )
                },
            },
        decreases
                match star {
                    None => pattern.len() + 1,
                    Some(s) => pattern.len() - s,
                },
                text.len() - anchor,
                text.len() - t,
    {
        if p < pattern.len() && (pattern[p] == 63 || pattern[p] == text[t]) {
            p += 1;
            t += 1;
        } else if p < pattern.len() && pattern[p] == 42 {
            star = Some(p);
            p += 1;
            anchor = t;
        } else {
            match star {
                Some(s) => {
                    p = s + 1;
                    anchor += 1;
                    t = anchor;
                },
                None => {
                    return false;
                },
            }
        }
    }
    let ghost rest = p;
    assert(stretch(pattern@, text@, p as int, t as int) == Stretch::End(p as int));
    assert(goal == only_stars(pattern@, p as int));
    while p < pattern.len() && pattern[p] == 42
        invariant
            rest <= p <= pattern.len(),
            forall|i: int| rest <= i < p ==> pattern@[i] == 42,
        decreases pattern.len() - p,
    {
        p += 1;
    }
    assert(p == pattern.len() ==> only_stars(pattern@, rest as int));
    p == pattern.len()
}

/// The usual meaning of a pattern, from `p` on, for the text from `t` on: a star takes any number
/// of bytes, a question mark one, any other byte itself.
pub open spec fn fits(pattern: Seq<u8>, text: Seq<u8>, p: int, t: int) -> bool
    decreases pattern.len() - p, text.len() - t,
{
    if p >= pattern.len() {
        t >= text.len()
    } else if pattern[p] == 42 {
        fits(pattern, text, p + 1, t) || (t < text.len() && fits(pattern, text, p, t + 1))
    } else {
        t < text.len() && (pattern[p] == 63 || pattern[p] == text[t]) && fits(
            pattern,
            text,
            p + 1,
            t + 1,
        )
    }
}

/// Behind the last byte of the text only stars fit.
proof fn lemma_fits_end(pattern: Seq<u8>, text: Seq<u8>, p: int)
    requires
        0 <= p,
    ensures
        fits(pattern, text, p, text.len() as int) == only_stars(pattern, p),
    decreases pattern.len() - p,
{
    if p < pattern.len() {
        lemma_fits_end(pattern, text, p + 1);
        if pattern[p] == 42 {
            assert(only_stars(pattern, p) == only_stars(pattern, p + 1)) by {
                if only_stars(pattern, p + 1) {
                    assert forall|i: int| p <= i < pattern.len() implies pattern[i] == 42 by {}
                }
            }
        }
    }
}

/// A stretch over text without stars changes nothing about what fits.
proof fn lemma_stretch_fits(pattern: Seq<u8>, text: Seq<u8>, p: int, t: int)
    requires
        0 <= p <= pattern.len(),
        0 <= t <= text.len(),
        !text.contains(42),
    ensures
        match stretch(pattern, text, p, t) {
            Stretch::End(a) => {
                &&& p <= a <= pattern.len()
                &&& a - p == text.len() - t
                &&& forall|i: int| p <= i < a ==> pattern[i] != 42
                &&& fits(pattern, text, p, t) == only_stars(pattern, a)
            },
            Stretch::Star(a, b) => {
                &&& p <= a < pattern.len()
                &&& a - p == b - t
                &&& b < text.len()
                &&& pattern[a] == 42
                &&& forall|i: int| p <= i < a ==> pattern[i] != 42
                &&& fits(pattern, text, p, t) == fits(pattern, text, a, b)
            },
            Stretch::Clash => !fits(pattern, text, p, t),
        },
    decreases text.len() - t,
{
    if t >= text.len() {
        lemma_fits_end(pattern, text, p);
    } else {
        assert(text.contains(text[t]));
        if p < pattern.len() && (pattern[p] == 63 || pattern[p] == text[t]) {
            lemma_stretch_fits(pattern, text, p + 1, t + 1);
        }
    }
}

/// What fits takes one byte of text for each byte of pattern that is no star.
proof fn lemma_fits_through(pattern: Seq<u8>, text: Seq<u8>, p: int, a: int, t: int)
    requires
        0 <= p <= a <= pattern.len(),
        0 <= t <= text.len(),
        forall|i: int| p <= i < a ==> pattern[i] != 42,
        fits(pattern, text, p, t),
    ensures
        t + (a - p) <= text.len(),
        fits(pattern, text, a, t + (a - p)),
    decreases a - p,
{
    if p < a {
        lemma_fits_through(pattern, text, p + 1, a, t + 1);
    }
}

/// A star can take more.
proof fn lemma_star_takes_more(pattern: Seq<u8>, text: Seq<u8>, s: int, t: int, u: int)
    requires
        0 <= s < pattern.len(),
        pattern[s] == 42,
        0 <= t <= u <= text.len(),
        fits(pattern, text, s, u),
    ensures
        fits(pattern, text, s, t),
    decreases u - t,
{
    if t < u {
        lemma_star_takes_more(pattern, text, s, t + 1, u);
    }
}

/// Where a pattern with a star in front fits, what stands behind the star fits somewhere.
proof fn lemma_star_ends(pattern: Seq<u8>, text: Seq<u8>, s: int, t: int) -> (u: int)
    requires
        0 <= s < pattern.len(),
        pattern[s] == 42,
        0 <= t <= text.len(),
        fits(pattern, text, s, t),
    ensures
        t <= u <= text.len(),
        fits(pattern, text, s + 1, u),
    decreases text.len() - t,
{
    if fits(pattern, text, s + 1, t) {
        t
    } else {
        lemma_star_ends(pattern, text, s, t + 1)
    }
}

/// To keep what a star takes short loses nothing.
proof fn lemma_sweep_fits(pattern: Seq<u8>, text: Seq<u8>, s: int, k: int)
    requires
        0 <= s < pattern.len(),
        pattern[s] == 42,
        0 <= k <= text.len(),
        !text.contains(42),
    ensures
        sweep(pattern, text, s + 1, k) == fits(pattern, text, s, k),
    decreases pattern.len() - s, text.len() - k,
{
    lemma_stretch_fits(pattern, text, s + 1, k);
    lemma_stretch_advances(pattern, text, s + 1, k);
    match stretch(pattern, text, s + 1, k) {
        Stretch::End(p) => {
            if fits(pattern, text, s, k) {
                let u = lemma_star_ends(pattern, text, s, k);
                lemma_fits_through(pattern, text, s + 1, p, u);
                assert(u == k);
            }
        },
        Stretch::Star(p, t) => {
            lemma_sweep_fits(pattern, text, p, t);
            if fits(pattern, text, s, k) {
                let u = lemma_star_ends(pattern, text, s, k);
                lemma_fits_through(pattern, text, s + 1, p, u);
                lemma_star_takes_more(pattern, text, p, t, u + (p - s - 1));
            }
        },
        Stretch::Clash => {
            lemma_sweep_fits(pattern, text, s, k + 1);
        },
    }
}

/// On a text without stars a pattern has its usual meaning.
pub proof fn law_glob_is_usual(pattern: Seq<u8>, text: Seq<u8>)
    requires
        !text.contains(42),
    ensures
        glob(pattern, text) == fits(pattern, text, 0, 0),
{
    lemma_stretch_fits(pattern, text, 0, 0);
    match stretch(pattern, text, 0, 0) {
        Stretch::Star(p, t) => {
            lemma_sweep_fits(pattern, text, p, t);
        },
        _ => {},
    }
}

} // verus!
