//! The operands that commands carry besides keys and values.
use bytes::Bytes;
use vstd::prelude::*;

use crate::octets::content;
use crate::time::Duration;

verus! {

/// A double-precision number, by its IEEE 754 bits.
#[derive(Debug, Clone, Copy, PartialEq, Eq, Structural)]
pub struct Double {
    pub bits: u64,
}

/// A single-precision number, by its IEEE 754 bits.
#[derive(Debug, Clone, Copy, PartialEq, Eq, Structural)]
pub struct Single {
    pub bits: u32,
}

impl Double {
    /// The exponent and fraction: the bits without the sign.
    pub open spec fn magnitude(self) -> u64 {
        self.bits & 0x7fff_ffff_ffff_ffff
    }

    /// Whether the sign bit is set.
    pub open spec fn negative(self) -> bool {
        self.bits >= 0x8000_0000_0000_0000
    }

    /// Whether the value is not a number.
    pub open spec fn nan(self) -> bool {
        self.magnitude() > 0x7ff0_0000_0000_0000
    }

    /// Whether the value is one of the two infinities.
    pub open spec fn infinite(self) -> bool {
        self.magnitude() == 0x7ff0_0000_0000_0000
    }

    /// Whether the value is less than zero.
    pub open spec fn below_zero(self) -> bool {
        self.negative() && self.magnitude() != 0 && !self.nan()
    }

    /// Whether the value is greater than that of `bound`, a positive number.
    pub open spec fn above(self, bound: Double) -> bool {
        !self.negative() && !self.nan() && self.bits > bound.bits
    }

    pub open spec fn inf() -> Double {
        Double { bits: 0x7ff0_0000_0000_0000 }
    }

    pub open spec fn neg_inf() -> Double {
        Double { bits: 0xfff0_0000_0000_0000 }
    }

    pub fn infinity() -> (r: Double)
        ensures
            r == Double::inf(),
    {
        Double { bits: 0x7ff0_0000_0000_0000 }
    }

    pub fn negative_infinity() -> (r: Double)
        ensures
            r == Double::neg_inf(),
    {
        Double { bits: 0xfff0_0000_0000_0000 }
    }

    pub fn is_nan(self) -> (r: bool)
        ensures
            r == self.nan(),
    {
        self.bits & 0x7fff_ffff_ffff_ffff > 0x7ff0_0000_0000_0000
    }

    pub fn is_infinite(self) -> (r: bool)
        ensures
            r == self.infinite(),
    {
        self.bits & 0x7fff_ffff_ffff_ffff == 0x7ff0_0000_0000_0000
    }

    pub fn is_below_zero(self) -> (r: bool)
        ensures
            r == self.below_zero(),
    {
        self.bits >= 0x8000_0000_0000_0000 && self.bits & 0x7fff_ffff_ffff_ffff != 0
            && !self.is_nan()
    }

    pub fn is_above(self, bound: Double) -> (r: bool)
        ensures
            r == self.above(bound),
    {
        self.bits < 0x8000_0000_0000_0000 && !self.is_nan() && self.bits > bound.bits
    }
}

/// When `MSETEX` sets its keys.
#[derive(Debug, Clone, Copy, PartialEq, Eq, Structural)]
pub enum MsetexCondition {
    Always,
    Nx,
    Xx,
}

/// How long the keys that `MSETEX` sets live.
#[derive(Debug, Clone, Copy, PartialEq, Eq, Structural)]
pub enum MsetexExpiry {
    NoExpiry,
    KeepTtl,
    ExpireIn(Duration),
}

/// The option words of `ZADD`.
#[derive(Debug, Clone, Copy, PartialEq, Eq, Structural)]
pub struct ZAddFlags {
    pub nx: bool,
    pub xx: bool,
    pub gt: bool,
    pub lt: bool,
    pub ch: bool,
    pub incr: bool,
}

impl ZAddFlags {
    /// No option word.
    pub open spec fn none() -> ZAddFlags {
        ZAddFlags { nx: false, xx: false, gt: false, lt: false, ch: false, incr: false }
    }
}

impl Default for ZAddFlags {
    fn default() -> (r: ZAddFlags)
        ensures
            r == ZAddFlags::none(),
    {
        ZAddFlags { nx: false, xx: false, gt: false, lt: false, ch: false, incr: false }
    }
}

/// How the scores of one member in several sorted sets become one.
#[derive(Debug, Clone, Copy, PartialEq, Eq, Structural)]
pub enum Aggregate {
    Sum,
    Min,
    Max,
    Count,
}

/// The identifier of a stream entry.
#[derive(Debug, Clone, Copy, PartialEq, Eq, Structural)]
pub struct StreamId {
    pub ms: u64,
    pub seq: u64,
}

/// The identifier that `XADD` asks for.
#[derive(Debug, Clone, Copy, PartialEq, Eq, Structural)]
pub enum StreamAddId {
    Auto,
    AutoSeq(u64),
    Explicit(StreamId),
}

/// An end of a list.
#[derive(Debug, Clone, Copy, PartialEq, Eq, Structural)]
pub enum ListDirection {
    Left,
    Right,
}

/// How a blocked client is woken.
#[derive(Debug, Clone, Copy, PartialEq, Eq, Structural)]
pub enum ClientUnblockType {
    Timeout,
    Error,
}

/// The distance between two vectors.
#[derive(Debug, Clone, Copy, PartialEq, Eq, Structural)]
pub enum VectorMetric {
    Cosine,
    L2,
    InnerProduct,
}

/// A unit of length.
#[derive(Debug, Clone, Copy, PartialEq, Eq, Structural)]
pub enum GeoUnit {
    Meters,
    Kilometers,
    Miles,
    Feet,
}

/// What is done with a packet.
#[derive(Debug, Clone, Copy, PartialEq, Eq, Structural)]
pub enum XdpAction {
    Drop,
    Pass,
    Redirect,
    Tx,
}

/// One end of a range of members in lexicographic order.
#[derive(Debug, Clone, PartialEq)]
pub enum LexBound {
    Inclusive(Bytes),
    Exclusive(Bytes),
    UnboundedMin,
    UnboundedMax,
}

/// What a [`LexBound`] holds.
pub enum LexBoundView {
    Inclusive(Seq<u8>),
    Exclusive(Seq<u8>),
    UnboundedMin,
    UnboundedMax,
}

impl View for LexBound {
    type V = LexBoundView;

    open spec fn view(&self) -> LexBoundView {
        match *self {
            LexBound::Inclusive(x) => LexBoundView::Inclusive(content(x)),
            LexBound::Exclusive(x) => LexBoundView::Exclusive(content(x)),
            LexBound::UnboundedMin => LexBoundView::UnboundedMin,
            LexBound::UnboundedMax => LexBoundView::UnboundedMax,
        }
    }
}

/// Which part of a sorted set a range command takes.
#[derive(Debug, Clone, PartialEq)]
pub struct ZRangeOpts {
    pub start: i64,
    pub stop: i64,
    pub by_score: bool,
    pub by_lex: bool,
    pub rev: bool,
    pub with_scores: bool,
    pub offset: usize,
    pub count: Option<usize>,
    pub min_score: Double,
    pub min_inc: bool,
    pub max_score: Double,
    pub max_inc: bool,
    pub min_lex: LexBound,
    pub max_lex: LexBound,
}

/// What a [`ZRangeOpts`] holds.
pub struct ZRangeOptsView {
    pub start: i64,
    pub stop: i64,
    pub by_score: bool,
    pub by_lex: bool,
    pub rev: bool,
    pub with_scores: bool,
    pub offset: usize,
    pub count: Option<usize>,
    pub min_score: Double,
    pub min_inc: bool,
    pub max_score: Double,
    pub max_inc: bool,
    pub min_lex: LexBoundView,
    pub max_lex: LexBoundView,
}

impl View for ZRangeOpts {
    type V = ZRangeOptsView;

    open spec fn view(&self) -> ZRangeOptsView {
        ZRangeOptsView {
            start: self.start,
            stop: self.stop,
            by_score: self.by_score,
            by_lex: self.by_lex,
            rev: self.rev,
            with_scores: self.with_scores,
            offset: self.offset,
            count: self.count,
            min_score: self.min_score,
            min_inc: self.min_inc,
            max_score: self.max_score,
            max_inc: self.max_inc,
            min_lex: self.min_lex@,
            max_lex: self.max_lex@,
        }
    }
}

impl ZRangeOpts {
    /// The range from rank zero to rank zero, with every other limit open.
    pub open spec fn plain() -> ZRangeOptsView {
        ZRangeOptsView {
            start: 0,
            stop: 0,
            by_score: false,
            by_lex: false,
            rev: false,
            with_scores: false,
            offset: 0,
            count: None,
            min_score: Double::neg_inf(),
            min_inc: true,
            max_score: Double::inf(),
            max_inc: true,
            min_lex: LexBoundView::UnboundedMin,
            max_lex: LexBoundView::UnboundedMax,
        }
    }
}

impl Default for ZRangeOpts {
    fn default() -> (r: ZRangeOpts)
        ensures
            r@ == ZRangeOpts::plain(),
    {
        ZRangeOpts {
            start: 0,
            stop: 0,
            by_score: false,
            by_lex: false,
            rev: false,
            with_scores: false,
            offset: 0,
            count: None,
            min_score: Double::negative_infinity(),
            min_inc: true,
            max_score: Double::infinity(),
            max_inc: true,
            min_lex: LexBound::UnboundedMin,
            max_lex: LexBound::UnboundedMax,
        }
    }
}

} // verus!
