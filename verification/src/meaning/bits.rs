//! What the commands on bitmaps and cardinalities stand for.
use vstd::prelude::*;

use crate::build::named_command_spec;
use crate::build::bits::{
    bitcount_spec, bitop_spec, bitpos_spec, getbit_spec, pfadd_spec, pfcount_spec, pfmerge_spec,
    setbit_spec,
};
use crate::build::naming::{lemma_bits_codes, lemma_reach_bits};
use crate::command::CommandView;
use crate::numbers::{i64_of, u64_of, u8_of, usize_of};
use crate::readings::ParseEnv;
use crate::resp::unnamed;
use crate::text::upper_word;
use super::{called, lemma_called, makes, refuses, verdict};

verus! {

/// What `SETBIT` stands for.
pub proof fn law_setbit(a: Seq<Seq<u8>>, env: &ParseEnv)
    requires
        called(a, "SETBIT"@),
    ensures
        a.len() != 4 ==> refuses(a, env, "wrong number of arguments for 'setbit' command"@),
        a.len() == 4 && u64_of(a[2]) is None ==>
            refuses(a, env, "bit offset is not an integer or out of range"@),
        a.len() == 4 && u64_of(a[2]) is Some && u64_of(a[2])->0 >= 4294967296 ==>
            refuses(a, env, "bit offset is not an integer or out of range"@),
        a.len() == 4 && u64_of(a[2]) is Some && u64_of(a[2])->0 < 4294967296
            && u8_of(a[3]) is None ==>
            refuses(a, env, "bit is not an integer or out of range"@),
        a.len() == 4 && u64_of(a[2]) is Some && u64_of(a[2])->0 < 4294967296 && u8_of(a[3]) is Some
            && u8_of(a[3])->0 > 1 ==>
            refuses(a, env, "bit is not an integer or out of range"@),
        a.len() == 4 && u64_of(a[2]) is Some && u64_of(a[2])->0 < 4294967296 && u8_of(a[3]) is Some
            && u8_of(a[3])->0 <= 1 ==>
            makes(
                a,
                env,
                CommandView::Setbit {
                    key: a[1],
                    offset: u64_of(a[2])->0 as usize,
                    value: u8_of(a[3])->0,
                },
            ),
{
    reveal(verdict);
    lemma_called(a);
    assert(named_command_spec(upper_word(a[0]), unnamed(a), env) == setbit_spec(unnamed(a))) by {
        lemma_reach_bits(upper_word(a[0]), unnamed(a), env);
        lemma_bits_codes();
    }
}

/// What `GETBIT` stands for.
pub proof fn law_getbit(a: Seq<Seq<u8>>, env: &ParseEnv)
    requires
        called(a, "GETBIT"@),
    ensures
        a.len() != 3 ==> refuses(a, env, "wrong number of arguments for 'getbit' command"@),
        a.len() == 3 && usize_of(a[2]) is None ==>
            refuses(a, env, "bit offset is not an integer or out of range"@),
        a.len() == 3 && usize_of(a[2]) is Some ==>
            makes(a, env, CommandView::Getbit { key: a[1], offset: usize_of(a[2])->0 }),
{
    reveal(verdict);
    lemma_called(a);
    assert(named_command_spec(upper_word(a[0]), unnamed(a), env) == getbit_spec(unnamed(a))) by {
        lemma_reach_bits(upper_word(a[0]), unnamed(a), env);
        lemma_bits_codes();
    }
}

/// What `BITCOUNT` stands for.
pub proof fn law_bitcount(a: Seq<Seq<u8>>, env: &ParseEnv)
    requires
        called(a, "BITCOUNT"@),
    ensures
        a.len() != 2 && a.len() != 4 && a.len() != 5 ==>
            refuses(a, env, "wrong number of arguments for 'bitcount' command"@),
        ((a.len() == 2 || a.len() == 4 || a.len() == 5)) && a.len() >= 4
            && i64_of(a[2]) is None ==>
            refuses(a, env, "value is not an integer or out of range"@),
        ((a.len() == 2 || a.len() == 4 || a.len() == 5)) && a.len() >= 4 && i64_of(a[2]) is Some
            && i64_of(a[3]) is None ==>
            refuses(a, env, "value is not an integer or out of range"@),
        ((a.len() == 2 || a.len() == 4 || a.len() == 5)) && a.len() >= 4 && i64_of(a[2]) is Some
            && i64_of(a[3]) is Some ==>
            makes(
                a,
                env,
                CommandView::Bitcount {
                    key: a[1],
                    start: Some(i64_of(a[2])->0),
                    end: Some(i64_of(a[3])->0),
                },
            ),
        ((a.len() == 2 || a.len() == 4 || a.len() == 5)) && a.len() < 4 ==>
            makes(a, env, CommandView::Bitcount { key: a[1], start: None, end: None }),
{
    reveal(verdict);
    lemma_called(a);
    assert(named_command_spec(upper_word(a[0]), unnamed(a), env) == bitcount_spec(unnamed(a))) by {
        lemma_reach_bits(upper_word(a[0]), unnamed(a), env);
        lemma_bits_codes();
    }
}

/// What `BITPOS` stands for.
pub proof fn law_bitpos(a: Seq<Seq<u8>>, env: &ParseEnv)
    requires
        called(a, "BITPOS"@),
    ensures
        (a.len() < 3 || a.len() > 5) ==>
            refuses(a, env, "wrong number of arguments for 'bitpos' command"@),
        a.len() >= 3 && a.len() <= 5 && u8_of(a[2]) is None ==>
            refuses(a, env, "The bit argument must be 1 or 0."@),
        a.len() >= 3 && a.len() <= 5 && u8_of(a[2]) is Some && u8_of(a[2])->0 > 1 ==>
            refuses(a, env, "The bit argument must be 1 or 0."@),
        a.len() >= 4 && a.len() <= 5 && u8_of(a[2]) is Some && u8_of(a[2])->0 <= 1
            && i64_of(a[3]) is None ==>
            refuses(a, env, "value is not an integer or out of range"@),
        u8_of(a[2]) is Some && u8_of(a[2])->0 <= 1 && i64_of(a[3]) is Some && a.len() == 5
            && i64_of(a[4]) is None ==>
            refuses(a, env, "value is not an integer or out of range"@),
        u8_of(a[2]) is Some && u8_of(a[2])->0 <= 1 && i64_of(a[3]) is Some && a.len() == 5
            && i64_of(a[4]) is Some ==>
            makes(
                a,
                env,
                CommandView::Bitpos {
                    key: a[1],
                    bit: u8_of(a[2])->0,
                    start: Some(i64_of(a[3])->0),
                    end: Some(i64_of(a[4])->0),
                },
            ),
        a.len() >= 4 && a.len() <= 5 && u8_of(a[2]) is Some && u8_of(a[2])->0 <= 1
            && i64_of(a[3]) is Some && a.len() != 5 ==>
            makes(
                a,
                env,
                CommandView::Bitpos {
                    key: a[1],
                    bit: u8_of(a[2])->0,
                    start: Some(i64_of(a[3])->0),
                    end: None,
                },
            ),
        a.len() >= 3 && a.len() <= 5 && u8_of(a[2]) is Some && u8_of(a[2])->0 <= 1
            && a.len() < 4 ==>
            makes(
                a,
                env,
                CommandView::Bitpos { key: a[1], bit: u8_of(a[2])->0, start: None, end: None },
            ),
{
    reveal(verdict);
    lemma_called(a);
    assert(named_command_spec(upper_word(a[0]), unnamed(a), env) == bitpos_spec(unnamed(a))) by {
        lemma_reach_bits(upper_word(a[0]), unnamed(a), env);
        lemma_bits_codes();
    }
}

/// What `BITOP` stands for.
pub proof fn law_bitop(a: Seq<Seq<u8>>, env: &ParseEnv)
    requires
        called(a, "BITOP"@),
    ensures
        a.len() < 4 ==> refuses(a, env, "wrong number of arguments for 'bitop' command"@),
        a.len() >= 4 && upper_word(a[1]) == "NOT"@ && a.len() != 4 ==>
            refuses(a, env, "BITOP NOT takes only one source key"@),
        a.len() >= 4 && ((upper_word(a[1]) != "NOT"@ || a.len() == 4)) ==>
            makes(
                a,
                env,
                CommandView::Bitop { op: upper_word(a[1]), destkey: a[2], srckeys: a.skip(3) },
            ),
{
    reveal(verdict);
    lemma_called(a);
    assert(named_command_spec(upper_word(a[0]), unnamed(a), env) == bitop_spec(unnamed(a))) by {
        lemma_reach_bits(upper_word(a[0]), unnamed(a), env);
        lemma_bits_codes();
    }
}

/// What `PFADD` stands for.
pub proof fn law_pfadd(a: Seq<Seq<u8>>, env: &ParseEnv)
    requires
        called(a, "PFADD"@),
    ensures
        a.len() < 2 ==> refuses(a, env, "wrong number of arguments for 'pfadd' command"@),
        a.len() >= 2 ==> makes(a, env, CommandView::Pfadd { key: a[1], elements: a.skip(2) }),
{
    reveal(verdict);
    lemma_called(a);
    assert(named_command_spec(upper_word(a[0]), unnamed(a), env) == pfadd_spec(unnamed(a))) by {
        lemma_reach_bits(upper_word(a[0]), unnamed(a), env);
        lemma_bits_codes();
    }
}

/// What `PFCOUNT` stands for.
pub proof fn law_pfcount(a: Seq<Seq<u8>>, env: &ParseEnv)
    requires
        called(a, "PFCOUNT"@),
    ensures
        a.len() < 2 ==> refuses(a, env, "wrong number of arguments for 'pfcount' command"@),
        a.len() >= 2 ==> makes(a, env, CommandView::Pfcount { keys: a.skip(1) }),
{
    reveal(verdict);
    lemma_called(a);
    assert(named_command_spec(upper_word(a[0]), unnamed(a), env) == pfcount_spec(unnamed(a))) by {
        lemma_reach_bits(upper_word(a[0]), unnamed(a), env);
        lemma_bits_codes();
    }
}

/// What `PFMERGE` stands for.
pub proof fn law_pfmerge(a: Seq<Seq<u8>>, env: &ParseEnv)
    requires
        called(a, "PFMERGE"@),
    ensures
        a.len() < 2 ==> refuses(a, env, "wrong number of arguments for 'pfmerge' command"@),
        a.len() >= 2 ==> makes(a, env, CommandView::Pfmerge { destkey: a[1], srckeys: a.skip(2) }),
{
    reveal(verdict);
    lemma_called(a);
    assert(named_command_spec(upper_word(a[0]), unnamed(a), env) == pfmerge_spec(unnamed(a))) by {
        lemma_reach_bits(upper_word(a[0]), unnamed(a), env);
        lemma_bits_codes();
    }
}

} // verus!
