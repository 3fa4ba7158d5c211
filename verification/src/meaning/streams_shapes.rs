//! What some commands on streams are made of, shape by shape.
use vstd::prelude::*;
use vstd::utf8::*;

use crate::build::named_command_spec;
use crate::build::naming::{lemma_reach_streams, lemma_streams_codes, name_code};
use crate::build::streams::{
    entry_ids, xack_spec, xadd_options, xadd_spec, xdel_spec, xgroup_create_options, xgroup_spec,
    xread_options, xread_spec, xreadgroup_options, xreadgroup_spec, xtrim_options, xtrim_spec,
};
use crate::command::CommandView;
use crate::lists::{lossy_texts, paired};
use crate::numbers::{u64_of, usize_of};
use crate::operands::StreamId;
use crate::readings::{ParseEnv, read, stream_add_id_spec, stream_id_spec};
use crate::resp::unnamed;
use crate::text::{lossy_text, spells, upper_word};
use super::{called, lemma_called, makes, refuses, verdict};

verus! {

/// An entry with its fields, two by two.
pub proof fn law_xadd_bare(a: Seq<Seq<u8>>, env: &ParseEnv)
    requires
        called(a, "XADD"@),
        upper_word(a[2]) != "NOMKSTREAM"@,
        upper_word(a[2]) != "MAXLEN"@,
        upper_word(a[2]) != "MINID"@,
        upper_word(a[2]) != "LIMIT"@,
        a.len() >= 5,
        (a.len() - 3) % 2 == 0,
        stream_add_id_spec(a[2]) is Ok,
    ensures
        makes(
            a,
            env,
            CommandView::Xadd {
                key: a[1],
                nomkstream: false,
                maxlen: None,
                minid: None,
                id: stream_add_id_spec(a[2])->Ok_0,
                fields: paired(a.skip(3)),
            },
        ),
{
    reveal(verdict);
    lemma_called(a);
    assert(named_command_spec(upper_word(a[0]), unnamed(a), env) == xadd_spec(unnamed(a))) by {
        lemma_reach_streams(upper_word(a[0]), unnamed(a), env);
        lemma_streams_codes();
    }
    reveal(name_code);
    reveal_strlit("LIMIT");
    reveal_strlit("MAXLEN");
    reveal_strlit("MINID");
    reveal_strlit("NOMKSTREAM");
    assert(name_code("LIMIT"@) == 8387764107911705);
    assert(name_code("MAXLEN"@) == 8494284841095606);
    assert(name_code("MINID"@) == 8497715270689405);
    assert(name_code("NOMKSTREAM"@) == 8610247319584510);
    reveal_with_fuel(xadd_options, 3);
}

/// An entry for a stream that is there.
pub proof fn law_xadd_nomkstream(a: Seq<Seq<u8>>, env: &ParseEnv)
    requires
        called(a, "XADD"@),
        upper_word(a[2]) == "NOMKSTREAM"@,
        upper_word(a[3]) != "NOMKSTREAM"@,
        upper_word(a[3]) != "MAXLEN"@,
        upper_word(a[3]) != "MINID"@,
        upper_word(a[3]) != "LIMIT"@,
        a.len() >= 6,
        (a.len() - 4) % 2 == 0,
        stream_add_id_spec(a[3]) is Ok,
    ensures
        makes(
            a,
            env,
            CommandView::Xadd {
                key: a[1],
                nomkstream: true,
                maxlen: None,
                minid: None,
                id: stream_add_id_spec(a[3])->Ok_0,
                fields: paired(a.skip(4)),
            },
        ),
{
    reveal(verdict);
    lemma_called(a);
    assert(named_command_spec(upper_word(a[0]), unnamed(a), env) == xadd_spec(unnamed(a))) by {
        lemma_reach_streams(upper_word(a[0]), unnamed(a), env);
        lemma_streams_codes();
    }
    reveal(name_code);
    reveal_strlit("LIMIT");
    reveal_strlit("MAXLEN");
    reveal_strlit("MINID");
    reveal_strlit("NOMKSTREAM");
    assert(name_code("LIMIT"@) == 8387764107911705);
    assert(name_code("MAXLEN"@) == 8494284841095606);
    assert(name_code("MINID"@) == 8497715270689405);
    assert(name_code("NOMKSTREAM"@) == 8610247319584510);
    reveal_with_fuel(xadd_options, 3);
}

/// An entry for a stream that is kept to a length.
pub proof fn law_xadd_maxlen(a: Seq<Seq<u8>>, env: &ParseEnv)
    requires
        called(a, "XADD"@),
        upper_word(a[2]) == "MAXLEN"@,
        a[3] != encode_utf8("="@) && a[3] != encode_utf8("~"@),
        usize_of(a[3]) is Some,
        upper_word(a[4]) != "NOMKSTREAM"@,
        upper_word(a[4]) != "MAXLEN"@,
        upper_word(a[4]) != "MINID"@,
        upper_word(a[4]) != "LIMIT"@,
        a.len() >= 7,
        (a.len() - 5) % 2 == 0,
        stream_add_id_spec(a[4]) is Ok,
    ensures
        makes(
            a,
            env,
            CommandView::Xadd {
                key: a[1],
                nomkstream: false,
                maxlen: Some(usize_of(a[3])->0),
                minid: None,
                id: stream_add_id_spec(a[4])->Ok_0,
                fields: paired(a.skip(5)),
            },
        ),
{
    reveal(verdict);
    lemma_called(a);
    assert(named_command_spec(upper_word(a[0]), unnamed(a), env) == xadd_spec(unnamed(a))) by {
        lemma_reach_streams(upper_word(a[0]), unnamed(a), env);
        lemma_streams_codes();
    }
    reveal(name_code);
    reveal_strlit("LIMIT");
    reveal_strlit("MAXLEN");
    reveal_strlit("MINID");
    reveal_strlit("NOMKSTREAM");
    assert(name_code("LIMIT"@) == 8387764107911705);
    assert(name_code("MAXLEN"@) == 8494284841095606);
    assert(name_code("MINID"@) == 8497715270689405);
    assert(name_code("NOMKSTREAM"@) == 8610247319584510);
    reveal_with_fuel(xadd_options, 3);
}

/// An entry for a stream that is kept to a length, with a sign before it.
pub proof fn law_xadd_maxlen_signed(a: Seq<Seq<u8>>, env: &ParseEnv)
    requires
        called(a, "XADD"@),
        upper_word(a[2]) == "MAXLEN"@,
        (a[3] == encode_utf8("="@) || a[3] == encode_utf8("~"@)),
        usize_of(a[4]) is Some,
        upper_word(a[5]) != "NOMKSTREAM"@,
        upper_word(a[5]) != "MAXLEN"@,
        upper_word(a[5]) != "MINID"@,
        upper_word(a[5]) != "LIMIT"@,
        a.len() >= 8,
        (a.len() - 6) % 2 == 0,
        stream_add_id_spec(a[5]) is Ok,
    ensures
        makes(
            a,
            env,
            CommandView::Xadd {
                key: a[1],
                nomkstream: false,
                maxlen: Some(usize_of(a[4])->0),
                minid: None,
                id: stream_add_id_spec(a[5])->Ok_0,
                fields: paired(a.skip(6)),
            },
        ),
{
    reveal(verdict);
    lemma_called(a);
    assert(named_command_spec(upper_word(a[0]), unnamed(a), env) == xadd_spec(unnamed(a))) by {
        lemma_reach_streams(upper_word(a[0]), unnamed(a), env);
        lemma_streams_codes();
    }
    reveal(name_code);
    reveal_strlit("LIMIT");
    reveal_strlit("MAXLEN");
    reveal_strlit("MINID");
    reveal_strlit("NOMKSTREAM");
    assert(name_code("LIMIT"@) == 8387764107911705);
    assert(name_code("MAXLEN"@) == 8494284841095606);
    assert(name_code("MINID"@) == 8497715270689405);
    assert(name_code("NOMKSTREAM"@) == 8610247319584510);
    reveal_with_fuel(xadd_options, 3);
}

/// An entry for a stream that is kept from an entry on.
pub proof fn law_xadd_minid(a: Seq<Seq<u8>>, env: &ParseEnv)
    requires
        called(a, "XADD"@),
        upper_word(a[2]) == "MINID"@,
        a[3] != encode_utf8("="@) && a[3] != encode_utf8("~"@),
        stream_id_spec(a[3]) is Ok,
        upper_word(a[4]) != "NOMKSTREAM"@,
        upper_word(a[4]) != "MAXLEN"@,
        upper_word(a[4]) != "MINID"@,
        upper_word(a[4]) != "LIMIT"@,
        a.len() >= 7,
        (a.len() - 5) % 2 == 0,
        stream_add_id_spec(a[4]) is Ok,
    ensures
        makes(
            a,
            env,
            CommandView::Xadd {
                key: a[1],
                nomkstream: false,
                maxlen: None,
                minid: Some(stream_id_spec(a[3])->Ok_0),
                id: stream_add_id_spec(a[4])->Ok_0,
                fields: paired(a.skip(5)),
            },
        ),
{
    reveal(verdict);
    lemma_called(a);
    assert(named_command_spec(upper_word(a[0]), unnamed(a), env) == xadd_spec(unnamed(a))) by {
        lemma_reach_streams(upper_word(a[0]), unnamed(a), env);
        lemma_streams_codes();
    }
    reveal(name_code);
    reveal_strlit("LIMIT");
    reveal_strlit("MAXLEN");
    reveal_strlit("MINID");
    reveal_strlit("NOMKSTREAM");
    assert(name_code("LIMIT"@) == 8387764107911705);
    assert(name_code("MAXLEN"@) == 8494284841095606);
    assert(name_code("MINID"@) == 8497715270689405);
    assert(name_code("NOMKSTREAM"@) == 8610247319584510);
    reveal_with_fuel(xadd_options, 3);
}

/// Options of an entry stand beside each other.
pub proof fn law_xadd_all(a: Seq<Seq<u8>>, env: &ParseEnv)
    requires
        called(a, "XADD"@),
        upper_word(a[2]) == "NOMKSTREAM"@,
        upper_word(a[3]) == "MAXLEN"@,
        (a[4] == encode_utf8("="@) || a[4] == encode_utf8("~"@)),
        usize_of(a[5]) is Some,
        upper_word(a[6]) == "LIMIT"@,
        upper_word(a[8]) != "NOMKSTREAM"@,
        upper_word(a[8]) != "MAXLEN"@,
        upper_word(a[8]) != "MINID"@,
        upper_word(a[8]) != "LIMIT"@,
        a.len() >= 11,
        (a.len() - 9) % 2 == 0,
        stream_add_id_spec(a[8]) is Ok,
    ensures
        makes(
            a,
            env,
            CommandView::Xadd {
                key: a[1],
                nomkstream: true,
                maxlen: Some(usize_of(a[5])->0),
                minid: None,
                id: stream_add_id_spec(a[8])->Ok_0,
                fields: paired(a.skip(9)),
            },
        ),
{
    reveal(verdict);
    lemma_called(a);
    assert(named_command_spec(upper_word(a[0]), unnamed(a), env) == xadd_spec(unnamed(a))) by {
        lemma_reach_streams(upper_word(a[0]), unnamed(a), env);
        lemma_streams_codes();
    }
    reveal(name_code);
    reveal_strlit("LIMIT");
    reveal_strlit("MAXLEN");
    reveal_strlit("MINID");
    reveal_strlit("NOMKSTREAM");
    assert(name_code("LIMIT"@) == 8387764107911705);
    assert(name_code("MAXLEN"@) == 8494284841095606);
    assert(name_code("MINID"@) == 8497715270689405);
    assert(name_code("NOMKSTREAM"@) == 8610247319584510);
    reveal_with_fuel(xadd_options, 5);
}

/// An entry whose fields are not pairs, or that has none, is refused.
pub proof fn law_xadd_odd(a: Seq<Seq<u8>>, env: &ParseEnv)
    requires
        called(a, "XADD"@),
        upper_word(a[2]) != "NOMKSTREAM"@,
        upper_word(a[2]) != "MAXLEN"@,
        upper_word(a[2]) != "MINID"@,
        upper_word(a[2]) != "LIMIT"@,
        a.len() >= 4,
        stream_add_id_spec(a[2]) is Ok,
        (a.len() - 3) % 2 != 0,
    ensures
        refuses(a, env, "wrong number of arguments for 'xadd' command"@),
{
    reveal(verdict);
    lemma_called(a);
    assert(named_command_spec(upper_word(a[0]), unnamed(a), env) == xadd_spec(unnamed(a))) by {
        lemma_reach_streams(upper_word(a[0]), unnamed(a), env);
        lemma_streams_codes();
    }
    reveal(name_code);
    reveal_strlit("LIMIT");
    reveal_strlit("MAXLEN");
    reveal_strlit("MINID");
    reveal_strlit("NOMKSTREAM");
    assert(name_code("LIMIT"@) == 8387764107911705);
    assert(name_code("MAXLEN"@) == 8494284841095606);
    assert(name_code("MINID"@) == 8497715270689405);
    assert(name_code("NOMKSTREAM"@) == 8610247319584510);
    reveal_with_fuel(xadd_options, 3);
}

/// To trim to a length.
pub proof fn law_xtrim_maxlen(a: Seq<Seq<u8>>, env: &ParseEnv)
    requires
        called(a, "XTRIM"@),
        a.len() == 4,
        upper_word(a[2]) == "MAXLEN"@,
        a[3] != encode_utf8("="@) && a[3] != encode_utf8("~"@),
        usize_of(a[3]) is Some,
    ensures
        makes(
            a,
            env,
            CommandView::Xtrim { key: a[1], maxlen: Some(usize_of(a[3])->0), minid: None },
        ),
{
    reveal(verdict);
    lemma_called(a);
    assert(named_command_spec(upper_word(a[0]), unnamed(a), env) == xtrim_spec(unnamed(a))) by {
        lemma_reach_streams(upper_word(a[0]), unnamed(a), env);
        lemma_streams_codes();
    }
    reveal(name_code);
    reveal_strlit("LIMIT");
    reveal_strlit("MAXLEN");
    reveal_strlit("MINID");
    assert(name_code("LIMIT"@) == 8387764107911705);
    assert(name_code("MAXLEN"@) == 8494284841095606);
    assert(name_code("MINID"@) == 8497715270689405);
    reveal_with_fuel(xtrim_options, 3);
}

/// To trim to a length, with a sign before it.
pub proof fn law_xtrim_maxlen_signed(a: Seq<Seq<u8>>, env: &ParseEnv)
    requires
        called(a, "XTRIM"@),
        a.len() == 5,
        upper_word(a[2]) == "MAXLEN"@,
        (a[3] == encode_utf8("="@) || a[3] == encode_utf8("~"@)),
        usize_of(a[4]) is Some,
    ensures
        makes(
            a,
            env,
            CommandView::Xtrim { key: a[1], maxlen: Some(usize_of(a[4])->0), minid: None },
        ),
{
    reveal(verdict);
    lemma_called(a);
    assert(named_command_spec(upper_word(a[0]), unnamed(a), env) == xtrim_spec(unnamed(a))) by {
        lemma_reach_streams(upper_word(a[0]), unnamed(a), env);
        lemma_streams_codes();
    }
    reveal(name_code);
    reveal_strlit("LIMIT");
    reveal_strlit("MAXLEN");
    reveal_strlit("MINID");
    assert(name_code("LIMIT"@) == 8387764107911705);
    assert(name_code("MAXLEN"@) == 8494284841095606);
    assert(name_code("MINID"@) == 8497715270689405);
    reveal_with_fuel(xtrim_options, 3);
}

/// To trim from an entry on.
pub proof fn law_xtrim_minid(a: Seq<Seq<u8>>, env: &ParseEnv)
    requires
        called(a, "XTRIM"@),
        a.len() == 4,
        upper_word(a[2]) == "MINID"@,
        a[3] != encode_utf8("="@) && a[3] != encode_utf8("~"@),
        stream_id_spec(a[3]) is Ok,
    ensures
        makes(
            a,
            env,
            CommandView::Xtrim { key: a[1], maxlen: None, minid: Some(stream_id_spec(a[3])->Ok_0) },
        ),
{
    reveal(verdict);
    lemma_called(a);
    assert(named_command_spec(upper_word(a[0]), unnamed(a), env) == xtrim_spec(unnamed(a))) by {
        lemma_reach_streams(upper_word(a[0]), unnamed(a), env);
        lemma_streams_codes();
    }
    reveal(name_code);
    reveal_strlit("LIMIT");
    reveal_strlit("MAXLEN");
    reveal_strlit("MINID");
    assert(name_code("LIMIT"@) == 8387764107911705);
    assert(name_code("MAXLEN"@) == 8494284841095606);
    assert(name_code("MINID"@) == 8497715270689405);
    reveal_with_fuel(xtrim_options, 3);
}

/// To read streams, each from an entry on.
pub proof fn law_xread_bare(a: Seq<Seq<u8>>, env: &ParseEnv)
    requires
        called(a, "XREAD"@),
        upper_word(a[1]) == "STREAMS"@,
        a.len() >= 4,
        (a.len() - 2) % 2 == 0,
    ensures
        makes(
            a,
            env,
            CommandView::Xread {
                count: None,
                block_ms: None,
                keys: a.subrange(2, 2 + (a.len() - 2) / 2),
                ids: lossy_texts(a.skip(2 + (a.len() - 2) / 2)),
            },
        ),
{
    reveal(verdict);
    lemma_called(a);
    assert(named_command_spec(upper_word(a[0]), unnamed(a), env) == xread_spec(unnamed(a))) by {
        lemma_reach_streams(upper_word(a[0]), unnamed(a), env);
        lemma_streams_codes();
    }
    reveal(name_code);
    reveal_strlit("BLOCK");
    reveal_strlit("COUNT");
    reveal_strlit("STREAMS");
    assert(name_code("BLOCK"@) == 7289530903841505);
    assert(name_code("COUNT"@) == 7400789012027705);
    assert(name_code("STREAMS"@) == 9162140505222507);
    reveal_with_fuel(xread_options, 4);
}

/// To read so many entries.
pub proof fn law_xread_count(a: Seq<Seq<u8>>, env: &ParseEnv)
    requires
        called(a, "XREAD"@),
        upper_word(a[1]) == "COUNT"@,
        usize_of(a[2]) is Some,
        upper_word(a[3]) == "STREAMS"@,
        a.len() >= 6,
        (a.len() - 4) % 2 == 0,
    ensures
        makes(
            a,
            env,
            CommandView::Xread {
                count: Some(usize_of(a[2])->0),
                block_ms: None,
                keys: a.subrange(4, 4 + (a.len() - 4) / 2),
                ids: lossy_texts(a.skip(4 + (a.len() - 4) / 2)),
            },
        ),
{
    reveal(verdict);
    lemma_called(a);
    assert(named_command_spec(upper_word(a[0]), unnamed(a), env) == xread_spec(unnamed(a))) by {
        lemma_reach_streams(upper_word(a[0]), unnamed(a), env);
        lemma_streams_codes();
    }
    reveal(name_code);
    reveal_strlit("BLOCK");
    reveal_strlit("COUNT");
    reveal_strlit("STREAMS");
    assert(name_code("BLOCK"@) == 7289530903841505);
    assert(name_code("COUNT"@) == 7400789012027705);
    assert(name_code("STREAMS"@) == 9162140505222507);
    reveal_with_fuel(xread_options, 4);
}

/// To wait for entries.
pub proof fn law_xread_block(a: Seq<Seq<u8>>, env: &ParseEnv)
    requires
        called(a, "XREAD"@),
        upper_word(a[1]) == "BLOCK"@,
        u64_of(a[2]) is Some,
        upper_word(a[3]) == "STREAMS"@,
        a.len() >= 6,
        (a.len() - 4) % 2 == 0,
    ensures
        makes(
            a,
            env,
            CommandView::Xread {
                count: None,
                block_ms: Some(u64_of(a[2])->0),
                keys: a.subrange(4, 4 + (a.len() - 4) / 2),
                ids: lossy_texts(a.skip(4 + (a.len() - 4) / 2)),
            },
        ),
{
    reveal(verdict);
    lemma_called(a);
    assert(named_command_spec(upper_word(a[0]), unnamed(a), env) == xread_spec(unnamed(a))) by {
        lemma_reach_streams(upper_word(a[0]), unnamed(a), env);
        lemma_streams_codes();
    }
    reveal(name_code);
    reveal_strlit("BLOCK");
    reveal_strlit("COUNT");
    reveal_strlit("STREAMS");
    assert(name_code("BLOCK"@) == 7289530903841505);
    assert(name_code("COUNT"@) == 7400789012027705);
    assert(name_code("STREAMS"@) == 9162140505222507);
    reveal_with_fuel(xread_options, 4);
}

/// To wait for so many entries.
pub proof fn law_xread_all(a: Seq<Seq<u8>>, env: &ParseEnv)
    requires
        called(a, "XREAD"@),
        upper_word(a[1]) == "BLOCK"@,
        u64_of(a[2]) is Some,
        upper_word(a[3]) == "COUNT"@,
        usize_of(a[4]) is Some,
        upper_word(a[5]) == "STREAMS"@,
        a.len() >= 8,
        (a.len() - 6) % 2 == 0,
    ensures
        makes(
            a,
            env,
            CommandView::Xread {
                count: Some(usize_of(a[4])->0),
                block_ms: Some(u64_of(a[2])->0),
                keys: a.subrange(6, 6 + (a.len() - 6) / 2),
                ids: lossy_texts(a.skip(6 + (a.len() - 6) / 2)),
            },
        ),
{
    reveal(verdict);
    lemma_called(a);
    assert(named_command_spec(upper_word(a[0]), unnamed(a), env) == xread_spec(unnamed(a))) by {
        lemma_reach_streams(upper_word(a[0]), unnamed(a), env);
        lemma_streams_codes();
    }
    reveal(name_code);
    reveal_strlit("BLOCK");
    reveal_strlit("COUNT");
    reveal_strlit("STREAMS");
    assert(name_code("BLOCK"@) == 7289530903841505);
    assert(name_code("COUNT"@) == 7400789012027705);
    assert(name_code("STREAMS"@) == 9162140505222507);
    reveal_with_fuel(xread_options, 4);
}

/// To read streams for a group.
pub proof fn law_xreadgroup_bare(a: Seq<Seq<u8>>, env: &ParseEnv)
    requires
        called(a, "XREADGROUP"@),
        spells(a[1], "GROUP"@),
        upper_word(a[4]) == "STREAMS"@,
        a.len() >= 7,
        (a.len() - 5) % 2 == 0,
    ensures
        a.len() >= 6 ==>
            makes(
                a,
                env,
                CommandView::Xreadgroup {
                    group: a[2],
                    consumer: a[3],
                    count: None,
                    block_ms: None,
                    noack: false,
                    keys: a.subrange(5, 5 + (a.len() - 5) / 2),
                    ids: lossy_texts(a.skip(5 + (a.len() - 5) / 2)),
                },
            ),
{
    reveal(verdict);
    lemma_called(a);
    assert(named_command_spec(
        upper_word(a[0]),
        unnamed(a),
        env,
    ) == xreadgroup_spec(unnamed(a))) by {
        lemma_reach_streams(upper_word(a[0]), unnamed(a), env);
        lemma_streams_codes();
    }
    reveal(name_code);
    reveal_strlit("BLOCK");
    reveal_strlit("COUNT");
    reveal_strlit("NOACK");
    reveal_strlit("STREAMS");
    assert(name_code("BLOCK"@) == 7289530903841505);
    assert(name_code("COUNT"@) == 7400789012027705);
    assert(name_code("NOACK"@) == 8610233347360105);
    assert(name_code("STREAMS"@) == 9162140505222507);
    reveal_with_fuel(xreadgroup_options, 4);
}

/// To read streams for a group, without a confirmation.
pub proof fn law_xreadgroup_noack(a: Seq<Seq<u8>>, env: &ParseEnv)
    requires
        called(a, "XREADGROUP"@),
        spells(a[1], "GROUP"@),
        upper_word(a[4]) == "NOACK"@,
        upper_word(a[5]) == "STREAMS"@,
        a.len() >= 8,
        (a.len() - 6) % 2 == 0,
    ensures
        makes(
            a,
            env,
            CommandView::Xreadgroup {
                group: a[2],
                consumer: a[3],
                count: None,
                block_ms: None,
                noack: true,
                keys: a.subrange(6, 6 + (a.len() - 6) / 2),
                ids: lossy_texts(a.skip(6 + (a.len() - 6) / 2)),
            },
        ),
{
    reveal(verdict);
    lemma_called(a);
    assert(named_command_spec(
        upper_word(a[0]),
        unnamed(a),
        env,
    ) == xreadgroup_spec(unnamed(a))) by {
        lemma_reach_streams(upper_word(a[0]), unnamed(a), env);
        lemma_streams_codes();
    }
    reveal(name_code);
    reveal_strlit("BLOCK");
    reveal_strlit("COUNT");
    reveal_strlit("NOACK");
    reveal_strlit("STREAMS");
    assert(name_code("BLOCK"@) == 7289530903841505);
    assert(name_code("COUNT"@) == 7400789012027705);
    assert(name_code("NOACK"@) == 8610233347360105);
    assert(name_code("STREAMS"@) == 9162140505222507);
    reveal_with_fuel(xreadgroup_options, 4);
}

/// To read so many entries for a group.
pub proof fn law_xreadgroup_count(a: Seq<Seq<u8>>, env: &ParseEnv)
    requires
        called(a, "XREADGROUP"@),
        spells(a[1], "GROUP"@),
        upper_word(a[4]) == "COUNT"@,
        usize_of(a[5]) is Some,
        upper_word(a[6]) == "STREAMS"@,
        a.len() >= 9,
        (a.len() - 7) % 2 == 0,
    ensures
        makes(
            a,
            env,
            CommandView::Xreadgroup {
                group: a[2],
                consumer: a[3],
                count: Some(usize_of(a[5])->0),
                block_ms: None,
                noack: false,
                keys: a.subrange(7, 7 + (a.len() - 7) / 2),
                ids: lossy_texts(a.skip(7 + (a.len() - 7) / 2)),
            },
        ),
{
    reveal(verdict);
    lemma_called(a);
    assert(named_command_spec(
        upper_word(a[0]),
        unnamed(a),
        env,
    ) == xreadgroup_spec(unnamed(a))) by {
        lemma_reach_streams(upper_word(a[0]), unnamed(a), env);
        lemma_streams_codes();
    }
    reveal(name_code);
    reveal_strlit("BLOCK");
    reveal_strlit("COUNT");
    reveal_strlit("NOACK");
    reveal_strlit("STREAMS");
    assert(name_code("BLOCK"@) == 7289530903841505);
    assert(name_code("COUNT"@) == 7400789012027705);
    assert(name_code("NOACK"@) == 8610233347360105);
    assert(name_code("STREAMS"@) == 9162140505222507);
    reveal_with_fuel(xreadgroup_options, 4);
}

/// To wait for entries for a group.
pub proof fn law_xreadgroup_block(a: Seq<Seq<u8>>, env: &ParseEnv)
    requires
        called(a, "XREADGROUP"@),
        spells(a[1], "GROUP"@),
        upper_word(a[4]) == "BLOCK"@,
        u64_of(a[5]) is Some,
        upper_word(a[6]) == "STREAMS"@,
        a.len() >= 9,
        (a.len() - 7) % 2 == 0,
    ensures
        makes(
            a,
            env,
            CommandView::Xreadgroup {
                group: a[2],
                consumer: a[3],
                count: None,
                block_ms: Some(u64_of(a[5])->0),
                noack: false,
                keys: a.subrange(7, 7 + (a.len() - 7) / 2),
                ids: lossy_texts(a.skip(7 + (a.len() - 7) / 2)),
            },
        ),
{
    reveal(verdict);
    lemma_called(a);
    assert(named_command_spec(
        upper_word(a[0]),
        unnamed(a),
        env,
    ) == xreadgroup_spec(unnamed(a))) by {
        lemma_reach_streams(upper_word(a[0]), unnamed(a), env);
        lemma_streams_codes();
    }
    reveal(name_code);
    reveal_strlit("BLOCK");
    reveal_strlit("COUNT");
    reveal_strlit("NOACK");
    reveal_strlit("STREAMS");
    assert(name_code("BLOCK"@) == 7289530903841505);
    assert(name_code("COUNT"@) == 7400789012027705);
    assert(name_code("NOACK"@) == 8610233347360105);
    assert(name_code("STREAMS"@) == 9162140505222507);
    reveal_with_fuel(xreadgroup_options, 4);
}

/// Entries to delete.
pub proof fn law_xdel_shapes(a: Seq<Seq<u8>>, env: &ParseEnv)
    requires
        called(a, "XDEL"@),
        a.len() == 3,
        stream_id_spec(a[2]) is Ok,
    ensures
        makes(a, env, CommandView::Xdel { key: a[1], ids: seq![stream_id_spec(a[2])->Ok_0] }),
{
    reveal(verdict);
    lemma_called(a);
    assert(named_command_spec(upper_word(a[0]), unnamed(a), env) == xdel_spec(unnamed(a))) by {
        lemma_reach_streams(upper_word(a[0]), unnamed(a), env);
        lemma_streams_codes();
    }
    reveal_with_fuel(entry_ids, 3);
    assert(Seq::<StreamId>::empty().push(stream_id_spec(a[2])->Ok_0) =~= seq![stream_id_spec(a[2])->Ok_0]);
}

/// Entries to confirm for a group.
pub proof fn law_xack_shapes(a: Seq<Seq<u8>>, env: &ParseEnv)
    requires
        called(a, "XACK"@),
        a.len() >= 4,
    ensures
        a.len() == 4 && stream_id_spec(a[3]) is Ok ==>
            makes(
                a,
                env,
                CommandView::Xack { key: a[1], group: a[2], ids: seq![stream_id_spec(a[3])->Ok_0] },
            ),
{
    reveal(verdict);
    lemma_called(a);
    assert(named_command_spec(upper_word(a[0]), unnamed(a), env) == xack_spec(unnamed(a))) by {
        lemma_reach_streams(upper_word(a[0]), unnamed(a), env);
        lemma_streams_codes();
    }
    reveal_with_fuel(entry_ids, 3);
    assert(Seq::<StreamId>::empty().push(stream_id_spec(a[3])->Ok_0) =~= seq![stream_id_spec(a[3])->Ok_0]);
}

/// A new group, with or without a new stream for it.
pub proof fn law_xgroup_create_shapes(a: Seq<Seq<u8>>, env: &ParseEnv)
    requires
        called(a, "XGROUP"@),
        a.len() >= 5,
        upper_word(a[1]) == "CREATE"@,
    ensures
        a.len() == 5 ==>
            makes(
                a,
                env,
                CommandView::XgroupCreate {
                    key: a[2],
                    group: a[3],
                    id: lossy_text(a[4]),
                    mkstream: false,
                },
            ),
        a.len() == 6 && spells(a[5], "MKSTREAM"@) ==>
            makes(
                a,
                env,
                CommandView::XgroupCreate {
                    key: a[2],
                    group: a[3],
                    id: lossy_text(a[4]),
                    mkstream: true,
                },
            ),
{
    reveal(verdict);
    lemma_called(a);
    assert(named_command_spec(upper_word(a[0]), unnamed(a), env) == xgroup_spec(unnamed(a))) by {
        lemma_reach_streams(upper_word(a[0]), unnamed(a), env);
        lemma_streams_codes();
    }
    reveal(name_code);
    reveal_strlit("CREATE");
    assert(name_code("CREATE"@) == 7402056144185706);
    reveal_with_fuel(xgroup_create_options, 3);
}

} // verus!
