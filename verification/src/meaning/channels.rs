//! What the commands on channels stand for.
use vstd::prelude::*;

use crate::build::named_command_spec;
use crate::build::channels::{
    psubscribe_spec, publish_spec, pubsub_spec, punsubscribe_spec, spublish_spec, ssubscribe_spec,
    subscribe_spec, sunsubscribe_spec, unsubscribe_spec,
};
use crate::build::naming::{lemma_channels_codes, lemma_reach_channels, name_code};
use crate::command::CommandView;
use crate::readings::ParseEnv;
use crate::resp::unnamed;
use crate::text::upper_word;
use super::{called, lemma_called, makes, refuses, verdict};

verus! {

/// What `SUBSCRIBE` stands for.
pub proof fn law_subscribe(a: Seq<Seq<u8>>, env: &ParseEnv)
    requires
        called(a, "SUBSCRIBE"@),
    ensures
        a.len() < 2 ==> refuses(a, env, "wrong number of arguments for 'subscribe' command"@),
        a.len() >= 2 ==> makes(a, env, CommandView::Subscribe(a.skip(1))),
{
    reveal(verdict);
    lemma_called(a);
    assert(named_command_spec(upper_word(a[0]), unnamed(a), env) == subscribe_spec(unnamed(a))) by {
        lemma_reach_channels(upper_word(a[0]), unnamed(a), env);
        lemma_channels_codes();
    }
}

/// What `PSUBSCRIBE` stands for.
pub proof fn law_psubscribe(a: Seq<Seq<u8>>, env: &ParseEnv)
    requires
        called(a, "PSUBSCRIBE"@),
    ensures
        a.len() < 2 ==> refuses(a, env, "wrong number of arguments for 'psubscribe' command"@),
        a.len() >= 2 ==> makes(a, env, CommandView::Psubscribe(a.skip(1))),
{
    reveal(verdict);
    lemma_called(a);
    assert(named_command_spec(
        upper_word(a[0]),
        unnamed(a),
        env,
    ) == psubscribe_spec(unnamed(a))) by {
        lemma_reach_channels(upper_word(a[0]), unnamed(a), env);
        lemma_channels_codes();
    }
}

/// What `SSUBSCRIBE` stands for.
pub proof fn law_ssubscribe(a: Seq<Seq<u8>>, env: &ParseEnv)
    requires
        called(a, "SSUBSCRIBE"@),
    ensures
        a.len() < 2 ==> refuses(a, env, "wrong number of arguments for 'ssubscribe' command"@),
        a.len() >= 2 ==> makes(a, env, CommandView::Ssubscribe(a.skip(1))),
{
    reveal(verdict);
    lemma_called(a);
    assert(named_command_spec(
        upper_word(a[0]),
        unnamed(a),
        env,
    ) == ssubscribe_spec(unnamed(a))) by {
        lemma_reach_channels(upper_word(a[0]), unnamed(a), env);
        lemma_channels_codes();
    }
}

/// What `UNSUBSCRIBE` stands for.
pub proof fn law_unsubscribe(a: Seq<Seq<u8>>, env: &ParseEnv)
    requires
        called(a, "UNSUBSCRIBE"@),
    ensures
        makes(a, env, CommandView::Unsubscribe(a.skip(1))),
{
    reveal(verdict);
    lemma_called(a);
    assert(named_command_spec(
        upper_word(a[0]),
        unnamed(a),
        env,
    ) == unsubscribe_spec(unnamed(a))) by {
        lemma_reach_channels(upper_word(a[0]), unnamed(a), env);
        lemma_channels_codes();
    }
}

/// What `PUNSUBSCRIBE` stands for.
pub proof fn law_punsubscribe(a: Seq<Seq<u8>>, env: &ParseEnv)
    requires
        called(a, "PUNSUBSCRIBE"@),
    ensures
        makes(a, env, CommandView::Punsubscribe(a.skip(1))),
{
    reveal(verdict);
    lemma_called(a);
    assert(named_command_spec(
        upper_word(a[0]),
        unnamed(a),
        env,
    ) == punsubscribe_spec(unnamed(a))) by {
        lemma_reach_channels(upper_word(a[0]), unnamed(a), env);
        lemma_channels_codes();
    }
}

/// What `SUNSUBSCRIBE` stands for.
pub proof fn law_sunsubscribe(a: Seq<Seq<u8>>, env: &ParseEnv)
    requires
        called(a, "SUNSUBSCRIBE"@),
    ensures
        makes(a, env, CommandView::Sunsubscribe(a.skip(1))),
{
    reveal(verdict);
    lemma_called(a);
    assert(named_command_spec(
        upper_word(a[0]),
        unnamed(a),
        env,
    ) == sunsubscribe_spec(unnamed(a))) by {
        lemma_reach_channels(upper_word(a[0]), unnamed(a), env);
        lemma_channels_codes();
    }
}

/// What `PUBLISH` stands for.
pub proof fn law_publish(a: Seq<Seq<u8>>, env: &ParseEnv)
    requires
        called(a, "PUBLISH"@),
    ensures
        a.len() != 3 ==> refuses(a, env, "wrong number of arguments for 'publish' command"@),
        a.len() == 3 ==> makes(a, env, CommandView::Publish { channel: a[1], message: a[2] }),
{
    reveal(verdict);
    lemma_called(a);
    assert(named_command_spec(upper_word(a[0]), unnamed(a), env) == publish_spec(unnamed(a))) by {
        lemma_reach_channels(upper_word(a[0]), unnamed(a), env);
        lemma_channels_codes();
    }
}

/// What `SPUBLISH` stands for.
pub proof fn law_spublish(a: Seq<Seq<u8>>, env: &ParseEnv)
    requires
        called(a, "SPUBLISH"@),
    ensures
        a.len() != 3 ==> refuses(a, env, "wrong number of arguments for 'spublish' command"@),
        a.len() == 3 ==> makes(a, env, CommandView::Spublish { channel: a[1], message: a[2] }),
{
    reveal(verdict);
    lemma_called(a);
    assert(named_command_spec(upper_word(a[0]), unnamed(a), env) == spublish_spec(unnamed(a))) by {
        lemma_reach_channels(upper_word(a[0]), unnamed(a), env);
        lemma_channels_codes();
    }
}

/// What `PUBSUB` stands for.
pub proof fn law_pubsub(a: Seq<Seq<u8>>, env: &ParseEnv)
    requires
        called(a, "PUBSUB"@),
    ensures
        a.len() < 2 ==> refuses(a, env, "wrong number of arguments for 'pubsub' command"@),
        a.len() >= 3 && upper_word(a[1]) == "CHANNELS"@ ==>
            makes(a, env, CommandView::PubsubChannels(Some(a[2]))),
        a.len() >= 2 && upper_word(a[1]) == "CHANNELS"@ && a.len() <= 2 ==>
            makes(a, env, CommandView::PubsubChannels(None)),
        a.len() >= 2 && upper_word(a[1]) == "NUMSUB"@ ==>
            makes(a, env, CommandView::PubsubNumsub(a.skip(2))),
        a.len() >= 2 && upper_word(a[1]) == "NUMPAT"@ ==> makes(a, env, CommandView::PubsubNumpat),
        a.len() >= 3 && upper_word(a[1]) == "SHARDCHANNELS"@ ==>
            makes(a, env, CommandView::PubsubShardchannels(Some(a[2]))),
        a.len() >= 2 && upper_word(a[1]) == "SHARDCHANNELS"@ && a.len() <= 2 ==>
            makes(a, env, CommandView::PubsubShardchannels(None)),
        a.len() >= 2 && upper_word(a[1]) == "SHARDNUMSUB"@ ==>
            makes(a, env, CommandView::PubsubShardnumsub(a.skip(2))),
        a.len() >= 2 && upper_word(a[1]) != "CHANNELS"@ && upper_word(a[1]) != "NUMSUB"@
            && upper_word(a[1]) != "NUMPAT"@ && upper_word(a[1]) != "SHARDCHANNELS"@
            && upper_word(a[1]) != "SHARDNUMSUB"@ ==>
            makes(a, env, CommandView::Unknown("PUBSUB "@ + upper_word(a[1]))),
{
    reveal(verdict);
    lemma_called(a);
    assert(named_command_spec(upper_word(a[0]), unnamed(a), env) == pubsub_spec(unnamed(a))) by {
        lemma_reach_channels(upper_word(a[0]), unnamed(a), env);
        lemma_channels_codes();
    }
    reveal(name_code);
    reveal_strlit("CHANNELS");
    reveal_strlit("NUMPAT");
    reveal_strlit("NUMSUB");
    reveal_strlit("SHARDCHANNELS");
    reveal_strlit("SHARDNUMSUB");
    assert(name_code("CHANNELS"@) == 7397782987066108);
    assert(name_code("NUMPAT"@) == 8612832688571206);
    assert(name_code("NUMSUB"@) == 8612837604283506);
    assert(name_code("SHARDCHANNELS"@) == 9157008289286913);
    assert(name_code("SHARDNUMSUB"@) == 9157008361608311);
}

} // verus!
