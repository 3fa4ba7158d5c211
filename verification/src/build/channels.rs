//! Channels.
use bytes::Bytes;
use vstd::prelude::*;

use crate::command::{Command, CommandView, built, built_opt};
use crate::lists::{contents, keys_from};
use crate::text::{join2, same_text, upper, upper_word};

verus! {

/// What `SUBSCRIBE` builds from its arguments.
pub open spec fn subscribe_spec(a: Seq<Seq<u8>>) -> Result<CommandView, Seq<char>> {
    if a.len() < 2 {
        Err("wrong number of arguments for 'subscribe' command"@)
    } else {
        Ok(CommandView::Subscribe(a.skip(1)))
    }
}

pub(crate) fn build_subscribe(args: &Vec<Bytes>) -> (r: Result<Command, String>)
    requires
        args.len() > 0,
    ensures
        built(r) == subscribe_spec(contents(args@)),
{
    if args.len() < 2 {
        return Err("wrong number of arguments for 'subscribe' command".to_owned());
    }
    Ok(Command::Subscribe(keys_from(args, 1)))
}

/// What `PSUBSCRIBE` builds from its arguments.
pub open spec fn psubscribe_spec(a: Seq<Seq<u8>>) -> Result<CommandView, Seq<char>> {
    if a.len() < 2 {
        Err("wrong number of arguments for 'psubscribe' command"@)
    } else {
        Ok(CommandView::Psubscribe(a.skip(1)))
    }
}

pub(crate) fn build_psubscribe(args: &Vec<Bytes>) -> (r: Result<Command, String>)
    requires
        args.len() > 0,
    ensures
        built(r) == psubscribe_spec(contents(args@)),
{
    if args.len() < 2 {
        return Err("wrong number of arguments for 'psubscribe' command".to_owned());
    }
    Ok(Command::Psubscribe(keys_from(args, 1)))
}

/// What `SSUBSCRIBE` builds from its arguments.
pub open spec fn ssubscribe_spec(a: Seq<Seq<u8>>) -> Result<CommandView, Seq<char>> {
    if a.len() < 2 {
        Err("wrong number of arguments for 'ssubscribe' command"@)
    } else {
        Ok(CommandView::Ssubscribe(a.skip(1)))
    }
}

pub(crate) fn build_ssubscribe(args: &Vec<Bytes>) -> (r: Result<Command, String>)
    requires
        args.len() > 0,
    ensures
        built(r) == ssubscribe_spec(contents(args@)),
{
    if args.len() < 2 {
        return Err("wrong number of arguments for 'ssubscribe' command".to_owned());
    }
    Ok(Command::Ssubscribe(keys_from(args, 1)))
}

/// What `UNSUBSCRIBE` builds from its arguments.
pub open spec fn unsubscribe_spec(a: Seq<Seq<u8>>) -> Result<CommandView, Seq<char>> {
    Ok(CommandView::Unsubscribe(a.skip(1)))
}

pub(crate) fn build_unsubscribe(args: &Vec<Bytes>) -> (r: Result<Command, String>)
    requires
        args.len() > 0,
    ensures
        built(r) == unsubscribe_spec(contents(args@)),
{
    Ok(Command::Unsubscribe(keys_from(args, 1)))
}

/// What `PUNSUBSCRIBE` builds from its arguments.
pub open spec fn punsubscribe_spec(a: Seq<Seq<u8>>) -> Result<CommandView, Seq<char>> {
    Ok(CommandView::Punsubscribe(a.skip(1)))
}

pub(crate) fn build_punsubscribe(args: &Vec<Bytes>) -> (r: Result<Command, String>)
    requires
        args.len() > 0,
    ensures
        built(r) == punsubscribe_spec(contents(args@)),
{
    Ok(Command::Punsubscribe(keys_from(args, 1)))
}

/// What `SUNSUBSCRIBE` builds from its arguments.
pub open spec fn sunsubscribe_spec(a: Seq<Seq<u8>>) -> Result<CommandView, Seq<char>> {
    Ok(CommandView::Sunsubscribe(a.skip(1)))
}

pub(crate) fn build_sunsubscribe(args: &Vec<Bytes>) -> (r: Result<Command, String>)
    requires
        args.len() > 0,
    ensures
        built(r) == sunsubscribe_spec(contents(args@)),
{
    Ok(Command::Sunsubscribe(keys_from(args, 1)))
}

/// What `PUBLISH` builds from its arguments.
pub open spec fn publish_spec(a: Seq<Seq<u8>>) -> Result<CommandView, Seq<char>> {
    if a.len() != 3 {
        Err("wrong number of arguments for 'publish' command"@)
    } else {
        Ok(CommandView::Publish { channel: a[1], message: a[2] })
    }
}

pub(crate) fn build_publish(args: &Vec<Bytes>) -> (r: Result<Command, String>)
    requires
        args.len() > 0,
    ensures
        built(r) == publish_spec(contents(args@)),
{
    if args.len() != 3 {
        return Err("wrong number of arguments for 'publish' command".to_owned());
    }
    Ok(Command::Publish { channel: args[1].clone(), message: args[2].clone() })
}

/// What `SPUBLISH` builds from its arguments.
pub open spec fn spublish_spec(a: Seq<Seq<u8>>) -> Result<CommandView, Seq<char>> {
    if a.len() != 3 {
        Err("wrong number of arguments for 'spublish' command"@)
    } else {
        Ok(CommandView::Spublish { channel: a[1], message: a[2] })
    }
}

pub(crate) fn build_spublish(args: &Vec<Bytes>) -> (r: Result<Command, String>)
    requires
        args.len() > 0,
    ensures
        built(r) == spublish_spec(contents(args@)),
{
    if args.len() != 3 {
        return Err("wrong number of arguments for 'spublish' command".to_owned());
    }
    Ok(Command::Spublish { channel: args[1].clone(), message: args[2].clone() })
}

/// What `PUBSUB` builds from its arguments.
pub open spec fn pubsub_spec(a: Seq<Seq<u8>>) -> Result<CommandView, Seq<char>> {
    if a.len() < 2 {
        Err("wrong number of arguments for 'pubsub' command"@)
    } else {
        let sub = upper_word(a[1]);
        if sub == "CHANNELS"@ {
            if a.len() > 2 {
                Ok(CommandView::PubsubChannels(Some(a[2])))
            } else {
                Ok(CommandView::PubsubChannels(None))
            }
        } else if sub == "NUMSUB"@ {
            Ok(CommandView::PubsubNumsub(a.skip(2)))
        } else if sub == "NUMPAT"@ {
            Ok(CommandView::PubsubNumpat)
        } else if sub == "SHARDCHANNELS"@ {
            if a.len() > 2 {
                Ok(CommandView::PubsubShardchannels(Some(a[2])))
            } else {
                Ok(CommandView::PubsubShardchannels(None))
            }
        } else if sub == "SHARDNUMSUB"@ {
            Ok(CommandView::PubsubShardnumsub(a.skip(2)))
        } else {
            Ok(CommandView::Unknown("PUBSUB "@ + sub))
        }
    }
}

pub(crate) fn build_pubsub(args: &Vec<Bytes>) -> (r: Result<Command, String>)
    requires
        args.len() > 0,
    ensures
        built(r) == pubsub_spec(contents(args@)),
{
    if args.len() < 2 {
        return Err("wrong number of arguments for 'pubsub' command".to_owned());
    }
    let sub: String = upper(&args[1]);
    if same_text(&sub, "CHANNELS") {
        if args.len() > 2 {
            Ok(Command::PubsubChannels(Some(args[2].clone())))
        } else {
            Ok(Command::PubsubChannels(None))
        }
    } else if same_text(&sub, "NUMSUB") {
        Ok(Command::PubsubNumsub(keys_from(args, 2)))
    } else if same_text(&sub, "NUMPAT") {
        Ok(Command::PubsubNumpat)
    } else if same_text(&sub, "SHARDCHANNELS") {
        if args.len() > 2 {
            Ok(Command::PubsubShardchannels(Some(args[2].clone())))
        } else {
            Ok(Command::PubsubShardchannels(None))
        }
    } else if same_text(&sub, "SHARDNUMSUB") {
        Ok(Command::PubsubShardnumsub(keys_from(args, 2)))
    } else {
        Ok(Command::Unknown(join2("PUBSUB ", sub.as_str())))
    }
}

/// The commands on channels: the command that `name` stands for among them, if it is one.
pub open spec fn channels_command_spec(
    name: Seq<char>,
    a: Seq<Seq<u8>>,
) -> Option<Result<CommandView, Seq<char>>> {
    if name == "SUBSCRIBE"@ {
        Some(subscribe_spec(a))
    } else if name == "PSUBSCRIBE"@ {
        Some(psubscribe_spec(a))
    } else if name == "SSUBSCRIBE"@ {
        Some(ssubscribe_spec(a))
    } else if name == "UNSUBSCRIBE"@ {
        Some(unsubscribe_spec(a))
    } else if name == "PUNSUBSCRIBE"@ {
        Some(punsubscribe_spec(a))
    } else if name == "SUNSUBSCRIBE"@ {
        Some(sunsubscribe_spec(a))
    } else if name == "PUBLISH"@ {
        Some(publish_spec(a))
    } else if name == "SPUBLISH"@ {
        Some(spublish_spec(a))
    } else if name == "PUBSUB"@ {
        Some(pubsub_spec(a))
    } else {
        None
    }
}

pub(crate) fn channels_command(name: &str, args: &Vec<Bytes>) -> (r: Option<Result<Command, String>>)
    requires
        args.len() > 0,
    ensures
        built_opt(r) == channels_command_spec(name@, contents(args@)),
{
    if same_text(name, "SUBSCRIBE") {
        Some(build_subscribe(args))
    } else if same_text(name, "PSUBSCRIBE") {
        Some(build_psubscribe(args))
    } else if same_text(name, "SSUBSCRIBE") {
        Some(build_ssubscribe(args))
    } else if same_text(name, "UNSUBSCRIBE") {
        Some(build_unsubscribe(args))
    } else if same_text(name, "PUNSUBSCRIBE") {
        Some(build_punsubscribe(args))
    } else if same_text(name, "SUNSUBSCRIBE") {
        Some(build_sunsubscribe(args))
    } else if same_text(name, "PUBLISH") {
        Some(build_publish(args))
    } else if same_text(name, "SPUBLISH") {
        Some(build_spublish(args))
    } else if same_text(name, "PUBSUB") {
        Some(build_pubsub(args))
    } else {
        None
    }
}

} // verus!
