//! Commands from their arguments, family by family.

pub mod admin;
pub mod bits;
pub mod channels;
pub mod fulltext;
pub mod geo;
pub mod hashes;
pub mod json;
pub mod keyspace;
pub mod listcmds;
pub mod modules;
pub mod naming;
pub mod options;
pub mod server;
pub mod sets;
pub mod sketches;
pub mod streams;
pub mod strings;
pub mod walks;
pub mod zsets;

use bytes::Bytes;
use vstd::prelude::*;

use crate::command::{built, Command, CommandView};
use crate::lists::contents;
use crate::readings::ParseEnv;
use self::strings::{strings_command, strings_command_spec};
use self::server::{server_command, server_command_spec};
use self::hashes::{hashes_command, hashes_command_spec};
use self::listcmds::{listcmds_command, listcmds_command_spec};
use self::sets::{sets_command, sets_command_spec};
use self::zsets::{zsets_command, zsets_command_spec};
use self::keyspace::{keyspace_command, keyspace_command_spec};
use self::admin::{admin_command, admin_command_spec};
use self::channels::{channels_command, channels_command_spec};
use self::bits::{bits_command, bits_command_spec};
use self::streams::{streams_command, streams_command_spec};
use self::modules::{modules_command, modules_command_spec};
use self::json::{json_command, json_command_spec};
use self::geo::{geo_command, geo_command_spec};
use self::sketches::{sketches_command, sketches_command_spec};
use self::fulltext::{fulltext_command, fulltext_command_spec};

verus! {

/// Whether a name belongs to one of the families.
pub open spec fn claimed(name: Seq<char>, a: Seq<Seq<u8>>, env: &ParseEnv) -> bool {
    ||| strings_command_spec(name, a, env) is Some
    ||| server_command_spec(name, a, env) is Some
    ||| hashes_command_spec(name, a, env) is Some
    ||| listcmds_command_spec(name, a, env) is Some
    ||| sets_command_spec(name, a) is Some
    ||| zsets_command_spec(name, a, env) is Some
    ||| keyspace_command_spec(name, a, env) is Some
    ||| admin_command_spec(name, a) is Some
    ||| channels_command_spec(name, a) is Some
    ||| bits_command_spec(name, a) is Some
    ||| streams_command_spec(name, a) is Some
    ||| modules_command_spec(name, a, env) is Some
    ||| json_command_spec(name, a, env) is Some
    ||| geo_command_spec(name, a, env) is Some
    ||| sketches_command_spec(name, a, env) is Some
    ||| fulltext_command_spec(name, a, env) is Some
}

/// What the command named `name` builds from its arguments: that of the family it belongs to, or an
/// unknown command that keeps the name.
pub open spec fn named_command_spec(
    name: Seq<char>,
    a: Seq<Seq<u8>>,
    env: &ParseEnv,
) -> Result<CommandView, Seq<char>> {
    if let Some(r) = strings_command_spec(name, a, env) {
        r
    } else if let Some(r) = server_command_spec(name, a, env) {
        r
    } else if let Some(r) = hashes_command_spec(name, a, env) {
        r
    } else if let Some(r) = listcmds_command_spec(name, a, env) {
        r
    } else if let Some(r) = sets_command_spec(name, a) {
        r
    } else if let Some(r) = zsets_command_spec(name, a, env) {
        r
    } else if let Some(r) = keyspace_command_spec(name, a, env) {
        r
    } else if let Some(r) = admin_command_spec(name, a) {
        r
    } else if let Some(r) = channels_command_spec(name, a) {
        r
    } else if let Some(r) = bits_command_spec(name, a) {
        r
    } else if let Some(r) = streams_command_spec(name, a) {
        r
    } else if let Some(r) = modules_command_spec(name, a, env) {
        r
    } else if let Some(r) = json_command_spec(name, a, env) {
        r
    } else if let Some(r) = geo_command_spec(name, a, env) {
        r
    } else if let Some(r) = sketches_command_spec(name, a, env) {
        r
    } else if let Some(r) = fulltext_command_spec(name, a, env) {
        r
    } else {
        Ok(CommandView::Unknown(name))
    }
}

/// The command named `name` with the arguments `args`, whose first stands for the name.
pub fn named_command(name: &str, args: &Vec<Bytes>, env: &ParseEnv) -> (r: Result<Command, String>)
    requires
        args.len() > 0,
    ensures
        built(r) == named_command_spec(name@, contents(args@), env),
{
    match strings_command(name, args, env) {
        Some(r) => return r,
        None => {},
    }
    match server_command(name, args, env) {
        Some(r) => return r,
        None => {},
    }
    match hashes_command(name, args, env) {
        Some(r) => return r,
        None => {},
    }
    match listcmds_command(name, args, env) {
        Some(r) => return r,
        None => {},
    }
    match sets_command(name, args) {
        Some(r) => return r,
        None => {},
    }
    match zsets_command(name, args, env) {
        Some(r) => return r,
        None => {},
    }
    match keyspace_command(name, args, env) {
        Some(r) => return r,
        None => {},
    }
    match admin_command(name, args) {
        Some(r) => return r,
        None => {},
    }
    match channels_command(name, args) {
        Some(r) => return r,
        None => {},
    }
    match bits_command(name, args) {
        Some(r) => return r,
        None => {},
    }
    match streams_command(name, args) {
        Some(r) => return r,
        None => {},
    }
    match modules_command(name, args, env) {
        Some(r) => return r,
        None => {},
    }
    match json_command(name, args, env) {
        Some(r) => return r,
        None => {},
    }
    match geo_command(name, args, env) {
        Some(r) => return r,
        None => {},
    }
    match sketches_command(name, args, env) {
        Some(r) => return r,
        None => {},
    }
    match fulltext_command(name, args, env) {
        Some(r) => return r,
        None => {},
    }
    Ok(Command::Unknown(name.to_owned()))
}

} // verus!
