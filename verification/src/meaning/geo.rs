//! What the commands on places stand for.
use vstd::prelude::*;

use crate::build::named_command_spec;
use crate::build::geo::{
    geoadd_spec, geodist_spec, geohash_spec, geopos_spec, georadius_spec, georadiusbymember_spec,
    geosearch_spec,
};
use crate::build::naming::{lemma_geo_codes, lemma_reach_geo};
use crate::command::CommandView;
use crate::readings::{ParseEnv, double_of, geo_unit_spec};
use crate::resp::unnamed;
use crate::text::upper_word;
use super::{called, lemma_called, makes, refuses, verdict};

verus! {

/// What `GEOADD` stands for, up to its options.
pub proof fn law_geoadd(a: Seq<Seq<u8>>, env: &ParseEnv)
    requires
        called(a, "GEOADD"@),
    ensures
        a.len() < 5 ==> refuses(a, env, "wrong number of arguments for 'geoadd' command"@),
{
    reveal(verdict);
    lemma_called(a);
    assert(named_command_spec(
        upper_word(a[0]),
        unnamed(a),
        env,
    ) == geoadd_spec(unnamed(a), env)) by {
        lemma_reach_geo(upper_word(a[0]), unnamed(a), env);
        lemma_geo_codes();
    }
}

/// What `GEODIST` stands for.
pub proof fn law_geodist(a: Seq<Seq<u8>>, env: &ParseEnv)
    requires
        called(a, "GEODIST"@),
    ensures
        (a.len() < 4 || a.len() > 5) ==>
            refuses(a, env, "wrong number of arguments for 'geodist' command"@),
        a.len() == 5 && geo_unit_spec(upper_word(a[4])) is Err ==>
            refuses(a, env, (geo_unit_spec(upper_word(a[4]))->Err_0)),
        a.len() == 5 && geo_unit_spec(upper_word(a[4])) is Ok ==>
            makes(
                a,
                env,
                CommandView::Geodist {
                    key: a[1],
                    m1: a[2],
                    m2: a[3],
                    unit: Some((geo_unit_spec(upper_word(a[4]))->Ok_0)),
                },
            ),
        a.len() >= 4 && a.len() <= 5 && a.len() != 5 ==>
            makes(a, env, CommandView::Geodist { key: a[1], m1: a[2], m2: a[3], unit: None }),
{
    reveal(verdict);
    lemma_called(a);
    assert(named_command_spec(upper_word(a[0]), unnamed(a), env) == geodist_spec(unnamed(a))) by {
        lemma_reach_geo(upper_word(a[0]), unnamed(a), env);
        lemma_geo_codes();
    }
}

/// What `GEOPOS` stands for.
pub proof fn law_geopos(a: Seq<Seq<u8>>, env: &ParseEnv)
    requires
        called(a, "GEOPOS"@),
    ensures
        a.len() < 3 ==> refuses(a, env, "wrong number of arguments for 'geopos' command"@),
        a.len() >= 3 ==> makes(a, env, CommandView::Geopos { key: a[1], members: a.skip(2) }),
{
    reveal(verdict);
    lemma_called(a);
    assert(named_command_spec(upper_word(a[0]), unnamed(a), env) == geopos_spec(unnamed(a))) by {
        lemma_reach_geo(upper_word(a[0]), unnamed(a), env);
        lemma_geo_codes();
    }
}

/// What `GEOHASH` stands for.
pub proof fn law_geohash(a: Seq<Seq<u8>>, env: &ParseEnv)
    requires
        called(a, "GEOHASH"@),
    ensures
        a.len() < 3 ==> refuses(a, env, "wrong number of arguments for 'geohash' command"@),
        a.len() >= 3 ==> makes(a, env, CommandView::Geohash { key: a[1], members: a.skip(2) }),
{
    reveal(verdict);
    lemma_called(a);
    assert(named_command_spec(upper_word(a[0]), unnamed(a), env) == geohash_spec(unnamed(a))) by {
        lemma_reach_geo(upper_word(a[0]), unnamed(a), env);
        lemma_geo_codes();
    }
}

/// What `GEORADIUS` or `GEORADIUS_RO` stands for, up to its options.
pub proof fn law_georadius(a: Seq<Seq<u8>>, env: &ParseEnv)
    requires
        called(a, "GEORADIUS"@) || called(a, "GEORADIUS_RO"@),
    ensures
        a.len() < 6 ==> refuses(a, env, "wrong number of arguments for 'georadius' command"@),
        a.len() >= 6 && double_of(env, a[2]) is None ==>
            refuses(a, env, "value is not a valid float"@),
        a.len() >= 6 && double_of(env, a[2]) is Some && double_of(env, a[3]) is None ==>
            refuses(a, env, "value is not a valid float"@),
        a.len() >= 6 && double_of(env, a[2]) is Some && double_of(env, a[3]) is Some
            && double_of(env, a[4]) is None ==>
            refuses(a, env, "value is not a valid float"@),
        a.len() >= 6 && double_of(env, a[2]) is Some && double_of(env, a[3]) is Some
            && double_of(env, a[4]) is Some && geo_unit_spec(upper_word(a[5])) is Err ==>
            refuses(a, env, (geo_unit_spec(upper_word(a[5]))->Err_0)),
{
    reveal(verdict);
    lemma_called(a);
    assert(named_command_spec(
        upper_word(a[0]),
        unnamed(a),
        env,
    ) == georadius_spec(unnamed(a), env)) by {
        lemma_reach_geo(upper_word(a[0]), unnamed(a), env);
        lemma_geo_codes();
    }
}

/// What `GEORADIUSBYMEMBER` or `GEORADIUSBYMEMBER_RO` stands for, up to its options.
pub proof fn law_georadiusbymember(a: Seq<Seq<u8>>, env: &ParseEnv)
    requires
        called(a, "GEORADIUSBYMEMBER"@) || called(a, "GEORADIUSBYMEMBER_RO"@),
    ensures
        a.len() < 5 ==>
            refuses(a, env, "wrong number of arguments for 'georadiusbymember' command"@),
        a.len() >= 5 && double_of(env, a[3]) is None ==>
            refuses(a, env, "value is not a valid float"@),
        a.len() >= 5 && double_of(env, a[3]) is Some && geo_unit_spec(upper_word(a[4])) is Err ==>
            refuses(a, env, (geo_unit_spec(upper_word(a[4]))->Err_0)),
{
    reveal(verdict);
    lemma_called(a);
    assert(named_command_spec(
        upper_word(a[0]),
        unnamed(a),
        env,
    ) == georadiusbymember_spec(unnamed(a), env)) by {
        lemma_reach_geo(upper_word(a[0]), unnamed(a), env);
        lemma_geo_codes();
    }
}

/// What `GEOSEARCH` stands for, up to its options.
pub proof fn law_geosearch(a: Seq<Seq<u8>>, env: &ParseEnv)
    requires
        called(a, "GEOSEARCH"@),
    ensures
        a.len() < 4 ==> refuses(a, env, "wrong number of arguments for 'geosearch' command"@),
{
    reveal(verdict);
    lemma_called(a);
    assert(named_command_spec(
        upper_word(a[0]),
        unnamed(a),
        env,
    ) == geosearch_spec(unnamed(a), env)) by {
        lemma_reach_geo(upper_word(a[0]), unnamed(a), env);
        lemma_geo_codes();
    }
}

} // verus!
