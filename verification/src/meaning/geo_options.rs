//! What the options of the commands on places add.
use vstd::prelude::*;

use crate::build::named_command_spec;
use crate::build::geo::{
    georadius_spec, georadiusbymember_spec, geosearch_options, geosearch_spec, radius_options,
};
use crate::build::naming::{lemma_geo_codes, lemma_reach_geo, name_code};
use crate::command::CommandView;
use crate::numbers::usize_of;
use crate::operands::{Double, GeoUnit};
use crate::readings::{ParseEnv, double_of, geo_unit_spec};
use crate::resp::unnamed;
use crate::text::upper_word;
use super::{called, lemma_called, lemma_tail, makes, refuses, verdict};

verus! {

/// Without options.
pub proof fn law_georadius_options_bare(a: Seq<Seq<u8>>, env: &ParseEnv)
    requires
        called(a, "GEORADIUS"@) || called(a, "GEORADIUS_RO"@),
        a.len() == 6,
        double_of(env, a[2]) is Some,
        double_of(env, a[3]) is Some,
        double_of(env, a[4]) is Some,
        geo_unit_spec(upper_word(a[5])) is Ok,
    ensures
        makes(
            a,
            env,
            CommandView::Georadius {
                key: a[1],
                lon: double_of(env, a[2])->0,
                lat: double_of(env, a[3])->0,
                radius: double_of(env, a[4])->0,
                unit: geo_unit_spec(upper_word(a[5]))->Ok_0,
                withcoord: false,
                withdist: false,
                withhash: false,
                count: None,
                asc: None,
            },
        ),
{
    reveal(verdict);
    lemma_called(a);
    assert(named_command_spec(
        upper_word(a[0]),
        unnamed(a),
        env,
    ) == georadius_spec(unnamed(a), env)) by {
        lemma_reach_geo(upper_word(a[0]), unnamed(a), env);
        lemma_geo_codes();
    }
}

/// An option of `GEORADIUS` adds its own to what the others give, in whatever order they stand.
pub proof fn law_georadius_options(
    a: Seq<Seq<u8>>,
    env: &ParseEnv,
    withcoord: bool,
    withdist: bool,
    withhash: bool,
    count: Option<usize>,
    asc: Option<bool>,
    w: Seq<u8>,
    x: Seq<u8>,
)
    requires
        called(a, "GEORADIUS"@) || called(a, "GEORADIUS_RO"@),
        makes(
            a,
            env,
            CommandView::Georadius {
                key: a[1],
                lon: double_of(env, a[2])->0,
                lat: double_of(env, a[3])->0,
                radius: double_of(env, a[4])->0,
                unit: geo_unit_spec(upper_word(a[5]))->Ok_0,
                withcoord,
                withdist,
                withhash,
                count,
                asc,
            },
        ),
    ensures
        upper_word(w) == "WITHCOORD"@ ==>
            makes(
                a.push(w),
                env,
                CommandView::Georadius {
                    key: a[1],
                    lon: double_of(env, a[2])->0,
                    lat: double_of(env, a[3])->0,
                    radius: double_of(env, a[4])->0,
                    unit: geo_unit_spec(upper_word(a[5]))->Ok_0,
                    withcoord: true,
                    withdist,
                    withhash,
                    count,
                    asc,
                },
            ),
        upper_word(w) == "WITHDIST"@ ==>
            makes(
                a.push(w),
                env,
                CommandView::Georadius {
                    key: a[1],
                    lon: double_of(env, a[2])->0,
                    lat: double_of(env, a[3])->0,
                    radius: double_of(env, a[4])->0,
                    unit: geo_unit_spec(upper_word(a[5]))->Ok_0,
                    withcoord,
                    withdist: true,
                    withhash,
                    count,
                    asc,
                },
            ),
        upper_word(w) == "WITHHASH"@ ==>
            makes(
                a.push(w),
                env,
                CommandView::Georadius {
                    key: a[1],
                    lon: double_of(env, a[2])->0,
                    lat: double_of(env, a[3])->0,
                    radius: double_of(env, a[4])->0,
                    unit: geo_unit_spec(upper_word(a[5]))->Ok_0,
                    withcoord,
                    withdist,
                    withhash: true,
                    count,
                    asc,
                },
            ),
        upper_word(w) == "ASC"@ ==>
            makes(
                a.push(w),
                env,
                CommandView::Georadius {
                    key: a[1],
                    lon: double_of(env, a[2])->0,
                    lat: double_of(env, a[3])->0,
                    radius: double_of(env, a[4])->0,
                    unit: geo_unit_spec(upper_word(a[5]))->Ok_0,
                    withcoord,
                    withdist,
                    withhash,
                    count,
                    asc: Some(true),
                },
            ),
        upper_word(w) == "DESC"@ ==>
            makes(
                a.push(w),
                env,
                CommandView::Georadius {
                    key: a[1],
                    lon: double_of(env, a[2])->0,
                    lat: double_of(env, a[3])->0,
                    radius: double_of(env, a[4])->0,
                    unit: geo_unit_spec(upper_word(a[5]))->Ok_0,
                    withcoord,
                    withdist,
                    withhash,
                    count,
                    asc: Some(false),
                },
            ),
        upper_word(w) == "COUNT"@ ==> refuses(a.push(w), env, "syntax error"@),
        upper_word(w) == "COUNT"@ && usize_of(x) is None ==>
            refuses(a.push(w).push(x), env, "value is not an integer or out of range"@),
        upper_word(w) == "COUNT"@ && usize_of(x) is Some ==>
            makes(
                a.push(w).push(x),
                env,
                CommandView::Georadius {
                    key: a[1],
                    lon: double_of(env, a[2])->0,
                    lat: double_of(env, a[3])->0,
                    radius: double_of(env, a[4])->0,
                    unit: geo_unit_spec(upper_word(a[5]))->Ok_0,
                    withcoord,
                    withdist,
                    withhash,
                    count: Some(usize_of(x)->0),
                    asc,
                },
            ),
        upper_word(w) != "WITHCOORD"@ && upper_word(w) != "WITHDIST"@
            && upper_word(w) != "WITHHASH"@ && upper_word(w) != "ASC"@ && upper_word(w) != "DESC"@
            && upper_word(w) != "COUNT"@ ==>
            makes(
                a.push(w),
                env,
                CommandView::Georadius {
                    key: a[1],
                    lon: double_of(env, a[2])->0,
                    lat: double_of(env, a[3])->0,
                    radius: double_of(env, a[4])->0,
                    unit: geo_unit_spec(upper_word(a[5]))->Ok_0,
                    withcoord,
                    withdist,
                    withhash,
                    count,
                    asc,
                },
            ),
{
    reveal(name_code);
    reveal_strlit("ASC");
    reveal_strlit("COUNT");
    reveal_strlit("DESC");
    reveal_strlit("WITHCOORD");
    reveal_strlit("WITHDIST");
    reveal_strlit("WITHHASH");
    assert(name_code("ASC"@) == 7182473811232103);
    assert(name_code("COUNT"@) == 7400789012027705);
    assert(name_code("DESC"@) == 7506426752698104);
    assert(name_code("WITHCOORD"@) == 9597225738708709);
    assert(name_code("WITHDIST"@) == 9597225699412108);
    assert(name_code("WITHHASH"@) == 9597225646982508);
    reveal_with_fuel(radius_options, 2);
    assert(a.push(w) =~= a + seq![w]);
    lemma_georadius_options_step(a, env, withcoord, withdist, withhash, count, asc, seq![w]);
    lemma_tail(a, seq![w]);
    assert(a.push(w).push(x) =~= a + seq![w, x]);
    lemma_georadius_options_step(a, env, withcoord, withdist, withhash, count, asc, seq![w, x]);
    lemma_tail(a, seq![w, x]);
}

/// What words behind such words make.
#[verifier::spinoff_prover]
#[verifier::rlimit(40)]
proof fn lemma_georadius_options_step(
    a: Seq<Seq<u8>>,
    env: &ParseEnv,
    withcoord: bool,
    withdist: bool,
    withhash: bool,
    count: Option<usize>,
    asc: Option<bool>,
    more: Seq<Seq<u8>>,
)
    requires
        called(a, "GEORADIUS"@) || called(a, "GEORADIUS_RO"@),
        makes(
            a,
            env,
            CommandView::Georadius {
                key: a[1],
                lon: double_of(env, a[2])->0,
                lat: double_of(env, a[3])->0,
                radius: double_of(env, a[4])->0,
                unit: geo_unit_spec(upper_word(a[5]))->Ok_0,
                withcoord,
                withdist,
                withhash,
                count,
                asc,
            },
        ),
    ensures
        verdict(a + more, env) == match radius_options(
            (unnamed(a) + more),
            withcoord,
            withdist,
            withhash,
            count,
            asc,
            a.len() as int,
        ) {
            Err(e) => Err(e),
            Ok(r) => Ok(Some(CommandView::Georadius {
                key: a[1],
                lon: double_of(env, a[2])->0,
                lat: double_of(env, a[3])->0,
                radius: double_of(env, a[4])->0,
                unit: geo_unit_spec(upper_word(a[5]))->Ok_0,
                withcoord: r.0,
                withdist: r.1,
                withhash: r.2,
                count: r.3,
                asc: r.4,
            })),
        },
{
    let b = a + more;
    reveal(verdict);
    lemma_called(a);
    lemma_called(b);
    assert(named_command_spec(
        upper_word(a[0]),
        unnamed(a),
        env,
    ) == georadius_spec(unnamed(a), env)) by {
        lemma_reach_geo(upper_word(a[0]), unnamed(a), env);
        lemma_geo_codes();
    }
    assert(named_command_spec(
        upper_word(b[0]),
        unnamed(b),
        env,
    ) == georadius_spec(unnamed(b), env)) by {
        lemma_reach_geo(upper_word(b[0]), unnamed(b), env);
        lemma_geo_codes();
    }
    assert(unnamed(b) =~= unnamed(a) + more);
    lemma_radius_options_goes_on(unnamed(a), false, false, false, None, None, 6, more);
}

/// Words behind words are read with what the first made.
pub(super) proof fn lemma_radius_options_goes_on(
    a: Seq<Seq<u8>>,
    withcoord: bool,
    withdist: bool,
    withhash: bool,
    count: Option<usize>,
    asc: Option<bool>,
    i: int,
    more: Seq<Seq<u8>>,
)
    requires
        0 <= i <= a.len(),
    ensures
        radius_options(
            a,
            withcoord,
            withdist,
            withhash,
            count,
            asc,
            i,
        ) matches Ok(r) ==> radius_options(
            a + more,
            withcoord,
            withdist,
            withhash,
            count,
            asc,
            i,
        ) == radius_options(a + more, r.0, r.1, r.2, r.3, r.4, a.len() as int),
    decreases a.len() - i,
{
    let b = a + more;
    assert(i < a.len() ==> b[i] == a[i]);
    assert(i + 1 < a.len() ==> b[i + 1] == a[i + 1]);
    assert(i + 2 < a.len() ==> b[i + 2] == a[i + 2]);
    if i < a.len() {
        let opt = upper_word(a[i]);
        if opt == "WITHCOORD"@ {
            let withcoord = true;
            let i: int = i + 1;
            lemma_radius_options_goes_on(a, withcoord, withdist, withhash, count, asc, i, more);
        } else if opt == "WITHDIST"@ {
            let withdist = true;
            let i: int = i + 1;
            lemma_radius_options_goes_on(a, withcoord, withdist, withhash, count, asc, i, more);
        } else if opt == "WITHHASH"@ {
            let withhash = true;
            let i: int = i + 1;
            lemma_radius_options_goes_on(a, withcoord, withdist, withhash, count, asc, i, more);
        } else if opt == "ASC"@ {
            let asc = Some(true);
            let i: int = i + 1;
            lemma_radius_options_goes_on(a, withcoord, withdist, withhash, count, asc, i, more);
        } else if opt == "DESC"@ {
            let asc = Some(false);
            let i: int = i + 1;
            lemma_radius_options_goes_on(a, withcoord, withdist, withhash, count, asc, i, more);
        } else if opt == "COUNT"@ {
            if a.len() - i > 1 {
                match usize_of(a[i + 1]) {
                    None => {},
                    Some(c) => {
                        let count = Some(c);
                        let i: int = i + 2;
                        lemma_radius_options_goes_on(
                            a,
                            withcoord,
                            withdist,
                            withhash,
                            count,
                            asc,
                            i,
                            more,
                        );
                    },
                }
            }
        } else {
            let i: int = i + 1;
            lemma_radius_options_goes_on(a, withcoord, withdist, withhash, count, asc, i, more);
        }
    }
}

/// Without options.
pub proof fn law_georadiusbymember_options_bare(a: Seq<Seq<u8>>, env: &ParseEnv)
    requires
        called(a, "GEORADIUSBYMEMBER"@) || called(a, "GEORADIUSBYMEMBER_RO"@),
        a.len() == 5,
        double_of(env, a[3]) is Some,
        geo_unit_spec(upper_word(a[4])) is Ok,
    ensures
        makes(
            a,
            env,
            CommandView::Georadiusbymember {
                key: a[1],
                member: a[2],
                radius: double_of(env, a[3])->0,
                unit: geo_unit_spec(upper_word(a[4]))->Ok_0,
                withcoord: false,
                withdist: false,
                withhash: false,
                count: None,
                asc: None,
            },
        ),
{
    reveal(verdict);
    lemma_called(a);
    assert(named_command_spec(
        upper_word(a[0]),
        unnamed(a),
        env,
    ) == georadiusbymember_spec(unnamed(a), env)) by {
        lemma_reach_geo(upper_word(a[0]), unnamed(a), env);
        lemma_geo_codes();
    }
}

/// An option of `GEORADIUSBYMEMBER` adds its own to what the others give, in whatever order they stand.
pub proof fn law_georadiusbymember_options(
    a: Seq<Seq<u8>>,
    env: &ParseEnv,
    withcoord: bool,
    withdist: bool,
    withhash: bool,
    count: Option<usize>,
    asc: Option<bool>,
    w: Seq<u8>,
    x: Seq<u8>,
)
    requires
        called(a, "GEORADIUSBYMEMBER"@) || called(a, "GEORADIUSBYMEMBER_RO"@),
        makes(
            a,
            env,
            CommandView::Georadiusbymember {
                key: a[1],
                member: a[2],
                radius: double_of(env, a[3])->0,
                unit: geo_unit_spec(upper_word(a[4]))->Ok_0,
                withcoord,
                withdist,
                withhash,
                count,
                asc,
            },
        ),
    ensures
        upper_word(w) == "WITHCOORD"@ ==>
            makes(
                a.push(w),
                env,
                CommandView::Georadiusbymember {
                    key: a[1],
                    member: a[2],
                    radius: double_of(env, a[3])->0,
                    unit: geo_unit_spec(upper_word(a[4]))->Ok_0,
                    withcoord: true,
                    withdist,
                    withhash,
                    count,
                    asc,
                },
            ),
        upper_word(w) == "WITHDIST"@ ==>
            makes(
                a.push(w),
                env,
                CommandView::Georadiusbymember {
                    key: a[1],
                    member: a[2],
                    radius: double_of(env, a[3])->0,
                    unit: geo_unit_spec(upper_word(a[4]))->Ok_0,
                    withcoord,
                    withdist: true,
                    withhash,
                    count,
                    asc,
                },
            ),
        upper_word(w) == "WITHHASH"@ ==>
            makes(
                a.push(w),
                env,
                CommandView::Georadiusbymember {
                    key: a[1],
                    member: a[2],
                    radius: double_of(env, a[3])->0,
                    unit: geo_unit_spec(upper_word(a[4]))->Ok_0,
                    withcoord,
                    withdist,
                    withhash: true,
                    count,
                    asc,
                },
            ),
        upper_word(w) == "ASC"@ ==>
            makes(
                a.push(w),
                env,
                CommandView::Georadiusbymember {
                    key: a[1],
                    member: a[2],
                    radius: double_of(env, a[3])->0,
                    unit: geo_unit_spec(upper_word(a[4]))->Ok_0,
                    withcoord,
                    withdist,
                    withhash,
                    count,
                    asc: Some(true),
                },
            ),
        upper_word(w) == "DESC"@ ==>
            makes(
                a.push(w),
                env,
                CommandView::Georadiusbymember {
                    key: a[1],
                    member: a[2],
                    radius: double_of(env, a[3])->0,
                    unit: geo_unit_spec(upper_word(a[4]))->Ok_0,
                    withcoord,
                    withdist,
                    withhash,
                    count,
                    asc: Some(false),
                },
            ),
        upper_word(w) == "COUNT"@ ==> refuses(a.push(w), env, "syntax error"@),
        upper_word(w) == "COUNT"@ && usize_of(x) is None ==>
            refuses(a.push(w).push(x), env, "value is not an integer or out of range"@),
        upper_word(w) == "COUNT"@ && usize_of(x) is Some ==>
            makes(
                a.push(w).push(x),
                env,
                CommandView::Georadiusbymember {
                    key: a[1],
                    member: a[2],
                    radius: double_of(env, a[3])->0,
                    unit: geo_unit_spec(upper_word(a[4]))->Ok_0,
                    withcoord,
                    withdist,
                    withhash,
                    count: Some(usize_of(x)->0),
                    asc,
                },
            ),
        upper_word(w) != "WITHCOORD"@ && upper_word(w) != "WITHDIST"@
            && upper_word(w) != "WITHHASH"@ && upper_word(w) != "ASC"@ && upper_word(w) != "DESC"@
            && upper_word(w) != "COUNT"@ ==>
            makes(
                a.push(w),
                env,
                CommandView::Georadiusbymember {
                    key: a[1],
                    member: a[2],
                    radius: double_of(env, a[3])->0,
                    unit: geo_unit_spec(upper_word(a[4]))->Ok_0,
                    withcoord,
                    withdist,
                    withhash,
                    count,
                    asc,
                },
            ),
{
    reveal(name_code);
    reveal_strlit("ASC");
    reveal_strlit("COUNT");
    reveal_strlit("DESC");
    reveal_strlit("WITHCOORD");
    reveal_strlit("WITHDIST");
    reveal_strlit("WITHHASH");
    assert(name_code("ASC"@) == 7182473811232103);
    assert(name_code("COUNT"@) == 7400789012027705);
    assert(name_code("DESC"@) == 7506426752698104);
    assert(name_code("WITHCOORD"@) == 9597225738708709);
    assert(name_code("WITHDIST"@) == 9597225699412108);
    assert(name_code("WITHHASH"@) == 9597225646982508);
    reveal_with_fuel(radius_options, 2);
    assert(a.push(w) =~= a + seq![w]);
    lemma_georadiusbymember_options_step(
        a,
        env,
        withcoord,
        withdist,
        withhash,
        count,
        asc,
        seq![w],
    );
    lemma_tail(a, seq![w]);
    assert(a.push(w).push(x) =~= a + seq![w, x]);
    lemma_georadiusbymember_options_step(
        a,
        env,
        withcoord,
        withdist,
        withhash,
        count,
        asc,
        seq![w, x],
    );
    lemma_tail(a, seq![w, x]);
}

/// What words behind such words make.
#[verifier::spinoff_prover]
#[verifier::rlimit(40)]
proof fn lemma_georadiusbymember_options_step(
    a: Seq<Seq<u8>>,
    env: &ParseEnv,
    withcoord: bool,
    withdist: bool,
    withhash: bool,
    count: Option<usize>,
    asc: Option<bool>,
    more: Seq<Seq<u8>>,
)
    requires
        called(a, "GEORADIUSBYMEMBER"@) || called(a, "GEORADIUSBYMEMBER_RO"@),
        makes(
            a,
            env,
            CommandView::Georadiusbymember {
                key: a[1],
                member: a[2],
                radius: double_of(env, a[3])->0,
                unit: geo_unit_spec(upper_word(a[4]))->Ok_0,
                withcoord,
                withdist,
                withhash,
                count,
                asc,
            },
        ),
    ensures
        verdict(a + more, env) == match radius_options(
            (unnamed(a) + more),
            withcoord,
            withdist,
            withhash,
            count,
            asc,
            a.len() as int,
        ) {
            Err(e) => Err(e),
            Ok(r) => Ok(Some(CommandView::Georadiusbymember {
                key: a[1],
                member: a[2],
                radius: double_of(env, a[3])->0,
                unit: geo_unit_spec(upper_word(a[4]))->Ok_0,
                withcoord: r.0,
                withdist: r.1,
                withhash: r.2,
                count: r.3,
                asc: r.4,
            })),
        },
{
    let b = a + more;
    reveal(verdict);
    lemma_called(a);
    lemma_called(b);
    assert(named_command_spec(
        upper_word(a[0]),
        unnamed(a),
        env,
    ) == georadiusbymember_spec(unnamed(a), env)) by {
        lemma_reach_geo(upper_word(a[0]), unnamed(a), env);
        lemma_geo_codes();
    }
    assert(named_command_spec(
        upper_word(b[0]),
        unnamed(b),
        env,
    ) == georadiusbymember_spec(unnamed(b), env)) by {
        lemma_reach_geo(upper_word(b[0]), unnamed(b), env);
        lemma_geo_codes();
    }
    assert(unnamed(b) =~= unnamed(a) + more);
    lemma_radius_options_goes_on(unnamed(a), false, false, false, None, None, 5, more);
}

/// An option of `GEOSEARCH` adds its own to what the others give, in whatever order they stand.
pub proof fn law_geosearch_options(
    a: Seq<Seq<u8>>,
    env: &ParseEnv,
    from_member: Option<Seq<u8>>,
    from_lonlat: Option<(Double, Double)>,
    by_radius: Option<(Double, GeoUnit)>,
    by_box: Option<(Double, Double, GeoUnit)>,
    asc: Option<bool>,
    count: Option<usize>,
    withcoord: bool,
    withdist: bool,
    withhash: bool,
    w: Seq<u8>,
    x: Seq<u8>,
    y: Seq<u8>,
    z: Seq<u8>,
)
    requires
        called(a, "GEOSEARCH"@),
        makes(
            a,
            env,
            CommandView::Geosearch {
                key: a[1],
                from_member,
                from_lonlat,
                by_radius,
                by_box,
                asc,
                count,
                withcoord,
                withdist,
                withhash,
            },
        ),
    ensures
        upper_word(w) == "FROMMEMBER"@ ==> refuses(a.push(w), env, "syntax error"@),
        upper_word(w) == "FROMMEMBER"@ ==>
            makes(
                a.push(w).push(x),
                env,
                CommandView::Geosearch {
                    key: a[1],
                    from_member: Some(x),
                    from_lonlat,
                    by_radius,
                    by_box,
                    asc,
                    count,
                    withcoord,
                    withdist,
                    withhash,
                },
            ),
        upper_word(w) == "FROMLONLAT"@ ==> refuses(a.push(w), env, "syntax error"@),
        upper_word(w) == "FROMLONLAT"@ ==> refuses(a.push(w).push(x), env, "syntax error"@),
        upper_word(w) == "FROMLONLAT"@ && double_of(env, x) is None ==>
            refuses(a.push(w).push(x).push(y), env, "value is not a valid float"@),
        upper_word(w) == "FROMLONLAT"@ && double_of(env, x) is Some
            && double_of(env, y) is None ==>
            refuses(a.push(w).push(x).push(y), env, "value is not a valid float"@),
        upper_word(w) == "FROMLONLAT"@ && double_of(env, x) is Some
            && double_of(env, y) is Some ==>
            makes(
                a.push(w).push(x).push(y),
                env,
                CommandView::Geosearch {
                    key: a[1],
                    from_member,
                    from_lonlat: Some((double_of(env, x)->0, double_of(env, y)->0)),
                    by_radius,
                    by_box,
                    asc,
                    count,
                    withcoord,
                    withdist,
                    withhash,
                },
            ),
        upper_word(w) == "BYRADIUS"@ ==> refuses(a.push(w), env, "syntax error"@),
        upper_word(w) == "BYRADIUS"@ ==> refuses(a.push(w).push(x), env, "syntax error"@),
        upper_word(w) == "BYRADIUS"@ && double_of(env, x) is None ==>
            refuses(a.push(w).push(x).push(y), env, "value is not a valid float"@),
        upper_word(w) == "BYRADIUS"@ && double_of(env, x) is Some
            && geo_unit_spec(upper_word(y)) is Err ==>
            refuses(a.push(w).push(x).push(y), env, (geo_unit_spec(upper_word(y))->Err_0)),
        upper_word(w) == "BYRADIUS"@ && double_of(env, x) is Some
            && geo_unit_spec(upper_word(y)) is Ok ==>
            makes(
                a.push(w).push(x).push(y),
                env,
                CommandView::Geosearch {
                    key: a[1],
                    from_member,
                    from_lonlat,
                    by_radius: Some((double_of(env, x)->0, (geo_unit_spec(upper_word(y))->Ok_0))),
                    by_box,
                    asc,
                    count,
                    withcoord,
                    withdist,
                    withhash,
                },
            ),
        upper_word(w) == "BYBOX"@ ==> refuses(a.push(w), env, "syntax error"@),
        upper_word(w) == "BYBOX"@ ==> refuses(a.push(w).push(x), env, "syntax error"@),
        upper_word(w) == "BYBOX"@ ==> refuses(a.push(w).push(x).push(y), env, "syntax error"@),
        upper_word(w) == "BYBOX"@ && double_of(env, x) is None ==>
            refuses(a.push(w).push(x).push(y).push(z), env, "value is not a valid float"@),
        upper_word(w) == "BYBOX"@ && double_of(env, x) is Some && double_of(env, y) is None ==>
            refuses(a.push(w).push(x).push(y).push(z), env, "value is not a valid float"@),
        upper_word(w) == "BYBOX"@ && double_of(env, x) is Some && double_of(env, y) is Some
            && geo_unit_spec(upper_word(z)) is Err ==>
            refuses(a.push(w).push(x).push(y).push(z), env, (geo_unit_spec(upper_word(z))->Err_0)),
        upper_word(w) == "BYBOX"@ && double_of(env, x) is Some && double_of(env, y) is Some
            && geo_unit_spec(upper_word(z)) is Ok ==>
            makes(
                a.push(w).push(x).push(y).push(z),
                env,
                CommandView::Geosearch {
                    key: a[1],
                    from_member,
                    from_lonlat,
                    by_radius,
                    by_box: Some(
                        (
                            double_of(env, x)->0,
                            double_of(env, y)->0,
                            (geo_unit_spec(upper_word(z))->Ok_0),
                        ),
                    ),
                    asc,
                    count,
                    withcoord,
                    withdist,
                    withhash,
                },
            ),
        upper_word(w) == "ASC"@ ==>
            makes(
                a.push(w),
                env,
                CommandView::Geosearch {
                    key: a[1],
                    from_member,
                    from_lonlat,
                    by_radius,
                    by_box,
                    asc: Some(true),
                    count,
                    withcoord,
                    withdist,
                    withhash,
                },
            ),
        upper_word(w) == "DESC"@ ==>
            makes(
                a.push(w),
                env,
                CommandView::Geosearch {
                    key: a[1],
                    from_member,
                    from_lonlat,
                    by_radius,
                    by_box,
                    asc: Some(false),
                    count,
                    withcoord,
                    withdist,
                    withhash,
                },
            ),
        upper_word(w) == "COUNT"@ ==> refuses(a.push(w), env, "syntax error"@),
        upper_word(w) == "COUNT"@ && usize_of(x) is None ==>
            refuses(a.push(w).push(x), env, "value is not an integer or out of range"@),
        upper_word(w) == "COUNT"@ && usize_of(x) is Some ==>
            makes(
                a.push(w).push(x),
                env,
                CommandView::Geosearch {
                    key: a[1],
                    from_member,
                    from_lonlat,
                    by_radius,
                    by_box,
                    asc,
                    count: Some(usize_of(x)->0),
                    withcoord,
                    withdist,
                    withhash,
                },
            ),
        upper_word(w) == "WITHCOORD"@ ==>
            makes(
                a.push(w),
                env,
                CommandView::Geosearch {
                    key: a[1],
                    from_member,
                    from_lonlat,
                    by_radius,
                    by_box,
                    asc,
                    count,
                    withcoord: true,
                    withdist,
                    withhash,
                },
            ),
        upper_word(w) == "WITHDIST"@ ==>
            makes(
                a.push(w),
                env,
                CommandView::Geosearch {
                    key: a[1],
                    from_member,
                    from_lonlat,
                    by_radius,
                    by_box,
                    asc,
                    count,
                    withcoord,
                    withdist: true,
                    withhash,
                },
            ),
        upper_word(w) == "WITHHASH"@ ==>
            makes(
                a.push(w),
                env,
                CommandView::Geosearch {
                    key: a[1],
                    from_member,
                    from_lonlat,
                    by_radius,
                    by_box,
                    asc,
                    count,
                    withcoord,
                    withdist,
                    withhash: true,
                },
            ),
        upper_word(w) != "FROMMEMBER"@ && upper_word(w) != "FROMLONLAT"@
            && upper_word(w) != "BYRADIUS"@ && upper_word(w) != "BYBOX"@ && upper_word(w) != "ASC"@
            && upper_word(w) != "DESC"@ && upper_word(w) != "COUNT"@ && upper_word(w) != "WITHCOORD"@
            && upper_word(w) != "WITHDIST"@ && upper_word(w) != "WITHHASH"@ ==>
            makes(
                a.push(w),
                env,
                CommandView::Geosearch {
                    key: a[1],
                    from_member,
                    from_lonlat,
                    by_radius,
                    by_box,
                    asc,
                    count,
                    withcoord,
                    withdist,
                    withhash,
                },
            ),
{
    reveal(name_code);
    reveal_strlit("ASC");
    reveal_strlit("BYBOX");
    reveal_strlit("BYRADIUS");
    reveal_strlit("COUNT");
    reveal_strlit("DESC");
    reveal_strlit("FROMLONLAT");
    reveal_strlit("FROMMEMBER");
    reveal_strlit("WITHCOORD");
    reveal_strlit("WITHDIST");
    reveal_strlit("WITHHASH");
    assert(name_code("ASC"@) == 7182473811232103);
    assert(name_code("BYBOX"@) == 7295134494291405);
    assert(name_code("BYRADIUS"@) == 7295111484756108);
    assert(name_code("COUNT"@) == 7400789012027705);
    assert(name_code("DESC"@) == 7506426752698104);
    assert(name_code("FROMLONLAT"@) == 7731929830228410);
    assert(name_code("FROMMEMBER"@) == 7731929764793810);
    assert(name_code("WITHCOORD"@) == 9597225738708709);
    assert(name_code("WITHDIST"@) == 9597225699412108);
    assert(name_code("WITHHASH"@) == 9597225646982508);
    reveal_with_fuel(geosearch_options, 2);
    assert(a.push(w) =~= a + seq![w]);
    lemma_geosearch_options_step(
        a,
        env,
        from_member,
        from_lonlat,
        by_radius,
        by_box,
        asc,
        count,
        withcoord,
        withdist,
        withhash,
        seq![w],
    );
    lemma_tail(a, seq![w]);
    assert(a.push(w).push(x) =~= a + seq![w, x]);
    lemma_geosearch_options_step(
        a,
        env,
        from_member,
        from_lonlat,
        by_radius,
        by_box,
        asc,
        count,
        withcoord,
        withdist,
        withhash,
        seq![w, x],
    );
    lemma_tail(a, seq![w, x]);
    assert(a.push(w).push(x).push(y) =~= a + seq![w, x, y]);
    lemma_geosearch_options_step(
        a,
        env,
        from_member,
        from_lonlat,
        by_radius,
        by_box,
        asc,
        count,
        withcoord,
        withdist,
        withhash,
        seq![w, x, y],
    );
    lemma_tail(a, seq![w, x, y]);
    assert(a.push(w).push(x).push(y).push(z) =~= a + seq![w, x, y, z]);
    lemma_geosearch_options_step(
        a,
        env,
        from_member,
        from_lonlat,
        by_radius,
        by_box,
        asc,
        count,
        withcoord,
        withdist,
        withhash,
        seq![w, x, y, z],
    );
    lemma_tail(a, seq![w, x, y, z]);
}

/// What words behind such words make.
#[verifier::spinoff_prover]
#[verifier::rlimit(40)]
proof fn lemma_geosearch_options_step(
    a: Seq<Seq<u8>>,
    env: &ParseEnv,
    from_member: Option<Seq<u8>>,
    from_lonlat: Option<(Double, Double)>,
    by_radius: Option<(Double, GeoUnit)>,
    by_box: Option<(Double, Double, GeoUnit)>,
    asc: Option<bool>,
    count: Option<usize>,
    withcoord: bool,
    withdist: bool,
    withhash: bool,
    more: Seq<Seq<u8>>,
)
    requires
        called(a, "GEOSEARCH"@),
        makes(
            a,
            env,
            CommandView::Geosearch {
                key: a[1],
                from_member,
                from_lonlat,
                by_radius,
                by_box,
                asc,
                count,
                withcoord,
                withdist,
                withhash,
            },
        ),
    ensures
        verdict(a + more, env) == match geosearch_options(
            (unnamed(a) + more),
            env,
            from_member,
            from_lonlat,
            by_radius,
            by_box,
            asc,
            count,
            withcoord,
            withdist,
            withhash,
            a.len() as int,
        ) {
            Err(e) => Err(e),
            Ok(r) => Ok(Some(CommandView::Geosearch {
                key: a[1],
                from_member: r.0,
                from_lonlat: r.1,
                by_radius: r.2,
                by_box: r.3,
                asc: r.4,
                count: r.5,
                withcoord: r.6,
                withdist: r.7,
                withhash: r.8,
            })),
        },
{
    let b = a + more;
    reveal(verdict);
    lemma_called(a);
    lemma_called(b);
    assert(named_command_spec(
        upper_word(a[0]),
        unnamed(a),
        env,
    ) == geosearch_spec(unnamed(a), env)) by {
        lemma_reach_geo(upper_word(a[0]), unnamed(a), env);
        lemma_geo_codes();
    }
    assert(named_command_spec(
        upper_word(b[0]),
        unnamed(b),
        env,
    ) == geosearch_spec(unnamed(b), env)) by {
        lemma_reach_geo(upper_word(b[0]), unnamed(b), env);
        lemma_geo_codes();
    }
    assert(unnamed(b) =~= unnamed(a) + more);
    lemma_geosearch_options_goes_on(
        unnamed(a),
        env,
        None,
        None,
        None,
        None,
        None,
        None,
        false,
        false,
        false,
        2,
        more,
    );
}

/// Words behind words are read with what the first made.
pub(super) proof fn lemma_geosearch_options_goes_on(
    a: Seq<Seq<u8>>,
    env: &ParseEnv,
    from_member: Option<Seq<u8>>,
    from_lonlat: Option<(Double, Double)>,
    by_radius: Option<(Double, GeoUnit)>,
    by_box: Option<(Double, Double, GeoUnit)>,
    asc: Option<bool>,
    count: Option<usize>,
    withcoord: bool,
    withdist: bool,
    withhash: bool,
    i: int,
    more: Seq<Seq<u8>>,
)
    requires
        0 <= i <= a.len(),
    ensures
        geosearch_options(
            a,
            env,
            from_member,
            from_lonlat,
            by_radius,
            by_box,
            asc,
            count,
            withcoord,
            withdist,
            withhash,
            i,
        ) matches Ok(r) ==> geosearch_options(
            a + more,
            env,
            from_member,
            from_lonlat,
            by_radius,
            by_box,
            asc,
            count,
            withcoord,
            withdist,
            withhash,
            i,
        ) == geosearch_options(a + more, env, r.0, r.1, r.2, r.3, r.4, r.5, r.6, r.7, r.8, a.len() as int),
    decreases a.len() - i,
{
    let b = a + more;
    assert(i < a.len() ==> b[i] == a[i]);
    assert(i + 1 < a.len() ==> b[i + 1] == a[i + 1]);
    assert(i + 2 < a.len() ==> b[i + 2] == a[i + 2]);
    if i < a.len() {
        let opt = upper_word(a[i]);
        if opt == "FROMMEMBER"@ {
            if a.len() - i > 1 {
                let from_member = Some(a[i + 1]);
                let i: int = i + 2;
                lemma_geosearch_options_goes_on(
                    a,
                    env,
                    from_member,
                    from_lonlat,
                    by_radius,
                    by_box,
                    asc,
                    count,
                    withcoord,
                    withdist,
                    withhash,
                    i, more);
            }
        } else if opt == "FROMLONLAT"@ {
            if a.len() - i > 2 {
                match double_of(env, a[i + 1]) {
                    None => {},
                    Some(lon) => {
                        match double_of(env, a[i + 2]) {
                            None => {},
                            Some(lat) => {
                                let from_lonlat = Some((lon, lat));
                                let i: int = i + 3;
                                lemma_geosearch_options_goes_on(
                                    a,
                                    env,
                                    from_member,
                                    from_lonlat,
                                    by_radius,
                                    by_box,
                                    asc,
                                    count,
                                    withcoord,
                                    withdist,
                                    withhash,
                                    i, more);
                            },
                        }
                    },
                }
            }
        } else if opt == "BYRADIUS"@ {
            if a.len() - i > 2 {
                match double_of(env, a[i + 1]) {
                    None => {},
                    Some(radius) => {
                        match geo_unit_spec(upper_word(a[i + 2])) {
                            Err(e) => {},
                            Ok(unit) => {
                                let by_radius = Some((radius, unit));
                                let i: int = i + 3;
                                lemma_geosearch_options_goes_on(
                                    a,
                                    env,
                                    from_member,
                                    from_lonlat,
                                    by_radius,
                                    by_box,
                                    asc,
                                    count,
                                    withcoord,
                                    withdist,
                                    withhash,
                                    i, more);
                            },
                        }
                    },
                }
            }
        } else if opt == "BYBOX"@ {
            if a.len() - i > 3 {
                match double_of(env, a[i + 1]) {
                    None => {},
                    Some(width) => {
                        match double_of(env, a[i + 2]) {
                            None => {},
                            Some(height) => {
                                match geo_unit_spec(upper_word(a[i + 3])) {
                                    Err(e) => {},
                                    Ok(unit) => {
                                        let by_box = Some((width, height, unit));
                                        let i: int = i + 4;
                                        lemma_geosearch_options_goes_on(
                                            a,
                                            env,
                                            from_member,
                                            from_lonlat,
                                            by_radius,
                                            by_box,
                                            asc,
                                            count,
                                            withcoord,
                                            withdist,
                                            withhash,
                                            i, more);
                                    },
                                }
                            },
                        }
                    },
                }
            }
        } else if opt == "ASC"@ {
            let asc = Some(true);
            let i: int = i + 1;
            lemma_geosearch_options_goes_on(
                a,
                env,
                from_member,
                from_lonlat,
                by_radius,
                by_box,
                asc,
                count,
                withcoord,
                withdist,
                withhash,
                i, more);
        } else if opt == "DESC"@ {
            let asc = Some(false);
            let i: int = i + 1;
            lemma_geosearch_options_goes_on(
                a,
                env,
                from_member,
                from_lonlat,
                by_radius,
                by_box,
                asc,
                count,
                withcoord,
                withdist,
                withhash,
                i, more);
        } else if opt == "COUNT"@ {
            if a.len() - i > 1 {
                match usize_of(a[i + 1]) {
                    None => {},
                    Some(c) => {
                        let count = Some(c);
                        let i: int = i + 2;
                        lemma_geosearch_options_goes_on(
                            a,
                            env,
                            from_member,
                            from_lonlat,
                            by_radius,
                            by_box,
                            asc,
                            count,
                            withcoord,
                            withdist,
                            withhash,
                            i, more);
                    },
                }
            }
        } else if opt == "WITHCOORD"@ {
            let withcoord = true;
            let i: int = i + 1;
            lemma_geosearch_options_goes_on(
                a,
                env,
                from_member,
                from_lonlat,
                by_radius,
                by_box,
                asc,
                count,
                withcoord,
                withdist,
                withhash,
                i, more);
        } else if opt == "WITHDIST"@ {
            let withdist = true;
            let i: int = i + 1;
            lemma_geosearch_options_goes_on(
                a,
                env,
                from_member,
                from_lonlat,
                by_radius,
                by_box,
                asc,
                count,
                withcoord,
                withdist,
                withhash,
                i, more);
        } else if opt == "WITHHASH"@ {
            let withhash = true;
            let i: int = i + 1;
            lemma_geosearch_options_goes_on(
                a,
                env,
                from_member,
                from_lonlat,
                by_radius,
                by_box,
                asc,
                count,
                withcoord,
                withdist,
                withhash,
                i, more);
        } else {
            let i: int = i + 1;
            lemma_geosearch_options_goes_on(
                a,
                env,
                from_member,
                from_lonlat,
                by_radius,
                by_box,
                asc,
                count,
                withcoord,
                withdist,
                withhash,
                i, more);
        }
    }
}

} // verus!
