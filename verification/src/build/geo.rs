//! Places.
use bytes::Bytes;
use vstd::prelude::*;

use crate::command::{Command, CommandView, built, built_opt};
use crate::lists::{content_opt, contents, keys_from, no_places, places, push_place};
use crate::numbers::{read_usize, usize_of};
use crate::operands::{Double, GeoUnit};
use crate::readings::{ParseEnv, double_of, geo_unit, geo_unit_spec};
use crate::text::{same_text, upper, upper_word};

verus! {

/// What `GEOADD` makes of its arguments from `i` on, given what came before them.
pub open spec fn geoadd_options(
    a: Seq<Seq<u8>>,
    nx: bool,
    xx: bool,
    ch: bool,
    i: int,
) -> (bool, bool, bool, int)
    decreases a.len() - i,
{
    if i >= a.len() {
        (nx, xx, ch, i)
    } else {
        let opt = upper_word(a[i]);
        if opt == "NX"@ {
            let nx = true;
            let i: int = i + 1;
            geoadd_options(a, nx, xx, ch, i)
        } else if opt == "XX"@ {
            let xx = true;
            let i: int = i + 1;
            geoadd_options(a, nx, xx, ch, i)
        } else if opt == "CH"@ {
            let ch = true;
            let i: int = i + 1;
            geoadd_options(a, nx, xx, ch, i)
        } else {
            (nx, xx, ch, i)
        }
    }
}

/// What `GEOADD` makes of its arguments from `i` on, given what came before them.
pub open spec fn geoadd_items(
    a: Seq<Seq<u8>>,
    env: &ParseEnv,
    i: int,
    items: Seq<(Double, Double, Seq<u8>)>,
) -> Result<Seq<(Double, Double, Seq<u8>)>, Seq<char>>
    decreases a.len() - i,
{
    if a.len() - i <= 2 {
        Ok(items)
    } else {
        match double_of(env, a[i]) {
            None => Err("value is not a valid float"@),
            Some(lon) => {
                match double_of(env, a[i + 1]) {
                    None => Err("value is not a valid float"@),
                    Some(lat) => {
                        let items = items.push((lon, lat, a[i + 2]));
                        let i: int = i + 3;
                        geoadd_items(a, env, i, items)
                    },
                }
            },
        }
    }
}

/// What `GEOADD` builds from its arguments.
pub open spec fn geoadd_spec(a: Seq<Seq<u8>>, env: &ParseEnv) -> Result<CommandView, Seq<char>> {
    if a.len() < 5 {
        Err("wrong number of arguments for 'geoadd' command"@)
    } else {
        let nx = false;
        let xx = false;
        let ch = false;
        let i: int = 2;
        let (nx, xx, ch, i) = geoadd_options(a, nx, xx, ch, i);
        if (a.len() - i) % 3 != 0 || i >= a.len() {
            Err("syntax error"@)
        } else {
            let items = Seq::<(Double, Double, Seq<u8>)>::empty();
            match geoadd_items(a, env, i, items) {
                Err(e) => Err(e),
                Ok(items) => {
                    Ok(CommandView::Geoadd { key: a[1], items, nx, xx, ch })
                },
            }
        }
    }
}

#[verifier::loop_isolation(false)]
pub(crate) fn build_geoadd(args: &Vec<Bytes>, env: &ParseEnv) -> (r: Result<Command, String>)
    requires
        args.len() > 0,
    ensures
        built(r) == geoadd_spec(contents(args@), env),
{
    if args.len() < 5 {
        return Err("wrong number of arguments for 'geoadd' command".to_owned());
    }
    let mut nx: bool = false;
    let mut xx: bool = false;
    let mut ch: bool = false;
    let mut i: usize = 2;
    let ghost goal_geoadd_options = geoadd_options(contents(args@), nx, xx, ch, i as int);
    while i < args.len()
        invariant
            i <= args.len(),
            geoadd_options(contents(args@), nx, xx, ch, i as int) == goal_geoadd_options,
        decreases args.len() - i,
    {
        let opt: String = upper(&args[i]);
        if same_text(&opt, "NX") {
            nx = true;
            i = i + 1;
        } else if same_text(&opt, "XX") {
            xx = true;
            i = i + 1;
        } else if same_text(&opt, "CH") {
            ch = true;
            i = i + 1;
        } else {
            break;
        }
    }
    if (args.len() - i) % 3 != 0 || i >= args.len() {
        return Err("syntax error".to_owned());
    }
    let mut items: Vec<(Double, Double, Bytes)> = no_places();
    let ghost goal_geoadd_items = geoadd_items(contents(args@), env, i as int, places(items@));
    while args.len() - i > 2
        invariant
            i <= args.len(),
            geoadd_items(contents(args@), env, i as int, places(items@)) == goal_geoadd_items,
        decreases args.len() - i,
    {
        let lon: Double = match env.double(args[i].as_ref()) {
            Some(v) => v,
            None => return Err("value is not a valid float".to_owned()),
        };
        let lat: Double = match env.double(args[i + 1].as_ref()) {
            Some(v) => v,
            None => return Err("value is not a valid float".to_owned()),
        };
        push_place(&mut items, lon, lat, args[i + 2].clone());
        i = i + 3;
    }
    Ok(Command::Geoadd { key: args[1].clone(), items, nx, xx, ch })
}

/// What `GEODIST` builds from its arguments.
pub open spec fn geodist_spec(a: Seq<Seq<u8>>) -> Result<CommandView, Seq<char>> {
    if a.len() < 4 || a.len() > 5 {
        Err("wrong number of arguments for 'geodist' command"@)
    } else if a.len() == 5 {
        match geo_unit_spec(upper_word(a[4])) {
            Err(e) => Err(e),
            Ok(unit) => {
                Ok(CommandView::Geodist { key: a[1], m1: a[2], m2: a[3], unit: Some(unit) })
            },
        }
    } else {
        Ok(CommandView::Geodist { key: a[1], m1: a[2], m2: a[3], unit: None })
    }
}

pub(crate) fn build_geodist(args: &Vec<Bytes>) -> (r: Result<Command, String>)
    requires
        args.len() > 0,
    ensures
        built(r) == geodist_spec(contents(args@)),
{
    if args.len() < 4 || args.len() > 5 {
        return Err("wrong number of arguments for 'geodist' command".to_owned());
    }
    if args.len() == 5 {
        let unit: GeoUnit = match geo_unit(upper(&args[4]).as_str()) {
            Ok(v) => v,
            Err(e) => return Err(e),
        };
        Ok(Command::Geodist {
            key: args[1].clone(),
            m1: args[2].clone(),
            m2: args[3].clone(),
            unit: Some(unit),
        })
    } else {
        Ok(Command::Geodist {
            key: args[1].clone(),
            m1: args[2].clone(),
            m2: args[3].clone(),
            unit: None,
        })
    }
}

/// What `GEOPOS` builds from its arguments.
pub open spec fn geopos_spec(a: Seq<Seq<u8>>) -> Result<CommandView, Seq<char>> {
    if a.len() < 3 {
        Err("wrong number of arguments for 'geopos' command"@)
    } else {
        Ok(CommandView::Geopos { key: a[1], members: a.skip(2) })
    }
}

pub(crate) fn build_geopos(args: &Vec<Bytes>) -> (r: Result<Command, String>)
    requires
        args.len() > 0,
    ensures
        built(r) == geopos_spec(contents(args@)),
{
    if args.len() < 3 {
        return Err("wrong number of arguments for 'geopos' command".to_owned());
    }
    Ok(Command::Geopos { key: args[1].clone(), members: keys_from(args, 2) })
}

/// What `GEOHASH` builds from its arguments.
pub open spec fn geohash_spec(a: Seq<Seq<u8>>) -> Result<CommandView, Seq<char>> {
    if a.len() < 3 {
        Err("wrong number of arguments for 'geohash' command"@)
    } else {
        Ok(CommandView::Geohash { key: a[1], members: a.skip(2) })
    }
}

pub(crate) fn build_geohash(args: &Vec<Bytes>) -> (r: Result<Command, String>)
    requires
        args.len() > 0,
    ensures
        built(r) == geohash_spec(contents(args@)),
{
    if args.len() < 3 {
        return Err("wrong number of arguments for 'geohash' command".to_owned());
    }
    Ok(Command::Geohash { key: args[1].clone(), members: keys_from(args, 2) })
}

/// What the options of a search by radius from `i` on make of those before them.
pub open spec fn radius_options(
    a: Seq<Seq<u8>>,
    withcoord: bool,
    withdist: bool,
    withhash: bool,
    count: Option<usize>,
    asc: Option<bool>,
    i: int,
) -> Result<(bool, bool, bool, Option<usize>, Option<bool>), Seq<char>>
    decreases a.len() - i,
{
    if i >= a.len() {
        Ok((withcoord, withdist, withhash, count, asc))
    } else {
        let opt = upper_word(a[i]);
        if opt == "WITHCOORD"@ {
            let withcoord = true;
            let i: int = i + 1;
            radius_options(a, withcoord, withdist, withhash, count, asc, i)
        } else if opt == "WITHDIST"@ {
            let withdist = true;
            let i: int = i + 1;
            radius_options(a, withcoord, withdist, withhash, count, asc, i)
        } else if opt == "WITHHASH"@ {
            let withhash = true;
            let i: int = i + 1;
            radius_options(a, withcoord, withdist, withhash, count, asc, i)
        } else if opt == "ASC"@ {
            let asc = Some(true);
            let i: int = i + 1;
            radius_options(a, withcoord, withdist, withhash, count, asc, i)
        } else if opt == "DESC"@ {
            let asc = Some(false);
            let i: int = i + 1;
            radius_options(a, withcoord, withdist, withhash, count, asc, i)
        } else if opt == "COUNT"@ {
            if a.len() - i <= 1 {
                Err("syntax error"@)
            } else {
                match usize_of(a[i + 1]) {
                    None => Err("value is not an integer or out of range"@),
                    Some(c) => {
                        let count = Some(c);
                        let i: int = i + 2;
                        radius_options(a, withcoord, withdist, withhash, count, asc, i)
                    },
                }
            }
        } else {
            let i: int = i + 1;
            radius_options(a, withcoord, withdist, withhash, count, asc, i)
        }
    }
}

/// Reads the options of a search by radius from `from` on.
#[verifier::loop_isolation(false)]
pub(crate) fn read_radius_options(
    args: &Vec<Bytes>,
    from: usize,
) -> (r: Result<(bool, bool, bool, Option<usize>, Option<bool>), String>)
    requires
        from <= args.len(),
    ensures
        match radius_options(contents(args@), false, false, false, None, None, from as int) {
            Ok(x) => r matches Ok(y) && x == y,
            Err(e) => r matches Err(y) && y@ == e,
        },
{
    let mut withcoord: bool = false;
    let mut withdist: bool = false;
    let mut withhash: bool = false;
    let mut count: Option<usize> = None;
    let mut asc: Option<bool> = None;
    let mut i: usize = from;
    let ghost goal = radius_options(
        contents(args@),
        withcoord,
        withdist,
        withhash,
        count,
        asc,
        i as int,
    );
    while i < args.len()
        invariant
            i <= args.len(),
            radius_options(
                contents(args@),
                withcoord,
                withdist,
                withhash,
                count,
                asc,
                i as int,
            ) == goal,
        decreases args.len() - i,
    {
        let opt: String = upper(&args[i]);
        if same_text(&opt, "WITHCOORD") {
            withcoord = true;
            i = i + 1;
        } else if same_text(&opt, "WITHDIST") {
            withdist = true;
            i = i + 1;
        } else if same_text(&opt, "WITHHASH") {
            withhash = true;
            i = i + 1;
        } else if same_text(&opt, "ASC") {
            asc = Some(true);
            i = i + 1;
        } else if same_text(&opt, "DESC") {
            asc = Some(false);
            i = i + 1;
        } else if same_text(&opt, "COUNT") {
            if args.len() - i <= 1 {
                return Err("syntax error".to_owned());
            }
            let c: usize = match read_usize(args[i + 1].as_ref()) {
                Some(v) => v,
                None => return Err("value is not an integer or out of range".to_owned()),
            };
            count = Some(c);
            i = i + 2;
        } else {
            i = i + 1;
        }
    }
    Ok((withcoord, withdist, withhash, count, asc))
}

/// What `GEORADIUS` / `GEORADIUS_RO` builds from its arguments.
pub open spec fn georadius_spec(a: Seq<Seq<u8>>, env: &ParseEnv) -> Result<CommandView, Seq<char>> {
    if a.len() < 6 {
        Err("wrong number of arguments for 'georadius' command"@)
    } else {
        match double_of(env, a[2]) {
            None => Err("value is not a valid float"@),
            Some(lon) => {
                match double_of(env, a[3]) {
                    None => Err("value is not a valid float"@),
                    Some(lat) => {
                        match double_of(env, a[4]) {
                            None => Err("value is not a valid float"@),
                            Some(radius) => {
                                match geo_unit_spec(upper_word(a[5])) {
                                    Err(e) => Err(e),
                                    Ok(unit) => {
                                        let withcoord = false;
                                        let withdist = false;
                                        let withhash = false;
                                        let count: Option<usize> = None;
                                        let asc: Option<bool> = None;
                                        let i: int = 6;
                                        match radius_options(
                                            a,
                                            withcoord,
                                            withdist,
                                            withhash,
                                            count,
                                            asc,
                                            i,
                                        ) {
                                            Err(e) => Err(e),
                                            Ok((withcoord, withdist, withhash, count, asc)) => {
                                                Ok(CommandView::Georadius {
                                                    key: a[1],
                                                    lon,
                                                    lat,
                                                    radius,
                                                    unit,
                                                    withcoord,
                                                    withdist,
                                                    withhash,
                                                    count,
                                                    asc,
                                                })
                                            },
                                        }
                                    },
                                }
                            },
                        }
                    },
                }
            },
        }
    }
}

pub(crate) fn build_georadius(args: &Vec<Bytes>, env: &ParseEnv) -> (r: Result<Command, String>)
    requires
        args.len() > 0,
    ensures
        built(r) == georadius_spec(contents(args@), env),
{
    if args.len() < 6 {
        return Err("wrong number of arguments for 'georadius' command".to_owned());
    }
    let lon: Double = match env.double(args[2].as_ref()) {
        Some(v) => v,
        None => return Err("value is not a valid float".to_owned()),
    };
    let lat: Double = match env.double(args[3].as_ref()) {
        Some(v) => v,
        None => return Err("value is not a valid float".to_owned()),
    };
    let radius: Double = match env.double(args[4].as_ref()) {
        Some(v) => v,
        None => return Err("value is not a valid float".to_owned()),
    };
    let unit: GeoUnit = match geo_unit(upper(&args[5]).as_str()) {
        Ok(v) => v,
        Err(e) => return Err(e),
    };
    let (withcoord, withdist, withhash, count, asc): (
        bool,
        bool,
        bool,
        Option<usize>,
        Option<bool>,
    ) = match read_radius_options(args, 6) {
        Ok(v) => v,
        Err(e) => return Err(e),
    };
    Ok(Command::Georadius {
        key: args[1].clone(),
        lon,
        lat,
        radius,
        unit,
        withcoord,
        withdist,
        withhash,
        count,
        asc,
    })
}

/// What `GEORADIUSBYMEMBER` / `GEORADIUSBYMEMBER_RO` builds from its arguments.
pub open spec fn georadiusbymember_spec(
    a: Seq<Seq<u8>>,
    env: &ParseEnv,
) -> Result<CommandView, Seq<char>> {
    if a.len() < 5 {
        Err("wrong number of arguments for 'georadiusbymember' command"@)
    } else {
        match double_of(env, a[3]) {
            None => Err("value is not a valid float"@),
            Some(radius) => {
                match geo_unit_spec(upper_word(a[4])) {
                    Err(e) => Err(e),
                    Ok(unit) => {
                        let withcoord = false;
                        let withdist = false;
                        let withhash = false;
                        let count: Option<usize> = None;
                        let asc: Option<bool> = None;
                        let i: int = 5;
                        match radius_options(
                            a,
                            withcoord,
                            withdist,
                            withhash,
                            count,
                            asc,
                            i,
                        ) {
                            Err(e) => Err(e),
                            Ok((withcoord, withdist, withhash, count, asc)) => {
                                Ok(CommandView::Georadiusbymember {
                                    key: a[1],
                                    member: a[2],
                                    radius,
                                    unit,
                                    withcoord,
                                    withdist,
                                    withhash,
                                    count,
                                    asc,
                                })
                            },
                        }
                    },
                }
            },
        }
    }
}

pub(crate) fn build_georadiusbymember(
    args: &Vec<Bytes>,
    env: &ParseEnv,
) -> (r: Result<Command, String>)
    requires
        args.len() > 0,
    ensures
        built(r) == georadiusbymember_spec(contents(args@), env),
{
    if args.len() < 5 {
        return Err("wrong number of arguments for 'georadiusbymember' command".to_owned());
    }
    let radius: Double = match env.double(args[3].as_ref()) {
        Some(v) => v,
        None => return Err("value is not a valid float".to_owned()),
    };
    let unit: GeoUnit = match geo_unit(upper(&args[4]).as_str()) {
        Ok(v) => v,
        Err(e) => return Err(e),
    };
    let (withcoord, withdist, withhash, count, asc): (
        bool,
        bool,
        bool,
        Option<usize>,
        Option<bool>,
    ) = match read_radius_options(args, 5) {
        Ok(v) => v,
        Err(e) => return Err(e),
    };
    Ok(Command::Georadiusbymember {
        key: args[1].clone(),
        member: args[2].clone(),
        radius,
        unit,
        withcoord,
        withdist,
        withhash,
        count,
        asc,
    })
}

/// What `GEOSEARCH` makes of its arguments from `i` on, given what came before them.
pub open spec fn geosearch_options(
    a: Seq<Seq<u8>>,
    env: &ParseEnv,
    from_member: Option<Seq<u8>>,
    from_lonlat: Option<(Double, Double)>,
    by_radius: Option<(Double, GeoUnit)>,
    by_box: Option<(Double, Double, GeoUnit)>,
    asc: Option<bool>,
    count: Option<usize>,
    withcoord: bool,
    withdist: bool,
    withhash: bool,
    i: int,
) -> Result<(Option<Seq<u8>>, Option<(Double, Double)>, Option<(Double, GeoUnit)>, Option<(Double, Double, GeoUnit)>, Option<bool>, Option<usize>, bool, bool, bool), Seq<char>>
    decreases a.len() - i,
{
    if i >= a.len() {
        Ok((from_member, from_lonlat, by_radius, by_box, asc, count, withcoord, withdist, withhash))
    } else {
        let opt = upper_word(a[i]);
        if opt == "FROMMEMBER"@ {
            if a.len() - i <= 1 {
                Err("syntax error"@)
            } else {
                let from_member = Some(a[i + 1]);
                let i: int = i + 2;
                geosearch_options(
                    a,
                    env,
                    from_member,
                    from_lonlat,
                    by_radius,
                    by_box,
                    asc,
                    count,
                    withcoord,
                    withdist,
                    withhash,
                    i,
                )
            }
        } else if opt == "FROMLONLAT"@ {
            if a.len() - i <= 2 {
                Err("syntax error"@)
            } else {
                match double_of(env, a[i + 1]) {
                    None => Err("value is not a valid float"@),
                    Some(lon) => {
                        match double_of(env, a[i + 2]) {
                            None => Err("value is not a valid float"@),
                            Some(lat) => {
                                let from_lonlat = Some((lon, lat));
                                let i: int = i + 3;
                                geosearch_options(
                                    a,
                                    env,
                                    from_member,
                                    from_lonlat,
                                    by_radius,
                                    by_box,
                                    asc,
                                    count,
                                    withcoord,
                                    withdist,
                                    withhash,
                                    i,
                                )
                            },
                        }
                    },
                }
            }
        } else if opt == "BYRADIUS"@ {
            if a.len() - i <= 2 {
                Err("syntax error"@)
            } else {
                match double_of(env, a[i + 1]) {
                    None => Err("value is not a valid float"@),
                    Some(radius) => {
                        match geo_unit_spec(upper_word(a[i + 2])) {
                            Err(e) => Err(e),
                            Ok(unit) => {
                                let by_radius = Some((radius, unit));
                                let i: int = i + 3;
                                geosearch_options(
                                    a,
                                    env,
                                    from_member,
                                    from_lonlat,
                                    by_radius,
                                    by_box,
                                    asc,
                                    count,
                                    withcoord,
                                    withdist,
                                    withhash,
                                    i,
                                )
                            },
                        }
                    },
                }
            }
        } else if opt == "BYBOX"@ {
            if a.len() - i <= 3 {
                Err("syntax error"@)
            } else {
                match double_of(env, a[i + 1]) {
                    None => Err("value is not a valid float"@),
                    Some(width) => {
                        match double_of(env, a[i + 2]) {
                            None => Err("value is not a valid float"@),
                            Some(height) => {
                                match geo_unit_spec(upper_word(a[i + 3])) {
                                    Err(e) => Err(e),
                                    Ok(unit) => {
                                        let by_box = Some((width, height, unit));
                                        let i: int = i + 4;
                                        geosearch_options(
                                            a,
                                            env,
                                            from_member,
                                            from_lonlat,
                                            by_radius,
                                            by_box,
                                            asc,
                                            count,
                                            withcoord,
                                            withdist,
                                            withhash,
                                            i,
                                        )
                                    },
                                }
                            },
                        }
                    },
                }
            }
        } else if opt == "ASC"@ {
            let asc = Some(true);
            let i: int = i + 1;
            geosearch_options(
                a,
                env,
                from_member,
                from_lonlat,
                by_radius,
                by_box,
                asc,
                count,
                withcoord,
                withdist,
                withhash,
                i,
            )
        } else if opt == "DESC"@ {
            let asc = Some(false);
            let i: int = i + 1;
            geosearch_options(
                a,
                env,
                from_member,
                from_lonlat,
                by_radius,
                by_box,
                asc,
                count,
                withcoord,
                withdist,
                withhash,
                i,
            )
        } else if opt == "COUNT"@ {
            if a.len() - i <= 1 {
                Err("syntax error"@)
            } else {
                match usize_of(a[i + 1]) {
                    None => Err("value is not an integer or out of range"@),
                    Some(c) => {
                        let count = Some(c);
                        let i: int = i + 2;
                        geosearch_options(
                            a,
                            env,
                            from_member,
                            from_lonlat,
                            by_radius,
                            by_box,
                            asc,
                            count,
                            withcoord,
                            withdist,
                            withhash,
                            i,
                        )
                    },
                }
            }
        } else if opt == "WITHCOORD"@ {
            let withcoord = true;
            let i: int = i + 1;
            geosearch_options(
                a,
                env,
                from_member,
                from_lonlat,
                by_radius,
                by_box,
                asc,
                count,
                withcoord,
                withdist,
                withhash,
                i,
            )
        } else if opt == "WITHDIST"@ {
            let withdist = true;
            let i: int = i + 1;
            geosearch_options(
                a,
                env,
                from_member,
                from_lonlat,
                by_radius,
                by_box,
                asc,
                count,
                withcoord,
                withdist,
                withhash,
                i,
            )
        } else if opt == "WITHHASH"@ {
            let withhash = true;
            let i: int = i + 1;
            geosearch_options(
                a,
                env,
                from_member,
                from_lonlat,
                by_radius,
                by_box,
                asc,
                count,
                withcoord,
                withdist,
                withhash,
                i,
            )
        } else {
            let i: int = i + 1;
            geosearch_options(
                a,
                env,
                from_member,
                from_lonlat,
                by_radius,
                by_box,
                asc,
                count,
                withcoord,
                withdist,
                withhash,
                i,
            )
        }
    }
}

/// What `GEOSEARCH` builds from its arguments.
pub open spec fn geosearch_spec(a: Seq<Seq<u8>>, env: &ParseEnv) -> Result<CommandView, Seq<char>> {
    if a.len() < 4 {
        Err("wrong number of arguments for 'geosearch' command"@)
    } else {
        let from_member: Option<Seq<u8>> = None;
        let from_lonlat: Option<(Double, Double)> = None;
        let by_radius: Option<(Double, GeoUnit)> = None;
        let by_box: Option<(Double, Double, GeoUnit)> = None;
        let asc: Option<bool> = None;
        let count: Option<usize> = None;
        let withcoord = false;
        let withdist = false;
        let withhash = false;
        let i: int = 2;
        match geosearch_options(
            a,
            env,
            from_member,
            from_lonlat,
            by_radius,
            by_box,
            asc,
            count,
            withcoord,
            withdist,
            withhash,
            i,
        ) {
            Err(e) => Err(e),
            Ok((
                from_member,
                from_lonlat,
                by_radius,
                by_box,
                asc,
                count,
                withcoord,
                withdist,
                withhash,
            )) => {
                Ok(CommandView::Geosearch {
                    key: a[1],
                    from_member,
                    from_lonlat,
                    by_radius,
                    by_box,
                    asc,
                    count,
                    withcoord,
                    withdist,
                    withhash,
                })
            },
        }
    }
}

#[verifier::loop_isolation(false)]
pub(crate) fn build_geosearch(args: &Vec<Bytes>, env: &ParseEnv) -> (r: Result<Command, String>)
    requires
        args.len() > 0,
    ensures
        built(r) == geosearch_spec(contents(args@), env),
{
    if args.len() < 4 {
        return Err("wrong number of arguments for 'geosearch' command".to_owned());
    }
    let mut from_member: Option<Bytes> = None;
    let mut from_lonlat: Option<(Double, Double)> = None;
    let mut by_radius: Option<(Double, GeoUnit)> = None;
    let mut by_box: Option<(Double, Double, GeoUnit)> = None;
    let mut asc: Option<bool> = None;
    let mut count: Option<usize> = None;
    let mut withcoord: bool = false;
    let mut withdist: bool = false;
    let mut withhash: bool = false;
    let mut i: usize = 2;
    let ghost goal_geosearch_options = geosearch_options(
        contents(args@),
        env,
        content_opt(from_member),
        from_lonlat,
        by_radius,
        by_box,
        asc,
        count,
        withcoord,
        withdist,
        withhash,
        i as int,
    );
    while i < args.len()
        invariant
            i <= args.len(),
            geosearch_options(
                contents(args@),
                env,
                content_opt(from_member),
                from_lonlat,
                by_radius,
                by_box,
                asc,
                count,
                withcoord,
                withdist,
                withhash,
                i as int,
            ) == goal_geosearch_options,
        decreases args.len() - i,
    {
        let opt: String = upper(&args[i]);
        if same_text(&opt, "FROMMEMBER") {
            if args.len() - i <= 1 {
                return Err("syntax error".to_owned());
            }
            from_member = Some(args[i + 1].clone());
            i = i + 2;
        } else if same_text(&opt, "FROMLONLAT") {
            if args.len() - i <= 2 {
                return Err("syntax error".to_owned());
            }
            let lon: Double = match env.double(args[i + 1].as_ref()) {
                Some(v) => v,
                None => return Err("value is not a valid float".to_owned()),
            };
            let lat: Double = match env.double(args[i + 2].as_ref()) {
                Some(v) => v,
                None => return Err("value is not a valid float".to_owned()),
            };
            from_lonlat = Some((lon, lat));
            i = i + 3;
        } else if same_text(&opt, "BYRADIUS") {
            if args.len() - i <= 2 {
                return Err("syntax error".to_owned());
            }
            let radius: Double = match env.double(args[i + 1].as_ref()) {
                Some(v) => v,
                None => return Err("value is not a valid float".to_owned()),
            };
            let unit: GeoUnit = match geo_unit(upper(&args[i + 2]).as_str()) {
                Ok(v) => v,
                Err(e) => return Err(e),
            };
            by_radius = Some((radius, unit));
            i = i + 3;
        } else if same_text(&opt, "BYBOX") {
            if args.len() - i <= 3 {
                return Err("syntax error".to_owned());
            }
            let width: Double = match env.double(args[i + 1].as_ref()) {
                Some(v) => v,
                None => return Err("value is not a valid float".to_owned()),
            };
            let height: Double = match env.double(args[i + 2].as_ref()) {
                Some(v) => v,
                None => return Err("value is not a valid float".to_owned()),
            };
            let unit: GeoUnit = match geo_unit(upper(&args[i + 3]).as_str()) {
                Ok(v) => v,
                Err(e) => return Err(e),
            };
            by_box = Some((width, height, unit));
            i = i + 4;
        } else if same_text(&opt, "ASC") {
            asc = Some(true);
            i = i + 1;
        } else if same_text(&opt, "DESC") {
            asc = Some(false);
            i = i + 1;
        } else if same_text(&opt, "COUNT") {
            if args.len() - i <= 1 {
                return Err("syntax error".to_owned());
            }
            let c: usize = match read_usize(args[i + 1].as_ref()) {
                Some(v) => v,
                None => return Err("value is not an integer or out of range".to_owned()),
            };
            count = Some(c);
            i = i + 2;
        } else if same_text(&opt, "WITHCOORD") {
            withcoord = true;
            i = i + 1;
        } else if same_text(&opt, "WITHDIST") {
            withdist = true;
            i = i + 1;
        } else if same_text(&opt, "WITHHASH") {
            withhash = true;
            i = i + 1;
        } else {
            i = i + 1;
        }
    }
    Ok(Command::Geosearch {
        key: args[1].clone(),
        from_member,
        from_lonlat,
        by_radius,
        by_box,
        asc,
        count,
        withcoord,
        withdist,
        withhash,
    })
}

/// The commands on places: the command that `name` stands for among them, if it is one.
pub open spec fn geo_command_spec(
    name: Seq<char>,
    a: Seq<Seq<u8>>,
    env: &ParseEnv,
) -> Option<Result<CommandView, Seq<char>>> {
    if name == "GEOADD"@ {
        Some(geoadd_spec(a, env))
    } else if name == "GEODIST"@ {
        Some(geodist_spec(a))
    } else if name == "GEOPOS"@ {
        Some(geopos_spec(a))
    } else if name == "GEOHASH"@ {
        Some(geohash_spec(a))
    } else if name == "GEORADIUS"@ || name == "GEORADIUS_RO"@ {
        Some(georadius_spec(a, env))
    } else if name == "GEORADIUSBYMEMBER"@ || name == "GEORADIUSBYMEMBER_RO"@ {
        Some(georadiusbymember_spec(a, env))
    } else if name == "GEOSEARCH"@ {
        Some(geosearch_spec(a, env))
    } else {
        None
    }
}

pub(crate) fn geo_command(
    name: &str,
    args: &Vec<Bytes>,
    env: &ParseEnv,
) -> (r: Option<Result<Command, String>>)
    requires
        args.len() > 0,
    ensures
        built_opt(r) == geo_command_spec(name@, contents(args@), env),
{
    if same_text(name, "GEOADD") {
        Some(build_geoadd(args, env))
    } else if same_text(name, "GEODIST") {
        Some(build_geodist(args))
    } else if same_text(name, "GEOPOS") {
        Some(build_geopos(args))
    } else if same_text(name, "GEOHASH") {
        Some(build_geohash(args))
    } else if same_text(name, "GEORADIUS") || same_text(name, "GEORADIUS_RO") {
        Some(build_georadius(args, env))
    } else if same_text(name, "GEORADIUSBYMEMBER") || same_text(name, "GEORADIUSBYMEMBER_RO") {
        Some(build_georadiusbymember(args, env))
    } else if same_text(name, "GEOSEARCH") {
        Some(build_geosearch(args, env))
    } else {
        None
    }
}

} // verus!
