//! Walks over the members of one key.
use bytes::Bytes;
use vstd::prelude::*;

use crate::lists::{content_opt, contents};
use crate::numbers::{read_usize, usize_of};
use crate::text::{same_text, upper, upper_word};

verus! {

/// What the options of a walk over the members of one key from `i` on make of those before them.
pub open spec fn walk_options(
    a: Seq<Seq<u8>>,
    pattern: Option<Seq<u8>>,
    count: Option<usize>,
    i: int,
) -> Result<(Option<Seq<u8>>, Option<usize>), Seq<char>>
    decreases a.len() - i,
{
    if i >= a.len() {
        Ok((pattern, count))
    } else {
        let opt = upper_word(a[i]);
        if opt == "MATCH"@ {
            if a.len() - i <= 1 {
                Err("syntax error"@)
            } else {
                let pattern = Some(a[i + 1]);
                let i: int = i + 2;
                walk_options(a, pattern, count, i)
            }
        } else if opt == "COUNT"@ {
            if a.len() - i <= 1 {
                Err("syntax error"@)
            } else {
                match usize_of(a[i + 1]) {
                    None => Err("value is not an integer or out of range"@),
                    Some(c) => {
                        let count = Some(c);
                        let i: int = i + 2;
                        walk_options(a, pattern, count, i)
                    },
                }
            }
        } else {
            Err("syntax error"@)
        }
    }
}

/// Reads the options of a walk over the members of one key from `from` on.
#[verifier::loop_isolation(false)]
pub(crate) fn read_walk_options(
    args: &Vec<Bytes>,
    from: usize,
) -> (r: Result<(Option<Bytes>, Option<usize>), String>)
    requires
        from <= args.len(),
    ensures
        match walk_options(contents(args@), None, None, from as int) {
            Ok(x) => r matches Ok(y) && x.0 == content_opt(y.0) && x.1 == y.1,
            Err(e) => r matches Err(y) && y@ == e,
        },
{
    let mut pattern: Option<Bytes> = None;
    let mut count: Option<usize> = None;
    let mut i: usize = from;
    let ghost goal = walk_options(
        contents(args@),
        content_opt(pattern),
        count,
        i as int,
    );
    while i < args.len()
        invariant
            i <= args.len(),
            walk_options(
                contents(args@),
                content_opt(pattern),
                count,
                i as int,
            ) == goal,
        decreases args.len() - i,
    {
        let opt: String = upper(&args[i]);
        if same_text(&opt, "MATCH") {
            if args.len() - i <= 1 {
                return Err("syntax error".to_owned());
            }
            pattern = Some(args[i + 1].clone());
            i = i + 2;
        } else if same_text(&opt, "COUNT") {
            if args.len() - i <= 1 {
                return Err("syntax error".to_owned());
            }
            let c: usize = match read_usize(args[i + 1].as_ref()) {
                Some(v) => v,
                None => return Err("value is not an integer or out of range".to_owned()),
            };
            count = Some(c);
            i = i + 2;
        } else {
            return Err("syntax error".to_owned());
        }
    }
    Ok((pattern, count))
}

} // verus!
