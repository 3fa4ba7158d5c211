//! What the weights of combined sorted sets are.
use vstd::prelude::*;

use crate::build::named_command_spec;
use crate::build::naming::{lemma_reach_zsets, lemma_zsets_codes};
use crate::build::zsets::{
    combine_options, combine_weights, zinter_spec, zinterstore_spec, zunion_spec, zunionstore_spec,
};
use crate::command::CommandView;
use crate::numbers::i64_of;
use crate::operands::{Aggregate, Double};
use crate::readings::{redis_double_of, ParseEnv};
use crate::resp::unnamed;
use crate::text::upper_word;
use super::{called, lemma_called, makes, verdict};

verus! {

/// The numbers that words from `i` on stand for.
pub open spec fn numbers_from(a: Seq<Seq<u8>>, env: &ParseEnv, i: int, n: nat) -> Seq<Double> {
    Seq::new(n, |k: int| redis_double_of(env, a[i + k])->0)
}

/// Whether words from `i` on stand for numbers.
pub open spec fn all_numbers(a: Seq<Seq<u8>>, env: &ParseEnv, i: int, n: nat) -> bool {
    forall|k: int| i <= k < i + n ==> redis_double_of(env, #[trigger] a[k]) is Some
}

/// Weights are read one by one.
proof fn lemma_weights(
    a: Seq<Seq<u8>>,
    env: &ParseEnv,
    weights: Seq<Double>,
    i: int,
    n: nat,
)
    requires
        0 <= i,
        i + n <= a.len(),
        all_numbers(a, env, i, n),
    ensures
        combine_weights(a, env, weights, i, n as int) == Ok::<(Seq<Double>, int), Seq<char>>(
            (weights + numbers_from(a, env, i, n), i + n),
        ),
    decreases n,
{
    if n == 0 {
        assert(weights + numbers_from(a, env, i, 0) =~= weights);
    } else {
        let w = redis_double_of(env, a[i])->0;
        assert(redis_double_of(env, a[i]) is Some);
        lemma_weights(a, env, weights.push(w), i + 1, (n - 1) as nat);
        assert(weights.push(w) + numbers_from(a, env, i + 1, (n - 1) as nat) =~= weights
            + numbers_from(a, env, i, n));
    }
}

/// The weights of `ZUNIONSTORE`, one for each sorted set, in their order.
pub proof fn law_zunionstore_weights(a: Seq<Seq<u8>>, env: &ParseEnv, n: usize)
    requires
        called(a, "ZUNIONSTORE"@),
        a.len() == 2 * n + 4,
        n > 0,
        i64_of(a[2]) is Some,
        i64_of(a[2])->0 > 0,
        (i64_of(a[2])->0) as usize == n,
        upper_word(a[n + 3]) == "WEIGHTS"@,
        all_numbers(a, env, n + 4, n as nat),
    ensures
        makes(
            a,
            env,
            CommandView::Zunionstore {
                destination: a[1],
                keys: a.subrange(3, n + 3),
                weights: numbers_from(a, env, n + 4, n as nat),
                aggregate: Aggregate::Sum,
            },
        ),
{
    reveal(verdict);
    lemma_called(a);
    let u = unnamed(a);
    let at = n + 3;
    assert(named_command_spec(upper_word(a[0]), u, env) == zunionstore_spec(u, env)) by {
        lemma_reach_zsets(upper_word(a[0]), u, env);
        lemma_zsets_codes();
    }
    assert(all_numbers(u, env, at + 1, n as nat)) by {
        assert forall|k: int| at + 1 <= k < at + 1 + n implies redis_double_of(
            env,
            #[trigger] u[k],
        ) is Some by {
            assert(u[k] == a[k]);
        }
    }
    lemma_weights(u, env, Seq::empty(), at + 1, n as nat);
    assert(Seq::<Double>::empty() + numbers_from(u, env, at + 1, n as nat) =~= numbers_from(
        a,
        env,
        at + 1,
        n as nat,
    ));
    assert(u.subrange(3, at) =~= a.subrange(3, at));
    assert(u[at as int] == a[at as int]);
    reveal_with_fuel(combine_options, 2);
}

/// The weights of `ZINTERSTORE`, one for each sorted set, in their order.
pub proof fn law_zinterstore_weights(a: Seq<Seq<u8>>, env: &ParseEnv, n: usize)
    requires
        called(a, "ZINTERSTORE"@),
        a.len() == 2 * n + 4,
        n > 0,
        i64_of(a[2]) is Some,
        i64_of(a[2])->0 > 0,
        (i64_of(a[2])->0) as usize == n,
        upper_word(a[n + 3]) == "WEIGHTS"@,
        all_numbers(a, env, n + 4, n as nat),
    ensures
        makes(
            a,
            env,
            CommandView::Zinterstore {
                destination: a[1],
                keys: a.subrange(3, n + 3),
                weights: numbers_from(a, env, n + 4, n as nat),
                aggregate: Aggregate::Sum,
            },
        ),
{
    reveal(verdict);
    lemma_called(a);
    let u = unnamed(a);
    let at = n + 3;
    assert(named_command_spec(upper_word(a[0]), u, env) == zinterstore_spec(u, env)) by {
        lemma_reach_zsets(upper_word(a[0]), u, env);
        lemma_zsets_codes();
    }
    assert(all_numbers(u, env, at + 1, n as nat)) by {
        assert forall|k: int| at + 1 <= k < at + 1 + n implies redis_double_of(
            env,
            #[trigger] u[k],
        ) is Some by {
            assert(u[k] == a[k]);
        }
    }
    lemma_weights(u, env, Seq::empty(), at + 1, n as nat);
    assert(Seq::<Double>::empty() + numbers_from(u, env, at + 1, n as nat) =~= numbers_from(
        a,
        env,
        at + 1,
        n as nat,
    ));
    assert(u.subrange(3, at) =~= a.subrange(3, at));
    assert(u[at as int] == a[at as int]);
    reveal_with_fuel(combine_options, 2);
}

/// The weights of `ZUNION`, one for each sorted set, in their order.
pub proof fn law_zunion_weights(a: Seq<Seq<u8>>, env: &ParseEnv, n: usize)
    requires
        called(a, "ZUNION"@),
        a.len() == 2 * n + 3,
        n > 0,
        i64_of(a[1]) is Some,
        i64_of(a[1])->0 > 0,
        (i64_of(a[1])->0) as usize == n,
        upper_word(a[n + 2]) == "WEIGHTS"@,
        all_numbers(a, env, n + 3, n as nat),
    ensures
        makes(
            a,
            env,
            CommandView::Zunion {
                keys: a.subrange(2, n + 2),
                weights: numbers_from(a, env, n + 3, n as nat),
                aggregate: Aggregate::Sum,
                with_scores: false,
            },
        ),
{
    reveal(verdict);
    lemma_called(a);
    let u = unnamed(a);
    let at = n + 2;
    assert(named_command_spec(upper_word(a[0]), u, env) == zunion_spec(u, env)) by {
        lemma_reach_zsets(upper_word(a[0]), u, env);
        lemma_zsets_codes();
    }
    assert(all_numbers(u, env, at + 1, n as nat)) by {
        assert forall|k: int| at + 1 <= k < at + 1 + n implies redis_double_of(
            env,
            #[trigger] u[k],
        ) is Some by {
            assert(u[k] == a[k]);
        }
    }
    lemma_weights(u, env, Seq::empty(), at + 1, n as nat);
    assert(Seq::<Double>::empty() + numbers_from(u, env, at + 1, n as nat) =~= numbers_from(
        a,
        env,
        at + 1,
        n as nat,
    ));
    assert(u.subrange(2, at) =~= a.subrange(2, at));
    assert(u[at as int] == a[at as int]);
    reveal_with_fuel(combine_options, 2);
}

/// The weights of `ZINTER`, one for each sorted set, in their order.
pub proof fn law_zinter_weights(a: Seq<Seq<u8>>, env: &ParseEnv, n: usize)
    requires
        called(a, "ZINTER"@),
        a.len() == 2 * n + 3,
        n > 0,
        i64_of(a[1]) is Some,
        i64_of(a[1])->0 > 0,
        (i64_of(a[1])->0) as usize == n,
        upper_word(a[n + 2]) == "WEIGHTS"@,
        all_numbers(a, env, n + 3, n as nat),
    ensures
        makes(
            a,
            env,
            CommandView::Zinter {
                keys: a.subrange(2, n + 2),
                weights: numbers_from(a, env, n + 3, n as nat),
                aggregate: Aggregate::Sum,
                with_scores: false,
            },
        ),
{
    reveal(verdict);
    lemma_called(a);
    let u = unnamed(a);
    let at = n + 2;
    assert(named_command_spec(upper_word(a[0]), u, env) == zinter_spec(u, env)) by {
        lemma_reach_zsets(upper_word(a[0]), u, env);
        lemma_zsets_codes();
    }
    assert(all_numbers(u, env, at + 1, n as nat)) by {
        assert forall|k: int| at + 1 <= k < at + 1 + n implies redis_double_of(
            env,
            #[trigger] u[k],
        ) is Some by {
            assert(u[k] == a[k]);
        }
    }
    lemma_weights(u, env, Seq::empty(), at + 1, n as nat);
    assert(Seq::<Double>::empty() + numbers_from(u, env, at + 1, n as nat) =~= numbers_from(
        a,
        env,
        at + 1,
        n as nat,
    ));
    assert(u.subrange(2, at) =~= a.subrange(2, at));
    assert(u[at as int] == a[at as int]);
    reveal_with_fuel(combine_options, 2);
}

} // verus!
