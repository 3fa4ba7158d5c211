//! What a worker that follows a master does from end to end, however what the master sends is cut
//! into reads: the data set is restored whole, and every command of the stream behind it is carried
//! out, once and in order.
use vstd::prelude::*;
use vstd::utf8::*;

use crate::command::CommandView;
use crate::delivery::{lemma_bulks3, letters};
use crate::numbers::{decimal_digits, is_digit, law_digits_read_back, u64_of, usize_of};
use crate::readings::ParseEnv;
use crate::replication::{followed_to, linked_up, with_link, Role};
use crate::resp::{array_command, crlf_from, lemma_crlf_from, lemma_crlf_is, line_ends, parse_step};
use crate::text::{ascii_chars, law_words_are_runs, lossy_text, spells, white_words};
use crate::wire::{
    array_of_bulks, bulks, count_line, crlf, law_cut_frame_waits, law_frame_round_trip,
    lemma_count_line,
};
use crate::worker::{
    acknowledgement, awaits, frame1, frame3, granted, heeds, loads, measures, opens, reviewed, reviews,
    streams, turn, ActionView, EventView, QuestionView, StageView, Turn,
};

verus! {

/// Bytes that come in several reads, one behind the other.
pub open spec fn joined(reads: Seq<Seq<u8>>) -> Seq<u8>
    decreases reads.len(),
{
    if reads.len() == 0 {
        Seq::empty()
    } else {
        reads[0] + joined(reads.skip(1))
    }
}

/// No read is empty.
pub open spec fn all_bring(reads: Seq<Seq<u8>>) -> bool {
    forall|i: int| 0 <= i < reads.len() ==> (#[trigger] reads[i]).len() > 0
}

/// What comes of an action where nothing fails and the worker is not told to end, and the reads that
/// are still to come.
pub open spec fn outcome(action: ActionView, reads: Seq<Seq<u8>>) -> (EventView, Seq<Seq<u8>>) {
    match action {
        ActionView::AskCancelled => (EventView::Cancelled(false), reads),
        ActionView::Connect => (EventView::Connected(true), reads),
        ActionView::Write(_) => (EventView::Written(true), reads),
        ActionView::Read => (EventView::Received(reads[0]), reads.skip(1)),
        ActionView::Restore(_) => (EventView::Restored, reads),
        ActionView::Execute(_) => (EventView::Executed, reads),
        ActionView::Proceed => (EventView::Proceed, reads),
        ActionView::Sleep => (EventView::Woke, reads),
        ActionView::Finish => (EventView::Proceed, reads),
    }
}

/// One step.
#[verifier::opaque]
pub open spec fn onward(
    t: Turn,
    reads: Seq<Seq<u8>>,
    port: u16,
    env: &ParseEnv,
) -> (Turn, Seq<Seq<u8>>) {
    let (event, rest) = outcome(t.action, reads);
    (turn(t.stage, t.waiting, t.role, port, event, env), rest)
}

/// What of an action is seen outside: data that is restored, commands that are carried out and bytes
/// that are sent.
pub open spec fn deed(action: ActionView) -> Seq<ActionView> {
    match action {
        ActionView::Restore(_) | ActionView::Execute(_) | ActionView::Write(_) => seq![action],
        _ => Seq::empty(),
    }
}

/// Where `n` steps lead, the reads that are then still to come, and what was done on the way.
pub open spec fn course(
    t: Turn,
    reads: Seq<Seq<u8>>,
    port: u16,
    env: &ParseEnv,
    n: nat,
) -> (Turn, Seq<Seq<u8>>, Seq<ActionView>)
    decreases n,
{
    if n == 0 {
        (t, reads, Seq::empty())
    } else {
        let (next, rest) = onward(t, reads, port, env);
        let (last, left, done) = course(next, rest, port, env, (n - 1) as nat);
        (last, left, deed(t.action) + done)
    }
}

/// One course behind the other.
proof fn lemma_course_joins(
    t: Turn,
    reads: Seq<Seq<u8>>,
    port: u16,
    env: &ParseEnv,
    n: nat,
    m: nat,
)
    ensures
        ({
            let (mid, left, done) = course(t, reads, port, env, n);
            let (last, rest, more) = course(mid, left, port, env, m);
            course(t, reads, port, env, n + m) == (last, rest, done + more)
        }),
    decreases n,
{
    let (mid, left, done) = course(t, reads, port, env, n);
    let (last, rest, more) = course(mid, left, port, env, m);
    if n == 0 {
        assert(done + more =~= more);
    } else {
        let (next, after) = onward(t, reads, port, env);
        lemma_course_joins(next, after, port, env, (n - 1) as nat, m);
        let (mid1, left1, done1) = course(next, after, port, env, (n - 1) as nat);
        assert(n + m > 0);
        assert((n + m - 1) as nat == (n - 1) as nat + m);
        assert(deed(t.action) + (done1 + more) =~= (deed(t.action) + done1) + more);
    }
}

/// One read more.
proof fn lemma_joined(w: Seq<u8>, reads: Seq<Seq<u8>>)
    requires
        reads.len() > 0,
        all_bring(reads),
    ensures
        w + joined(reads) == (w + reads[0]) + joined(reads.skip(1)),
        all_bring(reads.skip(1)),
        reads[0].len() > 0,
{
    let rest = reads.skip(1);
    assert(w + joined(reads) =~= (w + reads[0]) + joined(rest));
    assert forall|i: int| 0 <= i < rest.len() implies (#[trigger] rest[i]).len() > 0 by {
        assert(rest[i] == reads[i + 1]);
    }
}

/// A course at whose end a data set is restored, with nothing done before, and with all that follows
/// the data set still waiting or still to come.
pub open spec fn restores(
    t: Turn,
    reads: Seq<Seq<u8>>,
    port: u16,
    env: &ParseEnv,
    n: nat,
    goal: Turn,
    rest: Seq<u8>,
) -> bool {
    let (last, left, done) = course(t, reads, port, env, n);
    &&& last == Turn { waiting: last.waiting, ..goal }
    &&& last.waiting + joined(left) == rest
    &&& all_bring(left)
    &&& done == Seq::<ActionView>::empty()
}

/// To wait for the data set.
proof fn lemma_loading(
    replid: Seq<char>,
    offset: u64,
    data: Seq<u8>,
    rest: Seq<u8>,
    w: Seq<u8>,
    role: Role,
    reads: Seq<Seq<u8>>,
    port: u16,
    env: &ParseEnv,
) -> (n: nat)
    requires
        w + joined(reads) == data + rest,
        all_bring(reads),
        data.len() <= usize::MAX,
    ensures
        restores(
            loads(replid, offset, data.len() as usize, w, role),
            reads,
            port,
            env,
            n,
            (Turn {
                stage: StageView::Restoring { replid, offset },
                waiting: Seq::empty(),
                role,
                action: ActionView::Restore(data),
            }),
            rest,
        ),
    decreases reads.len(),
{
    let length = data.len() as usize;
    let t = loads(replid, offset, length, w, role);
    let all = data + rest;
    if w.len() >= length {
        assert(w.take(length as int) =~= data) by {
            assert forall|i: int| 0 <= i < length implies w[i] == data[i] by {
                assert((w + joined(reads))[i] == all[i]);
            }
        }
        assert(w.skip(length as int) + joined(reads) =~= (w + joined(reads)).skip(length as int));
        assert(all.skip(length as int) =~= rest);
        0
    } else {
        assert(reads.len() > 0) by {
            if reads.len() == 0 {
                assert((w + joined(reads)).len() == w.len());
            }
        }
        lemma_joined(w, reads);
        let next = loads(replid, offset, length, w + reads[0], role);
        assert(onward(t, reads, port, env) == (next, reads.skip(1))) by {
            reveal(onward);
        }
        let n = lemma_loading(
            replid,
            offset,
            data,
            rest,
            w + reads[0],
            role,
            reads.skip(1),
            port,
            env,
        );
        assert(deed(t.action) + Seq::<ActionView>::empty() =~= Seq::<ActionView>::empty());
        n + 1
    }
}

/// The digits of a number that fits are read as that number.
proof fn lemma_usize_digits(n: nat)
    requires
        n <= usize::MAX,
    ensures
        usize_of(decimal_digits(n)) == Some(n as usize),
{
    law_digits_read_back(n);
    let d = decimal_digits(n);
    assert(crate::numbers::is_digit(d[0]));
    assert(d[0] != 43 && d[0] != 45);
}

/// To wait for the length of the data set, and for the data set.
proof fn lemma_measuring(
    replid: Seq<char>,
    offset: u64,
    data: Seq<u8>,
    rest: Seq<u8>,
    w: Seq<u8>,
    role: Role,
    reads: Seq<Seq<u8>>,
    port: u16,
    env: &ParseEnv,
) -> (n: nat)
    requires
        w + joined(reads) == count_line(36, data.len()) + data + rest,
        all_bring(reads),
        data.len() <= usize::MAX,
    ensures
        restores(
            measures(replid, offset, w, role),
            reads,
            port,
            env,
            n,
            (Turn {
                stage: StageView::Restoring { replid, offset },
                waiting: Seq::empty(),
                role,
                action: ActionView::Restore(data),
            }),
            rest,
        ),
    decreases reads.len(),
{
    let line = count_line(36, data.len());
    let whole = line + data + rest;
    let t = measures(replid, offset, w, role);
    let d = decimal_digits(data.len());
    let c = (1 + d.len()) as int;
    assert(w =~= whole.take(w.len() as int)) by {
        assert forall|i: int| 0 <= i < w.len() implies w[i] == whole[i] by {
            assert((w + joined(reads))[i] == whole[i]);
        }
    }
    assert(whole.subrange(0, line.len() as int) =~= line);
    lemma_count_line(w, 0, 36, data.len(), whole);
    if w.len() >= c + 2 {
        assert(line.len() == c + 2);
        assert(w.subrange(1, c) =~= d) by {
            assert forall|i: int| 0 <= i < d.len() implies w.subrange(1, c)[i] == d[i] by {
                assert(w[1 + i] == whole[1 + i]);
                assert(line[1 + i] == d[i]);
            }
        }
        lemma_usize_digits(data.len());
        assert(w.skip(c + 2) + joined(reads) =~= data + rest) by {
            assert forall|i: int| 0 <= i < (data + rest).len() implies (w.skip(c + 2) + joined(
                reads,
            ))[i] == (data + rest)[i] by {
                assert((w + joined(reads))[c + 2 + i] == whole[c + 2 + i]);
            }
        }
        lemma_loading(replid, offset, data, rest, w.skip(c + 2), role, reads, port, env)
    } else {
        assert(reads.len() > 0) by {
            if reads.len() == 0 {
                assert((w + joined(reads)).len() == w.len());
            }
        }
        lemma_joined(w, reads);
        let next = measures(replid, offset, w + reads[0], role);
        assert(onward(t, reads, port, env) == (next, reads.skip(1))) by {
            reveal(onward);
        }
        let n = lemma_measuring(
            replid,
            offset,
            data,
            rest,
            w + reads[0],
            role,
            reads.skip(1),
            port,
            env,
        );
        assert(deed(t.action) + Seq::<ActionView>::empty() =~= Seq::<ActionView>::empty());
        n + 1
    }
}

/// No byte is lost around the data set: behind the line that tells its length, the bytes that are
/// restored and those that then still wait or are still to come are exactly those that the master
/// sent, however they were cut into reads; and the stream is known by the identity and the offset
/// that the master gave.
pub proof fn law_data_set_is_whole(
    replid: Seq<char>,
    offset: u64,
    data: Seq<u8>,
    rest: Seq<u8>,
    w: Seq<u8>,
    role: Role,
    reads: Seq<Seq<u8>>,
    port: u16,
    env: &ParseEnv,
) -> (n: nat)
    requires
        w + joined(reads) == count_line(36, data.len()) + data + rest,
        all_bring(reads),
        data.len() <= usize::MAX,
    ensures
        restores(
            measures(replid, offset, w, role),
            reads,
            port,
            env,
            n,
            (Turn {
                stage: StageView::Restoring { replid, offset },
                waiting: Seq::empty(),
                role,
                action: ActionView::Restore(data),
            }),
            rest,
        ),
{
    lemma_measuring(replid, offset, data, rest, w, role, reads, port, env)
}

/// Whether arguments make a command.
#[verifier::opaque]
pub open spec fn builds(a: Seq<Seq<u8>>, env: &ParseEnv, c: CommandView) -> bool {
    &&& a.len() <= usize::MAX
    &&& forall|i: int| 0 <= i < a.len() ==> (#[trigger] a[i]).len() <= env.max_bulk_len
    &&& array_command(a, env) == Ok::<Option<CommandView>, Seq<char>>(Some(c))
}

/// The frames of commands, one behind the other.
pub open spec fn stream_of(frames: Seq<Seq<Seq<u8>>>) -> Seq<u8>
    decreases frames.len(),
{
    if frames.len() == 0 {
        Seq::empty()
    } else {
        array_of_bulks(frames[0]) + stream_of(frames.skip(1))
    }
}

/// What is done for a command of the stream that ends at an offset: greetings are passed over, a
/// request for confirmation is answered with the offset, and any other command is carried out.
pub open spec fn deeds_for(c: CommandView, next: u64) -> Seq<ActionView> {
    match c {
        CommandView::Ping(_) => Seq::empty(),
        CommandView::Replconf(args) => if args.len() >= 2 && spells(args[0], "GETACK"@) {
            seq![
                ActionView::Write(
                    array_of_bulks(
                        seq![
                            encode_utf8("REPLCONF"@),
                            encode_utf8("ACK"@),
                            decimal_digits(next as nat),
                        ],
                    ),
                ),
            ]
        } else {
            Seq::empty()
        },
        _ => seq![ActionView::Execute(c)],
    }
}

/// What is done for the commands of a stream that begins behind an offset.
pub open spec fn deeds_of(
    frames: Seq<Seq<Seq<u8>>>,
    commands: Seq<CommandView>,
    offset: nat,
) -> Seq<ActionView>
    decreases frames.len(),
{
    if frames.len() == 0 {
        Seq::empty()
    } else {
        let next = offset + array_of_bulks(frames[0]).len();
        deeds_for(commands[0], next as u64) + deeds_of(frames.skip(1), commands.skip(1), next)
    }
}

/// Each frame makes its command.
pub open spec fn all_build(
    frames: Seq<Seq<Seq<u8>>>,
    commands: Seq<CommandView>,
    env: &ParseEnv,
) -> bool {
    &&& frames.len() == commands.len()
    &&& forall|i: int| 0 <= i < frames.len() ==> builds(#[trigger] frames[i], env, commands[i])
}

/// A whole frame is taken as its command.
proof fn lemma_whole_frame(
    a: Seq<Seq<u8>>,
    c: CommandView,
    rest: Seq<u8>,
    offset: u64,
    role: Role,
    env: &ParseEnv,
)
    requires
        builds(a, env, c),
        offset + array_of_bulks(a).len() <= u64::MAX,
    ensures
        reviews(offset, array_of_bulks(a) + rest, role, env) == heeds(
            c,
            (offset + array_of_bulks(a).len()) as u64,
            rest,
            role,
        ),
{
    let b = array_of_bulks(a) + rest;
    let n = array_of_bulks(a).len();
    assert(a.len() <= usize::MAX && forall|i: int|
        0 <= i < a.len() ==> (#[trigger] a[i]).len() <= env.max_bulk_len) by {
        reveal(builds);
    }
    assert(parse_step(b, env) == (
        Ok::<Option<CommandView>, Seq<char>>(Some(c)),
        n as int,
    )) by {
        lemma_frame_step(a, c, rest, env);
    }
    assert(b.len() > 0) by {
        assert(b[0] == array_of_bulks(a)[0]);
        assert(array_of_bulks(a).len() >= count_line(42, a.len()).len());
    }
    assert(b.skip(n as int) =~= rest);
    let reading = (Ok::<Option<CommandView>, Seq<char>>(Some(c)), n as int);
    assert(reviewed(reading, offset, b, role) == heeds(
        c,
        (offset + n) as u64,
        rest,
        role,
    ));
}

/// A whole frame is read as its command.
#[verifier::spinoff_prover]
proof fn lemma_frame_step(a: Seq<Seq<u8>>, c: CommandView, rest: Seq<u8>, env: &ParseEnv)
    requires
        builds(a, env, c),
    ensures
        parse_step(array_of_bulks(a) + rest, env) == (
            Ok::<Option<CommandView>, Seq<char>>(Some(c)),
            array_of_bulks(a).len() as int,
        ),
{
    reveal(builds);
    law_frame_round_trip(a, rest, env);
}

/// A part of a frame is left where it is.
proof fn lemma_part_of_frame(
    a: Seq<Seq<u8>>,
    c: CommandView,
    w: Seq<u8>,
    offset: u64,
    role: Role,
    env: &ParseEnv,
)
    requires
        builds(a, env, c),
        w.len() < array_of_bulks(a).len(),
        w == array_of_bulks(a).take(w.len() as int),
    ensures
        reviews(offset, w, role, env) == (Turn {
            stage: StageView::Listening { offset },
            waiting: w,
            role,
            action: ActionView::Read,
        }),
{
    if w.len() > 0 {
        assert(parse_step(w, env) == (Ok::<Option<CommandView>, Seq<char>>(None), 0int)) by {
            reveal(builds);
            law_cut_frame_waits(a, w.len() as int, env);
        }
        assert(w.skip(0) =~= w);
    }
}

/// The confirmation of an offset is a frame of three words.
proof fn lemma_acknowledgement(next: u64)
    ensures
        acknowledgement(next) == array_of_bulks(
            seq![encode_utf8("REPLCONF"@), encode_utf8("ACK"@), decimal_digits(next as nat)],
        ),
{
    lemma_bulks3(encode_utf8("REPLCONF"@), encode_utf8("ACK"@), decimal_digits(next as nat));
    assert(acknowledgement(next) =~= array_of_bulks(
        seq![encode_utf8("REPLCONF"@), encode_utf8("ACK"@), decimal_digits(next as nat)],
    ));
}

/// What is heeded is done, and leads on to what follows.
proof fn lemma_heeded(
    c: CommandView,
    next: u64,
    rest: Seq<u8>,
    role: Role,
    reads: Seq<Seq<u8>>,
    port: u16,
    env: &ParseEnv,
) -> (n: nat)
    ensures
        course(heeds(c, next, rest, role), reads, port, env, n) == (
            reviews(next, rest, followed_to(role, next), env),
            reads,
            deeds_for(c, next),
        ),
{
    let t = heeds(c, next, rest, role);
    let after = Turn {
        stage: StageView::Reviewing { offset: next },
        waiting: rest,
        role: followed_to(role, next),
        action: ActionView::Proceed,
    };
    let goal = reviews(next, rest, followed_to(role, next), env);
    let none = Seq::<ActionView>::empty();
    assert(onward(after, reads, port, env) == (goal, reads)) by {
        reveal(onward);
    }
    assert(course(goal, reads, port, env, 0) == (goal, reads, none));
    assert(none + none =~= none);
    assert(course(after, reads, port, env, 1) == (goal, reads, none));
    lemma_acknowledgement(next);
    if t.action is Proceed {
        assert(t == after);
        1
    } else {
        assert(onward(t, reads, port, env) == (after, reads)) by {
            reveal(onward);
        }
        assert(deed(t.action) =~= deeds_for(c, next));
        assert(deed(t.action) + none =~= deed(t.action));
        assert(course(t, reads, port, env, 2) == (goal, reads, deed(t.action)));
        2
    }
}

/// Frames, but for the first.
proof fn lemma_fewer(
    frames: Seq<Seq<Seq<u8>>>,
    commands: Seq<CommandView>,
    env: &ParseEnv,
)
    requires
        frames.len() > 0,
        all_build(frames, commands, env),
    ensures
        all_build(frames.skip(1), commands.skip(1), env),
        builds(frames[0], env, commands[0]),
{
    let f = frames.skip(1);
    let c = commands.skip(1);
    assert forall|i: int| 0 <= i < f.len() implies builds(#[trigger] f[i], env, c[i]) by {
        assert(f[i] == frames[i + 1]);
        assert(c[i] == commands[i + 1]);
    }
}

/// Where a stream has been carried out.
pub open spec fn carried_out(
    t: Turn,
    reads: Seq<Seq<u8>>,
    port: u16,
    env: &ParseEnv,
    n: nat,
    end: u64,
    role: Role,
    deeds: Seq<ActionView>,
) -> bool {
    let (last, left, done) = course(t, reads, port, env, n);
    &&& last.stage == StageView::Listening { offset: end }
    &&& last.action == ActionView::Read
    &&& last.waiting == Seq::<u8>::empty()
    &&& last.role == role
    &&& left.len() == 0
    &&& done == deeds
}

/// Every command of a stream is carried out, once and in order, and the offset moves by exactly the
/// bytes of the stream, however they are cut into reads: of greetings nothing comes, a request for
/// confirmation is answered with the offset behind it, and nothing else is done.
pub proof fn law_stream_is_carried_out(
    frames: Seq<Seq<Seq<u8>>>,
    commands: Seq<CommandView>,
    offset: u64,
    w: Seq<u8>,
    role: Role,
    reads: Seq<Seq<u8>>,
    port: u16,
    env: &ParseEnv,
) -> (n: nat)
    requires
        w + joined(reads) == stream_of(frames),
        all_build(frames, commands, env),
        all_bring(reads),
        offset + stream_of(frames).len() <= u64::MAX,
    ensures
        carried_out(
            reviews(offset, w, role, env),
            reads,
            port,
            env,
            n,
            (offset + stream_of(frames).len()) as u64,
            if frames.len() == 0 {
                role
            } else {
                followed_to(role, (offset + stream_of(frames).len()) as u64)
            },
            deeds_of(frames, commands, offset as nat),
        ),
    decreases frames.len(), reads.len(),
{
    let t = reviews(offset, w, role, env);
    let whole = stream_of(frames);
    if frames.len() == 0 {
        assert((w + joined(reads)).len() == 0);
        assert(w =~= Seq::<u8>::empty());
        if reads.len() > 0 {
            assert(reads[0].len() > 0);
            assert(joined(reads).len() >= reads[0].len());
        }
        0
    } else {
        lemma_fewer(frames, commands, env);
        let f = array_of_bulks(frames[0]);
        let more = stream_of(frames.skip(1));
        assert(whole == f + more);
        if w.len() >= f.len() {
            let w2 = w.skip(f.len() as int);
            assert(w =~= f + w2) by {
                assert forall|i: int| 0 <= i < f.len() implies w[i] == f[i] by {
                    assert((w + joined(reads))[i] == whole[i]);
                }
            }
            assert(w2 + joined(reads) =~= (w + joined(reads)).skip(f.len() as int));
            assert(whole.skip(f.len() as int) =~= more);
            let next = (offset + f.len()) as u64;
            lemma_whole_frame(frames[0], commands[0], w2, offset, role, env);
            let k = lemma_heeded(commands[0], next, w2, role, reads, port, env);
            let role2 = followed_to(role, next);
            let m = law_stream_is_carried_out(
                frames.skip(1),
                commands.skip(1),
                next,
                w2,
                role2,
                reads,
                port,
                env,
            );
            lemma_course_joins(t, reads, port, env, k, m);
            k + m
        } else {
            assert(w =~= f.take(w.len() as int)) by {
                assert forall|i: int| 0 <= i < w.len() implies w[i] == f[i] by {
                    assert((w + joined(reads))[i] == whole[i]);
                }
            }
            lemma_part_of_frame(frames[0], commands[0], w, offset, role, env);
            assert(reads.len() > 0) by {
                if reads.len() == 0 {
                    assert((w + joined(reads)).len() == w.len());
                }
            }
            lemma_joined(w, reads);
            let rest = reads.skip(1);
            let mid = Turn {
                stage: StageView::Streaming { offset },
                waiting: w + reads[0],
                role,
                action: ActionView::AskCancelled,
            };
            let next = reviews(offset, w + reads[0], role, env);
            assert(onward(t, reads, port, env) == (mid, rest)) by {
                reveal(onward);
            }
            assert(onward(mid, rest, port, env) == (next, rest)) by {
                reveal(onward);
            }
            let m = law_stream_is_carried_out(
                frames,
                commands,
                offset,
                w + reads[0],
                role,
                rest,
                port,
                env,
            );
            let (last, left, done) = course(next, rest, port, env, m);
            let none = Seq::<ActionView>::empty();
            assert(none + done =~= done);
            assert(course(mid, rest, port, env, m + 1) == (last, left, none + done));
            assert(course(t, reads, port, env, m + 2) == (last, left, none + (none + done)));
            m + 2
        }
    }
}

/// A full transfer from end to end. The master has told the identity and the offset of its stream;
/// what it sends then is the length of the data set, the data set and the frames of commands, cut
/// into reads in any way. The data set is restored whole, then every command behind it is carried
/// out, once and in order; the link is up; and the offset is the master's, moved by exactly the
/// bytes of the commands.
pub proof fn law_full_transfer(
    replid: Seq<char>,
    offset: u64,
    data: Seq<u8>,
    frames: Seq<Seq<Seq<u8>>>,
    commands: Seq<CommandView>,
    w: Seq<u8>,
    role: Role,
    reads: Seq<Seq<u8>>,
    port: u16,
    env: &ParseEnv,
) -> (n: nat)
    requires
        w + joined(reads) == count_line(36, data.len()) + data + stream_of(frames),
        all_build(frames, commands, env),
        all_bring(reads),
        data.len() <= usize::MAX,
        offset + stream_of(frames).len() <= u64::MAX,
    ensures
        carried_out(
            measures(replid, offset, w, role),
            reads,
            port,
            env,
            n,
            (offset + stream_of(frames).len()) as u64,
            if frames.len() == 0 {
                linked_up(role, replid, offset)
            } else {
                followed_to(
                    linked_up(role, replid, offset),
                    (offset + stream_of(frames).len()) as u64,
                )
            },
            seq![ActionView::Restore(data)] + deeds_of(frames, commands, offset as nat),
        ),
{
    let t = measures(replid, offset, w, role);
    let k = lemma_measuring(
        replid,
        offset,
        data,
        stream_of(frames),
        w,
        role,
        reads,
        port,
        env,
    );
    let (mid, left, done) = course(t, reads, port, env, k);
    let m = lemma_stream_follows(
        replid,
        offset,
        data,
        frames,
        commands,
        mid.waiting,
        role,
        left,
        port,
        env,
    );
    lemma_course_joins(t, reads, port, env, k, m);
    let (last, rest, more) = course(mid, left, port, env, m);
    assert(Seq::<ActionView>::empty() + more =~= more);
    k + m
}

/// What follows a data set that is restored: the link is up, and the stream is carried out.
proof fn lemma_stream_follows(
    replid: Seq<char>,
    offset: u64,
    data: Seq<u8>,
    frames: Seq<Seq<Seq<u8>>>,
    commands: Seq<CommandView>,
    w: Seq<u8>,
    role: Role,
    reads: Seq<Seq<u8>>,
    port: u16,
    env: &ParseEnv,
) -> (n: nat)
    requires
        w + joined(reads) == stream_of(frames),
        all_build(frames, commands, env),
        all_bring(reads),
        offset + stream_of(frames).len() <= u64::MAX,
    ensures
        carried_out(
            Turn {
                stage: StageView::Restoring { replid, offset },
                waiting: w,
                role,
                action: ActionView::Restore(data),
            },
            reads,
            port,
            env,
            n,
            (offset + stream_of(frames).len()) as u64,
            if frames.len() == 0 {
                linked_up(role, replid, offset)
            } else {
                followed_to(
                    linked_up(role, replid, offset),
                    (offset + stream_of(frames).len()) as u64,
                )
            },
            seq![ActionView::Restore(data)] + deeds_of(frames, commands, offset as nat),
        ),
{
    let t = Turn {
        stage: StageView::Restoring { replid, offset },
        waiting: w,
        role,
        action: ActionView::Restore(data),
    };
    let up = linked_up(role, replid, offset);
    let mid = streams(replid, offset, w, role);
    let next = reviews(offset, w, up, env);
    assert(onward(t, reads, port, env) == (mid, reads)) by {
        reveal(onward);
    }
    assert(onward(mid, reads, port, env) == (next, reads)) by {
        reveal(onward);
    }
    let m = law_stream_is_carried_out(frames, commands, offset, w, up, reads, port, env);
    let (last, left, done) = course(next, reads, port, env, m);
    let none = Seq::<ActionView>::empty();
    assert(none + done =~= done);
    assert(course(mid, reads, port, env, m + 1) == (last, left, none + done));
    assert(course(t, reads, port, env, m + 2) == (
        last,
        left,
        seq![ActionView::Restore(data)] + (none + done),
    ));
    m + 2
}

/// A line of its own: bytes without a carriage return.
pub open spec fn plain(line: Seq<u8>) -> bool {
    forall|i: int| 0 <= i < line.len() ==> #[trigger] line[i] != 13
}

/// Whether a line begins with ASCII text.
pub open spec fn begins(line: Seq<u8>, word: Seq<char>) -> bool {
    line.len() >= word.len() && line.take(word.len() as int) == letters(word)
}

/// The first line ends where it ends.
proof fn lemma_first_line(line: Seq<u8>, rest: Seq<u8>)
    requires
        plain(line),
    ensures
        crlf_from(line + crlf() + rest, 0) == Some(line.len() as int),
        (line + crlf() + rest).take(line.len() as int + 2) == line + crlf(),
        (line + crlf() + rest).skip(line.len() as int + 2) == rest,
{
    let b = line + crlf() + rest;
    let n = line.len() as int;
    assert(b[n] == 13 && b[n + 1] == 10);
    assert forall|q: int| 0 <= q < n implies !line_ends(b, q) by {
        assert(b[q] == line[q]);
    }
    lemma_crlf_is(b, 0, n);
    assert(b.take(n + 2) =~= line + crlf());
    assert(b.skip(n + 2) =~= rest);
}

/// A line opens with a word where it begins with it.
proof fn lemma_opens(line: Seq<u8>, word: Seq<char>)
    requires
        is_ascii_chars(word),
        forall|i: int| 0 <= i < word.len() ==> #[trigger] word[i] != 13u8 as char,
    ensures
        opens(line + crlf(), word) <==> begins(line, word),
{
    is_ascii_chars_encode_utf8(word);
    let e = encode_utf8(word);
    let all = line + crlf();
    assert(e =~= letters(word));
    if opens(all, word) && line.len() < word.len() {
        let n = line.len() as int;
        assert(all.take(e.len() as int)[n] == all[n]);
        assert(all[n] == 13);
        assert(e[n] == word[n] as u8);
        assert(word[n] as u8 == 13);
        assert(word[n] == 13u8 as char);
    }
    if line.len() >= word.len() {
        assert(all.take(e.len() as int) =~= line.take(word.len() as int));
    }
}

/// The words that lines open with.
proof fn lemma_openings(line: Seq<u8>)
    ensures
        opens(line + crlf(), "+PONG"@) <==> begins(line, "+PONG"@),
        opens(line + crlf(), "+OK"@) <==> begins(line, "+OK"@),
        opens(line + crlf(), "+CONTINUE"@) <==> begins(line, "+CONTINUE"@),
        opens(line + crlf(), "+FULLRESYNC"@) <==> begins(line, "+FULLRESYNC"@),
{
    reveal_strlit("+PONG");
    reveal_strlit("+OK");
    reveal_strlit("+CONTINUE");
    reveal_strlit("+FULLRESYNC");
    lemma_opens(line, "+PONG"@);
    lemma_opens(line, "+OK"@);
    lemma_opens(line, "+CONTINUE"@);
    lemma_opens(line, "+FULLRESYNC"@);
}

/// A frame of three words.
proof fn lemma_frame3(a: Seq<u8>, b: Seq<u8>, c: Seq<u8>)
    ensures
        frame3(a, b, c) == array_of_bulks(seq![a, b, c]),
{
    lemma_bulks3(a, b, c);
    assert(frame3(a, b, c) =~= array_of_bulks(seq![a, b, c]));
}

/// A question waits for its line: as long as that is not there, nothing is taken and more is read.
pub proof fn law_answers_are_awaited(q: QuestionView, w: Seq<u8>, role: Role, port: u16)
    requires
        forall|p: int| !(0 <= p && p + 1 < w.len() && #[trigger] w[p] == 13 && w[p + 1] == 10),
    ensures
        awaits(q, w, role, port) == (Turn {
            stage: StageView::Asking(q),
            waiting: w,
            role,
            action: ActionView::Read,
        }),
{
    lemma_crlf_from(w, 0);
    if let Some(p) = crlf_from(w, 0) {
        assert(line_ends(w, p));
        assert(w[p] == 13);
    }
}

/// The handshake. Once connected the worker says `PING`; to an answer that begins with `+PONG` it
/// names the port where its server listens; to one that begins with `+OK` it says what its server can
/// do; and to another such it asks for the stream from where the server left it, or from its
/// beginning. Any other answer ends the attempt and leaves the role as it is. What stands behind an
/// answer is kept.
pub proof fn law_handshake(
    line: Seq<u8>,
    rest: Seq<u8>,
    held: Seq<u8>,
    role: Role,
    port: u16,
    env: &ParseEnv,
)
    requires
        plain(line),
    ensures
        turn(
            StageView::Connecting,
            held,
            role,
            port,
            EventView::Connected(true),
            env,
        ) == (Turn {
            stage: StageView::Asking(QuestionView::Ping),
            waiting: Seq::empty(),
            role,
            action: ActionView::Write(array_of_bulks(seq![encode_utf8("PING"@)])),
        }),
        awaits(QuestionView::Ping, line + crlf() + rest, role, port) == if begins(line, "+PONG"@) {
            Turn {
                stage: StageView::Asking(QuestionView::ListeningPort),
                waiting: rest,
                role,
                action: ActionView::Write(
                    array_of_bulks(
                        seq![
                            encode_utf8("REPLCONF"@),
                            encode_utf8("listening-port"@),
                            decimal_digits(port as nat),
                        ],
                    ),
                ),
            }
        } else {
            Turn { stage: StageView::Failed, waiting: rest, role, action: ActionView::AskCancelled }
        },
        awaits(QuestionView::ListeningPort, line + crlf() + rest, role, port) == if begins(
            line,
            "+OK"@,
        ) {
            Turn {
                stage: StageView::Asking(QuestionView::Capabilities),
                waiting: rest,
                role,
                action: ActionView::Write(
                    array_of_bulks(
                        seq![
                            encode_utf8("REPLCONF"@),
                            encode_utf8("capa"@),
                            encode_utf8("psync2"@),
                        ],
                    ),
                ),
            }
        } else {
            Turn { stage: StageView::Failed, waiting: rest, role, action: ActionView::AskCancelled }
        },
{
    lemma_first_line(line, rest);
    lemma_openings(line);
    lemma_frame3(
        encode_utf8("REPLCONF"@),
        encode_utf8("listening-port"@),
        decimal_digits(port as nat),
    );
    lemma_frame3(encode_utf8("REPLCONF"@), encode_utf8("capa"@), encode_utf8("psync2"@));
    let ping = encode_utf8("PING"@);
    assert(seq![ping].skip(1) =~= Seq::<Seq<u8>>::empty());
    reveal_with_fuel(bulks, 2);
    assert(frame1(ping) =~= array_of_bulks(seq![ping]));
}

/// The request for the stream: a server that followed one asks for it by its identity and offset,
/// and one that did not asks for all.
pub proof fn law_sync_request(
    line: Seq<u8>,
    rest: Seq<u8>,
    host: Seq<char>,
    master_port: u16,
    link: Seq<char>,
    offset: u64,
    replid: Seq<char>,
    syncing: bool,
    port: u16,
)
    requires
        plain(line),
    ensures
        ({
            let role = Role::Slave {
                master_host: host,
                master_port,
                link_status: link,
                master_repl_offset: offset,
                master_replid: replid,
                sync_in_progress: syncing,
            };
            awaits(QuestionView::Capabilities, line + crlf() + rest, role, port) == if begins(
                line,
                "+OK"@,
            ) {
                Turn {
                    stage: StageView::Asking(QuestionView::Sync { replid, offset }),
                    waiting: rest,
                    role,
                    action: ActionView::Write(
                        array_of_bulks(
                            if replid.len() > 0 {
                                seq![
                                    encode_utf8("PSYNC"@),
                                    encode_utf8(replid),
                                    decimal_digits(offset as nat),
                                ]
                            } else {
                                seq![
                                    encode_utf8("PSYNC"@),
                                    encode_utf8("?"@),
                                    encode_utf8("-1"@),
                                ]
                            },
                        ),
                    ),
                }
            } else {
                Turn {
                    stage: StageView::Failed,
                    waiting: rest,
                    role,
                    action: ActionView::AskCancelled,
                }
            }
        }),
{
    lemma_first_line(line, rest);
    lemma_openings(line);
    lemma_frame3(encode_utf8("PSYNC"@), encode_utf8(replid), decimal_digits(offset as nat));
    lemma_frame3(encode_utf8("PSYNC"@), encode_utf8("?"@), encode_utf8("-1"@));
}

/// An identity: printable ASCII bytes without a space.
pub open spec fn is_identity(id: Seq<u8>) -> bool {
    id.len() > 0 && forall|i: int| 0 <= i < id.len() ==> 33 <= #[trigger] id[i] <= 126
}

/// The words of a line that is a word and others behind it.
proof fn lemma_line_words(first: Seq<u8>, id: Seq<u8>, number: Seq<u8>)
    requires
        is_identity(first),
        is_identity(id),
        is_identity(number),
    ensures
        white_words(lossy_text(first + crlf())) == seq![ascii_chars(first)],
        white_words(lossy_text(first + seq![32u8] + id + crlf())) == seq![
            ascii_chars(first),
            ascii_chars(id),
        ],
        white_words(lossy_text(first + seq![32u8] + id + seq![32u8] + number + crlf())) == seq![
            ascii_chars(first),
            ascii_chars(id),
            ascii_chars(number),
        ],
{
    let (a, b, c) = (ascii_chars(first), ascii_chars(id), ascii_chars(number));
    let none = Seq::<char>::empty();
    let (sp, cr, lf) = (32u8 as char, 13u8 as char, 10u8 as char);
    let l1 = first + crlf();
    let l2 = first + seq![32u8] + id + crlf();
    let l3 = first + seq![32u8] + id + seq![32u8] + number + crlf();
    lemma_ends(none, a);
    assert(none + a =~= a);
    lemma_ends(a.push(sp), b);
    lemma_ends(a.push(sp) + b.push(sp), c);
    let ab = a.push(sp) + b;
    let abc = a.push(sp) + b.push(sp) + c;
    law_words_are_runs(a, none, sp);
    law_words_are_runs(ab, none, sp);
    assert(ab.push(sp) =~= a.push(sp) + b.push(sp));
    assert(white_words(a) == white_words(none).push(a));
    assert(white_words(a) =~= seq![a]);
    assert(white_words(ab) =~= seq![a, b]);
    assert(white_words(abc) =~= seq![a, b, c]);
    law_words_are_runs(a, none, cr);
    law_words_are_runs(a.push(cr), none, lf);
    law_words_are_runs(ab, none, cr);
    law_words_are_runs(ab.push(cr), none, lf);
    law_words_are_runs(abc, none, cr);
    law_words_are_runs(abc.push(cr), none, lf);
    assert(lossy_text(l1) =~= a.push(cr).push(lf));
    assert(lossy_text(l2) =~= ab.push(cr).push(lf));
    assert(lossy_text(l3) =~= abc.push(cr).push(lf));
}

/// A word behind white space.
proof fn lemma_ends(s: Seq<char>, w: Seq<char>)
    requires
        w.len() > 0,
        forall|i: int| 0 <= i < w.len() ==> 33 <= #[trigger] w[i] as u32 <= 126,
        s.len() == 0 || s.last() == 32u8 as char,
    ensures
        white_words(Seq::empty()) == Seq::<Seq<char>>::empty(),
        white_words(s + w) == white_words(s).push(w),
{
    law_words_are_runs(s, w, ' ');
}

/// The digits of a number are an identity, and are read as it.
proof fn lemma_offset_digits(n: u64)
    ensures
        is_identity(decimal_digits(n as nat)),
        u64_of(decimal_digits(n as nat)) == Some(n),
        encode_utf8(ascii_chars(decimal_digits(n as nat))) == decimal_digits(n as nat),
{
    law_digits_read_back(n as nat);
    let d = decimal_digits(n as nat);
    assert(d.len() > 0);
    assert forall|i: int| 0 <= i < d.len() implies 33 <= #[trigger] d[i] <= 126 by {
        assert(is_digit(d[i]));
    }
    assert(is_digit(d[0]));
    assert(is_ascii_chars(ascii_chars(d)));
    is_ascii_chars_encode_utf8(ascii_chars(d));
    assert(encode_utf8(ascii_chars(d)) =~= d);
}

/// The answers to the request for a stream. To `+FULLRESYNC`, an identity and an offset the worker
/// waits for the data set of that stream; to `+CONTINUE` it goes on with the stream that it asked
/// for, where it asked for it, under the new identity if one is named; and all that stands behind
/// the answer is kept.
pub proof fn law_sync_answers(
    id: Seq<u8>,
    offset: u64,
    rest: Seq<u8>,
    asked: Seq<char>,
    from: u64,
    role: Role,
    port: u16,
)
    requires
        is_identity(id),
    ensures
        awaits(
            QuestionView::Sync { replid: asked, offset: from },
            letters("+FULLRESYNC"@) + seq![32u8] + id + seq![32u8] + decimal_digits(offset as nat)
                + crlf() + rest,
            role,
            port,
        ) == measures(ascii_chars(id), offset, rest, role),
        awaits(
            QuestionView::Sync { replid: asked, offset: from },
            letters("+CONTINUE"@) + seq![32u8] + id + crlf() + rest,
            role,
            port,
        ) == (Turn {
            stage: StageView::Streaming { offset: from },
            waiting: rest,
            role: linked_up(role, ascii_chars(id), from),
            action: ActionView::AskCancelled,
        }),
        awaits(
            QuestionView::Sync { replid: asked, offset: from },
            letters("+CONTINUE"@) + crlf() + rest,
            role,
            port,
        ) == (Turn {
            stage: StageView::Streaming { offset: from },
            waiting: rest,
            role: linked_up(role, asked, from),
            action: ActionView::AskCancelled,
        }),
{
    lemma_full_answer(id, offset, rest, asked, from, role, port);
    lemma_continue_answer(id, rest, asked, from, role, port);
    lemma_bare_answer(rest, asked, from, role, port);
}

/// The answer that grants a stream anew.
proof fn lemma_full_answer(
    id: Seq<u8>,
    offset: u64,
    rest: Seq<u8>,
    asked: Seq<char>,
    from: u64,
    role: Role,
    port: u16,
)
    requires
        is_identity(id),
    ensures
        awaits(
            QuestionView::Sync { replid: asked, offset: from },
            letters("+FULLRESYNC"@) + seq![32u8] + id + seq![32u8] + decimal_digits(offset as nat)
                + crlf() + rest,
            role,
            port,
        ) == measures(ascii_chars(id), offset, rest, role),
{
    let full = letters("+FULLRESYNC"@);
    let d = decimal_digits(offset as nat);
    let line = full + seq![32u8] + id + seq![32u8] + d;
    lemma_offset_digits(offset);
    assert(is_identity(full) && full.len() == 11 && full[1] == 70) by {
        reveal_strlit("+FULLRESYNC");
    }
    lemma_line_words(full, id, d);
    assert(plain(line));
    lemma_first_line(line, rest);
    lemma_openings(line);
    assert(line.take(11) =~= full);
    assert("+FULLRESYNC"@.len() == 11) by {
        reveal_strlit("+FULLRESYNC");
    }
    assert(!begins(line, "+CONTINUE"@)) by {
        reveal_strlit("+CONTINUE");
        assert(line.take(9)[1] == 70);
        assert(letters("+CONTINUE"@)[1] == 67);
    }
    let words = white_words(lossy_text(line + crlf()));
    assert(words[1] == ascii_chars(id));
    assert(words[2] == ascii_chars(d));
    assert(granted(false, words, asked, from) == (ascii_chars(id), offset));
}

/// The answer that lets a stream go on under a new identity.
proof fn lemma_continue_answer(
    id: Seq<u8>,
    rest: Seq<u8>,
    asked: Seq<char>,
    from: u64,
    role: Role,
    port: u16,
)
    requires
        is_identity(id),
    ensures
        awaits(
            QuestionView::Sync { replid: asked, offset: from },
            letters("+CONTINUE"@) + seq![32u8] + id + crlf() + rest,
            role,
            port,
        ) == streams(ascii_chars(id), from, rest, role),
{
    let on = letters("+CONTINUE"@);
    let line = on + seq![32u8] + id;
    assert(is_identity(on) && on.len() == 9 && "+CONTINUE"@.len() == 9) by {
        reveal_strlit("+CONTINUE");
    }
    lemma_line_words(on, id, id);
    assert(plain(line));
    lemma_first_line(line, rest);
    lemma_openings(line);
    assert(line.take(9) =~= on);
    let words = white_words(lossy_text(line + crlf()));
    assert(words[1] == ascii_chars(id));
    assert(granted(true, words, asked, from) == (ascii_chars(id), from));
}

/// The answer that lets a stream go on as it is.
proof fn lemma_bare_answer(
    rest: Seq<u8>,
    asked: Seq<char>,
    from: u64,
    role: Role,
    port: u16,
)
    ensures
        awaits(
            QuestionView::Sync { replid: asked, offset: from },
            letters("+CONTINUE"@) + crlf() + rest,
            role,
            port,
        ) == streams(asked, from, rest, role),
{
    let on = letters("+CONTINUE"@);
    assert(is_identity(on) && on.len() == 9 && "+CONTINUE"@.len() == 9) by {
        reveal_strlit("+CONTINUE");
    }
    lemma_line_words(on, on, on);
    assert(plain(on));
    lemma_first_line(on, rest);
    lemma_openings(on);
    assert(on.take(9) =~= on);
    let words = white_words(lossy_text(on + crlf()));
    assert(words.len() == 1);
    assert(granted(true, words, asked, from) == (asked, from));
}

/// Any other answer to the request for a stream means that the master is lost: the link is down.
pub proof fn law_other_answers_lose_the_master(
    line: Seq<u8>,
    rest: Seq<u8>,
    asked: Seq<char>,
    from: u64,
    role: Role,
    port: u16,
)
    requires
        plain(line),
        !begins(line, "+CONTINUE"@),
        !begins(line, "+FULLRESYNC"@),
    ensures
        awaits(
            QuestionView::Sync { replid: asked, offset: from },
            line + crlf() + rest,
            role,
            port,
        ) == (Turn {
            stage: StageView::Failed,
            waiting: rest,
            role: with_link(role, "down"@),
            action: ActionView::AskCancelled,
        }),
{
    lemma_first_line(line, rest);
    lemma_openings(line);
}

/// A full transfer from the answer to the request on: the master's answer, the length of the data
/// set, the data set and the frames of commands come in one piece or many. The data set is restored
/// whole, then every command behind it is carried out, once and in order, and the offset is the one
/// that the master told, moved by exactly the bytes of the commands.
pub proof fn law_full_resync(
    id: Seq<u8>,
    offset: u64,
    data: Seq<u8>,
    frames: Seq<Seq<Seq<u8>>>,
    commands: Seq<CommandView>,
    w: Seq<u8>,
    asked: Seq<char>,
    from: u64,
    role: Role,
    reads: Seq<Seq<u8>>,
    port: u16,
    env: &ParseEnv,
) -> (n: nat)
    requires
        w + joined(reads) == letters("+FULLRESYNC"@) + seq![32u8] + id + seq![32u8]
            + decimal_digits(offset as nat) + crlf() + (count_line(36, data.len()) + data
            + stream_of(frames)),
        is_identity(id),
        all_build(frames, commands, env),
        all_bring(reads),
        data.len() <= usize::MAX,
        offset + stream_of(frames).len() <= u64::MAX,
    ensures
        carried_out(
            awaits(QuestionView::Sync { replid: asked, offset: from }, w, role, port),
            reads,
            port,
            env,
            n,
            (offset + stream_of(frames).len()) as u64,
            if frames.len() == 0 {
                linked_up(role, ascii_chars(id), offset)
            } else {
                followed_to(
                    linked_up(role, ascii_chars(id), offset),
                    (offset + stream_of(frames).len()) as u64,
                )
            },
            seq![ActionView::Restore(data)] + deeds_of(frames, commands, offset as nat),
        ),
    decreases reads.len(),
{
    let q = QuestionView::Sync { replid: asked, offset: from };
    let line = letters("+FULLRESYNC"@) + seq![32u8] + id + seq![32u8] + decimal_digits(
        offset as nat,
    );
    let tail = count_line(36, data.len()) + data + stream_of(frames);
    let whole = line + crlf() + tail;
    let t = awaits(q, w, role, port);
    let k = line.len() as int + 2;
    assert(plain(line)) by {
        reveal_strlit("+FULLRESYNC");
        lemma_offset_digits(offset);
    }
    if w.len() >= k {
        let rest = w.skip(k);
        assert(w =~= line + crlf() + rest) by {
            assert forall|i: int| 0 <= i < k implies w[i] == (line + crlf())[i] by {
                assert((w + joined(reads))[i] == whole[i]);
            }
        }
        assert(rest + joined(reads) =~= (w + joined(reads)).skip(k));
        assert(whole.skip(k) =~= tail);
        law_sync_answers(id, offset, rest, asked, from, role, port);
        law_full_transfer(
            ascii_chars(id),
            offset,
            data,
            frames,
            commands,
            rest,
            role,
            reads,
            port,
            env,
        )
    } else {
        assert(reads.len() > 0) by {
            if reads.len() == 0 {
                assert((w + joined(reads)).len() == w.len());
            }
        }
        assert forall|p: int|
            !(0 <= p && p + 1 < w.len() && #[trigger] w[p] == 13 && w[p + 1] == 10) by {
            if 0 <= p && p + 1 < w.len() {
                assert((w + joined(reads))[p] == whole[p]);
                assert(whole[p] == line[p]);
            }
        }
        law_answers_are_awaited(q, w, role, port);
        lemma_joined(w, reads);
        let next = awaits(q, w + reads[0], role, port);
        assert(onward(t, reads, port, env) == (next, reads.skip(1))) by {
            reveal(onward);
        }
        let m = law_full_resync(
            id,
            offset,
            data,
            frames,
            commands,
            w + reads[0],
            asked,
            from,
            role,
            reads.skip(1),
            port,
            env,
        );
        let (last, left, done) = course(next, reads.skip(1), port, env, m);
        assert(Seq::<ActionView>::empty() + done =~= done);
        assert(course(t, reads, port, env, m + 1) == (
            last,
            left,
            Seq::<ActionView>::empty() + done,
        ));
        m + 1
    }
}

/// What cannot be sent or received means that the master is lost: the worker keeps what it has,
/// shows the link down, pauses and starts again, unless it is told to end.
pub proof fn law_lost_master(
    stage: StageView,
    held: Seq<u8>,
    role: Role,
    port: u16,
    env: &ParseEnv,
)
    ensures
        ({
            let down = Turn {
                stage: StageView::Failed,
                waiting: held,
                role: with_link(role, "down"@),
                action: ActionView::AskCancelled,
            };
            let none = EventView::Received(Seq::empty());
            &&& turn(
                StageView::Connecting,
                held,
                role,
                port,
                EventView::Connected(false),
                env,
            ) == down
            &&& stage is Asking ==> turn(
                stage,
                held,
                role,
                port,
                EventView::Written(false),
                env,
            ) == down
            &&& stage is Asking || stage is Measuring || stage is Loading || stage is Listening
                ==> turn(stage, held, role, port, none, env) == down
            &&& turn(StageView::Failed, held, role, port, EventView::Cancelled(false), env) == (
            Turn { stage: StageView::Sleeping, waiting: held, role, action: ActionView::Sleep })
            &&& turn(StageView::Sleeping, held, role, port, EventView::Woke, env) == (Turn {
                stage: StageView::Starting,
                waiting: held,
                role,
                action: ActionView::AskCancelled,
            })
            &&& turn(StageView::Starting, held, role, port, EventView::Cancelled(false), env) == (
            Turn { stage: StageView::Connecting, waiting: held, role, action: ActionView::Connect })
        }),
{
}

/// Until the length of the data set comes, lines that do not begin with a dollar sign are passed over,
/// one by one, and what stands behind them is kept; and a length that is no number is none.
pub proof fn law_lines_before_the_data_set(
    replid: Seq<char>,
    offset: u64,
    line: Seq<u8>,
    rest: Seq<u8>,
    role: Role,
)
    requires
        plain(line),
    ensures
        line.len() == 0 || line[0] != 36 ==> measures(replid, offset, line + crlf() + rest, role)
            == (Turn {
            stage: StageView::Measuring { replid, offset },
            waiting: rest,
            role,
            action: ActionView::Read,
        }),
        line.len() > 0 && line[0] == 36 && usize_of(line.skip(1)) is None ==> measures(
            replid,
            offset,
            line + crlf() + rest,
            role,
        ) == (Turn {
            stage: StageView::Restoring { replid, offset },
            waiting: rest,
            role,
            action: ActionView::Restore(Seq::empty()),
        }),
{
    let b = line + crlf() + rest;
    let n = line.len() as int;
    lemma_first_line(line, rest);
    if n == 0 {
        assert(b[0] == 13);
    } else {
        assert(b[0] == line[0]);
        assert(b.subrange(1, n) =~= line.skip(1));
        assert(rest.skip(0) =~= rest);
        assert(rest.take(0) =~= Seq::<u8>::empty());
    }
}

/// What cannot be read as a command of the stream is thrown away with all that waits behind it, and the
/// offset stays; what is not whole yet, or is nothing, leaves the offset where it is too.
pub proof fn law_what_is_no_command(
    complaint: Seq<char>,
    taken: int,
    offset: u64,
    waiting: Seq<u8>,
    role: Role,
)
    ensures
        reviewed(
            (Err::<Option<CommandView>, Seq<char>>(complaint), taken),
            offset,
            waiting,
            role,
        ) == (Turn {
            stage: StageView::Listening { offset },
            waiting: Seq::empty(),
            role,
            action: ActionView::Read,
        }),
        reviewed(
            (Ok::<Option<CommandView>, Seq<char>>(None), taken),
            offset,
            waiting,
            role,
        ) == (Turn {
            stage: StageView::Listening { offset },
            waiting: waiting.skip(taken),
            role,
            action: ActionView::Read,
        }),
{
}

} // verus!
