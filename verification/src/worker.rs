//! How a server follows its master: the handshake, the transfer of the data set and the stream that
//! comes after it, decided step by step. The steps themselves (to connect, to send, to wait) are
//! taken elsewhere.
use bytes::{Bytes, BytesMut};
use vstd::prelude::*;
use vstd::utf8::*;

use crate::command::{Command, CommandView};
use crate::lists::contents;
use crate::numbers::{decimal_digits, push_decimal, read_u64, read_usize, u64_of, usize_of};
use crate::octets::{advance, buffered, content};
use crate::readings::ParseEnv;
use crate::replication::{
    followed_to, linked_up, resume_point, with_link, ReplicationHub, Role,
};
use crate::resp::{crlf_from, find_crlf, lemma_crlf_from, parse_command, parse_step};
use crate::text::{
    decode_lossy, lossy_text, same_text, spells, spells_word, split_white, white_words,
};
use crate::wire::{bulk, count_line, write_number_line, write_resp_bulk, write_word};

verus! {

/// What the worker waits for a line to answer.
pub enum Question {
    Ping,
    ListeningPort,
    Capabilities,
    Sync { replid: String, offset: u64 },
}

/// Where a worker stands.
pub enum Stage {
    /// About to connect, if it is not told to end.
    Starting,
    Connecting,
    /// Has asked, or is asking, and waits for the line that answers.
    Asking(Question),
    /// Waits for the length of the data set.
    Measuring { replid: String, offset: u64 },
    /// Waits for the data set.
    Loading { replid: String, offset: u64, length: usize },
    /// The data set is being restored.
    Restoring { replid: String, offset: u64 },
    /// About to look at the stream, if it is not told to end.
    Streaming { offset: u64 },
    /// Looks at what is left of the stream.
    Reviewing { offset: u64 },
    /// A command of the stream, which ends at the offset, is being carried out.
    Applying { offset: u64 },
    /// Waits for more of the stream.
    Listening { offset: u64 },
    /// Lost the master; about to try again, if it is not told to end.
    Failed,
    Sleeping,
    Done,
}

/// What has happened.
pub enum Event {
    /// Whether the worker is told to end.
    Cancelled(bool),
    /// Whether the connection was made.
    Connected(bool),
    /// Whether the bytes were sent.
    Written(bool),
    /// Bytes came in; none where the other end is gone.
    Received(Vec<u8>),
    /// The data set was restored.
    Restored,
    /// The command was carried out.
    Executed,
    /// Nothing; the worker goes on.
    Proceed,
    /// The pause is over.
    Woke,
}

/// What is to be done next.
pub enum Action {
    /// Find out whether the worker is told to end.
    AskCancelled,
    Connect,
    Write(Vec<u8>),
    Read,
    /// Restore the data set from these bytes.
    Restore(Bytes),
    /// Carry out a command of the stream.
    Execute(Command),
    Proceed,
    /// Pause for 50 milliseconds.
    Sleep,
    /// Nothing more: the worker has ended.
    Finish,
}

/// A question, with its text as characters.
pub enum QuestionView {
    Ping,
    ListeningPort,
    Capabilities,
    Sync { replid: Seq<char>, offset: u64 },
}

/// A stage, with its text as characters.
pub enum StageView {
    Starting,
    Connecting,
    Asking(QuestionView),
    Measuring { replid: Seq<char>, offset: u64 },
    Loading { replid: Seq<char>, offset: u64, length: usize },
    Restoring { replid: Seq<char>, offset: u64 },
    Streaming { offset: u64 },
    Reviewing { offset: u64 },
    Applying { offset: u64 },
    Listening { offset: u64 },
    Failed,
    Sleeping,
    Done,
}

/// An event, with its bytes.
pub enum EventView {
    Cancelled(bool),
    Connected(bool),
    Written(bool),
    Received(Seq<u8>),
    Restored,
    Executed,
    Proceed,
    Woke,
}

/// An action, with its bytes.
pub enum ActionView {
    AskCancelled,
    Connect,
    Write(Seq<u8>),
    Read,
    Restore(Seq<u8>),
    Execute(CommandView),
    Proceed,
    Sleep,
    Finish,
}

impl View for Question {
    type V = QuestionView;

    open spec fn view(&self) -> QuestionView {
        match *self {
            Question::Ping => QuestionView::Ping,
            Question::ListeningPort => QuestionView::ListeningPort,
            Question::Capabilities => QuestionView::Capabilities,
            Question::Sync { replid, offset } => QuestionView::Sync { replid: replid@, offset },
        }
    }
}

impl View for Stage {
    type V = StageView;

    open spec fn view(&self) -> StageView {
        match *self {
            Stage::Starting => StageView::Starting,
            Stage::Connecting => StageView::Connecting,
            Stage::Asking(q) => StageView::Asking(q@),
            Stage::Measuring { replid, offset } => StageView::Measuring { replid: replid@, offset },
            Stage::Loading { replid, offset, length } => StageView::Loading {
                replid: replid@,
                offset,
                length,
            },
            Stage::Restoring { replid, offset } => StageView::Restoring { replid: replid@, offset },
            Stage::Streaming { offset } => StageView::Streaming { offset },
            Stage::Reviewing { offset } => StageView::Reviewing { offset },
            Stage::Applying { offset } => StageView::Applying { offset },
            Stage::Listening { offset } => StageView::Listening { offset },
            Stage::Failed => StageView::Failed,
            Stage::Sleeping => StageView::Sleeping,
            Stage::Done => StageView::Done,
        }
    }
}

impl View for Event {
    type V = EventView;

    open spec fn view(&self) -> EventView {
        match *self {
            Event::Cancelled(x) => EventView::Cancelled(x),
            Event::Connected(x) => EventView::Connected(x),
            Event::Written(x) => EventView::Written(x),
            Event::Received(x) => EventView::Received(x@),
            Event::Restored => EventView::Restored,
            Event::Executed => EventView::Executed,
            Event::Proceed => EventView::Proceed,
            Event::Woke => EventView::Woke,
        }
    }
}

impl View for Action {
    type V = ActionView;

    open spec fn view(&self) -> ActionView {
        match *self {
            Action::AskCancelled => ActionView::AskCancelled,
            Action::Connect => ActionView::Connect,
            Action::Write(x) => ActionView::Write(x@),
            Action::Read => ActionView::Read,
            Action::Restore(x) => ActionView::Restore(content(x)),
            Action::Execute(c) => ActionView::Execute(c@),
            Action::Proceed => ActionView::Proceed,
            Action::Sleep => ActionView::Sleep,
            Action::Finish => ActionView::Finish,
        }
    }
}

/// Where a worker, its bytes and its server's role stand after a step, and what is to be done.
pub struct Turn {
    pub stage: StageView,
    pub waiting: Seq<u8>,
    pub role: Role,
    pub action: ActionView,
}

/// A frame of one word.
pub open spec fn frame1(a: Seq<u8>) -> Seq<u8> {
    count_line(42, 1) + bulk(a)
}

/// A frame of three words.
pub open spec fn frame3(a: Seq<u8>, b: Seq<u8>, c: Seq<u8>) -> Seq<u8> {
    count_line(42, 3) + bulk(a) + bulk(b) + bulk(c)
}

/// The request for a stream: from where the server left it, or from its beginning.
pub open spec fn sync_request(replid: Seq<char>, offset: u64) -> Seq<u8> {
    if replid.len() > 0 {
        frame3(encode_utf8("PSYNC"@), encode_utf8(replid), decimal_digits(offset as nat))
    } else {
        frame3(encode_utf8("PSYNC"@), encode_utf8("?"@), encode_utf8("-1"@))
    }
}

/// The announcement of a port.
pub open spec fn port_notice(port: u16) -> Seq<u8> {
    frame3(
        encode_utf8("REPLCONF"@),
        encode_utf8("listening-port"@),
        decimal_digits(port as nat),
    )
}

/// The announcement of what the server can do.
pub open spec fn capability_notice() -> Seq<u8> {
    frame3(encode_utf8("REPLCONF"@), encode_utf8("capa"@), encode_utf8("psync2"@))
}

/// The confirmation of an offset.
pub open spec fn acknowledgement(offset: u64) -> Seq<u8> {
    frame3(encode_utf8("REPLCONF"@), encode_utf8("ACK"@), decimal_digits(offset as nat))
}

/// Whether a line opens with a word.
pub open spec fn opens(line: Seq<u8>, word: Seq<char>) -> bool {
    encode_utf8(word).len() <= line.len() && line.take(encode_utf8(word).len() as int)
        == encode_utf8(word)
}

/// The identity and the offset of the stream that the answer to a request for one grants: where it
/// goes on, its new identity if it has one, and the offset asked for; where it starts anew, what the
/// answer says.
pub open spec fn granted(
    goes_on: bool,
    words: Seq<Seq<char>>,
    replid: Seq<char>,
    offset: u64,
) -> (Seq<char>, u64) {
    if goes_on {
        (
            if words.len() >= 2 {
                words[1]
            } else {
                replid
            },
            offset,
        )
    } else {
        (
            if words.len() >= 2 {
                words[1]
            } else {
                Seq::empty()
            },
            if words.len() >= 3 {
                match u64_of(encode_utf8(words[2])) {
                    Some(n) => n,
                    None => 0u64,
                }
            } else {
                0u64
            },
        )
    }
}

/// The master is lost, and the link down.
pub open spec fn lost(waiting: Seq<u8>, role: Role) -> Turn {
    Turn {
        stage: StageView::Failed,
        waiting,
        role: with_link(role, "down"@),
        action: ActionView::AskCancelled,
    }
}

/// The worker ends, and the link is down.
pub open spec fn ended(waiting: Seq<u8>, role: Role) -> Turn {
    Turn {
        stage: StageView::Done,
        waiting,
        role: with_link(role, "down"@),
        action: ActionView::Finish,
    }
}

/// A question is asked.
pub open spec fn asks(q: QuestionView, request: Seq<u8>, waiting: Seq<u8>, role: Role) -> Turn {
    Turn { stage: StageView::Asking(q), waiting, role, action: ActionView::Write(request) }
}

/// The link is up, with a stream at an offset.
pub open spec fn streams(replid: Seq<char>, offset: u64, waiting: Seq<u8>, role: Role) -> Turn {
    Turn {
        stage: StageView::Streaming { offset },
        waiting,
        role: linked_up(role, replid, offset),
        action: ActionView::AskCancelled,
    }
}

/// The data set is restored as soon as all of it is there.
pub open spec fn loads(
    replid: Seq<char>,
    offset: u64,
    length: usize,
    waiting: Seq<u8>,
    role: Role,
) -> Turn {
    if waiting.len() < length {
        Turn {
            stage: StageView::Loading { replid, offset, length },
            waiting,
            role,
            action: ActionView::Read,
        }
    } else {
        Turn {
            stage: StageView::Restoring { replid, offset },
            waiting: waiting.skip(length as int),
            role,
            action: ActionView::Restore(waiting.take(length as int)),
        }
    }
}

/// The length of the data set stands in a line behind a dollar sign; one that is no number counts as
/// zero. A line without the sign is passed over.
pub open spec fn measures(replid: Seq<char>, offset: u64, waiting: Seq<u8>, role: Role) -> Turn {
    match crlf_from(waiting, 0) {
        None => Turn {
            stage: StageView::Measuring { replid, offset },
            waiting,
            role,
            action: ActionView::Read,
        },
        Some(c) => if waiting[0] == 36 {
            let length = match usize_of(waiting.subrange(1, c)) {
                Some(n) => n,
                None => 0usize,
            };
            loads(replid, offset, length, waiting.skip(c + 2), role)
        } else {
            Turn {
                stage: StageView::Measuring { replid, offset },
                waiting: waiting.skip(c + 2),
                role,
                action: ActionView::Read,
            }
        },
    }
}

/// A line has answered a question. An answer that is not the one hoped for ends the attempt.
pub open spec fn answered(
    q: QuestionView,
    line: Seq<u8>,
    rest: Seq<u8>,
    role: Role,
    port: u16,
) -> Turn {
    let refused = Turn {
        stage: StageView::Failed,
        waiting: rest,
        role,
        action: ActionView::AskCancelled,
    };
    match q {
        QuestionView::Ping => if opens(line, "+PONG"@) {
            asks(QuestionView::ListeningPort, port_notice(port), rest, role)
        } else {
            refused
        },
        QuestionView::ListeningPort => if opens(line, "+OK"@) {
            asks(QuestionView::Capabilities, capability_notice(), rest, role)
        } else {
            refused
        },
        QuestionView::Capabilities => if opens(line, "+OK"@) {
            let (replid, offset) = resume_point(role);
            asks(QuestionView::Sync { replid, offset }, sync_request(replid, offset), rest, role)
        } else {
            refused
        },
        QuestionView::Sync { replid, offset } => {
            let goes_on = opens(line, "+CONTINUE"@);
            let (id, from) = granted(goes_on, white_words(lossy_text(line)), replid, offset);
            if goes_on {
                streams(id, from, rest, role)
            } else if opens(line, "+FULLRESYNC"@) {
                measures(id, from, rest, role)
            } else {
                lost(rest, role)
            }
        },
    }
}

/// A question is answered as soon as a whole line is there.
pub open spec fn awaits(q: QuestionView, waiting: Seq<u8>, role: Role, port: u16) -> Turn {
    match crlf_from(waiting, 0) {
        None => Turn { stage: StageView::Asking(q), waiting, role, action: ActionView::Read },
        Some(c) => answered(q, waiting.take(c + 2), waiting.skip(c + 2), role, port),
    }
}

/// A command of the stream that ends at an offset. A request for confirmation is answered, a
/// greeting is passed over, and any other command is carried out.
pub open spec fn heeds(command: CommandView, next: u64, rest: Seq<u8>, role: Role) -> Turn {
    let passed = Turn {
        stage: StageView::Reviewing { offset: next },
        waiting: rest,
        role: followed_to(role, next),
        action: ActionView::Proceed,
    };
    match command {
        CommandView::Replconf(args) => if args.len() >= 2 && spells(args[0], "GETACK"@) {
            Turn {
                stage: StageView::Applying { offset: next },
                waiting: rest,
                role,
                action: ActionView::Write(acknowledgement(next)),
            }
        } else {
            passed
        },
        CommandView::Ping(_) => passed,
        _ => Turn {
            stage: StageView::Applying { offset: next },
            waiting: rest,
            role,
            action: ActionView::Execute(command),
        },
    }
}

/// What a reading of the stream leads to: the command, if a whole one is there; the offset moves by
/// what it took. What is no command is thrown away with all that stands behind it.
pub open spec fn reviewed(
    reading: (Result<Option<CommandView>, Seq<char>>, int),
    offset: u64,
    waiting: Seq<u8>,
    role: Role,
) -> Turn {
    let listening = Turn {
        stage: StageView::Listening { offset },
        waiting,
        role,
        action: ActionView::Read,
    };
    let rest = waiting.skip(reading.1);
    match reading.0 {
        Ok(Some(command)) => heeds(command, offset.wrapping_add(reading.1 as u64), rest, role),
        Ok(None) => Turn { waiting: rest, ..listening },
        Err(_) => Turn { waiting: Seq::empty(), ..listening },
    }
}

/// The next command of the stream, if a whole one is there.
pub open spec fn reviews(offset: u64, waiting: Seq<u8>, role: Role, env: &ParseEnv) -> Turn {
    if waiting.len() == 0 {
        Turn {
            stage: StageView::Listening { offset },
            waiting,
            role,
            action: ActionView::Read,
        }
    } else {
        reviewed(parse_step(waiting, env), offset, waiting, role)
    }
}

/// Whether an event can happen at a stage.
pub open spec fn expects(stage: StageView, event: EventView) -> bool {
    match stage {
        StageView::Starting | StageView::Streaming { .. } | StageView::Failed => event is Cancelled,
        StageView::Connecting => event is Connected,
        StageView::Asking(_) => event is Written || event is Received,
        StageView::Measuring { .. } | StageView::Loading { .. } | StageView::Listening {
            ..
        } => event is Received,
        StageView::Restoring { .. } => event is Restored,
        StageView::Reviewing { .. } => event is Proceed,
        StageView::Applying { .. } => event is Written || event is Executed,
        StageView::Sleeping => event is Woke,
        StageView::Done => false,
    }
}

/// What an event leads to.
pub open spec fn turn(
    stage: StageView,
    waiting: Seq<u8>,
    role: Role,
    port: u16,
    event: EventView,
    env: &ParseEnv,
) -> Turn {
    match (stage, event) {
        (StageView::Starting, EventView::Cancelled(end)) => if end {
            ended(waiting, role)
        } else {
            Turn { stage: StageView::Connecting, waiting, role, action: ActionView::Connect }
        },
        (StageView::Failed, EventView::Cancelled(end)) => if end {
            ended(waiting, role)
        } else {
            Turn { stage: StageView::Sleeping, waiting, role, action: ActionView::Sleep }
        },
        (StageView::Streaming { offset }, EventView::Cancelled(end)) => if end {
            ended(waiting, role)
        } else {
            reviews(offset, waiting, role, env)
        },
        (StageView::Connecting, EventView::Connected(made)) => if made {
            asks(QuestionView::Ping, frame1(encode_utf8("PING"@)), Seq::empty(), role)
        } else {
            lost(waiting, role)
        },
        (StageView::Asking(q), EventView::Written(sent)) => if sent {
            awaits(q, waiting, role, port)
        } else {
            lost(waiting, role)
        },
        (StageView::Asking(q), EventView::Received(data)) => if data.len() > 0 {
            awaits(q, waiting + data, role, port)
        } else {
            lost(waiting, role)
        },
        (StageView::Measuring { replid, offset }, EventView::Received(data)) => if data.len() > 0 {
            measures(replid, offset, waiting + data, role)
        } else {
            lost(waiting, role)
        },
        (
            StageView::Loading { replid, offset, length },
            EventView::Received(data),
        ) => if data.len() > 0 {
            loads(replid, offset, length, waiting + data, role)
        } else {
            lost(waiting, role)
        },
        (StageView::Restoring { replid, offset }, _) => streams(replid, offset, waiting, role),
        (StageView::Reviewing { offset }, _) => reviews(offset, waiting, role, env),
        (StageView::Applying { offset }, _) => Turn {
            stage: StageView::Reviewing { offset },
            waiting,
            role: followed_to(role, offset),
            action: ActionView::Proceed,
        },
        (StageView::Listening { offset }, EventView::Received(data)) => if data.len() > 0 {
            Turn {
                stage: StageView::Streaming { offset },
                waiting: waiting + data,
                role,
                action: ActionView::AskCancelled,
            }
        } else {
            lost(waiting, role)
        },
        (StageView::Sleeping, _) => Turn {
            stage: StageView::Starting,
            waiting,
            role,
            action: ActionView::AskCancelled,
        },
        (other, _) => Turn { stage: other, waiting, role, action: ActionView::Finish },
    }
}

/// The events that can follow an action.
pub open spec fn replies(action: ActionView, event: EventView) -> bool {
    match action {
        ActionView::AskCancelled => event is Cancelled,
        ActionView::Connect => event is Connected,
        ActionView::Write(_) => event is Written,
        ActionView::Read => event is Received,
        ActionView::Restore(_) => event is Restored,
        ActionView::Execute(_) => event is Executed,
        ActionView::Proceed => event is Proceed,
        ActionView::Sleep => event is Woke,
        ActionView::Finish => false,
    }
}

/// An action that suits a stage: whatever comes of it can happen there.
pub open spec fn suits(t: Turn) -> bool {
    forall|next: EventView| #[trigger] replies(t.action, next) ==> expects(t.stage, next)
}

/// To measure the data set asks for what suits it.
proof fn lemma_measures_suits(replid: Seq<char>, offset: u64, waiting: Seq<u8>, role: Role)
    ensures
        suits(measures(replid, offset, waiting, role)),
{
}

/// A line that answers asks for what suits the answer.
proof fn lemma_awaits_suits(q: QuestionView, waiting: Seq<u8>, role: Role, port: u16)
    ensures
        suits(awaits(q, waiting, role, port)),
{
    match crlf_from(waiting, 0) {
        None => {},
        Some(c) => {
            let line = waiting.take(c + 2);
            let rest = waiting.skip(c + 2);
            match q {
                QuestionView::Sync { replid, offset } => {
                    let goes_on = opens(line, "+CONTINUE"@);
                    let (id, from) = granted(
                        goes_on,
                        white_words(lossy_text(line)),
                        replid,
                        offset,
                    );
                    lemma_measures_suits(id, from, rest, role);
                },
                _ => {},
            }
        },
    }
}

/// A look at the stream asks for what suits it.
proof fn lemma_reviews_suits(offset: u64, waiting: Seq<u8>, role: Role, env: &ParseEnv)
    ensures
        suits(reviews(offset, waiting, role, env)),
{
}

/// A worker is never at a loss: whatever comes of the action that a step asks for can happen at the
/// stage that the step leads to.
pub proof fn law_worker_goes_on(
    stage: StageView,
    waiting: Seq<u8>,
    role: Role,
    port: u16,
    event: EventView,
    env: &ParseEnv,
)
    requires
        expects(stage, event),
    ensures
        suits(turn(stage, waiting, role, port, event, env)),
{
    match stage {
        StageView::Asking(q) => {
            lemma_awaits_suits(q, waiting, role, port);
            match event {
                EventView::Received(data) => {
                    lemma_awaits_suits(q, waiting + data, role, port);
                },
                _ => {},
            }
        },
        StageView::Measuring { replid, offset } => {
            match event {
                EventView::Received(data) => {
                    lemma_measures_suits(replid, offset, waiting + data, role);
                },
                _ => {},
            }
        },
        StageView::Streaming { offset } => {
            lemma_reviews_suits(offset, waiting, role, env);
        },
        StageView::Reviewing { offset } => {
            lemma_reviews_suits(offset, waiting, role, env);
        },
        _ => {},
    }
}

/// A worker ends only when it is told to, and leaves the link down.
pub proof fn law_worker_ends_when_told(
    stage: StageView,
    waiting: Seq<u8>,
    role: Role,
    port: u16,
    event: EventView,
    env: &ParseEnv,
)
    requires
        expects(stage, event),
    ensures
        ({
            let t = turn(stage, waiting, role, port, event, env);
            &&& t.action is Finish ==> event == EventView::Cancelled(true)
            &&& t.action is Finish ==> t.role == with_link(role, "down"@)
            &&& event == EventView::Cancelled(true) ==> t.action is Finish && t.stage is Done
        }),
{
}

/// The offset of a stream moves by exactly the bytes of the commands that it brings: what a step
/// takes from the stream as a command, it adds to the offset, and the role shows the offset once the
/// command is carried out.
pub proof fn law_offset_counts_the_stream(offset: u64, waiting: Seq<u8>, role: Role, env: &ParseEnv)
    requires
        waiting.len() > 0,
        parse_step(waiting, env).0 matches Ok(Some(_)),
        0 <= parse_step(waiting, env).1 <= waiting.len(),
        offset + waiting.len() <= u64::MAX,
    ensures
        ({
            let t = reviews(offset, waiting, role, env);
            let next = (offset + (waiting.len() - t.waiting.len())) as u64;
            ||| t.stage == StageView::Applying { offset: next } && t.role == role
            ||| t.stage == StageView::Reviewing { offset: next } && t.role == followed_to(
                role,
                next,
            )
        }),
{
    lemma_reviewed(parse_step(waiting, env), offset, waiting, role);
}

/// The offset moves by what a command took.
proof fn lemma_reviewed(
    reading: (Result<Option<CommandView>, Seq<char>>, int),
    offset: u64,
    waiting: Seq<u8>,
    role: Role,
)
    requires
        reading.0 matches Ok(Some(_)),
        0 <= reading.1 <= waiting.len(),
        offset + waiting.len() <= u64::MAX,
    ensures
        ({
            let t = reviewed(reading, offset, waiting, role);
            let next = (offset + (waiting.len() - t.waiting.len())) as u64;
            ||| t.stage == StageView::Applying { offset: next } && t.role == role
            ||| t.stage == StageView::Reviewing { offset: next } && t.role == followed_to(
                role,
                next,
            )
        }),
{
}

/// A frame of three words.
fn write_frame3(a: &str, b: &[u8], c: &[u8]) -> (r: Vec<u8>)
    ensures
        r@ == frame3(encode_utf8(a@), b@, c@),
{
    let mut out: Vec<u8> = Vec::new();
    write_number_line(&mut out, 42, 3);
    write_word(&mut out, a);
    write_resp_bulk(&mut out, b);
    write_resp_bulk(&mut out, c);
    assert(out@ =~= frame3(encode_utf8(a@), b@, c@));
    out
}

/// A number in decimal.
fn digits_of(n: u64) -> (r: Vec<u8>)
    ensures
        r@ == decimal_digits(n as nat),
{
    let mut out: Vec<u8> = Vec::new();
    push_decimal(&mut out, n);
    assert(out@ =~= decimal_digits(n as nat));
    out
}

/// The request for a stream.
pub fn write_sync_request(replid: &str, offset: u64) -> (r: Vec<u8>)
    ensures
        r@ == sync_request(replid@, offset),
{
    if !replid.is_empty() {
        write_frame3("PSYNC", replid.as_bytes(), digits_of(offset).as_slice())
    } else {
        write_frame3("PSYNC", "?".as_bytes(), "-1".as_bytes())
    }
}

/// Whether a line opens with a word.
fn line_opens(line: &[u8], word: &str) -> (r: bool)
    ensures
        r == opens(line@, word@),
{
    let w: &[u8] = word.as_bytes();
    if w.len() > line.len() {
        return false;
    }
    let mut i: usize = 0;
    while i < w.len()
        invariant
            i <= w.len() <= line.len(),
            w@ == encode_utf8(word@),
            forall|k: int| 0 <= k < i ==> line@[k] == w@[k],
        decreases w.len() - i,
    {
        if line[i] != w[i] {
            assert(line@.take(w@.len() as int)[i as int] != w@[i as int]);
            return false;
        }
        i += 1;
    }
    assert(line@.take(w@.len() as int) =~= w@);
    true
}

/// The identity and the offset of the stream that the answer to a request for one grants, by the
/// words of the answer.
pub fn read_grant(goes_on: bool, words: &Vec<String>, replid: String, offset: u64) -> (r: (
    String,
    u64,
))
    ensures
        (r.0@, r.1) == granted(goes_on, words@.map_values(|w: String| w@), replid@, offset),
{
    let ghost w = words@.map_values(|w: String| w@);
    if goes_on {
        if words.len() >= 2 {
            assert(w[1] == words@[1]@);
            (words[1].clone(), offset)
        } else {
            (replid, offset)
        }
    } else {
        let id: String = if words.len() >= 2 {
            assert(w[1] == words@[1]@);
            words[1].clone()
        } else {
            String::new()
        };
        let from: u64 = if words.len() >= 3 {
            assert(w[2] == words@[2]@);
            match read_u64(words[2].as_str().as_bytes()) {
                Some(n) => n,
                None => 0,
            }
        } else {
            0
        };
        (id, from)
    }
}

/// A worker that follows a master, with the bytes that have come in and wait.
pub struct ReplicaWorker {
    pub stage: Stage,
    pub waiting: BytesMut,
    pub port: u16,
}

/// A worker and its server's hub after a step, as the step says.
pub open spec fn stepped(
    before: ReplicaWorker,
    after: ReplicaWorker,
    hub_before: ReplicationHub,
    hub_after: ReplicationHub,
    action: Action,
    t: Turn,
) -> bool {
    &&& after.stage@ == t.stage
    &&& buffered(after.waiting) == t.waiting
    &&& after.port == before.port
    &&& hub_after.role@ == t.role
    &&& hub_after == (ReplicationHub { role: hub_after.role, ..hub_before })
    &&& action@ == t.action
}

impl ReplicaWorker {
    /// A worker for the server at a port, about to start; the first thing to do is to find out
    /// whether it is told to end.
    pub fn new(port: u16) -> (r: Self)
        ensures
            r.stage@ == StageView::Starting,
            buffered(r.waiting) == Seq::<u8>::empty(),
            r.port == port,
    {
        ReplicaWorker { stage: Stage::Starting, waiting: BytesMut::new(), port }
    }

    /// How many bytes wait.
    fn waiting_len(&self) -> (r: usize)
        ensures
            r == buffered(self.waiting).len(),
    {
        let all: &BytesMut = &self.waiting;
        let bytes: &[u8] = all.as_ref();
        bytes.len()
    }

    /// How many bytes the first line that waits takes, with its end.
    fn line_len(&self) -> (r: Option<usize>)
        ensures
            match r {
                Some(n) => crlf_from(buffered(self.waiting), 0) == Some(n - 2) && 2 <= n
                    <= buffered(self.waiting).len(),
                None => crlf_from(buffered(self.waiting), 0) is None,
            },
    {
        let all: &BytesMut = &self.waiting;
        let bytes: &[u8] = all.as_ref();
        proof {
            lemma_crlf_from(bytes@, 0);
        }
        match find_crlf(bytes) {
            Some(c) => {
                assert(c + 2 <= bytes.len());
                Some(c + 2)
            },
            None => None,
        }
    }

    fn fail(&mut self, hub: &mut ReplicationHub) -> (r: Action)
        ensures
            stepped(
                *old(self),
                *final(self),
                *old(hub),
                *final(hub),
                r,
                lost(buffered(old(self).waiting), old(hub).role@),
            ),
    {
        hub.set_link("down");
        self.stage = Stage::Failed;
        Action::AskCancelled
    }

    fn end(&mut self, hub: &mut ReplicationHub) -> (r: Action)
        ensures
            stepped(
                *old(self),
                *final(self),
                *old(hub),
                *final(hub),
                r,
                ended(buffered(old(self).waiting), old(hub).role@),
            ),
    {
        hub.set_link("down");
        self.stage = Stage::Done;
        Action::Finish
    }

    fn load(
        &mut self,
        hub: &mut ReplicationHub,
        replid: String,
        offset: u64,
        length: usize,
    ) -> (r: Action)
        ensures
            stepped(
                *old(self),
                *final(self),
                *old(hub),
                *final(hub),
                r,
                loads(replid@, offset, length, buffered(old(self).waiting), old(hub).role@),
            ),
    {
        if self.waiting_len() < length {
            self.stage = Stage::Loading { replid, offset, length };
            Action::Read
        } else {
            let data = self.waiting.split_to(length).freeze();
            self.stage = Stage::Restoring { replid, offset };
            Action::Restore(data)
        }
    }

    fn measure(&mut self, hub: &mut ReplicationHub, replid: String, offset: u64) -> (r: Action)
        ensures
            stepped(
                *old(self),
                *final(self),
                *old(hub),
                *final(hub),
                r,
                measures(replid@, offset, buffered(old(self).waiting), old(hub).role@),
            ),
    {
        let ghost before = buffered(self.waiting);
        match self.line_len() {
            None => {
                self.stage = Stage::Measuring { replid, offset };
                Action::Read
            },
            Some(n) => {
                let line: BytesMut = self.waiting.split_to(n);
                let bytes: &[u8] = line.as_ref();
                assert(bytes@ == before.take(n as int));
                if bytes[0] == 36 {
                    proof {
                        lemma_crlf_from(before, 0);
                    }
                    assert(n >= 3);
                    let number: &[u8] = vstd::slice::slice_subrange(bytes, 1, n - 2);
                    assert(number@ =~= before.subrange(1, n - 2));
                    let length: usize = match read_usize(number) {
                        Some(n) => n,
                        None => 0,
                    };
                    self.load(hub, replid, offset, length)
                } else {
                    self.stage = Stage::Measuring { replid, offset };
                    Action::Read
                }
            },
        }
    }

    fn await_answer(&mut self, hub: &mut ReplicationHub, question: Question) -> (r: Action)
        ensures
            stepped(
                *old(self),
                *final(self),
                *old(hub),
                *final(hub),
                r,
                awaits(question@, buffered(old(self).waiting), old(hub).role@, old(self).port),
            ),
    {
        let ghost before = buffered(self.waiting);
        match self.line_len() {
            None => {
                self.stage = Stage::Asking(question);
                Action::Read
            },
            Some(n) => {
                let taken: BytesMut = self.waiting.split_to(n);
                let line: &[u8] = taken.as_ref();
                assert(line@ == before.take(n as int));
                match question {
                    Question::Ping => {
                        if line_opens(line, "+PONG") {
                            self.stage = Stage::Asking(Question::ListeningPort);
                            Action::Write(
                                write_frame3(
                                    "REPLCONF",
                                    "listening-port".as_bytes(),
                                    digits_of(self.port as u64).as_slice(),
                                ),
                            )
                        } else {
                            self.stage = Stage::Failed;
                            Action::AskCancelled
                        }
                    },
                    Question::ListeningPort => {
                        if line_opens(line, "+OK") {
                            self.stage = Stage::Asking(Question::Capabilities);
                            Action::Write(
                                write_frame3("REPLCONF", "capa".as_bytes(), "psync2".as_bytes()),
                            )
                        } else {
                            self.stage = Stage::Failed;
                            Action::AskCancelled
                        }
                    },
                    Question::Capabilities => {
                        if line_opens(line, "+OK") {
                            let (replid, offset): (String, u64) = hub.resume_from();
                            let request: Vec<u8> = write_sync_request(replid.as_str(), offset);
                            self.stage = Stage::Asking(Question::Sync { replid, offset });
                            Action::Write(request)
                        } else {
                            self.stage = Stage::Failed;
                            Action::AskCancelled
                        }
                    },
                    Question::Sync { replid, offset } => {
                        let goes_on: bool = line_opens(line, "+CONTINUE");
                        let anew: bool = line_opens(line, "+FULLRESYNC");
                        if !goes_on && !anew {
                            return self.fail(hub);
                        }
                        let words: Vec<String> = split_white(decode_lossy(line).as_str());
                        let (id, from): (String, u64) = read_grant(goes_on, &words, replid, offset);
                        if goes_on {
                            hub.link_up(id, from);
                            self.stage = Stage::Streaming { offset: from };
                            Action::AskCancelled
                        } else {
                            self.measure(hub, id, from)
                        }
                    },
                }
            },
        }
    }

    fn heed(&mut self, hub: &mut ReplicationHub, command: Command, next: u64) -> (r: Action)
        ensures
            stepped(
                *old(self),
                *final(self),
                *old(hub),
                *final(hub),
                r,
                heeds(command@, next, buffered(old(self).waiting), old(hub).role@),
            ),
    {
        let asked: Option<bool> = match &command {
            Command::Replconf(args) => {
                assert(args@.len() > 0 ==> contents(args@)[0] == content(args@[0]));
                Some(args.len() >= 2 && spells_word(args[0].as_ref(), "GETACK"))
            },
            Command::Ping(_) => Some(false),
            _ => None,
        };
        match asked {
            Some(true) => {
                self.stage = Stage::Applying { offset: next };
                Action::Write(
                    write_frame3("REPLCONF", "ACK".as_bytes(), digits_of(next).as_slice()),
                )
            },
            Some(false) => {
                hub.follow_to(next);
                self.stage = Stage::Reviewing { offset: next };
                Action::Proceed
            },
            None => {
                self.stage = Stage::Applying { offset: next };
                Action::Execute(command)
            },
        }
    }

    fn review(&mut self, hub: &mut ReplicationHub, offset: u64, env: &ParseEnv) -> (r: Action)
        ensures
            stepped(
                *old(self),
                *final(self),
                *old(hub),
                *final(hub),
                r,
                reviews(offset, buffered(old(self).waiting), old(hub).role@, env),
            ),
    {
        let ghost before = buffered(self.waiting);
        let held: usize = self.waiting_len();
        if held == 0 {
            self.stage = Stage::Listening { offset };
            return Action::Read;
        }
        let outcome: Result<Option<Command>, String> = parse_command(&mut self.waiting, env);
        let left: usize = self.waiting_len();
        let next: u64 = offset.wrapping_add((held - left) as u64);
        assert(held - left == parse_step(before, env).1);
        match outcome {
            Ok(Some(command)) => self.heed(hub, command, next),
            Ok(None) => {
                self.stage = Stage::Listening { offset };
                Action::Read
            },
            Err(_) => {
                advance(&mut self.waiting, left);
                assert(buffered(self.waiting) =~= Seq::<u8>::empty());
                self.stage = Stage::Listening { offset };
                Action::Read
            },
        }
    }

    /// Takes in what has happened, and says what is to be done next. The parser is told what it
    /// needs to know of the bytes that wait.
    pub fn step(&mut self, hub: &mut ReplicationHub, event: Event, env: &ParseEnv) -> (r: Action)
        requires
            expects(old(self).stage@, event@),
        ensures
            stepped(
                *old(self),
                *final(self),
                *old(hub),
                *final(hub),
                r,
                turn(
                    old(self).stage@,
                    buffered(old(self).waiting),
                    old(hub).role@,
                    old(self).port,
                    event@,
                    env,
                ),
            ),
    {
        let ghost before = buffered(self.waiting);
        let mut stage: Stage = Stage::Done;
        std::mem::swap(&mut self.stage, &mut stage);
        match event {
            Event::Cancelled(end) => {
                if end {
                    return self.end(hub);
                }
                match stage {
                    Stage::Starting => {
                        self.stage = Stage::Connecting;
                        Action::Connect
                    },
                    Stage::Streaming { offset } => self.review(hub, offset, env),
                    _ => {
                        self.stage = Stage::Sleeping;
                        Action::Sleep
                    },
                }
            },
            Event::Connected(made) => {
                if !made {
                    return self.fail(hub);
                }
                let held: usize = self.waiting_len();
                advance(&mut self.waiting, held);
                assert(buffered(self.waiting) =~= Seq::<u8>::empty());
                let mut ping: Vec<u8> = Vec::new();
                write_number_line(&mut ping, 42, 1);
                write_word(&mut ping, "PING");
                assert(ping@ =~= frame1(encode_utf8("PING"@)));
                self.stage = Stage::Asking(Question::Ping);
                Action::Write(ping)
            },
            Event::Written(sent) => {
                match stage {
                    Stage::Asking(question) => {
                        if sent {
                            self.await_answer(hub, question)
                        } else {
                            self.fail(hub)
                        }
                    },
                    Stage::Applying { offset } => {
                        hub.follow_to(offset);
                        self.stage = Stage::Reviewing { offset };
                        Action::Proceed
                    },
                    _ => self.end(hub),
                }
            },
            Event::Received(data) => {
                if data.len() == 0 {
                    return self.fail(hub);
                }
                self.waiting.extend_from_slice(data.as_slice());
                match stage {
                    Stage::Asking(question) => self.await_answer(hub, question),
                    Stage::Measuring { replid, offset } => self.measure(hub, replid, offset),
                    Stage::Loading { replid, offset, length } => self.load(
                        hub,
                        replid,
                        offset,
                        length,
                    ),
                    Stage::Listening { offset } => {
                        self.stage = Stage::Streaming { offset };
                        Action::AskCancelled
                    },
                    _ => self.end(hub),
                }
            },
            Event::Restored => {
                match stage {
                    Stage::Restoring { replid, offset } => {
                        hub.link_up(replid, offset);
                        self.stage = Stage::Streaming { offset };
                        Action::AskCancelled
                    },
                    _ => self.end(hub),
                }
            },
            Event::Executed => {
                match stage {
                    Stage::Applying { offset } => {
                        hub.follow_to(offset);
                        self.stage = Stage::Reviewing { offset };
                        Action::Proceed
                    },
                    _ => self.end(hub),
                }
            },
            Event::Proceed => {
                match stage {
                    Stage::Reviewing { offset } => self.review(hub, offset, env),
                    _ => self.end(hub),
                }
            },
            Event::Woke => {
                self.stage = Stage::Starting;
                Action::AskCancelled
            },
        }
    }
}

/// Where to look for a master whose address is no number: here, if its name says so.
pub open spec fn stands_here(host: Seq<char>) -> bool {
    host == "localhost"@
}

/// Whether a master whose address is no number is to be looked for here.
pub fn is_local_name(host: &str) -> (r: bool)
    ensures
        r == stands_here(host@),
{
    same_text(host, "localhost")
}

} // verus!
