//! Slots on the move, and where clients are sent meanwhile.
use vstd::prelude::*;

use crate::numbers::decimal_digits;
use crate::writing::{append_number, number_text};

verus! {

/// The state of a slot: at rest, or on its way to or from another server, or gone there.
#[derive(Clone, Debug, PartialEq, Eq)]
pub enum SlotState {
    Stable,
    Migrating(String),
    Importing(String),
    Moved(String),
}

/// The state of a slot, with its text as characters.
pub enum Phase {
    Stable,
    Migrating(Seq<char>),
    Importing(Seq<char>),
    Moved(Seq<char>),
}

impl View for SlotState {
    type V = Phase;

    open spec fn view(&self) -> Phase {
        match *self {
            SlotState::Stable => Phase::Stable,
            SlotState::Migrating(x) => Phase::Migrating(x@),
            SlotState::Importing(x) => Phase::Importing(x@),
            SlotState::Moved(x) => Phase::Moved(x@),
        }
    }
}

impl SlotState {
    /// The same state once more.
    pub fn copied(&self) -> (r: Self)
        ensures
            r@ == self@,
    {
        match self {
            SlotState::Stable => SlotState::Stable,
            SlotState::Migrating(x) => SlotState::Migrating(x.clone()),
            SlotState::Importing(x) => SlotState::Importing(x.clone()),
            SlotState::Moved(x) => SlotState::Moved(x.clone()),
        }
    }
}

/// A hash map from slots to their states.
#[verifier::external_body]
pub struct SlotStates {
    inner: hashbrown::HashMap<u16, SlotState>,
}

/// The slots in a table, each with its state.
pub uninterp spec fn phases(t: SlotStates) -> Map<u16, Phase>;

impl View for SlotStates {
    type V = Map<u16, Phase>;

    open spec fn view(&self) -> Map<u16, Phase> {
        phases(*self)
    }
}

impl SlotStates {
    /// `HashMap::new`: an empty table.
    #[verifier::external_body]
    pub(crate) fn new() -> (r: Self)
        ensures
            phases(r).dom() == Set::<u16>::empty(),
    {
        SlotStates { inner: hashbrown::HashMap::new() }
    }

    /// `HashMap::insert`: gives a slot its state, in place of the one it had.
    #[verifier::external_body]
    pub(crate) fn insert(&mut self, slot: u16, state: SlotState)
        ensures
            phases(*final(self)) == phases(*old(self)).insert(slot, state@),
    {
        self.inner.insert(slot, state);
    }

    /// `HashMap::remove`: takes a slot out.
    #[verifier::external_body]
    pub(crate) fn remove(&mut self, slot: u16)
        ensures
            phases(*final(self)) == phases(*old(self)).remove(slot),
    {
        self.inner.remove(&slot);
    }

    /// `HashMap::get`: the state of a slot.
    #[verifier::external_body]
    pub(crate) fn get(&self, slot: u16) -> (r: Option<&SlotState>)
        ensures
            match r {
                Some(state) => phases(*self).dom().contains(slot) && state@ == phases(*self)[slot],
                None => !phases(*self).dom().contains(slot),
            },
    {
        self.inner.get(&slot)
    }
}

/// A reply that sends a client elsewhere.
pub open spec fn redirect_text(word: Seq<char>, slot: u16, server: Seq<char>) -> Seq<char> {
    word + number_text(slot as nat) + " "@ + server + "\r\n"@
}

/// Where a client is sent with a key of a slot. While the slot moves away, keys that are gone are
/// asked for at the new place; while it moves here, only those who ask for them by the way are
/// served; once it is gone, nobody is.
pub open spec fn redirection(
    phase: Phase,
    slot: u16,
    key_exists: bool,
    asking: bool,
) -> Option<Seq<char>> {
    match phase {
        Phase::Migrating(target) if !key_exists => Some(redirect_text("-ASK "@, slot, target)),
        Phase::Importing(source) if !asking => Some(redirect_text("-MOVED "@, slot, source)),
        Phase::Moved(target) => Some(redirect_text("-MOVED "@, slot, target)),
        _ => None,
    }
}

/// A reply that sends a client elsewhere.
fn redirect(word: &str, slot: u16, server: &str) -> (r: String)
    ensures
        r@ == redirect_text(word@, slot, server@),
{
    let mut out: String = word.to_owned();
    append_number(&mut out, slot as u64);
    out.append(" ");
    out.append(server);
    out.append("\r\n");
    assert(out@ =~= redirect_text(word@, slot, server@));
    out
}

/// Whether a client is served a key of a slot here, or else where it is sent.
pub(crate) fn redirected(
    state: &SlotState,
    slot: u16,
    key_exists: bool,
    asking: bool,
) -> (r: Result<
    (),
    String,
>)
    ensures
        match r {
            Ok(_) => redirection(state@, slot, key_exists, asking) is None,
            Err(e) => redirection(state@, slot, key_exists, asking) == Some(e@),
        },
{
    match state {
        SlotState::Migrating(target) => {
            if !key_exists {
                return Err(redirect("-ASK ", slot, target.as_str()));
            }
        },
        SlotState::Importing(source) => {
            if !asking {
                return Err(redirect("-MOVED ", slot, source.as_str()));
            }
        },
        SlotState::Moved(target) => {
            return Err(redirect("-MOVED ", slot, target.as_str()));
        },
        SlotState::Stable => {},
    }
    Ok(())
}

/// A slot that has moved is served to nobody: whoever asks for one of its keys is told the server
/// that has it, whether the key is still here or not.
pub proof fn law_moved_is_served_to_nobody(
    target: String,
    slot: u16,
    key_exists: bool,
    asking: bool,
)
    ensures
        redirection(SlotState::Moved(target)@, slot, key_exists, asking) == Some(
            "-MOVED "@ + decimal_digits(slot as nat).map_values(|b: u8| b as char) + " "@ + target@
                + "\r\n"@,
        ),
{
}

/// While a slot moves away, the keys that are still here are served and those that are gone are
/// asked for at the new place, however the client asks.
pub proof fn law_migrating_serves_what_is_here(target: String, slot: u16, asking: bool)
    ensures
        redirection(SlotState::Migrating(target)@, slot, true, asking) is None,
        redirection(SlotState::Migrating(target)@, slot, false, asking) == Some(
            "-ASK "@ + decimal_digits(slot as nat).map_values(|b: u8| b as char) + " "@ + target@
                + "\r\n"@,
        ),
{
}

/// While a slot moves here, only those who were told to ask are served, whether the key has come or
/// not; all others are sent to where the slot comes from.
pub proof fn law_importing_serves_those_who_ask(source: String, slot: u16, key_exists: bool)
    ensures
        redirection(SlotState::Importing(source)@, slot, key_exists, true) is None,
        redirection(SlotState::Importing(source)@, slot, key_exists, false) == Some(
            "-MOVED "@ + decimal_digits(slot as nat).map_values(|b: u8| b as char) + " "@ + source@
                + "\r\n"@,
        ),
{
}

/// A slot at rest is served to everybody.
pub proof fn law_stable_is_served(slot: u16, key_exists: bool, asking: bool)
    ensures
        redirection(SlotState::Stable@, slot, key_exists, asking) is None,
{
}

} // verus!
