//! Hash sets and hash maps of the `hashbrown` crate, seen as sets and maps of plain values, and the
//! sending ends of the `flume` crate's channels.
use bytes::Bytes;
use flume::Sender;
use vstd::prelude::*;

use crate::lists::contents;
use crate::octets::content;

verus! {

#[verifier::external_type_specification]
#[verifier::external_body]
#[verifier::reject_recursive_types(T)]
pub struct ExSender<T>(flume::Sender<T>);

/// The sending end of a channel, with a record of what was handed to it, each message with whether
/// it was taken. The end is reached through this alone, so that nothing is sent past the record.
pub struct Outlet {
    tx: Sender<Vec<u8>>,
    sent: Ghost<Seq<(Seq<u8>, bool)>>,
}

impl Outlet {
    /// The sending end.
    pub closed spec fn end(self) -> Sender<Vec<u8>> {
        self.tx
    }

    /// What was handed to it so far.
    pub closed spec fn sent(self) -> Seq<(Seq<u8>, bool)> {
        self.sent@
    }

    /// The same end as before, handed one message more.
    pub open spec fn passed(self, before: Outlet, data: Seq<u8>, taken: bool) -> bool {
        &&& self.end() == before.end()
        &&& self.sent() == before.sent().push((data, taken))
    }

    /// A sending end to which nothing was handed.
    pub(crate) fn new(tx: Sender<Vec<u8>>) -> (r: Self)
        ensures
            r.end() == tx,
            r.sent() == Seq::<(Seq<u8>, bool)>::empty(),
    {
        Outlet { tx, sent: Ghost(Seq::empty()) }
    }

    /// `Sender::send`: hands bytes to the other end once, and waits for room where the channel is
    /// bounded and full. They are not taken where nobody listens any more, which only the run
    /// decides, so nothing is said of that.
    #[verifier::external_body]
    pub(crate) fn send(&mut self, data: Vec<u8>) -> (r: bool)
        ensures
            final(self).passed(*old(self), data@, r),
    {
        let taken: bool = self.tx.send(data).is_ok();
        self.sent = Ghost(self.sent@.push((data@, taken)));
        taken
    }
}

/// A hash set of clients.
#[verifier::external_body]
pub struct ClientSet {
    inner: hashbrown::HashSet<u64>,
}

/// The clients in a set.
pub uninterp spec fn members(s: ClientSet) -> Set<u64>;

impl View for ClientSet {
    type V = Set<u64>;

    open spec fn view(&self) -> Set<u64> {
        members(*self)
    }
}

impl ClientSet {
    /// `HashSet::new`: an empty set.
    #[verifier::external_body]
    pub(crate) fn new() -> (r: Self)
        ensures
            members(r) == Set::<u64>::empty(),
    {
        ClientSet { inner: hashbrown::HashSet::new() }
    }

    /// `HashSet::insert`: puts a client in, and says whether it was not there before.
    #[verifier::external_body]
    pub(crate) fn insert(&mut self, client: u64) -> (r: bool)
        ensures
            members(*final(self)) == members(*old(self)).insert(client),
            r == !members(*old(self)).contains(client),
    {
        self.inner.insert(client)
    }

    /// `HashSet::remove`: takes a client out, and says whether it was there.
    #[verifier::external_body]
    pub(crate) fn remove(&mut self, client: u64) -> (r: bool)
        ensures
            members(*final(self)) == members(*old(self)).remove(client),
            r == members(*old(self)).contains(client),
    {
        self.inner.remove(&client)
    }

    /// `HashSet::contains`: whether a client is in the set.
    #[verifier::external_body]
    pub(crate) fn contains(&self, client: u64) -> (r: bool)
        ensures
            r == members(*self).contains(client),
    {
        self.inner.contains(&client)
    }

    /// `HashSet::len`: how many clients are in the set.
    #[verifier::external_body]
    pub(crate) fn len(&self) -> (r: usize)
        ensures
            r == members(*self).len(),
    {
        self.inner.len()
    }

    /// `HashSet::iter`: the clients in the set, each once, in no particular order.
    #[verifier::external_body]
    pub(crate) fn to_vec(&self) -> (r: Vec<u64>)
        ensures
            r@.no_duplicates(),
            r@.to_set() == members(*self),
    {
        self.inner.iter().copied().collect()
    }
}

/// A hash set of names.
#[verifier::external_body]
pub struct NameSet {
    inner: hashbrown::HashSet<Bytes>,
}

/// The names in a set.
pub uninterp spec fn names_in(s: NameSet) -> Set<Seq<u8>>;

impl View for NameSet {
    type V = Set<Seq<u8>>;

    open spec fn view(&self) -> Set<Seq<u8>> {
        names_in(*self)
    }
}

impl NameSet {
    /// `HashSet::new`: an empty set.
    #[verifier::external_body]
    pub(crate) fn new() -> (r: Self)
        ensures
            names_in(r) == Set::<Seq<u8>>::empty(),
    {
        NameSet { inner: hashbrown::HashSet::new() }
    }

    /// `HashSet::insert`: puts a name in.
    #[verifier::external_body]
    pub(crate) fn insert(&mut self, name: Bytes)
        ensures
            names_in(*final(self)) == names_in(*old(self)).insert(content(name)),
    {
        self.inner.insert(name);
    }

    /// `HashSet::remove`: takes a name out.
    #[verifier::external_body]
    pub(crate) fn remove(&mut self, name: &[u8])
        ensures
            names_in(*final(self)) == names_in(*old(self)).remove(name@),
    {
        self.inner.remove(name);
    }

    /// `HashSet::len`: how many names are in the set.
    #[verifier::external_body]
    pub(crate) fn len(&self) -> (r: usize)
        ensures
            r == names_in(*self).len(),
    {
        self.inner.len()
    }

    /// `HashSet::iter`: the names in the set, each once, in no particular order.
    #[verifier::external_body]
    pub(crate) fn to_vec(&self) -> (r: Vec<Bytes>)
        ensures
            contents(r@).no_duplicates(),
            contents(r@).to_set() == names_in(*self),
    {
        self.inner.iter().cloned().collect()
    }
}

/// A hash map from names to sets of clients.
#[verifier::external_body]
pub struct NameTable {
    inner: hashbrown::HashMap<Bytes, ClientSet>,
}

/// The names in a table, each with its clients.
pub uninterp spec fn clients_by_name(t: NameTable) -> Map<Seq<u8>, Set<u64>>;

impl View for NameTable {
    type V = Map<Seq<u8>, Set<u64>>;

    open spec fn view(&self) -> Map<Seq<u8>, Set<u64>> {
        clients_by_name(*self)
    }
}

impl NameTable {
    /// `HashMap::new`: an empty table.
    #[verifier::external_body]
    pub(crate) fn new() -> (r: Self)
        ensures
            clients_by_name(r).dom() == Set::<Seq<u8>>::empty(),
    {
        NameTable { inner: hashbrown::HashMap::new() }
    }

    /// `HashMap::insert`: gives a name its clients, in place of those it had.
    #[verifier::external_body]
    pub(crate) fn insert(&mut self, name: Bytes, clients: ClientSet)
        ensures
            clients_by_name(*final(self)) == clients_by_name(*old(self)).insert(
                content(name),
                members(clients),
            ),
    {
        self.inner.insert(name, clients);
    }

    /// `HashMap::remove_entry`: takes a name out, with its clients.
    #[verifier::external_body]
    pub(crate) fn remove_entry(&mut self, name: &[u8]) -> (r: Option<(Bytes, ClientSet)>)
        ensures
            clients_by_name(*final(self)) == clients_by_name(*old(self)).remove(name@),
            match r {
                Some((key, clients)) => {
                    &&& clients_by_name(*old(self)).dom().contains(name@)
                    &&& content(key) == name@
                    &&& members(clients) == clients_by_name(*old(self))[name@]
                },
                None => !clients_by_name(*old(self)).dom().contains(name@),
            },
    {
        self.inner.remove_entry(name)
    }

    /// `HashMap::get`: the clients of a name.
    #[verifier::external_body]
    pub(crate) fn get(&self, name: &[u8]) -> (r: Option<&ClientSet>)
        ensures
            match r {
                Some(clients) => {
                    &&& clients_by_name(*self).dom().contains(name@)
                    &&& members(*clients) == clients_by_name(*self)[name@]
                },
                None => !clients_by_name(*self).dom().contains(name@),
            },
    {
        self.inner.get(name)
    }

    /// `HashMap::keys`: the names in the table, each once, in no particular order.
    #[verifier::external_body]
    pub(crate) fn keys(&self) -> (r: Vec<Bytes>)
        ensures
            contents(r@).no_duplicates(),
            contents(r@).to_set() == clients_by_name(*self).dom(),
    {
        self.inner.keys().cloned().collect()
    }

    /// `HashMap::len`: how many names are in the table.
    #[verifier::external_body]
    pub(crate) fn len(&self) -> (r: usize)
        ensures
            r == clients_by_name(*self).dom().len(),
    {
        self.inner.len()
    }
}

/// A hash map from clients to sets of names.
#[verifier::external_body]
pub struct ClientTable {
    inner: hashbrown::HashMap<u64, NameSet>,
}

/// The clients in a table, each with its names.
pub uninterp spec fn names_by_client(t: ClientTable) -> Map<u64, Set<Seq<u8>>>;

impl View for ClientTable {
    type V = Map<u64, Set<Seq<u8>>>;

    open spec fn view(&self) -> Map<u64, Set<Seq<u8>>> {
        names_by_client(*self)
    }
}

impl ClientTable {
    /// `HashMap::new`: an empty table.
    #[verifier::external_body]
    pub(crate) fn new() -> (r: Self)
        ensures
            names_by_client(r).dom() == Set::<u64>::empty(),
    {
        ClientTable { inner: hashbrown::HashMap::new() }
    }

    /// `HashMap::insert`: gives a client its names, in place of those it had.
    #[verifier::external_body]
    pub(crate) fn insert(&mut self, client: u64, names: NameSet)
        ensures
            names_by_client(*final(self)) == names_by_client(*old(self)).insert(
                client,
                names_in(names),
            ),
    {
        self.inner.insert(client, names);
    }

    /// `HashMap::remove`: takes a client out, with its names.
    #[verifier::external_body]
    pub(crate) fn remove(&mut self, client: u64) -> (r: Option<NameSet>)
        ensures
            names_by_client(*final(self)) == names_by_client(*old(self)).remove(client),
            match r {
                Some(names) => {
                    &&& names_by_client(*old(self)).dom().contains(client)
                    &&& names_in(names) == names_by_client(*old(self))[client]
                },
                None => !names_by_client(*old(self)).dom().contains(client),
            },
    {
        self.inner.remove(&client)
    }

    /// `HashMap::get`: the names of a client.
    #[verifier::external_body]
    pub(crate) fn get(&self, client: u64) -> (r: Option<&NameSet>)
        ensures
            match r {
                Some(names) => {
                    &&& names_by_client(*self).dom().contains(client)
                    &&& names_in(*names) == names_by_client(*self)[client]
                },
                None => !names_by_client(*self).dom().contains(client),
            },
    {
        self.inner.get(&client)
    }
}

/// A hash map from clients to the sending ends of their channels.
#[verifier::external_body]
pub struct SenderTable {
    inner: hashbrown::HashMap<u64, Sender<Bytes>>,
}

/// The clients in a table, each with its sending end.
pub uninterp spec fn senders_by_client(t: SenderTable) -> Map<u64, Sender<Bytes>>;

impl View for SenderTable {
    type V = Map<u64, Sender<Bytes>>;

    open spec fn view(&self) -> Map<u64, Sender<Bytes>> {
        senders_by_client(*self)
    }
}

impl SenderTable {
    /// `HashMap::new`: an empty table.
    #[verifier::external_body]
    pub(crate) fn new() -> (r: Self)
        ensures
            senders_by_client(r).dom() == Set::<u64>::empty(),
    {
        SenderTable { inner: hashbrown::HashMap::new() }
    }

    /// `HashMap::insert`: gives a client its sending end, in place of the one it had.
    #[verifier::external_body]
    pub(crate) fn insert(&mut self, client: u64, tx: Sender<Bytes>)
        ensures
            senders_by_client(*final(self)) == senders_by_client(*old(self)).insert(client, tx),
    {
        self.inner.insert(client, tx);
    }

    /// `HashMap::remove`: takes a client out.
    #[verifier::external_body]
    pub(crate) fn remove(&mut self, client: u64)
        ensures
            senders_by_client(*final(self)) == senders_by_client(*old(self)).remove(client),
    {
        self.inner.remove(&client);
    }
}

/// The sending ends of clients, with a record of what was handed to them: each frame with its
/// client and with whether it was taken. The ends are reached through this alone, so that nothing is
/// sent past the record.
pub struct Outlets {
    ends: SenderTable,
    sent: Ghost<Seq<(u64, Seq<u8>, bool)>>,
}

impl View for Outlets {
    type V = Map<u64, Sender<Bytes>>;

    /// The clients, each with its sending end.
    closed spec fn view(&self) -> Map<u64, Sender<Bytes>> {
        self.ends@
    }
}

impl Outlets {
    /// What was handed to the clients so far.
    pub closed spec fn sent(&self) -> Seq<(u64, Seq<u8>, bool)> {
        self.sent@
    }

    /// No clients.
    pub(crate) fn new() -> (r: Self)
        ensures
            r@.dom() == Set::<u64>::empty(),
            r.sent() == Seq::<(u64, Seq<u8>, bool)>::empty(),
    {
        Outlets { ends: SenderTable::new(), sent: Ghost(Seq::empty()) }
    }

    /// Gives a client its sending end, in place of the one it had.
    pub(crate) fn insert(&mut self, client: u64, tx: Sender<Bytes>)
        ensures
            final(self)@ == old(self)@.insert(client, tx),
            final(self).sent() == old(self).sent(),
    {
        self.ends.insert(client, tx);
    }

    /// Takes a client out.
    pub(crate) fn remove(&mut self, client: u64)
        ensures
            final(self)@ == old(self)@.remove(client),
            final(self).sent() == old(self).sent(),
    {
        self.ends.remove(client);
    }

    /// `Sender::try_send`, on the sending end that `HashMap::index` finds for a client: offers a
    /// frame to the client once. It is not taken where the channel is full or nobody listens any
    /// more, which only the run decides, so nothing is said of that.
    #[verifier::external_body]
    pub(crate) fn offer(&mut self, client: u64, frame: Bytes) -> (r: bool)
        requires
            old(self)@.dom().contains(client),
        ensures
            final(self)@ == old(self)@,
            final(self).sent() == old(self).sent().push((client, content(frame), r)),
    {
        let taken: bool = self.ends.inner[&client].try_send(frame).is_ok();
        self.sent = Ghost(self.sent@.push((client, content(frame), taken)));
        taken
    }
}

/// A hash map from names to counts.
#[verifier::external_body]
pub struct CountTable {
    inner: hashbrown::HashMap<Bytes, usize>,
}

/// The names in a table, each with its count.
pub uninterp spec fn counts_by_name(t: CountTable) -> Map<Seq<u8>, usize>;

impl View for CountTable {
    type V = Map<Seq<u8>, usize>;

    open spec fn view(&self) -> Map<Seq<u8>, usize> {
        counts_by_name(*self)
    }
}

impl CountTable {
    /// `HashMap::new`: an empty table.
    #[verifier::external_body]
    pub(crate) fn new() -> (r: Self)
        ensures
            counts_by_name(r).dom() == Set::<Seq<u8>>::empty(),
    {
        CountTable { inner: hashbrown::HashMap::new() }
    }

    /// `HashMap::insert`: gives a name its count, in place of the one it had.
    #[verifier::external_body]
    pub(crate) fn insert(&mut self, name: Bytes, count: usize)
        ensures
            counts_by_name(*final(self)) == counts_by_name(*old(self)).insert(content(name), count),
    {
        self.inner.insert(name, count);
    }

    /// `HashMap::get`: the count of a name.
    #[verifier::external_body]
    pub(crate) fn get(&self, name: &[u8]) -> (r: Option<&usize>)
        ensures
            match r {
                Some(count) => {
                    &&& counts_by_name(*self).dom().contains(name@)
                    &&& *count == counts_by_name(*self)[name@]
                },
                None => !counts_by_name(*self).dom().contains(name@),
            },
    {
        self.inner.get(name)
    }
}

} // verus!
