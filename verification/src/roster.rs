//! Who is subscribed to what: a relation between clients and names, kept from both sides. On the
//! side of the clients it may hold more: names that a client is linked to elsewhere.
use bytes::Bytes;
use vstd::prelude::*;

use crate::lists::contents;
use crate::octets::content;
use crate::pubsub::lemma_take_one_more;
use crate::tables::{ClientSet, ClientTable, NameSet, NameTable};

verus! {

/// The clients that are linked to a name.
pub open spec fn clients_of(links: Set<(u64, Seq<u8>)>, name: Seq<u8>) -> Set<u64> {
    Set::new(|c: u64| links.contains((c, name)))
}

/// The names that a client is linked to.
pub open spec fn names_of(links: Set<(u64, Seq<u8>)>, client: u64) -> Set<Seq<u8>> {
    Set::new(|n: Seq<u8>| links.contains((client, n)))
}

/// The names that have a client.
pub open spec fn names_taken(links: Set<(u64, Seq<u8>)>) -> Set<Seq<u8>> {
    Set::new(|n: Seq<u8>| exists|c: u64| links.contains((c, n)))
}

/// The links without those of a client.
pub open spec fn without_client(
    links: Set<(u64, Seq<u8>)>,
    client: u64,
) -> Set<(u64, Seq<u8>)> {
    links.filter(|p: (u64, Seq<u8>)| p.0 != client)
}

/// A relation between clients and names, and what is noted of the clients beside it.
pub struct Roster {
    by_name: NameTable,
    by_client: ClientTable,
}

impl View for Roster {
    type V = Set<(u64, Seq<u8>)>;

    /// The links.
    closed spec fn view(&self) -> Set<(u64, Seq<u8>)> {
        Set::new(
            |p: (u64, Seq<u8>)|
                self.by_name@.dom().contains(p.1) && self.by_name@[p.1].contains(p.0),
        )
    }
}

impl Roster {
    /// The links, and what is noted beside them.
    pub closed spec fn held(&self) -> Set<(u64, Seq<u8>)> {
        Set::new(
            |p: (u64, Seq<u8>)|
                self.by_client@.dom().contains(p.0) && self.by_client@[p.0].contains(p.1),
        )
    }

    /// The side of the clients holds every link, and neither side holds a name or a client without
    /// anything.
    pub closed spec fn wf(&self) -> bool {
        &&& self@.finite()
        &&& self.held().finite()
        &&& self@.subset_of(self.held())
        &&& forall|n: Seq<u8>| #[trigger]
            self.by_name@.dom().contains(n) ==> self.by_name@[n].finite()
                && self.by_name@[n].len() > 0
        &&& forall|c: u64| #[trigger]
            self.by_client@.dom().contains(c) ==> self.by_client@[c].finite()
                && self.by_client@[c].len() > 0
    }

    /// The side of the names.
    pub closed spec fn by_names(&self) -> Map<Seq<u8>, Set<u64>> {
        self.by_name@
    }

    /// The side of the clients.
    pub closed spec fn by_clients(&self) -> Map<u64, Set<Seq<u8>>> {
        self.by_client@
    }

    /// Each side holds its half of the links, and neither holds a name or a client without
    /// anything.
    pub open spec fn tidy(&self) -> bool {
        &&& self@.subset_of(self.held())
        &&& forall|n: Seq<u8>| #[trigger]
            self.by_names().dom().contains(n) <==> clients_of(self@, n).len() > 0
        &&& forall|n: Seq<u8>| #[trigger]
            self.by_names().dom().contains(n) ==> self.by_names()[n] == clients_of(self@, n)
        &&& forall|c: u64| #[trigger]
            self.by_clients().dom().contains(c) <==> names_of(self.held(), c).len() > 0
        &&& forall|c: u64| #[trigger]
            self.by_clients().dom().contains(c) ==> self.by_clients()[c] == names_of(
                self.held(),
                c,
            )
    }

    /// What soundness says of the two sides.
    pub proof fn lemma_tidy(&self)
        requires
            self.wf(),
        ensures
            self.tidy(),
    {
        assert forall|n: Seq<u8>| #[trigger]
            self.by_names().dom().contains(n) <==> clients_of(self@, n).len() > 0 by {
            self.lemma_sides(0, n);
        }
        assert forall|n: Seq<u8>| #[trigger] self.by_names().dom().contains(n) implies
            self.by_names()[n] == clients_of(self@, n) by {
            self.lemma_sides(0, n);
        }
        assert forall|c: u64| #[trigger]
            self.by_clients().dom().contains(c) <==> names_of(self.held(), c).len() > 0 by {
            self.lemma_sides(c, Seq::empty());
        }
        assert forall|c: u64| #[trigger] self.by_clients().dom().contains(c) implies
            self.by_clients()[c] == names_of(self.held(), c) by {
            self.lemma_sides(c, Seq::empty());
        }
    }

    /// The two tables side by side.
    proof fn lemma_sides(&self, client: u64, name: Seq<u8>)
        ensures
            self.by_name@.dom().contains(name) ==> clients_of(self@, name) == self.by_name@[name],
            !self.by_name@.dom().contains(name) ==> clients_of(self@, name) == Set::<u64>::empty(),
            self.by_client@.dom().contains(client) ==> names_of(self.held(), client)
                == self.by_client@[client],
            !self.by_client@.dom().contains(client) ==> names_of(self.held(), client) == Set::<
                Seq<u8>,
            >::empty(),
    {
        if self.by_name@.dom().contains(name) {
            assert(clients_of(self@, name) =~= self.by_name@[name]);
        } else {
            assert(clients_of(self@, name) =~= Set::<u64>::empty());
        }
        if self.by_client@.dom().contains(client) {
            assert(names_of(self.held(), client) =~= self.by_client@[client]);
        } else {
            assert(names_of(self.held(), client) =~= Set::<Seq<u8>>::empty());
        }
    }

    /// A relation without links.
    pub(crate) fn new() -> (r: Self)
        ensures
            r.wf(),
            r@ == Set::<(u64, Seq<u8>)>::empty(),
            r.held() == Set::<(u64, Seq<u8>)>::empty(),
    {
        let r = Roster { by_name: NameTable::new(), by_client: ClientTable::new() };
        assert(r@ =~= Set::<(u64, Seq<u8>)>::empty());
        assert(r.held() =~= Set::<(u64, Seq<u8>)>::empty());
        r
    }

    /// Notes a name of a client beside the links.
    pub(crate) fn note(&mut self, client: u64, name: Bytes)
        requires
            old(self).wf(),
        ensures
            final(self).wf(),
            final(self)@ == old(self)@,
            final(self).held() == old(self).held().insert((client, content(name))),
    {
        let ghost n = content(name);
        let mut names = match self.by_client.remove(client) {
            Some(names) => names,
            None => NameSet::new(),
        };
        names.insert(name);
        self.by_client.insert(client, names);
        assert(self.by_client@[client].contains(n));
        assert(self@ =~= old(self)@);
        assert(self.held() =~= old(self).held().insert((client, n)));
    }

    /// Forgets a name of a client.
    fn forget_name(&mut self, client: u64, name: &[u8])
        requires
            forall|c: u64| #[trigger]
                old(self).by_client@.dom().contains(c) ==> old(self).by_client@[c].finite()
                    && old(self).by_client@[c].len() > 0,
        ensures
            final(self).by_name == old(self).by_name,
            final(self).held() == old(self).held().remove((client, name@)),
            forall|c: u64| #[trigger]
                final(self).by_client@.dom().contains(c) ==> final(self).by_client@[c].finite()
                    && final(self).by_client@[c].len() > 0,
    {
        match self.by_client.remove(client) {
            Some(mut names) => {
                assert(old(self).by_client@.dom().contains(client));
                names.remove(name);
                if names.len() > 0 {
                    self.by_client.insert(client, names);
                } else {
                    assert(names@ =~= Set::<Seq<u8>>::empty());
                }
            },
            None => {},
        }
        assert(self.held() =~= old(self).held().remove((client, name@)));
    }

    /// Forgets a name that is noted of a client beside the links.
    pub(crate) fn forget(&mut self, client: u64, name: &[u8])
        requires
            old(self).wf(),
            !old(self)@.contains((client, name@)),
        ensures
            final(self).wf(),
            final(self)@ == old(self)@,
            final(self).held() == old(self).held().remove((client, name@)),
    {
        self.forget_name(client, name);
        assert(self@ =~= old(self)@);
    }

    /// Links a client and a name, and says whether they were not linked before.
    pub(crate) fn link(&mut self, client: u64, name: Bytes) -> (r: bool)
        requires
            old(self).wf(),
        ensures
            final(self).wf(),
            final(self)@ == old(self)@.insert((client, content(name))),
            final(self).held() == old(self).held().insert((client, content(name))),
            r == !old(self)@.contains((client, content(name))),
    {
        let ghost n = content(name);
        let key = name.clone();
        let newly: bool = match self.by_name.remove_entry(name.as_ref()) {
            Some((kept, mut clients)) => {
                let newly: bool = clients.insert(client);
                self.by_name.insert(kept, clients);
                newly
            },
            None => {
                let mut clients = ClientSet::new();
                let newly: bool = clients.insert(client);
                self.by_name.insert(key, clients);
                newly
            },
        };
        let mut names = match self.by_client.remove(client) {
            Some(names) => names,
            None => NameSet::new(),
        };
        names.insert(name);
        self.by_client.insert(client, names);
        proof {
            assert(self.by_name@[n].contains(client));
            assert(self.by_client@[client].contains(n));
            assert(self@ =~= old(self)@.insert((client, n)));
            assert(self.held() =~= old(self).held().insert((client, n)));
        }
        newly
    }

    /// Unlinks a client and a name, and says whether they were linked.
    pub(crate) fn unlink(&mut self, client: u64, name: &[u8]) -> (r: bool)
        requires
            old(self).wf(),
        ensures
            final(self).wf(),
            final(self)@ == old(self)@.remove((client, name@)),
            final(self).held() == old(self).held().remove((client, name@)),
            r == old(self)@.contains((client, name@)),
    {
        let was: bool = self.drop_client(client, name);
        let ghost links = self@;
        self.forget_name(client, name);
        assert(self@ =~= links);
        was
    }

    /// Takes a client off a name in the table of names, and the name out where it was the last.
    fn drop_client(&mut self, client: u64, name: &[u8]) -> (r: bool)
        requires
            old(self)@.finite(),
            forall|n: Seq<u8>| #[trigger]
                old(self).by_name@.dom().contains(n) ==> old(self).by_name@[n].finite()
                    && old(self).by_name@[n].len() > 0,
        ensures
            final(self).by_client == old(self).by_client,
            final(self)@ == old(self)@.remove((client, name@)),
            final(self)@.finite(),
            forall|n: Seq<u8>| #[trigger]
                final(self).by_name@.dom().contains(n) ==> final(self).by_name@[n].finite()
                    && final(self).by_name@[n].len() > 0,
            r == old(self)@.contains((client, name@)),
    {
        let was: bool = match self.by_name.remove_entry(name) {
            Some((kept, mut clients)) => {
                let was: bool = clients.remove(client);
                if clients.len() > 0 {
                    self.by_name.insert(kept, clients);
                } else {
                    assert(clients@ =~= Set::<u64>::empty());
                }
                was
            },
            None => false,
        };
        assert(self@ =~= old(self)@.remove((client, name@)));
        was
    }

    /// Unlinks a client from every name, forgets what is noted of it, and gives all those names,
    /// each once, in no particular order.
    pub(crate) fn unlink_all(&mut self, client: u64) -> (r: Vec<Bytes>)
        requires
            old(self).wf(),
        ensures
            final(self).wf(),
            final(self)@ == without_client(old(self)@, client),
            final(self).held() == without_client(old(self).held(), client),
            contents(r@).no_duplicates(),
            contents(r@).to_set() == names_of(old(self).held(), client),
    {
        proof {
            self.lemma_sides(client, Seq::empty());
        }
        match self.by_client.remove(client) {
            Some(names) => {
                let left: Vec<Bytes> = names.to_vec();
                let ghost all = contents(left@);
                let mut i: usize = 0;
                assert(self@ =~= old(self)@);
                while i < left.len()
                    invariant
                        i <= left.len(),
                        all == contents(left@),
                        self@.finite(),
                        forall|n: Seq<u8>| #[trigger]
                            self.by_name@.dom().contains(n) ==> self.by_name@[n].finite()
                                && self.by_name@[n].len() > 0,
                        forall|c: u64, n: Seq<u8>|
                            #![trigger self@.contains((c, n))]
                            self@.contains((c, n)) <==> (old(self)@.contains((c, n)) && !(c
                                == client && all.take(i as int).contains(n))),
                        self.by_client@ == old(self).by_client@.remove(client),
                    decreases left.len() - i,
                {
                    let ghost before = self@;
                    self.drop_client(client, left[i].as_ref());
                    proof {
                        let n = content(left@[i as int]);
                        assert(all[i as int] == n);
                        assert forall|c: u64, m: Seq<u8>|
                            #![trigger self@.contains((c, m))]
                            self@.contains((c, m)) <==> (old(self)@.contains((c, m)) && !(c
                                == client && all.take(i + 1).contains(m))) by {
                            assert(self@.contains((c, m)) == (before.contains((c, m)) && (c, m) != (
                                client,
                                n,
                            )));
                            lemma_take_one_more(all, i as int, m);
                        }
                    }
                    i += 1;
                }
                proof {
                    assert(all.take(i as int) == all);
                    let rest = without_client(old(self)@, client);
                    assert forall|p: (u64, Seq<u8>)| self@.contains(p) == rest.contains(p) by {
                        assert(self@.contains((p.0, p.1)) == rest.contains((p.0, p.1))) by {
                            if p.0 == client && old(self)@.contains((p.0, p.1)) {
                                assert(old(self).held().contains((p.0, p.1)));
                                assert(names_of(old(self).held(), client).contains(p.1));
                                assert(all.to_set().contains(p.1));
                            }
                        }
                    }
                    assert(self@ =~= rest);
                    self.lemma_rest(*old(self), client);
                }
                left
            },
            None => {
                let left: Vec<Bytes> = Vec::new();
                proof {
                    assert forall|p: (u64, Seq<u8>)| old(self)@.contains(p) implies p.0
                        != client by {
                        assert(old(self).held().contains(p));
                    }
                    assert(self@ =~= without_client(old(self)@, client));
                    assert(contents(left@).to_set() =~= Set::<Seq<u8>>::empty());
                    self.lemma_rest(*old(self), client);
                }
                left
            },
        }
    }

    /// What is left of the side of the clients without one of them.
    proof fn lemma_rest(&self, before: Roster, client: u64)
        requires
            before.wf(),
            self.by_client@ == before.by_client@.remove(client),
            self@ == without_client(before@, client),
        ensures
            self.held() == without_client(before.held(), client),
            self@.finite(),
            self.held().finite(),
            self@.subset_of(self.held()),
    {
        assert(self.held() =~= without_client(before.held(), client));
        before@.lemma_len_filter(|p: (u64, Seq<u8>)| p.0 != client);
        before.held().lemma_len_filter(|p: (u64, Seq<u8>)| p.0 != client);
        assert forall|p: (u64, Seq<u8>)| self@.contains(p) implies self.held().contains(p) by {
            assert(before@.contains(p));
            assert(before.held().contains(p));
        }
    }

    /// The names that a client is linked to, here or elsewhere: each once, in no particular order.
    pub(crate) fn names_for(&self, client: u64) -> (r: Vec<Bytes>)
        requires
            self.wf(),
        ensures
            contents(r@).no_duplicates(),
            contents(r@).to_set() == names_of(self.held(), client),
    {
        proof {
            self.lemma_sides(client, Seq::empty());
        }
        match self.by_client.get(client) {
            Some(names) => names.to_vec(),
            None => {
                let none: Vec<Bytes> = Vec::new();
                assert(contents(none@).to_set() =~= Set::<Seq<u8>>::empty());
                none
            },
        }
    }

    /// How many names a client is linked to, here or elsewhere.
    pub(crate) fn count(&self, client: u64) -> (r: usize)
        requires
            self.wf(),
        ensures
            r == names_of(self.held(), client).len(),
    {
        proof {
            self.lemma_sides(client, Seq::empty());
        }
        match self.by_client.get(client) {
            Some(names) => names.len(),
            None => 0,
        }
    }

    /// How many clients a name is linked to.
    pub(crate) fn count_clients(&self, name: &[u8]) -> (r: usize)
        requires
            self.wf(),
        ensures
            r == clients_of(self@, name@).len(),
    {
        proof {
            self.lemma_sides(0, name@);
        }
        match self.by_name.get(name) {
            Some(clients) => clients.len(),
            None => 0,
        }
    }

    /// The clients that a name is linked to, each once, in no particular order.
    pub(crate) fn clients(&self, name: &[u8]) -> (r: Vec<u64>)
        requires
            self.wf(),
        ensures
            r@.no_duplicates(),
            r@.to_set() == clients_of(self@, name@),
    {
        proof {
            self.lemma_sides(0, name@);
        }
        match self.by_name.get(name) {
            Some(clients) => clients.to_vec(),
            None => {
                let none: Vec<u64> = Vec::new();
                assert(none@.to_set() =~= Set::<u64>::empty());
                none
            },
        }
    }

    /// A name is in the table of names where it has a client.
    proof fn lemma_names(&self)
        requires
            self.wf(),
        ensures
            names_taken(self@) == self.by_name@.dom(),
    {
        assert forall|n: Seq<u8>| names_taken(self@).contains(n)
            == self.by_name@.dom().contains(n) by {
            if self.by_name@.dom().contains(n) {
                let c = self.by_name@[n].choose();
                assert(self@.contains((c, n)));
            }
        }
        assert(names_taken(self@) =~= self.by_name@.dom());
    }

    /// The names that have a client, each once, in no particular order.
    pub(crate) fn names(&self) -> (r: Vec<Bytes>)
        requires
            self.wf(),
        ensures
            contents(r@).no_duplicates(),
            contents(r@).to_set() == names_taken(self@),
    {
        proof {
            self.lemma_names();
        }
        self.by_name.keys()
    }

    /// How many names have a client.
    pub(crate) fn count_names(&self) -> (r: usize)
        requires
            self.wf(),
        ensures
            r == names_taken(self@).len(),
    {
        proof {
            self.lemma_names();
        }
        self.by_name.len()
    }
}

} // verus!
