use vstd::prelude::*;

verus! {

/// What a failed send does to the client's entry.
#[derive(Debug, Clone, Copy, PartialEq, Eq, Structural)]
pub enum SendFailurePolicy {
    /// The entry stays: a direct send to one client.
    Keep,
    /// The entry goes: a broadcast.
    Remove,
}

/// Whether an entry survives a send that did or did not go through.
pub open spec fn keeps_entry(delivered: bool, policy: SendFailurePolicy) -> bool {
    delivered || policy == SendFailurePolicy::Keep
}

/// A client that closed its connection is removed, so it is no longer
/// registered, and a later broadcast snapshot, which holds only registered
/// ids, does not reach it.
pub proof fn lemma_closed_client_gone<S>(m: Map<Seq<char>, S>, id: Seq<char>, later: Seq<Seq<char>>)
    requires
        later.to_set() == m.remove(id).dom(),
    ensures
        !m.remove(id).contains_key(id),
        !later.contains(id),
{
    if later.contains(id) {
        assert(later.to_set().contains(id));
    }
}

/// A broadcast in progress over a registry: the snapshot of its ids, how
/// far the pass has got, and which sends failed. Each target's sender is
/// taken out, the message is sent on it, and the outcome is recorded;
/// only failed clients stay out.
pub struct BroadcastPass<S> {
    targets: Vec<String>,
    next: usize,
    start: Ghost<Map<Seq<char>, S>>,
    failed: Ghost<Set<Seq<char>>>,
    held: Ghost<Option<(Seq<char>, S)>>,
}

impl<S> BroadcastPass<S> {
    /// The registry when the pass began.
    pub closed spec fn spec_start(&self) -> Map<Seq<char>, S> {
        self.start@
    }

    /// The clients whose send failed so far.
    pub closed spec fn spec_failed(&self) -> Set<Seq<char>> {
        self.failed@
    }

    /// The ids the pass walks, in order.
    pub closed spec fn spec_targets(&self) -> Seq<Seq<char>> {
        self.targets@.map_values(|t: String| t@)
    }

    /// How many targets were taken so far.
    pub closed spec fn spec_next(&self) -> nat {
        self.next as nat
    }

    /// The client whose send is under way, with its sender.
    pub closed spec fn spec_held(&self) -> Option<(Seq<char>, S)> {
        self.held@
    }

    /// The registry matches the pass: every client whose send failed is
    /// gone, and so is the one whose send is under way; all others are as
    /// they were when the pass began.
    pub closed spec fn inv(&self, reg: &ConnectionRegistry<S>) -> bool {
        &&& reg.wf()
        &&& self.next <= self.targets.len()
        &&& forall|i: int, j: int| 0 <= i < j < self.targets.len() ==> self.targets@[i]@ != self.targets@[j]@
        &&& forall|k: Seq<char>| self.start@.contains_key(k) <==> exists|i: int| 0 <= i < self.targets.len() && #[trigger] self.targets@[i]@ == k
        &&& forall|k: Seq<char>| #[trigger] self.failed@.contains(k) ==> exists|i: int| 0 <= i < self.next && self.targets@[i]@ == k
        &&& match self.held@ {
            None => reg@ == self.start@.remove_keys(self.failed@),
            Some((k, s)) => self.next > 0 && k == self.targets@[self.next - 1]@ && self.start@.contains_key(k)
                && s == self.start@[k] && !self.failed@.contains(k)
                && reg@ == self.start@.remove_keys(self.failed@).remove(k),
        }
    }

    /// Starts a pass over every client registered now.
    pub fn begin(reg: &ConnectionRegistry<S>) -> (r: Self)
        requires
            reg.wf(),
        ensures
            r.inv(reg),
            r.spec_start() == reg@,
            r.spec_failed() == Set::<Seq<char>>::empty(),
            r.spec_next() == 0,
            r.spec_held() is None,
            r.spec_targets().len() == reg@.len(),
    {
        let targets = reg.ids();
        let ghost tv = targets@;
        let r = BroadcastPass {
            targets,
            next: 0,
            start: Ghost(reg@),
            failed: Ghost(Set::empty()),
            held: Ghost(None),
        };
        assert(reg@ =~= reg@.remove_keys(Set::empty()));
        assert(forall|i: int, j: int| 0 <= i < j < r.targets.len() ==> r.targets@[i]@ != r.targets@[j]@);
        assert(r.targets@ == tv);
        assert forall|k: Seq<char>| r.start@.contains_key(k) <==> exists|i: int| 0 <= i < r.targets.len() && #[trigger] r.targets@[i]@ == k by {
            if r.start@.contains_key(k) {
                let i = choose|i: int| 0 <= i < tv.len() && #[trigger] tv[i]@ == k;
                assert(r.targets@[i]@ == k);
            }
        }
        r
    }

    /// Takes the next target's sender out of the registry, or `None` when
    /// every target was taken: then the registry holds exactly the clients
    /// of the start whose send did not fail.
    pub fn take_next(&mut self, reg: &mut ConnectionRegistry<S>) -> (r: Option<(String, S)>)
        requires
            old(self).inv(old(reg)),
            old(self).spec_held() is None,
        ensures
            final(self).inv(final(reg)),
            final(self).spec_start() == old(self).spec_start(),
            final(self).spec_failed() == old(self).spec_failed(),
            final(self).spec_targets() == old(self).spec_targets(),
            match r {
                Some((id, s)) => old(self).spec_next() < old(self).spec_targets().len()
                    && id@ == old(self).spec_targets()[old(self).spec_next() as int]
                    && s == old(self).spec_start()[id@]
                    && final(self).spec_next() == old(self).spec_next() + 1
                    && final(self).spec_held() == Some((id@, s)),
                None => old(self).spec_next() == old(self).spec_targets().len()
                    && final(self).spec_held() is None
                    && final(reg)@ == old(self).spec_start().remove_keys(old(self).spec_failed()),
            },
    {
        if self.next >= self.targets.len() {
            return None;
        }
        let id = self.targets[self.next].clone();
        let ghost k = id@;
        proof {
            assert(self.start@.contains_key(k));
            if self.failed@.contains(k) {
                let i = choose|i: int| 0 <= i < self.next && self.targets@[i]@ == k;
                assert(self.targets@[i]@ != self.targets@[self.next as int]@);
            }
        }
        let taken = reg.remove(&id);
        let sender = taken.unwrap();
        self.next = self.next + 1;
        proof {
            self.held@ = Some((k, sender));
            assert forall|x: Seq<char>| #[trigger] self.failed@.contains(x) implies exists|i: int| 0 <= i < self.next && self.targets@[i]@ == x by {
                let i = choose|i: int| 0 <= i < self.next - 1 && self.targets@[i]@ == x;
            }
        }
        Some((id, sender))
    }

    /// Puts the sender taken last back if its send went through; records
    /// the client as failed, and leaves it out, if not.
    pub fn complete(&mut self, reg: &mut ConnectionRegistry<S>, id: String, sender: S, delivered: bool)
        requires
            old(self).inv(old(reg)),
            old(self).spec_held() == Some((id@, sender)),
        ensures
            final(self).inv(final(reg)),
            final(self).spec_start() == old(self).spec_start(),
            final(self).spec_targets() == old(self).spec_targets(),
            final(self).spec_next() == old(self).spec_next(),
            final(self).spec_held() is None,
            final(self).spec_failed() == (if delivered { old(self).spec_failed() } else { old(self).spec_failed().insert(id@) }),
    {
        let ghost k = id@;
        reg.settle(id, sender, delivered, SendFailurePolicy::Remove);
        proof {
            let m0 = self.start@;
            let f0 = self.failed@;
            if delivered {
                assert(reg@ =~= m0.remove_keys(f0));
            } else {
                self.failed@ = f0.insert(k);
                assert(reg@ =~= m0.remove_keys(self.failed@));
                assert forall|x: Seq<char>| #[trigger] self.failed@.contains(x) implies exists|i: int| 0 <= i < self.next && self.targets@[i]@ == x by {
                    if x == k {
                        assert(self.targets@[self.next - 1]@ == x);
                    }
                }
            }
            self.held@ = None;
        }
    }
}

/// A finished pass: the registry holds every client of the start but
/// those whose send failed, each with its own sender, and every client of
/// the start was a target exactly once.
pub proof fn lemma_finished_pass<S>(pass: BroadcastPass<S>, reg: ConnectionRegistry<S>)
    requires
        pass.inv(&reg),
        pass.spec_held() is None,
        pass.spec_next() == pass.spec_targets().len(),
    ensures
        reg@ == pass.spec_start().remove_keys(pass.spec_failed()),
        pass.spec_failed() == Set::<Seq<char>>::empty() ==> reg@ == pass.spec_start(),
        pass.spec_failed().subset_of(pass.spec_start().dom()),
        forall|k: Seq<char>| pass.spec_start().contains_key(k) <==> pass.spec_targets().contains(k),
        pass.spec_targets().no_duplicates(),
{
    let t = pass.spec_targets();
    assert(pass.spec_start().remove_keys(Set::empty()) =~= pass.spec_start());
    assert forall|k: Seq<char>| pass.spec_start().contains_key(k) <==> t.contains(k) by {
        if pass.spec_start().contains_key(k) {
            let i = choose|i: int| 0 <= i < pass.targets.len() && #[trigger] pass.targets@[i]@ == k;
            assert(t[i] == k);
        }
        if t.contains(k) {
            let i = choose|i: int| 0 <= i < t.len() && t[i] == k;
            assert(pass.targets@[i]@ == k);
        }
    }
    assert forall|k: Seq<char>| pass.spec_failed().contains(k) implies pass.spec_start().dom().contains(k) by {
        let i = choose|i: int| 0 <= i < pass.next && pass.targets@[i]@ == k;
    }
    assert forall|i: int, j: int| 0 <= i < t.len() && 0 <= j < t.len() && i != j implies t[i] != t[j] by {
        if i < j {
            assert(pass.targets@[i]@ != pass.targets@[j]@);
        } else {
            assert(pass.targets@[j]@ != pass.targets@[i]@);
        }
    }
}

/// The clients of a WebSocket server: each id maps to the outbound half
/// of its connection. Ids are unique.
pub struct ConnectionRegistry<S> {
    ids: Vec<String>,
    senders: Vec<S>,
    model: Ghost<Map<Seq<char>, S>>,
}

impl<S> View for ConnectionRegistry<S> {
    type V = Map<Seq<char>, S>;

    closed spec fn view(&self) -> Map<Seq<char>, S> {
        self.model@
    }
}

impl<S> ConnectionRegistry<S> {
    /// The two vectors run in step, the ids are unique, and the model maps
    /// each id to the sender at its position and holds nothing else.
    pub closed spec fn wf(&self) -> bool {
        &&& self.ids.len() == self.senders.len()
        &&& forall|i: int, j: int|
            0 <= i < j < self.ids.len() ==> self.ids@[i]@ != self.ids@[j]@
        &&& forall|i: int|
            0 <= i < self.ids.len() ==> #[trigger] self.model@.contains_key(self.ids@[i]@)
                && self.model@[self.ids@[i]@] == self.senders@[i]
        &&& forall|k: Seq<char>|
            #[trigger] self.model@.contains_key(k) ==> exists|i: int|
                0 <= i < self.ids.len() && self.ids@[i]@ == k
    }

    pub fn new() -> (r: Self)
        ensures
            r.wf(),
            r@ == Map::<Seq<char>, S>::empty(),
    {
        ConnectionRegistry { ids: Vec::new(), senders: Vec::new(), model: Ghost(Map::empty()) }
    }

    /// The position of `id`, if it is registered.
    fn position(&self, id: &String) -> (r: Option<usize>)
        requires
            self.wf(),
        ensures
            match r {
                Some(i) => i < self.ids.len() && self.ids@[i as int]@ == id@,
                None => !self@.contains_key(id@),
            },
    {
        let mut i: usize = 0;
        while i < self.ids.len()
            invariant
                self.wf(),
                i <= self.ids.len(),
                forall|j: int| 0 <= j < i ==> self.ids@[j]@ != id@,
            decreases self.ids.len() - i,
        {
            if self.ids[i] == *id {
                return Some(i);
            }
            i = i + 1;
        }
        None
    }

    pub fn len(&self) -> (r: usize)
        requires
            self.wf(),
        ensures
            r == self@.len(),
    {
        proof { self.lemma_len(); }
        self.ids.len()
    }

    proof fn lemma_len(&self)
        requires
            self.wf(),
        ensures
            self@.len() == self.ids.len(),
            self@.dom() == Set::new(|k: Seq<char>| exists|i: int| 0 <= i < self.ids.len() && self.ids@[i]@ == k),
    {
        let ks = self.ids@.map_values(|s: String| s@);
        assert(self@.dom() =~= ks.to_set()) by {
            assert forall|k: Seq<char>| self@.dom().contains(k) implies ks.to_set().contains(k) by {
                let i = choose|i: int| 0 <= i < self.ids.len() && self.ids@[i]@ == k;
                assert(ks[i] == k);
            }
            assert forall|k: Seq<char>| ks.to_set().contains(k) implies self@.dom().contains(k) by {
                let i = choose|i: int| 0 <= i < ks.len() && ks[i] == k;
                assert(self@.contains_key(self.ids@[i]@));
            }
        }
        assert(ks.no_duplicates());
        ks.unique_seq_to_set();
        assert(self@.dom() =~= Set::new(|k: Seq<char>| exists|i: int| 0 <= i < self.ids.len() && self.ids@[i]@ == k)) by {
            assert forall|k: Seq<char>| self@.dom().contains(k) implies exists|i: int| 0 <= i < self.ids.len() && self.ids@[i]@ == k by {}
            assert forall|k: Seq<char>| (exists|i: int| 0 <= i < self.ids.len() && self.ids@[i]@ == k) implies self@.dom().contains(k) by {
                let i = choose|i: int| 0 <= i < self.ids.len() && self.ids@[i]@ == k;
                assert(self@.contains_key(self.ids@[i]@));
            }
        }
    }

    pub fn contains(&self, id: &String) -> (r: bool)
        requires
            self.wf(),
        ensures
            r == self@.contains_key(id@),
    {
        self.position(id).is_some()
    }

    /// Registers `sender` under `id`; an entry already under `id` is replaced.
    pub fn insert(&mut self, id: String, sender: S)
        requires
            old(self).wf(),
        ensures
            final(self).wf(),
            final(self)@ == old(self)@.insert(id@, sender),
    {
        match self.position(&id) {
            Some(i) => {
                self.senders[i] = sender;
                proof {
                    self.model@ = self.model@.insert(id@, sender);
                    assert forall|a: int| 0 <= a < self.ids.len() implies #[trigger] self.model@.contains_key(self.ids@[a]@)
                        && self.model@[self.ids@[a]@] == self.senders@[a] by {
                        if a != i {
                            if a < i {
                                assert(self.ids@[a]@ != self.ids@[i as int]@);
                            } else {
                                assert(self.ids@[i as int]@ != self.ids@[a]@);
                            }
                            assert(old(self).model@.contains_key(old(self).ids@[a]@));
                        }
                    }
                }
                assert forall|k: Seq<char>| #[trigger] self.model@.contains_key(k) implies exists|j: int|
                    0 <= j < self.ids.len() && self.ids@[j]@ == k by {
                    if k != id@ {
                        assert(old(self).model@.contains_key(k));
                        let j = choose|j: int| 0 <= j < old(self).ids.len() && old(self).ids@[j]@ == k;
                        assert(self.ids@[j]@ == k);
                    } else {
                        assert(self.ids@[i as int]@ == k);
                    }
                }
            },
            None => {
                let ghost k0 = id@;
                self.ids.push(id);
                self.senders.push(sender);
                proof {
                    self.model@ = self.model@.insert(k0, sender);
                    let n = old(self).ids.len();
                    assert forall|j: int| 0 <= j < n implies old(self).ids@[j]@ != k0 by {
                        assert(old(self).model@.contains_key(old(self).ids@[j]@));
                    }
                    assert forall|a: int, b: int| 0 <= a < b < self.ids.len() implies self.ids@[a]@ != self.ids@[b]@ by {
                        if b == n {
                            assert(old(self).ids@[a]@ != k0);
                        } else {
                            assert(old(self).ids@[a] == self.ids@[a]);
                        }
                    }
                    assert forall|a: int| 0 <= a < self.ids.len() implies #[trigger] self.model@.contains_key(self.ids@[a]@)
                        && self.model@[self.ids@[a]@] == self.senders@[a] by {
                        if a < n {
                            assert(old(self).ids@[a]@ != k0);
                            assert(old(self).model@.contains_key(old(self).ids@[a]@));
                        }
                    }
                }
                assert forall|k: Seq<char>| #[trigger] self.model@.contains_key(k) implies exists|j: int|
                    0 <= j < self.ids.len() && self.ids@[j]@ == k by {
                    if k == k0 {
                        assert(self.ids@[self.ids.len() - 1]@ == k);
                    } else {
                        assert(old(self).model@.contains_key(k));
                        let j = choose|j: int| 0 <= j < old(self).ids.len() && old(self).ids@[j]@ == k;
                        assert(self.ids@[j]@ == k);
                    }
                }
            },
        }
    }

    /// Takes the entry under `id` out and hands its sender back; `None`,
    /// with nothing changed, when `id` is not registered.
    pub fn remove(&mut self, id: &String) -> (r: Option<S>)
        requires
            old(self).wf(),
        ensures
            final(self).wf(),
            final(self)@ == old(self)@.remove(id@),
            r == (if old(self)@.contains_key(id@) { Some(old(self)@[id@]) } else { None }),
    {
        match self.position(id) {
            Some(i) => {
                let ghost old_ids = self.ids@;
                let ghost old_senders = self.senders@;
                self.ids.remove(i);
                let s = self.senders.remove(i);
                proof {
                    self.model@ = self.model@.remove(id@);
                    assert forall|a: int, b: int| 0 <= a < b < self.ids.len() implies self.ids@[a]@ != self.ids@[b]@ by {
                        let a0 = if a < i { a } else { a + 1 };
                        let b0 = if b < i { b } else { b + 1 };
                        assert(self.ids@[a] == old_ids[a0]);
                        assert(self.ids@[b] == old_ids[b0]);
                    }
                    assert forall|a: int| 0 <= a < self.ids.len() implies #[trigger] self.model@.contains_key(self.ids@[a]@)
                        && self.model@[self.ids@[a]@] == self.senders@[a] by {
                        let a0 = if a < i { a } else { a + 1 };
                        assert(self.ids@[a] == old_ids[a0]);
                        assert(self.senders@[a] == old_senders[a0]);
                        if a0 < i {
                            assert(old_ids[a0]@ != old_ids[i as int]@);
                        } else {
                            assert(old_ids[i as int]@ != old_ids[a0]@);
                        }
                        assert(old(self).model@.contains_key(old_ids[a0]@));
                    }
                    assert forall|k: Seq<char>| #[trigger] self.model@.contains_key(k) implies exists|j: int|
                        0 <= j < self.ids.len() && self.ids@[j]@ == k by {
                        let j0 = choose|j: int| 0 <= j < old_ids.len() && old_ids[j]@ == k;
                        if j0 < i {
                            assert(self.ids@[j0]@ == k);
                        } else {
                            assert(j0 != i);
                            assert(self.ids@[j0 - 1]@ == k);
                        }
                    }
                }
                Some(s)
            },
            None => {
                assert(self@ =~= old(self)@.remove(id@));
                None
            },
        }
    }

    /// Every registered id, each once: the snapshot a broadcast walks.
    pub fn ids(&self) -> (r: Vec<String>)
        requires
            self.wf(),
        ensures
            forall|k: Seq<char>| self@.contains_key(k) <==> exists|i: int| 0 <= i < r.len() && #[trigger] r@[i]@ == k,
            forall|i: int, j: int| 0 <= i < j < r.len() ==> r@[i]@ != r@[j]@,
            r.len() == self@.len(),
    {
        proof { self.lemma_len(); }
        let mut out: Vec<String> = Vec::new();
        let mut i: usize = 0;
        while i < self.ids.len()
            invariant
                self.wf(),
                i <= self.ids.len(),
                out.len() == i,
                forall|j: int| 0 <= j < i ==> out@[j]@ == self.ids@[j]@,
            decreases self.ids.len() - i,
        {
            out.push(self.ids[i].clone());
            i = i + 1;
        }
        assert forall|k: Seq<char>| self@.contains_key(k) <==> exists|i: int| 0 <= i < out.len() && #[trigger] out@[i]@ == k by {
            if self@.contains_key(k) {
                let j = choose|j: int| 0 <= j < self.ids.len() && self.ids@[j]@ == k;
                assert(out@[j]@ == k);
            }
            if exists|i: int| 0 <= i < out.len() && #[trigger] out@[i]@ == k {
                let j = choose|j: int| 0 <= j < out.len() && #[trigger] out@[j]@ == k;
                assert(self@.contains_key(self.ids@[j]@));
            }
        }
        out
    }

    /// Drops every entry.
    pub fn clear(&mut self)
        requires
            old(self).wf(),
        ensures
            final(self).wf(),
            final(self)@ == Map::<Seq<char>, S>::empty(),
    {
        self.ids.clear();
        self.senders.clear();
        proof {
            self.model@ = Map::empty();
        }
    }

    /// Puts a sender that was taken out for a send back under `id`, or
    /// drops it: it stays when the send went through, or when it failed
    /// and `policy` keeps entries on failure.
    pub fn settle(&mut self, id: String, sender: S, delivered: bool, policy: SendFailurePolicy)
        requires
            old(self).wf(),
        ensures
            final(self).wf(),
            final(self)@ == (if keeps_entry(delivered, policy) { old(self)@.insert(id@, sender) } else { old(self)@ }),
    {
        match policy {
            SendFailurePolicy::Keep => self.insert(id, sender),
            SendFailurePolicy::Remove => {
                if delivered {
                    self.insert(id, sender);
                }
            },
        }
    }

    /// Takes every entry out, for the senders to be closed one by one, and
    /// leaves the registry empty.
    pub fn drain(&mut self) -> (r: Vec<(String, S)>)
        requires
            old(self).wf(),
        ensures
            final(self).wf(),
            final(self)@ == Map::<Seq<char>, S>::empty(),
            r.len() == old(self)@.len(),
            forall|i: int| 0 <= i < r.len() ==> old(self)@.contains_key(#[trigger] r@[i].0@)
                && old(self)@[r@[i].0@] == r@[i].1,
            forall|k: Seq<char>| old(self)@.contains_key(k) ==> exists|i: int| 0 <= i < r.len() && #[trigger] r@[i].0@ == k,
            forall|i: int, j: int| 0 <= i < j < r.len() ==> r@[i].0@ != r@[j].0@,
    {
        proof { self.lemma_len(); }
        let ghost ids0 = self.ids@;
        let ghost senders0 = self.senders@;
        let ghost n = self.ids.len() as int;
        let mut out: Vec<(String, S)> = Vec::new();
        while self.ids.len() > 0
            invariant
                old(self).wf(),
                self.model@ == old(self).model@,
                ids0 == old(self).ids@,
                senders0 == old(self).senders@,
                self.ids.len() == self.senders.len(),
                self.ids.len() + out.len() == n,
                ids0.len() == n,
                senders0.len() == n,
                self.ids@ == ids0.subrange(0, self.ids.len() as int),
                self.senders@ == senders0.subrange(0, self.senders.len() as int),
                forall|j: int| 0 <= j < out.len() ==> #[trigger] out@[j].0 == ids0[n - 1 - j] && out@[j].1 == senders0[n - 1 - j],
            decreases self.ids.len(),
        {
            let id = self.ids.pop().unwrap();
            let sender = self.senders.pop().unwrap();
            out.push((id, sender));
            assert(self.ids@ =~= ids0.subrange(0, self.ids.len() as int));
            assert(self.senders@ =~= senders0.subrange(0, self.senders.len() as int));
        }
        proof {
            let m0 = self.model@;
            self.model@ = Map::empty();
            assert forall|i: int| 0 <= i < out.len() implies m0.contains_key(#[trigger] out@[i].0@) && m0[out@[i].0@] == out@[i].1 by {
                assert(out@[i].0 == ids0[n - 1 - i]);
                assert(old(self).model@.contains_key(old(self).ids@[n - 1 - i]@));
            }
            assert forall|k: Seq<char>| m0.contains_key(k) implies exists|i: int| 0 <= i < out.len() && #[trigger] out@[i].0@ == k by {
                assert(old(self).model@.contains_key(k));
                let j = choose|j: int| 0 <= j < old(self).ids.len() && old(self).ids@[j]@ == k;
                assert(out@[n - 1 - j].0 == ids0[j]);
            }
            assert forall|i: int, j: int| 0 <= i < j < out.len() implies out@[i].0@ != out@[j].0@ by {
                assert(out@[i].0 == ids0[n - 1 - i]);
                assert(out@[j].0 == ids0[n - 1 - j]);
            }
        }
        out
    }
}

} // verus!
