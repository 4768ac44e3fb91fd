use crate::outside::{clone_sender, offer_to};
use futures::channel::mpsc::Sender;
use vstd::prelude::*;

verus! {

/// One connection's interest in one key, with the record of what was
/// offered to its channel on behalf of this subscription.
pub struct Subscription {
    pub key: String,
    pub client: u64,
    pub sender: Sender<String>,
    /// The messages handed to the channel, in order.
    pub offered: Ghost<Seq<Seq<char>>>,
    /// How many of them the channel took.
    pub accepted: Ghost<nat>,
}

/// Whether some connection is subscribed to `key` in `subs`.
pub open spec fn subscribed(subs: Seq<(Seq<char>, u64)>, key: Seq<char>) -> bool {
    exists|i: int| 0 <= i < subs.len() && (#[trigger] subs[i]).0 == key
}

/// The (key, connection id) pairs of a list of subscriptions.
pub open spec fn pairs_of(subs: Seq<Subscription>) -> Seq<(Seq<char>, u64)> {
    subs.map_values(|s: Subscription| (s.key@, s.client))
}

/// What each subscription of a list was offered.
pub open spec fn logs_of(subs: Seq<Subscription>) -> Seq<Seq<Seq<char>>> {
    subs.map_values(|s: Subscription| s.offered@)
}

/// The logs after `message` goes to every subscription to `key`: each such
/// subscription's log gains it once, the others stay as they were.
pub open spec fn deliver(
    subs: Seq<(Seq<char>, u64)>,
    logs: Seq<Seq<Seq<char>>>,
    key: Seq<char>,
    message: Seq<char>,
) -> Seq<Seq<Seq<char>>> {
    Seq::new(
        logs.len(),
        |i: int|
            if subs[i].0 == key {
                logs[i].push(message)
            } else {
                logs[i]
            },
    )
}

/// How many messages the channels of a list of subscriptions took.
pub open spec fn accepted_total(subs: Seq<Subscription>) -> nat
    decreases subs.len(),
{
    if subs.len() == 0 {
        0
    } else {
        accepted_total(subs.drop_last()) + subs.last().accepted@
    }
}

proof fn lemma_accepted_update(subs: Seq<Subscription>, i: int, s: Subscription)
    requires
        0 <= i < subs.len(),
    ensures
        accepted_total(subs.update(i, s)) + subs[i].accepted@ == accepted_total(subs)
            + s.accepted@,
    decreases subs.len(),
{
    if i < subs.len() - 1 {
        assert(subs.update(i, s).drop_last() =~= subs.drop_last().update(i, s));
        lemma_accepted_update(subs.drop_last(), i, s);
    } else {
        assert(subs.update(i, s).drop_last() =~= subs.drop_last());
    }
}

/// How many subscriptions in `subs` are to `key`.
pub open spec fn count_for(subs: Seq<(Seq<char>, u64)>, key: Seq<char>) -> nat
    decreases subs.len(),
{
    if subs.len() == 0 {
        0
    } else {
        count_for(subs.drop_last(), key) + if subs.last().0 == key {
            1nat
        } else {
            0nat
        }
    }
}

/// The watch registry: which connections follow which keys.
pub struct Watchers {
    pub subs: Vec<Subscription>,
}

impl Watchers {
    /// The (key, connection id) pairs of the registry.
    pub open spec fn pairs(&self) -> Seq<(Seq<char>, u64)> {
        pairs_of(self.subs@)
    }

    /// What each subscription was offered, in registry order.
    pub open spec fn logs(&self) -> Seq<Seq<Seq<char>>> {
        logs_of(self.subs@)
    }

    pub fn new() -> (r: Self)
        ensures
            r.pairs() == Seq::<(Seq<char>, u64)>::empty(),
            r.logs() == Seq::<Seq<Seq<char>>>::empty(),
    {
        let r = Watchers { subs: Vec::new() };
        assert(r.logs() =~= Seq::<Seq<Seq<char>>>::empty());
        r
    }

    /// Subscribes connection `client` to `key`, unless it already is.
    pub fn subscribe(&mut self, key: &String, client: u64, sender: &Sender<String>)
        ensures
            old(self).pairs().contains((key@, client)) ==> final(self).pairs() == old(self).pairs()
                && final(self).logs() == old(self).logs(),
            !old(self).pairs().contains((key@, client)) ==> final(self).pairs() == old(
                self,
            ).pairs().push((key@, client)) && final(self).logs() == old(self).logs().push(
                Seq::empty(),
            ),
    {
        let mut i: usize = 0;
        while i < self.subs.len()
            invariant
                i <= self.subs@.len(),
                forall|j: int| 0 <= j < i ==> self.pairs()[j] != (key@, client),
            decreases self.subs@.len() - i,
        {
            if self.subs[i].client == client && self.subs[i].key == *key {
                assert(self.pairs()[i as int] == (key@, client));
                return;
            }
            i = i + 1;
        }
        assert(!self.pairs().contains((key@, client)));
        self.subs.push(
            Subscription {
                key: key.clone(),
                client,
                sender: clone_sender(sender),
                offered: Ghost(Seq::empty()),
                accepted: Ghost(0),
            },
        );
        assert(self.pairs() =~= old(self).pairs().push((key@, client)));
        assert(self.logs() =~= old(self).logs().push(Seq::empty()));
    }

    /// Drops every subscription of connection `client`.
    pub fn unsubscribe_all(&mut self, client: u64)
        ensures
            forall|p: (Seq<char>, u64)|
                #[trigger] final(self).pairs().contains(p) <==> old(self).pairs().contains(p)
                    && p.1 != client,
    {
        let mut kept: Vec<Subscription> = Vec::new();
        let ghost all = self.pairs();
        while self.subs.len() > 0
            invariant
                forall|p: (Seq<char>, u64)|
                    #[trigger] all.contains(p) && p.1 != client <==> (self.pairs().contains(p)
                        && p.1 != client) || pairs_of(kept@).contains(p),
                forall|p: (Seq<char>, u64)|
                    #[trigger] pairs_of(kept@).contains(p)
                        ==> p.1 != client,
            decreases self.subs@.len(),
        {
            let ghost before = self.pairs();
            let ghost kept_before = pairs_of(kept@);
            let sub = self.subs.pop().unwrap();
            assert(before =~= self.pairs().push((sub.key@, sub.client)));
            assert forall|p: (Seq<char>, u64)| #[trigger] before.contains(p) <==> self.pairs().contains(p)
                || p == (sub.key@, sub.client) by {
                if before.contains(p) && p != (sub.key@, sub.client) {
                    let j = choose|j: int| 0 <= j < before.len() && before[j] == p;
                    assert(self.pairs()[j] == p);
                }
                if self.pairs().contains(p) {
                    let j = choose|j: int| 0 <= j < self.pairs().len() && self.pairs()[j] == p;
                    assert(before[j] == p);
                }
                if p == (sub.key@, sub.client) {
                    assert(before[before.len() - 1] == p);
                }
            }
            if sub.client != client {
                let ghost entry = (sub.key@, sub.client);
                kept.push(sub);
                let ghost kept_after = pairs_of(kept@);
                assert(kept_after =~= kept_before.push(entry));
                assert forall|p: (Seq<char>, u64)| #[trigger] kept_after.contains(p) <==> kept_before.contains(p)
                    || p == entry by {
                    if kept_before.contains(p) {
                        let j = choose|j: int| 0 <= j < kept_before.len() && kept_before[j] == p;
                        assert(kept_after[j] == p);
                    }
                    if kept_after.contains(p) && p != entry {
                        let j = choose|j: int| 0 <= j < kept_after.len() && kept_after[j] == p;
                        assert(kept_before[j] == p);
                    }
                    if p == entry {
                        assert(kept_after[kept_after.len() - 1] == p);
                    }
                }
            }
        }
        self.subs = kept;
    }

    /// Whether some connection is subscribed to `key`.
    pub fn has_subscriber(&self, key: &String) -> (r: bool)
        ensures
            r == subscribed(self.pairs(), key@),
    {
        let mut i: usize = 0;
        while i < self.subs.len()
            invariant
                i <= self.subs@.len(),
                forall|j: int| 0 <= j < i ==> self.pairs()[j].0 != key@,
            decreases self.subs@.len() - i,
        {
            if self.subs[i].key == *key {
                assert(self.pairs()[i as int].0 == key@);
                return true;
            }
            i = i + 1;
        }
        false
    }

    /// Hands `message` to every connection subscribed to `key`, once each,
    /// and returns how many connections took it. A connection that refuses
    /// it does not stop the others.
    pub fn notify(&mut self, key: &String, message: &String) -> (delivered: usize)
        ensures
            final(self).pairs() == old(self).pairs(),
            final(self).logs() == deliver(old(self).pairs(), old(self).logs(), key@, message@),
            delivered + accepted_total(old(self).subs@) == accepted_total(final(self).subs@),
            delivered <= count_for(old(self).pairs(), key@),
    {
        let mut delivered: usize = 0;
        let mut i: usize = 0;
        while i < self.subs.len()
            invariant
                self.pairs() == old(self).pairs(),
                i <= self.subs@.len(),
                self.logs().len() == old(self).logs().len(),
                forall|j: int|
                    0 <= j < self.logs().len() ==> #[trigger] self.logs()[j] == if j < i
                        && old(self).pairs()[j].0 == key@ {
                        old(self).logs()[j].push(message@)
                    } else {
                        old(self).logs()[j]
                    },
                delivered + accepted_total(old(self).subs@) == accepted_total(self.subs@),
                delivered <= i,
                delivered <= count_for(self.pairs().take(i as int), key@),
            decreases self.subs@.len() - i,
        {
            assert(self.pairs().take(i as int + 1).drop_last() =~= self.pairs().take(i as int));
            let ghost logs_before = self.logs();
            if self.subs[i].key == *key {
                let ghost before = self.subs@;
                let mut sub = self.subs.remove(i);
                let took = offer_to(&mut sub, message.clone());
                if took {
                    delivered = delivered + 1;
                }
                self.subs.insert(i, sub);
                assert(self.subs@ =~= before.update(i as int, sub));
                proof {
                    lemma_accepted_update(before, i as int, sub);
                }
                assert(self.pairs() =~= old(self).pairs());
                assert(self.logs() =~= logs_before.update(
                    i as int,
                    logs_before[i as int].push(message@),
                ));
            } else {
                assert(old(self).pairs()[i as int].0 != key@);
            }
            i = i + 1;
        }
        assert(self.pairs().take(i as int) =~= self.pairs());
        assert(self.logs() =~= deliver(old(self).pairs(), old(self).logs(), key@, message@));
        delivered
    }
}

} // verus!
