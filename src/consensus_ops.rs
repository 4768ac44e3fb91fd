use crate::bo::{
    ChangeV, Change, Client, ConsensuStrategy, DatabaseMataData, Entry, EntryV, Response, ResponseV,
};
use crate::table::Table;
use crate::text::{dec, dec_int, push_i64, push_u64};
use crate::watchers::{deliver, subscribed, Watchers};
use vstd::prelude::*;

verus! {

// ---------------------------------------------------------------------------
// Messages and derived keys
// ---------------------------------------------------------------------------

/// The registry key on which arbiter connections subscribe.
pub open spec fn conflicts_key() -> Seq<char> {
    "$$conflicts"@
}

/// The ledger key of the conflict raised by operation `opp_id`.
pub open spec fn ledger_key(opp_id: u64) -> Seq<char> {
    "$$conflicts_"@ + dec(opp_id as nat)
}

/// The request sent to arbiters:
/// `resolve <op> <db> <stored version> <key> <stored value> <attempted value>`.
pub open spec fn resolve_message(
    opp_id: u64,
    db: Seq<char>,
    stored_version: i64,
    key: Seq<char>,
    stored_value: Seq<char>,
    attempted_value: Seq<char>,
) -> Seq<char> {
    "resolve "@ + dec(opp_id as nat) + " "@ + db + " "@ + dec_int(stored_version as int) + " "@
        + key + " "@ + stored_value + " "@ + attempted_value
}

/// The ledger value once a conflict is settled on `value`.
pub open spec fn resolved_value(value: Seq<char>) -> Seq<char> {
    "resolved "@ + value
}

/// The error of a write left to an arbiter; it names the ledger key to watch.
pub open spec fn unresolved_msg(ledger: Seq<char>) -> Seq<char> {
    "unresolved conflict: "@ + ledger
}

pub open spec fn no_arbiter_msg() -> Seq<char> {
    "no arbiter connected"@
}

/// What the subscribers of `key` are told when it comes to hold `value`.
pub open spec fn changed_msg(key: Seq<char>, value: Seq<char>) -> Seq<char> {
    "changed "@ + key + " "@ + value
}

pub open spec fn version_conflict_msg() -> Seq<char> {
    "version conflict"@
}

pub open spec fn not_writable_msg() -> Seq<char> {
    "key is not writable"@
}

/// The ledger key of the conflict raised by `change`.
pub fn get_conflict_watch_key(change: &Change) -> (r: String)
    ensures
        r@ == ledger_key(change.opp_id),
{
    let mut s = String::from_str("$$conflicts_");
    push_u64(&mut s, change.opp_id);
    s
}

fn conflicts_key_string() -> (r: String)
    ensures
        r@ == conflicts_key(),
{
    String::from_str("$$conflicts")
}

fn resolve_message_of(
    opp_id: u64,
    db: &String,
    stored_version: i64,
    key: &String,
    stored_value: &String,
    attempted_value: &String,
) -> (r: String)
    ensures
        r@ == resolve_message(opp_id, db@, stored_version, key@, stored_value@, attempted_value@),
{
    let mut s = String::from_str("resolve ");
    push_u64(&mut s, opp_id);
    s.append(" ");
    s.append(db.as_str());
    s.append(" ");
    push_i64(&mut s, stored_version);
    s.append(" ");
    s.append(key.as_str());
    s.append(" ");
    s.append(stored_value.as_str());
    s.append(" ");
    s.append(attempted_value.as_str());
    s
}

fn text_then(prefix: &str, rest: &String) -> (r: String)
    ensures
        r@ == prefix@ + rest@,
{
    let mut s = String::from_str(prefix);
    s.append(rest.as_str());
    s
}

// ---------------------------------------------------------------------------
// The model of a database and the rules of writing
// ---------------------------------------------------------------------------

/// A conflict waiting for an arbiter: the operation that raised it, and the
/// writes to its key held back until it is settled, in arrival order.
pub struct Pending {
    pub opp_id: u64,
    pub held: Vec<Change>,
}

pub struct PendingV {
    pub opp_id: u64,
    pub held: Seq<ChangeV>,
}

impl View for Pending {
    type V = PendingV;

    open spec fn view(&self) -> PendingV {
        PendingV { opp_id: self.opp_id, held: self.held@.map_values(|c: Change| c@) }
    }
}

/// The mathematical state of a database.
pub struct DbV {
    pub name: Seq<char>,
    pub strategy: ConsensuStrategy,
    /// Every key's entry, ledger keys included.
    pub store: Map<Seq<char>, EntryV>,
    /// The (key, connection id) subscriptions.
    pub subs: Seq<(Seq<char>, u64)>,
    /// Keys whose conflict waits for an arbiter.
    pub pending: Map<Seq<char>, PendingV>,
    /// Every resolution request handed to the arbiters, in order.
    pub sent: Seq<Seq<char>>,
    /// For each subscription, in the order of `subs`, the messages handed to
    /// its channel.
    pub inboxes: Seq<Seq<Seq<char>>>,
}

/// The state invariant: only an arbitered database has pending conflicts,
/// and the writes held back on a key are writes to that key.
pub open spec fn model_wf(st: DbV) -> bool {
    &&& st.strategy != ConsensuStrategy::Arbiter ==> forall|k: Seq<char>|
        !(#[trigger] st.pending.contains_key(k))
    &&& forall|k: Seq<char>, i: int|
        #![trigger st.pending[k].held[i]]
        st.pending.contains_key(k) && 0 <= i < st.pending[k].held.len()
            ==> st.pending[k].held[i].key == k
}

/// Storing `entry` under `key`, and telling the key's subscribers.
pub open spec fn put_spec(st: DbV, key: Seq<char>, entry: EntryV) -> DbV {
    DbV {
        store: st.store.insert(key, entry),
        inboxes: deliver(st.subs, st.inboxes, key, changed_msg(key, entry.value)),
        ..st
    }
}

pub open spec fn has_arbiter(st: DbV) -> bool {
    subscribed(st.subs, conflicts_key())
}

/// Whether `key` is named like a ledger key: it starts with `$$conflicts_`.
pub open spec fn is_ledger_name(key: Seq<char>) -> bool {
    "$$conflicts_"@.len() <= key.len() && key.subrange(0, "$$conflicts_"@.len() as int)
        == "$$conflicts_"@
}

/// A key can take an ordinary write unless it is named like a ledger key,
/// holds a ledger entry (whose version is the sentinel `-1`), or its
/// version can grow no further.
pub open spec fn writable(store: Map<Seq<char>, EntryV>, key: Seq<char>) -> bool {
    &&& !is_ledger_name(key)
    &&& store.contains_key(key) ==> 0 <= store[key].version < i64::MAX
}

fn ledger_named(key: &String) -> (r: bool)
    ensures
        r == is_ledger_name(key@),
{
    let prefix = "$$conflicts_";
    assert(prefix@ == "$$conflicts_"@);
    let n = prefix.unicode_len();
    let len = key.as_str().unicode_len();
    if len < n {
        return false;
    }
    let mut i: usize = 0;
    while i < n
        invariant
            prefix@ == "$$conflicts_"@,
            n == prefix@.len(),
            len == key@.len(),
            n <= len,
            i <= n,
            forall|j: int| 0 <= j < i ==> key@[j] == prefix@[j],
        decreases n - i,
    {
        if key.as_str().get_char(i) != prefix.get_char(i) {
            assert(key@.subrange(0, n as int)[i as int] != prefix@[i as int]);
            assert(key@.subrange(0, n as int) != prefix@);
            return false;
        }
        i = i + 1;
    }
    assert(key@.subrange(0, n as int) =~= prefix@);
    true
}

/// A change is stale when the version it expects is behind the stored one.
pub open spec fn is_stale(store: Map<Seq<char>, EntryV>, c: ChangeV) -> bool {
    store.contains_key(c.key) && store[c.key].version > c.version
}

/// The entry that a successful write of `c` leaves: the next version.
pub open spec fn next_entry(store: Map<Seq<char>, EntryV>, c: ChangeV) -> EntryV {
    EntryV {
        value: c.value,
        version: if store.contains_key(c.key) {
            (store[c.key].version + 1) as i64
        } else {
            1
        },
        opp_id: c.opp_id,
    }
}

/// The compare-and-set on the store.
pub open spec fn cas_write_spec(st: DbV, c: ChangeV) -> (DbV, ResponseV) {
    if !writable(st.store, c.key) {
        (st, ResponseV::Error { msg: not_writable_msg() })
    } else if is_stale(st.store, c) {
        (
            st,
            ResponseV::VersionError {
                msg: version_conflict_msg(),
                key: c.key,
                old_version: st.store[c.key].version,
                version: c.version,
                old_value: st.store[c.key],
                change: c,
                db: st.name,
            },
        )
    } else {
        (
            put_spec(st, c.key, next_entry(st.store, c)),
            ResponseV::Written { key: c.key, value: c.value },
        )
    }
}

/// What the database's strategy makes of a response; only a version
/// conflict is acted on.
pub open spec fn resolve_spec(st: DbV, r: ResponseV) -> (DbV, ResponseV) {
    match r {
        ResponseV::VersionError { msg, key, old_version, version, old_value, change, db } => {
            match st.strategy {
                ConsensuStrategy::NoConsensus => (st, r),
                ConsensuStrategy::Newer => {
                    if change.opp_id > old_value.opp_id {
                        let (s1, r1) = cas_write_spec(
                            st,
                            ChangeV { key, version: old_version, ..change },
                        );
                        if r1 is Written {
                            (s1, r1)
                        } else {
                            // The key moved on since the conflict (or cannot take
                            // the write): report what it holds.
                            (
                                st,
                                ResponseV::Written {
                                    key,
                                    value: if st.store.contains_key(key) {
                                        st.store[key].value
                                    } else {
                                        Seq::empty()
                                    },
                                },
                            )
                        }
                    } else {
                        (st, ResponseV::Written { key, value: old_value.value })
                    }
                },
                ConsensuStrategy::Arbiter => {
                    if !has_arbiter(st) {
                        (st, ResponseV::Error { msg: no_arbiter_msg() })
                    } else {
                        let m = resolve_message(
                            change.opp_id,
                            db,
                            old_version,
                            key,
                            old_value.value,
                            change.value,
                        );
                        let lk = ledger_key(change.opp_id);
                        let held = if st.pending.contains_key(key) {
                            st.pending[key].held
                        } else {
                            Seq::empty()
                        };
                        let told = DbV {
                            sent: st.sent.push(m),
                            inboxes: deliver(st.subs, st.inboxes, conflicts_key(), m),
                            ..st
                        };
                        let logged = put_spec(
                            told,
                            lk,
                            EntryV { value: m, version: -1i64, opp_id: change.opp_id },
                        );
                        (
                            DbV {
                                pending: logged.pending.insert(
                                    key,
                                    PendingV { opp_id: change.opp_id, held },
                                ),
                                ..logged
                            },
                            ResponseV::Error { msg: unresolved_msg(lk) },
                        )
                    }
                },
            }
        },
        _ => (st, r),
    }
}

/// An ordinary write: held back while its key waits for an arbiter,
/// otherwise a compare-and-set whose conflict goes to the strategy.
pub open spec fn write_spec(st: DbV, c: ChangeV) -> (DbV, ResponseV) {
    if st.pending.contains_key(c.key) {
        if !has_arbiter(st) {
            (st, ResponseV::Error { msg: no_arbiter_msg() })
        } else {
            let p = st.pending[c.key];
            (
                DbV {
                    pending: st.pending.insert(
                        c.key,
                        PendingV { opp_id: p.opp_id, held: p.held.push(c) },
                    ),
                    ..st
                },
                ResponseV::Error { msg: unresolved_msg(ledger_key(p.opp_id)) },
            )
        }
    } else {
        let (s1, r1) = cas_write_spec(st, c);
        if r1 is VersionError {
            resolve_spec(s1, r1)
        } else {
            (s1, r1)
        }
    }
}

/// Ordinary writes of `cs`, one after another.
pub open spec fn replay(st: DbV, cs: Seq<ChangeV>) -> DbV
    decreases cs.len(),
{
    if cs.len() == 0 {
        st
    } else {
        replay(write_spec(st, cs[0]).0, cs.drop_first())
    }
}

/// Applying a resolution: mark its ledger key resolved, release its key,
/// write it as an ordinary change, then write the changes held back.
pub open spec fn submit_spec(st: DbV, res: ChangeV) -> (DbV, ResponseV) {
    let s1 = put_spec(
        st,
        ledger_key(res.opp_id),
        EntryV { value: resolved_value(res.value), version: -1i64, opp_id: res.opp_id },
    );
    let held = if s1.pending.contains_key(res.key) {
        s1.pending[res.key].held
    } else {
        Seq::empty()
    };
    let s2 = DbV { pending: s1.pending.remove(res.key), ..s1 };
    let (s3, r) = write_spec(s2, res);
    (replay(s3, held), r)
}

// ---------------------------------------------------------------------------
// The database
// ---------------------------------------------------------------------------

/// A database: its entries, its watch registry and its pending conflicts.
pub struct Database {
    name: String,
    metadata: DatabaseMataData,
    store: Table<Entry>,
    watchers: Watchers,
    pending: Table<Pending>,
    /// The resolution requests handed to arbiters so far.
    sent: Ghost<Seq<Seq<char>>>,
}

impl Database {
    pub closed spec fn wf(&self) -> bool {
        self.store.wf() && self.pending.wf() && model_wf(self.model())
    }

    /// What a well-formed database shows of its state.
    pub proof fn lemma_wf_model(&self)
        requires
            self.wf(),
        ensures
            model_wf(self.model()),
    {
    }

    pub closed spec fn model(&self) -> DbV {
        DbV {
            name: self.name@,
            strategy: self.metadata.consensus_strategy,
            store: self.store@.map_values(|e: Entry| e@),
            subs: self.watchers.pairs(),
            pending: self.pending@.map_values(|p: Pending| p@),
            sent: self.sent@,
            inboxes: self.watchers.logs(),
        }
    }

    pub fn new(name: String, metadata: DatabaseMataData) -> (r: Self)
        ensures
            r.wf(),
            r.model() == (DbV {
                name: name@,
                strategy: metadata.consensus_strategy,
                store: Map::empty(),
                subs: Seq::empty(),
                pending: Map::empty(),
                sent: Seq::empty(),
                inboxes: Seq::empty(),
            }),
    {
        let r = Database {
            name,
            metadata,
            store: Table::new(),
            watchers: Watchers::new(),
            pending: Table::new(),
            sent: Ghost(Seq::empty()),
        };
        assert(r.model().store =~= Map::empty());
        assert(r.model().pending =~= Map::empty());
        r
    }

    /// The entry stored under `key`.
    pub fn get_value(&self, key: String) -> (r: Option<Entry>)
        requires
            self.wf(),
        ensures
            r is Some <==> self.model().store.contains_key(key@),
            r is Some ==> r->0@ == self.model().store[key@],
    {
        match self.store.get(&key) {
            Some(e) => Some(e.copy()),
            None => None,
        }
    }

    /// Stores `entry` under `key` and tells the key's subscribers.
    fn put_entry(&mut self, key: String, entry: Entry)
        requires
            old(self).wf(),
        ensures
            final(self).wf(),
            final(self).model() == put_spec(old(self).model(), key@, entry@),
    {
        let mut note = String::from_str("changed ");
        note.append(key.as_str());
        note.append(" ");
        note.append(entry.value.as_str());
        let ghost ev = entry@;
        self.store.insert(key.clone(), entry);
        self.watchers.notify(&key, &note);
        assert(self.model().store =~= old(self).model().store.insert(key@, ev));
    }

    /// The compare-and-set.
    fn cas_write(&mut self, c: &Change) -> (r: Response)
        requires
            old(self).wf(),
        ensures
            final(self).wf(),
            final(self).model() == cas_write_spec(old(self).model(), c@).0,
            r@ == cas_write_spec(old(self).model(), c@).1,
    {
        if ledger_named(&c.key) {
            return Response::Error { msg: String::from_str("key is not writable") };
        }
        let stored = self.store.get(&c.key);
        match stored {
            Some(e) => {
                if e.version < 0 || e.version == i64::MAX {
                    return Response::Error { msg: String::from_str("key is not writable") };
                }
                if e.version > c.version {
                    let old_value = e.copy();
                    return Response::VersionError {
                        msg: String::from_str("version conflict"),
                        key: c.key.clone(),
                        old_version: e.version,
                        version: c.version,
                        old_value,
                        change: c.copy(),
                        db: self.name.clone(),
                    };
                }
                let entry = Entry { value: c.value.clone(), version: e.version + 1, opp_id: c.opp_id };
                self.put_entry(c.key.clone(), entry);
            },
            None => {
                let entry = Entry { value: c.value.clone(), version: 1, opp_id: c.opp_id };
                self.put_entry(c.key.clone(), entry);
            },
        }
        Response::Written { key: c.key.clone(), value: c.value.clone() }
    }

    /// Settles a version conflict by the database's strategy; any other
    /// response comes back unchanged.
    pub fn resolve(&mut self, conflitct_error: Response) -> (r: Response)
        requires
            old(self).wf(),
        ensures
            final(self).wf(),
            final(self).model() == resolve_spec(old(self).model(), conflitct_error@).0,
            r@ == resolve_spec(old(self).model(), conflitct_error@).1,
    {
        match conflitct_error {
            Response::VersionError { msg, key, old_version, version, old_value, change, db } => {
                match self.metadata.consensus_strategy {
                    ConsensuStrategy::NoConsensus => Response::VersionError {
                        msg,
                        key,
                        old_version,
                        version,
                        old_value,
                        change,
                        db,
                    },
                    ConsensuStrategy::Newer => {
                        if change.opp_id > old_value.opp_id {
                            let forced = Change::with_opp_id(
                                change.opp_id,
                                key,
                                change.value,
                                old_version,
                            );
                            let written = self.cas_write(&forced);
                            match written {
                                Response::Written { .. } => written,
                                _ => {
                                    // The key moved on since the conflict: report what it holds.
                                    let current = match self.store.get(&forced.key) {
                                        Some(e) => e.value.clone(),
                                        None => String::new(),
                                    };
                                    Response::Written { key: forced.key.clone(), value: current }
                                },
                            }
                        } else {
                            Response::Written { key, value: old_value.value }
                        }
                    },
                    ConsensuStrategy::Arbiter => {
                        if !self.has_arbiter_connected() {
                            Response::Error {
                                msg: String::from_str("no arbiter connected"),
                            }
                        } else {
                            let message = resolve_message_of(
                                change.opp_id,
                                &db,
                                old_version,
                                &key,
                                &old_value.value,
                                &change.value,
                            );
                            self.send_message_to_arbiter_client(&message);
                            let ledger = get_conflict_watch_key(&change);
                            let ghost before = self.model();
                            self.put_entry(
                                ledger.clone(),
                                Entry { value: message, version: -1, opp_id: change.opp_id },
                            );
                            let held = match self.pending.remove(&key) {
                                Some(p) => p.held,
                                None => Vec::new(),
                            };
                            let ghost held_v = held@.map_values(|c: Change| c@);
                            assert(held_v == (if before.pending.contains_key(key@) {
                                before.pending[key@].held
                            } else {
                                Seq::empty()
                            }));
                            self.pending.insert(key, Pending { opp_id: change.opp_id, held });
                            assert(self.model().pending =~= before.pending.insert(
                                key@,
                                PendingV { opp_id: change.opp_id, held: held_v },
                            ));
                            Response::Error { msg: text_then("unresolved conflict: ", &ledger) }
                        }
                    },
                }
            },
            other => other,
        }
    }

    /// Hands `message` to every arbiter connection, once each; with none
    /// connected nothing goes out.
    fn send_message_to_arbiter_client(&mut self, message: &String)
        requires
            old(self).wf(),
        ensures
            final(self).wf(),
            final(self).model() == (DbV {
                sent: if has_arbiter(old(self).model()) {
                    old(self).model().sent.push(message@)
                } else {
                    old(self).model().sent
                },
                inboxes: deliver(
                    old(self).model().subs,
                    old(self).model().inboxes,
                    conflicts_key(),
                    message@,
                ),
                ..old(self).model()
            }),
    {
        let key = conflicts_key_string();
        let connected = self.watchers.has_subscriber(&key);
        self.watchers.notify(&key, message);
        if connected {
            self.sent = Ghost(self.sent@.push(message@));
        }
    }

    /// Writes `change`: a compare-and-set, whose conflict goes to the
    /// strategy; while its key waits for an arbiter the change is held back.
    pub fn set_value(&mut self, change: &Change) -> (r: Response)
        requires
            old(self).wf(),
        ensures
            final(self).wf(),
            final(self).model() == write_spec(old(self).model(), change@).0,
            r@ == write_spec(old(self).model(), change@).1,
    {
        if self.pending.contains(&change.key) {
            if !self.has_arbiter_connected() {
                return Response::Error {
                    msg: String::from_str("no arbiter connected"),
                };
            }
            let ghost before = self.model();
            let mut p = self.pending.remove(&change.key).unwrap();
            let pending_op = p.opp_id;
            let ghost held_before = p@.held;
            p.held.push(change.copy());
            assert(p@.held =~= held_before.push(change@));
            self.pending.insert(change.key.clone(), p);
            assert(self.model().pending =~= before.pending.insert(
                change.key@,
                PendingV { opp_id: pending_op, held: held_before.push(change@) },
            ));
            let mut ledger = String::from_str("$$conflicts_");
            push_u64(&mut ledger, pending_op);
            return Response::Error { msg: text_then("unresolved conflict: ", &ledger) };
        }
        let r = self.cas_write(change);
        match r {
            Response::VersionError { .. } => self.resolve(r),
            other => other,
        }
    }

    /// Applies a resolution submitted for a conflict: its ledger key becomes
    /// `resolved <value>`, the change is written as an ordinary write, and
    /// the writes held back on its key are written after it, each of which
    /// may raise a conflict of its own. Besides the resolution's ledger key
    /// and its key, only the ledger keys of those held-back writes that
    /// conflict again are written: that is how a chain of conflicts goes on.
    pub fn resolve_conflit(&mut self, change: Change) -> (r: Response)
        requires
            old(self).wf(),
        ensures
            final(self).wf(),
            final(self).model() == submit_spec(old(self).model(), change@).0,
            r@ == submit_spec(old(self).model(), change@).1,
    {
        let ledger = get_conflict_watch_key(&change);
        let marker = text_then("resolved ", &change.value);
        self.put_entry(ledger, Entry { value: marker, version: -1, opp_id: change.opp_id });
        let ghost s1 = self.model();
        let held = match self.pending.remove(&change.key) {
            Some(p) => p.held,
            None => Vec::new(),
        };
        let ghost held_v = held@.map_values(|c: Change| c@);
        assert(self.model().pending =~= s1.pending.remove(change.key@));
        let r = self.set_value(&change);
        let ghost s3 = self.model();
        assert(held_v.skip(0) =~= held_v);
        let mut i: usize = 0;
        while i < held.len()
            invariant
                self.wf(),
                i <= held@.len(),
                held_v == held@.map_values(|c: Change| c@),
                replay(self.model(), held_v.skip(i as int)) == replay(s3, held_v),
            decreases held@.len() - i,
        {
            assert(held_v.skip(i as int).drop_first() =~= held_v.skip(i as int + 1));
            self.set_value(&held[i]);
            i = i + 1;
        }
        assert(held_v.skip(i as int) =~= Seq::<ChangeV>::empty());
        r
    }

    /// Whether conflicts of this database go to an arbiter.
    pub fn is_arbitered(&self) -> (r: bool)
        ensures
            r == (self.model().strategy == ConsensuStrategy::Arbiter),
    {
        match self.metadata.consensus_strategy {
            ConsensuStrategy::Arbiter => true,
            _ => false,
        }
    }

    /// Whether some connection is registered as arbiter.
    pub fn has_arbiter_connected(&self) -> (r: bool)
        ensures
            r == has_arbiter(self.model()),
    {
        let key = conflicts_key_string();
        self.watchers.has_subscriber(&key)
    }

    /// Subscribes `client` to `key`.
    pub fn watch_key(&mut self, key: &String, client: &Client) -> (r: Response)
        ensures
            final(self).wf() == old(self).wf(),
            r@ == ResponseV::Done,
            old(self).model().subs.contains((key@, client.id)) ==> final(self).model() == old(self).model(),
            !old(self).model().subs.contains((key@, client.id)) ==> final(self).model() == (DbV {
                subs: old(self).model().subs.push((key@, client.id)),
                inboxes: old(self).model().inboxes.push(Seq::empty()),
                ..old(self).model()
            }),
    {
        self.watchers.subscribe(key, client.id, &client.sender);
        assert(self.model().pending == old(self).model().pending);
        Response::Done
    }

    /// Drops every subscription of the connection `client_id`.
    pub fn unwatch_all(&mut self, client_id: u64)
        ensures
            final(self).wf() == old(self).wf(),
            final(self).model() == (DbV {
                subs: final(self).model().subs,
                inboxes: final(self).model().inboxes,
                ..old(self).model()
            }),
            forall|p: (Seq<char>, u64)|
                #[trigger] final(self).model().subs.contains(p) <==> old(self).model().subs.contains(p)
                    && p.1 != client_id,
    {
        self.watchers.unsubscribe_all(client_id);
        assert(self.model().pending == old(self).model().pending);
    }

    /// Registers `client` as an arbiter of this database.
    pub fn register_arbiter(&mut self, client: &Client) -> (r: Response)
        ensures
            final(self).wf() == old(self).wf(),
            r@ == ResponseV::Done,
            has_arbiter(final(self).model()),
            old(self).model().subs.contains((conflicts_key(), client.id)) ==> final(self).model() == old(self).model(),
            !old(self).model().subs.contains((conflicts_key(), client.id)) ==> final(self).model() == (DbV {
                subs: old(self).model().subs.push((conflicts_key(), client.id)),
                inboxes: old(self).model().inboxes.push(Seq::empty()),
                ..old(self).model()
            }),
    {
        let key = conflicts_key_string();
        let r = self.watch_key(&key, client);
        proof {
            let subs = self.model().subs;
            if old(self).model().subs.contains((conflicts_key(), client.id)) {
                let j = choose|j: int| 0 <= j < subs.len() && subs[j] == (conflicts_key(), client.id);
                assert(subs[j].0 == conflicts_key());
            } else {
                assert(subs[subs.len() - 1].0 == conflicts_key());
            }
        }
        r
    }
}

} // verus!
