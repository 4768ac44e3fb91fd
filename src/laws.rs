use crate::bo::{ChangeV, ConsensuStrategy, EntryV, ResponseV};
use crate::consensus_ops::{
    cas_write_spec, has_arbiter, is_ledger_name, model_wf, put_spec, is_stale, ledger_key, no_arbiter_msg, replay, resolve_message,
    resolve_spec, resolved_value, submit_spec, writable, write_spec, DbV,
};
use vstd::prelude::*;

verus! {

/// The version a write must expect to go through first: the stored one, or
/// zero for a key never written.
pub open spec fn current_version(st: DbV, key: Seq<char>) -> int {
    if st.store.contains_key(key) {
        st.store[key].version as int
    } else {
        0
    }
}

/// Every ledger key is named like one.
pub proof fn lemma_ledger_key_named(opp_id: u64)
    ensures
        is_ledger_name(ledger_key(opp_id)),
{
    assert(ledger_key(opp_id).subrange(0, "$$conflicts_"@.len() as int) =~= "$$conflicts_"@);
}

/// Two writes to one key that both expect its current version: the first
/// succeeds, and the second meets a conflict carrying the entry the first
/// left, without changing anything. With no consensus strategy that
/// conflict is what the second write returns.
pub proof fn lemma_cas_atomicity(st: DbV, w1: ChangeV, w2: ChangeV)
    requires
        w1.key == w2.key,
        w1.version == w2.version,
        w1.version == current_version(st, w1.key),
        writable(st.store, w1.key),
        current_version(st, w1.key) < i64::MAX - 1,
        model_wf(st),
    ensures
        ({
            let (s1, r1) = cas_write_spec(st, w1);
            let (s2, r2) = cas_write_spec(s1, w2);
            &&& r1 == ResponseV::Written { key: w1.key, value: w1.value }
            &&& s2 == s1
            &&& r2 is VersionError
            &&& r2->old_value == s1.store[w1.key]
            &&& r2->old_value.value == w1.value
            &&& r2->old_value.opp_id == w1.opp_id
            &&& st.strategy == ConsensuStrategy::NoConsensus ==> write_spec(st, w1) == (s1, r1) && write_spec(s1, w2) == (s2, r2)
        }),
{
}

/// Under the newer-wins strategy, settling a conflict reports the value that
/// prevails, and settling the same conflict a second time changes nothing
/// and reports the value the first settlement left.
pub proof fn lemma_newer_idempotent(st: DbV, c: ChangeV)
    requires
        st.strategy == ConsensuStrategy::Newer,
        writable(st.store, c.key),
        is_stale(st.store, c),
    ensures
        ({
            let (s0, conflict) = cas_write_spec(st, c);
            let (s1, r1) = resolve_spec(s0, conflict);
            let (s2, r2) = resolve_spec(s1, conflict);
            &&& s0 == st
            &&& r1 is Written
            &&& r1->value == s1.store[c.key].value
            &&& s2 == s1
            &&& r2 == ResponseV::Written { key: c.key, value: s1.store[c.key].value }
        }),
{
}

/// Under the arbiter strategy with no arbiter connected, a write that needs
/// arbitration (it is stale, or its key already waits for an arbiter) fails
/// with the no-arbiter error and changes nothing.
pub proof fn lemma_arbiter_gating(st: DbV, c: ChangeV)
    requires
        st.strategy == ConsensuStrategy::Arbiter,
        !has_arbiter(st),
        st.pending.contains_key(c.key) || (writable(st.store, c.key) && is_stale(st.store, c)),
    ensures
        write_spec(st, c) == (st, ResponseV::Error { msg: no_arbiter_msg() }),
{
}

/// A conflict sent to an arbiter leaves the request message under its ledger
/// key; the resolution of that operation then leaves `resolved <value>` there.
pub proof fn lemma_ledger_round_trip(st: DbV, c: ChangeV, res: ChangeV)
    requires
        st.strategy == ConsensuStrategy::Arbiter,
        has_arbiter(st),
        !st.pending.contains_key(c.key),
        writable(st.store, c.key),
        is_stale(st.store, c),
        res.opp_id == c.opp_id,
        res.key == c.key,
        res.version >= st.store[c.key].version,
    ensures
        ({
            let s1 = write_spec(st, c).0;
            let s2 = submit_spec(s1, res).0;
            &&& s1.store[ledger_key(c.opp_id)].value == resolve_message(
                c.opp_id,
                st.name,
                st.store[c.key].version,
                c.key,
                st.store[c.key].value,
                c.value,
            )
            &&& s2.store[ledger_key(c.opp_id)].value == resolved_value(res.value)
        }),
{
    let s1 = write_spec(st, c).0;
    let s2 = submit_spec(s1, res).0;
    assert(s1.pending[c.key].held == Seq::<ChangeV>::empty());
    let t1 = put_spec(
        s1,
        ledger_key(res.opp_id),
        EntryV { value: resolved_value(res.value), version: -1i64, opp_id: res.opp_id },
    );
    let t2 = DbV { pending: t1.pending.remove(res.key), ..t1 };
    let (t3, r) = write_spec(t2, res);
    assert(replay(t3, Seq::empty()) == t3);
    assert(t3.store[ledger_key(c.opp_id)].value == resolved_value(res.value));
}

/// A write held back while its key waits for an arbiter is written after the
/// resolution lands, and when it is stale by then it raises a second request
/// whose stored value is the resolution's and whose attempted value is its own.
pub proof fn lemma_conflict_chaining(st: DbV, a: ChangeV, c: ChangeV, res: ChangeV)
    requires
        st.strategy == ConsensuStrategy::Arbiter,
        has_arbiter(st),
        !st.pending.contains_key(a.key),
        st.store.contains_key(a.key),
        0 <= st.store[a.key].version < i64::MAX - 1,
        a.version < st.store[a.key].version,
        c.key == a.key,
        res.key == a.key,
        c.version <= st.store[a.key].version,
        res.version >= st.store[a.key].version,
        !is_ledger_name(a.key),
    ensures
        ({
            let e = st.store[a.key];
            let s1 = write_spec(st, a).0;
            let s2 = write_spec(s1, c).0;
            let (s3, r3) = submit_spec(s2, res);
            &&& r3 == ResponseV::Written { key: a.key, value: res.value }
            &&& s3.sent == st.sent.push(
                resolve_message(a.opp_id, st.name, e.version, a.key, e.value, a.value),
            ).push(
                resolve_message(
                    c.opp_id,
                    st.name,
                    (e.version + 1) as i64,
                    a.key,
                    res.value,
                    c.value,
                ),
            )
            &&& s3.pending.contains_key(a.key)
            &&& s3.pending[a.key].opp_id == c.opp_id
        }),
{
    let e = st.store[a.key];
    lemma_ledger_key_named(a.opp_id);
    lemma_ledger_key_named(res.opp_id);
    let s1 = write_spec(st, a).0;
    let s2 = write_spec(s1, c).0;
    assert(s2.pending[a.key].held == seq![c]);
    let t1 = put_spec(
        s2,
        ledger_key(res.opp_id),
        EntryV { value: resolved_value(res.value), version: -1i64, opp_id: res.opp_id },
    );
    let t2 = DbV { pending: t1.pending.remove(res.key), ..t1 };
    assert(t2.store[a.key] == e);
    let (t3, r) = write_spec(t2, res);
    assert(t3.store[a.key].version == e.version + 1);
    assert(t3.store[a.key].value == res.value);
    let held = seq![c];
    assert(held.drop_first() =~= Seq::<ChangeV>::empty());
    assert(replay(t3, held) == replay(write_spec(t3, c).0, Seq::empty()));
    assert(replay(t3, held) == write_spec(t3, c).0);
}

} // verus!
