use nundb_consensus::bo::{Change, Client, ConsensuStrategy, DatabaseMataData, Entry, Response};
use nundb_consensus::consensus_ops::{get_conflict_watch_key, Database};

fn db_with(strategy: ConsensuStrategy) -> Database {
    Database::new(String::from("db"), DatabaseMataData::new(7, strategy))
}

fn change(op: u64, key: &str, value: &str, version: i64) -> Change {
    Change::with_opp_id(op, String::from(key), String::from(value), version)
}

#[test]
fn ledger_key_is_prefix_and_operation_id() {
    let c = change(42, "k", "v", 0);
    assert_eq!(get_conflict_watch_key(&c), "$$conflicts_42");
    let c = change(0, "k", "v", 0);
    assert_eq!(get_conflict_watch_key(&c), "$$conflicts_0");
    let c = change(u64::MAX, "k", "v", 0);
    assert_eq!(get_conflict_watch_key(&c), "$$conflicts_18446744073709551615");
}

#[test]
fn first_write_gives_version_one_then_increments() {
    let mut db = db_with(ConsensuStrategy::NoConsensus);
    db.set_value(&change(1, "k", "a", 0));
    let e = db.get_value(String::from("k")).unwrap();
    assert_eq!(e, Entry { value: String::from("a"), version: 1, opp_id: 1 });
    // An expected version ahead of the stored one is not stale.
    db.set_value(&change(2, "k", "b", 5));
    let e = db.get_value(String::from("k")).unwrap();
    assert_eq!(e, Entry { value: String::from("b"), version: 2, opp_id: 2 });
}

#[test]
fn racing_writes_one_wins_other_sees_winner() {
    let mut db = db_with(ConsensuStrategy::NoConsensus);
    let w1 = change(10, "k", "one", 0);
    let w2 = change(11, "k", "two", 0);
    assert_eq!(
        db.set_value(&w1),
        Response::Written { key: String::from("k"), value: String::from("one") }
    );
    let r = db.set_value(&w2);
    assert_eq!(
        r,
        Response::VersionError {
            msg: String::from("version conflict"),
            key: String::from("k"),
            old_version: 1,
            version: 0,
            old_value: Entry { value: String::from("one"), version: 1, opp_id: 10 },
            change: w2.clone(),
            db: String::from("db"),
        }
    );
    assert_eq!(db.get_value(String::from("k")).unwrap().value, "one");
}

#[test]
fn resolve_passes_other_responses_through() {
    let mut db = db_with(ConsensuStrategy::Arbiter);
    let r = Response::Written { key: String::from("k"), value: String::from("v") };
    assert_eq!(db.resolve(r.clone()), r);
    let r = Response::Error { msg: String::from("x") };
    assert_eq!(db.resolve(r.clone()), r);
}

#[test]
fn newer_resolved_twice_keeps_first_result() {
    let mut db = db_with(ConsensuStrategy::Newer);
    db.set_value(&change(1, "k", "old", 0));
    db.set_value(&change(2, "k", "mid", 1));
    // A stale change with the greatest operation id.
    let late = change(9, "k", "late", 0);
    let conflict = Response::VersionError {
        msg: String::from("version conflict"),
        key: String::from("k"),
        old_version: 2,
        version: 0,
        old_value: Entry { value: String::from("mid"), version: 2, opp_id: 2 },
        change: late.clone(),
        db: String::from("db"),
    };
    assert_eq!(
        db.resolve(conflict.clone()),
        Response::Written { key: String::from("k"), value: String::from("late") }
    );
    let once = db.get_value(String::from("k")).unwrap();
    assert_eq!(once, Entry { value: String::from("late"), version: 3, opp_id: 9 });
    assert_eq!(
        db.resolve(conflict),
        Response::Written { key: String::from("k"), value: String::from("late") }
    );
    assert_eq!(db.get_value(String::from("k")).unwrap(), once);
    // Writing the losing change again changes nothing either.
    assert_eq!(
        db.set_value(&late),
        Response::Written { key: String::from("k"), value: String::from("late") }
    );
    assert_eq!(db.get_value(String::from("k")).unwrap(), once);
}

#[test]
fn newer_discards_older_operation() {
    let mut db = db_with(ConsensuStrategy::Newer);
    db.set_value(&change(5, "k", "kept", 0));
    assert_eq!(
        db.set_value(&change(3, "k", "dropped", 0)),
        Response::Written { key: String::from("k"), value: String::from("kept") }
    );
    assert_eq!(
        db.get_value(String::from("k")).unwrap(),
        Entry { value: String::from("kept"), version: 1, opp_id: 5 }
    );
}

#[test]
fn arbiter_missing_changes_nothing() {
    let mut db = db_with(ConsensuStrategy::Arbiter);
    db.set_value(&change(1, "k", "a", 0));
    let before = db.get_value(String::from("k"));
    assert_eq!(
        db.set_value(&change(2, "k", "b", 0)),
        Response::Error {
            msg: String::from("no arbiter connected")
        }
    );
    assert_eq!(db.get_value(String::from("k")), before);
    assert_eq!(db.get_value(String::from("$$conflicts_2")), None);
    assert!(!db.has_arbiter_connected());
}

#[test]
fn ledger_round_trip() {
    let mut db = db_with(ConsensuStrategy::Arbiter);
    let (arbiter, mut rx) = Client::new_empty_and_receiver();
    assert_eq!(db.register_arbiter(&arbiter), Response::Done);
    assert!(db.has_arbiter_connected());
    db.set_value(&change(1, "k", "a", 0));
    assert_eq!(
        db.set_value(&change(2, "k", "b", 0)),
        Response::Error { msg: String::from("unresolved conflict: $$conflicts_2") }
    );
    let ledger = db.get_value(String::from("$$conflicts_2")).unwrap();
    assert_eq!(ledger.value, "resolve 2 db 1 k a b");
    assert_eq!(ledger.version, -1);
    assert_eq!(rx.try_next().unwrap().unwrap(), "resolve 2 db 1 k a b");
    assert_eq!(
        db.resolve_conflit(change(2, "k", "b", 1)),
        Response::Written { key: String::from("k"), value: String::from("b") }
    );
    assert_eq!(db.get_value(String::from("$$conflicts_2")).unwrap().value, "resolved b");
    assert_eq!(db.get_value(String::from("k")).unwrap().value, "b");
}

#[test]
fn held_write_waits_and_chains() {
    let mut db = db_with(ConsensuStrategy::Arbiter);
    let (arbiter, mut rx) = Client::new_empty_and_receiver();
    db.register_arbiter(&arbiter);
    db.set_value(&change(1, "k", "b", 0));
    db.set_value(&change(2, "k", "a", 0));
    assert_eq!(
        db.set_value(&change(3, "k", "c", 1)),
        Response::Error { msg: String::from("unresolved conflict: $$conflicts_2") }
    );
    assert_eq!(db.get_value(String::from("k")).unwrap().value, "b");
    db.resolve_conflit(change(2, "k", "v1", 1));
    assert_eq!(rx.try_next().unwrap().unwrap(), "resolve 2 db 1 k b a");
    assert_eq!(rx.try_next().unwrap().unwrap(), "resolve 3 db 2 k v1 c");
    assert_eq!(db.get_value(String::from("$$conflicts_3")).unwrap().value, "resolve 3 db 2 k v1 c");
}

#[test]
fn stale_resolution_raises_a_new_conflict() {
    let mut db = db_with(ConsensuStrategy::Arbiter);
    let (arbiter, mut rx) = Client::new_empty_and_receiver();
    db.register_arbiter(&arbiter);
    db.set_value(&change(1, "k", "b", 0));
    db.set_value(&change(2, "k", "a", 0));
    assert_eq!(
        db.resolve_conflit(change(4, "k", "r", -3)),
        Response::Error { msg: String::from("unresolved conflict: $$conflicts_4") }
    );
    assert_eq!(rx.try_next().unwrap().unwrap(), "resolve 2 db 1 k b a");
    assert_eq!(rx.try_next().unwrap().unwrap(), "resolve 4 db 1 k b r");
}

#[test]
fn negative_stored_version_in_message() {
    let mut db = db_with(ConsensuStrategy::Arbiter);
    let (arbiter, mut rx) = Client::new_empty_and_receiver();
    db.register_arbiter(&arbiter);
    let conflict = Response::VersionError {
        msg: String::from("version conflict"),
        key: String::from("k"),
        old_version: -2,
        version: -9,
        old_value: Entry { value: String::from("s"), version: -2, opp_id: 1 },
        change: change(77, "k", "t", -9),
        db: String::from("other"),
    };
    db.resolve(conflict);
    assert_eq!(rx.try_next().unwrap().unwrap(), "resolve 77 other -2 k s t");
}

#[test]
fn ledger_keys_refuse_ordinary_writes() {
    let mut db = db_with(ConsensuStrategy::Arbiter);
    db.resolve_conflit(change(8, "k", "v", 0));
    assert_eq!(
        db.set_value(&change(9, "$$conflicts_8", "x", 5)),
        Response::Error { msg: String::from("key is not writable") }
    );
    assert_eq!(db.get_value(String::from("$$conflicts_8")).unwrap().value, "resolved v");
}

#[test]
fn no_consensus_returns_conflict_unchanged() {
    let mut db = db_with(ConsensuStrategy::NoConsensus);
    let conflict = Response::VersionError {
        msg: String::from("m"),
        key: String::from("k"),
        old_version: 3,
        version: 1,
        old_value: Entry { value: String::from("s"), version: 3, opp_id: 1 },
        change: change(5, "k", "t", 1),
        db: String::from("db"),
    };
    assert_eq!(db.resolve(conflict.clone()), conflict);
    assert_eq!(db.get_value(String::from("k")), None);
}

#[test]
fn watchers_get_changes_and_unwatch_all_removes_them() {
    let mut db = db_with(ConsensuStrategy::Arbiter);
    let (client, mut rx) = Client::new_empty_and_receiver();
    assert_eq!(db.watch_key(&String::from("k"), &client), Response::Done);
    db.watch_key(&String::from("k"), &client);
    db.register_arbiter(&client);
    db.set_value(&change(1, "k", "a", 0));
    assert_eq!(rx.try_next().unwrap().unwrap(), "changed k a");
    // Subscribing twice delivers once.
    assert!(rx.try_next().is_err());
    db.unwatch_all(client.id);
    assert!(!db.has_arbiter_connected());
    db.set_value(&change(2, "k", "b", 1));
    assert!(rx.try_next().is_err());
}

#[test]
fn unwatch_all_without_subscriptions() {
    let mut db = db_with(ConsensuStrategy::Newer);
    db.unwatch_all(99);
    assert!(!db.has_arbiter_connected());
}

#[test]
fn is_arbitered_follows_strategy() {
    assert!(db_with(ConsensuStrategy::Arbiter).is_arbitered());
    assert!(!db_with(ConsensuStrategy::Newer).is_arbitered());
    assert!(!db_with(ConsensuStrategy::NoConsensus).is_arbitered());
}

#[test]
fn new_changes_get_increasing_operation_ids() {
    let a = Change::new(String::from("k"), String::from("a"), 0);
    let b = Change::new(String::from("k"), String::from("b"), 0);
    assert!(b.opp_id >= a.opp_id);
    let c = Client::new(3, Client::new_empty_and_receiver().0.sender);
    assert_eq!(c.id, 3);
}

#[test]
fn closed_subscriber_does_not_block_others() {
    let mut db = db_with(ConsensuStrategy::Arbiter);
    let (gone, rx_gone) = Client::new_empty_and_receiver();
    let (arbiter, mut rx) = Client::new_empty_and_receiver();
    let gone = Client::new(1, gone.sender);
    let arbiter = Client::new(2, arbiter.sender);
    db.register_arbiter(&gone);
    db.register_arbiter(&arbiter);
    drop(rx_gone);
    db.set_value(&change(1, "k", "a", 0));
    db.set_value(&change(2, "k", "b", 0));
    assert_eq!(rx.try_next().unwrap().unwrap(), "resolve 2 db 1 k a b");
}

#[test]
fn ledger_is_announced_before_the_key() {
    let mut db = db_with(ConsensuStrategy::Arbiter);
    let (watcher, mut rx) = Client::new_empty_and_receiver();
    db.watch_key(&String::from("$$conflicts_4"), &watcher);
    db.watch_key(&String::from("k"), &watcher);
    db.resolve_conflit(change(4, "k", "v", 0));
    assert_eq!(rx.try_next().unwrap().unwrap(), "changed $$conflicts_4 resolved v");
    assert_eq!(rx.try_next().unwrap().unwrap(), "changed k v");
}

#[test]
fn newer_reports_current_value_when_key_moved_on() {
    let mut db = db_with(ConsensuStrategy::Newer);
    db.set_value(&change(1, "k", "a", 0));
    db.set_value(&change(2, "k", "b", 1));
    let conflict = Response::VersionError {
        msg: String::from("version conflict"),
        key: String::from("k"),
        old_version: 1,
        version: 0,
        old_value: Entry { value: String::from("a"), version: 1, opp_id: 1 },
        change: change(9, "k", "z", 0),
        db: String::from("db"),
    };
    assert_eq!(
        db.resolve(conflict),
        Response::Written { key: String::from("k"), value: String::from("b") }
    );
    assert_eq!(
        db.get_value(String::from("k")).unwrap(),
        Entry { value: String::from("b"), version: 2, opp_id: 2 }
    );
}

#[test]
fn ledger_names_refuse_ordinary_writes_before_they_exist() {
    let mut db = db_with(ConsensuStrategy::NoConsensus);
    assert_eq!(
        db.set_value(&change(1, "$$conflicts_5", "x", 0)),
        Response::Error { msg: String::from("key is not writable") }
    );
    assert_eq!(db.get_value(String::from("$$conflicts_5")), None);
    assert_eq!(
        db.set_value(&change(2, "$$conflicts", "x", 0)),
        Response::Written { key: String::from("$$conflicts"), value: String::from("x") }
    );
}
