use crate::outside::{clock_nanos, open_channel};
use futures::channel::mpsc::{Receiver, Sender};
use vstd::prelude::*;

verus! {

/// How a database settles a write whose expected version is stale.
#[derive(Clone, Copy, Debug, PartialEq, Eq, Structural)]
pub enum ConsensuStrategy {
    /// Report the conflict to the caller unchanged.
    NoConsensus,
    /// Keep the write with the greatest operation id.
    Newer,
    /// Hand the conflict to an arbiter connection.
    Arbiter,
}

/// What a database is created with; fixed for its lifetime.
#[derive(Clone, Copy, Debug, PartialEq, Eq, Structural)]
pub struct DatabaseMataData {
    pub id: u64,
    pub consensus_strategy: ConsensuStrategy,
}

impl DatabaseMataData {
    pub fn new(id: u64, consensus_strategy: ConsensuStrategy) -> (r: Self)
        ensures
            r.id == id,
            r.consensus_strategy == consensus_strategy,
    {
        DatabaseMataData { id, consensus_strategy }
    }
}

/// A write that a client intends: put `value` under `key`, expecting the key
/// to stand at `version`.
#[derive(Clone, Debug, PartialEq, Eq)]
pub struct Change {
    pub opp_id: u64,
    pub key: String,
    pub value: String,
    pub version: i64,
}

/// The mathematical form of a [`Change`].
pub struct ChangeV {
    pub opp_id: u64,
    pub key: Seq<char>,
    pub value: Seq<char>,
    pub version: i64,
}

impl View for Change {
    type V = ChangeV;

    open spec fn view(&self) -> ChangeV {
        ChangeV { opp_id: self.opp_id, key: self.key@, value: self.value@, version: self.version }
    }
}

impl Change {
    /// A change stamped with the current time as its operation id.
    pub fn new(key: String, value: String, version: i64) -> (r: Self)
        ensures
            r.key == key,
            r.value == value,
            r.version == version,
    {
        Change { opp_id: clock_nanos(), key, value, version }
    }

    /// A change with a given operation id.
    pub fn with_opp_id(opp_id: u64, key: String, value: String, version: i64) -> (r: Self)
        ensures
            r@ == (ChangeV { opp_id, key: key@, value: value@, version }),
    {
        Change { opp_id, key, value, version }
    }

    pub fn copy(&self) -> (r: Self)
        ensures
            r@ == self@,
    {
        Change {
            opp_id: self.opp_id,
            key: self.key.clone(),
            value: self.value.clone(),
            version: self.version,
        }
    }
}

/// What the store holds under a key: its value, its version and the
/// operation id of the write that put it there.
#[derive(Clone, Debug, PartialEq, Eq)]
pub struct Entry {
    pub value: String,
    pub version: i64,
    pub opp_id: u64,
}

/// The mathematical form of an [`Entry`].
pub struct EntryV {
    pub value: Seq<char>,
    pub version: i64,
    pub opp_id: u64,
}

impl View for Entry {
    type V = EntryV;

    open spec fn view(&self) -> EntryV {
        EntryV { value: self.value@, version: self.version, opp_id: self.opp_id }
    }
}

impl Entry {
    pub fn copy(&self) -> (r: Self)
        ensures
            r@ == self@,
    {
        Entry { value: self.value.clone(), version: self.version, opp_id: self.opp_id }
    }
}

/// The outcome of a write or of a conflict resolution.
#[derive(Clone, Debug, PartialEq, Eq)]
pub enum Response {
    /// A request that changes no key succeeded.
    Done,
    /// `key` now holds `value`.
    Written { key: String, value: String },
    /// The request failed.
    Error { msg: String },
    /// A write expected `version` of `key`, which stands at `old_version`
    /// holding `old_value`.
    VersionError {
        msg: String,
        key: String,
        old_version: i64,
        version: i64,
        old_value: Entry,
        change: Change,
        db: String,
    },
}

/// The mathematical form of a [`Response`].
pub enum ResponseV {
    Done,
    Written { key: Seq<char>, value: Seq<char> },
    Error { msg: Seq<char> },
    VersionError {
        msg: Seq<char>,
        key: Seq<char>,
        old_version: i64,
        version: i64,
        old_value: EntryV,
        change: ChangeV,
        db: Seq<char>,
    },
}

impl View for Response {
    type V = ResponseV;

    open spec fn view(&self) -> ResponseV {
        match self {
            Response::Done => ResponseV::Done,
            Response::Written { key, value } => ResponseV::Written { key: key@, value: value@ },
            Response::Error { msg } => ResponseV::Error { msg: msg@ },
            Response::VersionError { msg, key, old_version, version, old_value, change, db } =>
                ResponseV::VersionError {
                msg: msg@,
                key: key@,
                old_version: *old_version,
                version: *version,
                old_value: old_value@,
                change: change@,
                db: db@,
            },
        }
    }
}

/// Messages queued for a client connection beyond one per sender.
pub const CLIENT_BUFFER: usize = 100;

/// A client connection: an id and the channel its messages go out on.
pub struct Client {
    pub id: u64,
    pub sender: Sender<String>,
}

impl Client {
    pub fn new(id: u64, sender: Sender<String>) -> (r: Self)
        ensures
            r.id == id,
    {
        Client { id, sender }
    }

    /// A client with a fresh channel, id stamped from the clock, and the
    /// receiving end of its channel.
    pub fn new_empty_and_receiver() -> (r: (Client, Receiver<String>)) {
        let (sender, receiver) = open_channel(CLIENT_BUFFER);
        (Client { id: clock_nanos(), sender }, receiver)
    }
}

} // verus!
