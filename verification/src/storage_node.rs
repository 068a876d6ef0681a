//! The replica storage protocol: a storage node owns one slot in
//! exactly one shard, serves internode reads and writes for keys that
//! belong to that shard, and applies writes as unconditional
//! overwrites of its backend entry.

use vstd::prelude::*;
use crate::message::{
    shard_of, value_timestamp, InternodeRequest, InternodeRequestV, InternodeResponse,
    InternodeResponseV, Key, KeyV, Value, ValueV,
};
use crate::storage::StorageBackend;

verus! {

/// The error message a replica returns for a key of another shard.
pub open spec fn wrong_shard_message() -> Seq<char> {
    "Key doesn't belong to this shard!"@
}

/// The error message a replica returns for a write that carries the
/// absence marker instead of a live value or a tombstone.
pub open spec fn absent_write_message() -> Seq<char> {
    "Write operation with an absent value. This should have been a Tombstone!"@
}

/// What a replica answers to an internode read: an error for a key of
/// another shard, the stored value on a hit, the absence marker on a
/// miss. Reads never mutate the map.
pub open spec fn replica_read(
    m: Map<KeyV, ValueV>,
    shard: int,
    shard_count: int,
    key: KeyV,
) -> InternodeResponseV {
    if shard_of(key.pkey, shard_count) != shard {
        InternodeResponseV::Error { key, message: wrong_shard_message() }
    } else if m.contains_key(key) {
        InternodeResponseV::Value { key, value: m[key] }
    } else {
        InternodeResponseV::Value { key, value: ValueV::Absent }
    }
}

/// What an internode write does to a replica: an error and no change
/// for a key of another shard or for the absence marker; otherwise an
/// unconditional overwrite of the entry, acknowledged with the
/// written value's timestamp.
pub open spec fn replica_write(
    m: Map<KeyV, ValueV>,
    shard: int,
    shard_count: int,
    key: KeyV,
    value: ValueV,
) -> (Map<KeyV, ValueV>, InternodeResponseV) {
    if shard_of(key.pkey, shard_count) != shard {
        (m, InternodeResponseV::Error { key, message: wrong_shard_message() })
    } else {
        match value_timestamp(value) {
            Some(ts) => (
                m.insert(key, value),
                InternodeResponseV::WriteAck { key, timestamp: ts },
            ),
            None => (m, InternodeResponseV::Error { key, message: absent_write_message() }),
        }
    }
}

/// The state a storage node serves requests from: its shard slot, the
/// total shard count, and its backend map.
pub struct ClientHandler<Backend: StorageBackend> {
    pub shard: usize,
    pub shard_count: usize,
    pub map: Backend,
}

impl<Backend: StorageBackend> ClientHandler<Backend> {
    /// A shard count of zero is a configuration error, rejected at
    /// startup; the backend must be internally well formed.
    pub open spec fn wf(&self) -> bool {
        self.shard_count > 0 && self.map.inv()
    }

    pub fn new(map: Backend, shard_number: usize, shard_count: usize) -> (r: ClientHandler<
        Backend,
    >)
        requires
            shard_count > 0,
            map.inv(),
        ensures
            r.wf(),
            r.shard == shard_number,
            r.shard_count == shard_count,
            r.map == map,
    {
        ClientHandler { shard: shard_number, shard_count, map }
    }

    /// Serve an internode read for `key`.
    pub fn get(&self, key: Key) -> (r: InternodeResponse)
        requires
            self.wf(),
        ensures
            r@ == replica_read(
                self.map.contents(),
                self.shard as int,
                self.shard_count as int,
                key@,
            ),
    {
        let key_shard = key.shard(self.shard_count);
        let this_shard = self.shard;
        if key_shard == this_shard {
            let v = self.map.get(&key);
            match v {
                Some(value) => InternodeResponse::Value { key, value },
                None => InternodeResponse::Value { key, value: Value::Absent },
            }
        } else {
            InternodeResponse::Error {
                key,
                message: "Key doesn't belong to this shard!".to_string(),
            }
        }
    }

    /// Serve an internode write of `value` under `key`.
    pub fn insert(&mut self, key: Key, value: Value) -> (r: InternodeResponse)
        requires
            old(self).wf(),
        ensures
            final(self).wf(),
            final(self).shard == old(self).shard,
            final(self).shard_count == old(self).shard_count,
            ({
                let wr = replica_write(
                    old(self).map.contents(),
                    old(self).shard as int,
                    old(self).shard_count as int,
                    key@,
                    value@,
                );
                final(self).map.contents() == wr.0 && r@ == wr.1
            }),
    {
        let key_shard = key.shard(self.shard_count);
        let this_shard = self.shard;
        if key_shard == this_shard {
            match value.timestamp() {
                Some(timestamp) => {
                    let acked_key = key.duplicate();
                    self.map.insert(key, value);
                    InternodeResponse::WriteAck { key: acked_key, timestamp }
                },
                None => InternodeResponse::Error {
                    key,
                    message:
                        "Write operation with an absent value. This should have been a Tombstone!".to_string(),
                },
            }
        } else {
            InternodeResponse::Error {
                key,
                message: "Key doesn't belong to this shard!".to_string(),
            }
        }
    }

    /// Serve one internode request against this node's state.
    pub fn handle_message(&mut self, message: InternodeRequest) -> (r: InternodeResponse)
        requires
            old(self).wf(),
        ensures
            final(self).wf(),
            final(self).shard == old(self).shard,
            final(self).shard_count == old(self).shard_count,
            match message@ {
                InternodeRequestV::Read { key } => final(self).map.contents() == old(
                    self,
                ).map.contents() && r@ == replica_read(
                    old(self).map.contents(),
                    old(self).shard as int,
                    old(self).shard_count as int,
                    key,
                ),
                InternodeRequestV::Write { key, value } => ({
                    let wr = replica_write(
                        old(self).map.contents(),
                        old(self).shard as int,
                        old(self).shard_count as int,
                        key,
                        value,
                    );
                    final(self).map.contents() == wr.0 && r@ == wr.1
                }),
            },
    {
        match message {
            InternodeRequest::Read { key } => self.get(key),
            InternodeRequest::Write { key, value } => self.insert(key, value),
        }
    }
}

/// A replica handed a key whose shard is not its own always returns
/// an error and does not mutate its map, for reads and writes alike.
pub proof fn lemma_wrong_shard_rejected(
    m: Map<KeyV, ValueV>,
    shard: int,
    shard_count: int,
    key: KeyV,
    value: ValueV,
)
    requires
        shard_of(key.pkey, shard_count) != shard,
    ensures
        replica_read(m, shard, shard_count, key) matches InternodeResponseV::Error { .. },
        replica_write(m, shard, shard_count, key, value).0 == m,
        replica_write(m, shard, shard_count, key, value).1 matches InternodeResponseV::Error {
            ..
        },
{
}

/// Replaying one logical write — the same internode write with the
/// same key, value and timestamp — leaves the replica in the same
/// stored state and yields the same response again.
pub proof fn lemma_write_replay_idempotent(
    m: Map<KeyV, ValueV>,
    shard: int,
    shard_count: int,
    key: KeyV,
    value: ValueV,
)
    ensures
        ({
            let once = replica_write(m, shard, shard_count, key, value);
            let twice = replica_write(once.0, shard, shard_count, key, value);
            twice.0 == once.0 && twice.1 == once.1
        }),
{
    let once = replica_write(m, shard, shard_count, key, value);
    let twice = replica_write(once.0, shard, shard_count, key, value);
    assert(twice.0 =~= once.0);
}

} // verus!