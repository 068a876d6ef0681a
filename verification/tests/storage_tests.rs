use sbahn::message::{InternodeRequest, InternodeResponse, Key, Value};
use sbahn::storage::{HashMapBackend, StorageBackend};
use sbahn::storage_node::ClientHandler;

fn key_with_pkey(pkey: Vec<u8>) -> Key {
    Key {
        dataset: vec![1, 2, 3],
        pkey,
        lkey: vec![7, 8, 9],
    }
}

/// A key that the given shard owns, among `count` shards.
fn key_in_shard(shard: usize, count: usize) -> Key {
    for b in 0..=255u8 {
        let k = key_with_pkey(vec![b]);
        if k.shard(count) == shard {
            return k;
        }
    }
    panic!("no single-byte pkey lands in shard {} of {}", shard, count);
}

/// A key that the given shard does not own, among `count` shards.
fn key_not_in_shard(shard: usize, count: usize) -> Key {
    for b in 0..=255u8 {
        let k = key_with_pkey(vec![b]);
        if k.shard(count) != shard {
            return k;
        }
    }
    panic!("every single-byte pkey lands in shard {} of {}", shard, count);
}

#[test]
fn backend_get_miss_then_hit() {
    let mut backend = HashMapBackend::new();
    let key = key_with_pkey(vec![4, 5, 6]);
    assert_eq!(None, backend.get(&key));
    let value = Value::Value {
        content: vec![1],
        timestamp: 10,
    };
    backend.insert(key.clone(), value.clone());
    assert_eq!(Some(value), backend.get(&key));
}

#[test]
fn backend_insert_overwrites() {
    let mut backend = HashMapBackend::new();
    let key = key_with_pkey(vec![4, 5, 6]);
    backend.insert(
        key.clone(),
        Value::Value {
            content: vec![1],
            timestamp: 10,
        },
    );
    let newer = Value::Value {
        content: vec![2],
        timestamp: 20,
    };
    backend.insert(key.clone(), newer.clone());
    assert_eq!(Some(newer), backend.get(&key));
}

#[test]
fn backend_keeps_other_keys_apart() {
    let mut backend = HashMapBackend::new();
    let k1 = key_with_pkey(vec![1]);
    let k2 = key_with_pkey(vec![2]);
    let v1 = Value::Value {
        content: vec![1],
        timestamp: 1,
    };
    let v2 = Value::Tombstone { timestamp: 2 };
    backend.insert(k1.clone(), v1.clone());
    backend.insert(k2.clone(), v2.clone());
    assert_eq!(Some(v1), backend.get(&k1));
    assert_eq!(Some(v2), backend.get(&k2));
}

#[test]
fn node_write_then_read() {
    // A single-shard cluster: the node owns every key.
    let key = key_with_pkey(vec![4, 5, 6]);
    let mut node = ClientHandler::new(HashMapBackend::new(), 0, 1);
    let value = Value::Value {
        content: vec![1],
        timestamp: 10000000,
    };
    let r = node.handle_message(InternodeRequest::Write {
        key: key.clone(),
        value: value.clone(),
    });
    assert_eq!(
        InternodeResponse::WriteAck {
            key: key.clone(),
            timestamp: 10000000
        },
        r
    );
    let r = node.handle_message(InternodeRequest::Read { key: key.clone() });
    assert_eq!(InternodeResponse::Value { key, value }, r);
}

#[test]
fn node_read_miss_returns_absent() {
    let key = key_in_shard(1, 3);
    let node = ClientHandler::new(HashMapBackend::new(), 1, 3);
    let r = node.get(key.clone());
    assert_eq!(
        InternodeResponse::Value {
            key,
            value: Value::Absent
        },
        r
    );
}

#[test]
fn node_rejects_wrong_shard_and_keeps_state() {
    let count = 3;
    let shard = 1;
    let own_key = key_in_shard(shard, count);
    let foreign_key = key_not_in_shard(shard, count);
    let mut node = ClientHandler::new(HashMapBackend::new(), shard, count);

    let own_value = Value::Value {
        content: vec![7],
        timestamp: 5,
    };
    node.insert(own_key.clone(), own_value.clone());

    // A write for a foreign key is refused...
    let r = node.insert(
        foreign_key.clone(),
        Value::Value {
            content: vec![8],
            timestamp: 6,
        },
    );
    assert!(matches!(r, InternodeResponse::Error { .. }));

    // ...a read for it is refused too...
    let r = node.get(foreign_key);
    assert!(matches!(r, InternodeResponse::Error { .. }));

    // ...and the node's own state is untouched.
    let r = node.get(own_key.clone());
    assert_eq!(
        InternodeResponse::Value {
            key: own_key,
            value: own_value
        },
        r
    );
}

#[test]
fn node_rejects_absent_write() {
    let key = key_in_shard(0, 3);
    let mut node = ClientHandler::new(HashMapBackend::new(), 0, 3);
    let r = node.insert(key.clone(), Value::Absent);
    assert!(matches!(r, InternodeResponse::Error { .. }));
    // Nothing was stored.
    let r = node.get(key.clone());
    assert_eq!(
        InternodeResponse::Value {
            key,
            value: Value::Absent
        },
        r
    );
}

#[test]
fn node_write_replay_is_idempotent() {
    let key = key_in_shard(2, 3);
    let mut node = ClientHandler::new(HashMapBackend::new(), 2, 3);
    let value = Value::Value {
        content: vec![1, 2, 3],
        timestamp: 500,
    };
    let first = node.insert(key.clone(), value.clone());
    let replay = node.insert(key.clone(), value.clone());
    assert_eq!(first, replay);
    let r = node.get(key.clone());
    assert_eq!(InternodeResponse::Value { key, value }, r);
}

#[test]
fn node_delete_leaves_tombstone() {
    let key = key_in_shard(0, 3);
    let mut node = ClientHandler::new(HashMapBackend::new(), 0, 3);
    node.insert(
        key.clone(),
        Value::Value {
            content: vec![1],
            timestamp: 100,
        },
    );
    node.insert(key.clone(), Value::Tombstone { timestamp: 200 });
    let r = node.get(key.clone());
    assert_eq!(
        InternodeResponse::Value {
            key,
            value: Value::Tombstone { timestamp: 200 }
        },
        r
    );
}
