use sbahn::message::{Action, Consistency, InternodeResponse, Key, Response, Value};

fn sample_key() -> Key {
    Key {
        dataset: vec![1, 2, 3],
        pkey: vec![4, 5, 6],
        lkey: vec![7, 8, 9],
    }
}

#[test]
fn key_hash() {
    let key = Key {
        dataset: vec![1],
        pkey: vec![1],
        lkey: vec![1],
    };
    assert_eq!(8934463522374858327, key.hash());
    assert_eq!(0, key.shard(1 as usize));
}

#[test]
fn shard_depends_only_on_pkey() {
    let base = sample_key();
    let expected = base.shard(5);
    for i in 0..100u8 {
        let k = Key {
            dataset: vec![i, i.wrapping_add(1)],
            pkey: vec![4, 5, 6],
            lkey: vec![i, 99, i],
        };
        assert_eq!(expected, k.shard(5));
    }
}

#[test]
fn partition_stability() {
    // For a fixed pkey, the shard index never moves, whatever
    // dataset and lkey hold.
    let expected = sample_key().shard(3);
    let mut samples: usize = 0;
    for a in 0..100u8 {
        for b in 0..100u8 {
            let k = Key {
                dataset: vec![a, b],
                pkey: vec![4, 5, 6],
                lkey: vec![b, a],
            };
            assert_eq!(expected, k.shard(3));
            samples += 1;
        }
    }
    assert_eq!(10000, samples);
}

#[test]
fn shard_is_in_range() {
    for n in 1..20usize {
        let k = sample_key();
        assert!(k.shard(n) < n);
    }
}

#[test]
fn get_timestamp_per_variant() {
    let key = sample_key();
    let live = InternodeResponse::Value {
        key: key.clone(),
        value: Value::Value {
            content: vec![1],
            timestamp: 42,
        },
    };
    assert_eq!(Some(42), live.get_timestamp());

    let tombstone = InternodeResponse::Value {
        key: key.clone(),
        value: Value::Tombstone { timestamp: 7 },
    };
    assert_eq!(Some(7), tombstone.get_timestamp());

    let absent = InternodeResponse::Value {
        key: key.clone(),
        value: Value::Absent,
    };
    assert_eq!(None, absent.get_timestamp());

    let ack = InternodeResponse::WriteAck {
        key: key.clone(),
        timestamp: 11,
    };
    assert_eq!(Some(11), ack.get_timestamp());

    let error = InternodeResponse::Error {
        key,
        message: "nope".to_string(),
    };
    assert_eq!(None, error.get_timestamp());
}

#[test]
fn to_response_keeps_payload() {
    let key = sample_key();
    let value = Value::Value {
        content: vec![9, 8],
        timestamp: 3,
    };
    let r = InternodeResponse::Value {
        key: key.clone(),
        value: value.clone(),
    }
    .to_response();
    assert_eq!(Response::Value { key: key.clone(), value }, r);

    let r = InternodeResponse::WriteAck {
        key: key.clone(),
        timestamp: 3,
    }
    .to_response();
    assert_eq!(
        Response::WriteAck {
            key: key.clone(),
            timestamp: 3
        },
        r
    );

    let r = InternodeResponse::Error {
        key: key.clone(),
        message: "boom".to_string(),
    }
    .to_response();
    assert_eq!(
        Response::Error {
            key,
            message: "boom".to_string()
        },
        r
    );
}

#[test]
fn value_timestamp_accessor() {
    assert_eq!(None, Value::Absent.timestamp());
    assert_eq!(
        Some(5),
        Value::Value {
            content: vec![],
            timestamp: 5
        }
        .timestamp()
    );
    assert_eq!(Some(6), Value::Tombstone { timestamp: 6 }.timestamp());
}

#[test]
fn duplicate_copies_exactly() {
    let key = sample_key();
    assert_eq!(key, key.duplicate());
    let value = Value::Value {
        content: vec![1, 2],
        timestamp: 10,
    };
    assert_eq!(value, value.duplicate());
    let resp = InternodeResponse::Error {
        key,
        message: "text".to_string(),
    };
    assert_eq!(resp, resp.duplicate());
}

#[test]
fn action_holds_its_key() {
    let key = sample_key();
    let a = Action::Write {
        key: key.clone(),
        content: vec![1],
    };
    match a {
        Action::Write { key: k, content } => {
            assert_eq!(key, k);
            assert_eq!(vec![1u8], content);
        }
        _ => panic!(),
    }
    let c = Consistency::Latest;
    assert_eq!(Consistency::Latest, c);
}
