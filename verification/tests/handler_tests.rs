use sbahn::handler::{get_now, plan_action, read, read_latest, read_one};
use sbahn::message::{
    Action, Consistency, InternodeRequest, InternodeResponse, Key, Response, Value,
};
use sbahn::storage::{HashMapBackend, StorageBackend};
use sbahn::storage_node::ClientHandler;

fn sample_key() -> Key {
    Key {
        dataset: vec![1, 2, 3],
        pkey: vec![4, 5, 6],
        lkey: vec![7, 8, 9],
    }
}

fn live(content: Vec<u8>, timestamp: u64) -> InternodeResponse {
    InternodeResponse::Value {
        key: sample_key(),
        value: Value::Value { content, timestamp },
    }
}

fn ack(timestamp: u64) -> InternodeResponse {
    InternodeResponse::WriteAck {
        key: sample_key(),
        timestamp,
    }
}

#[test]
fn read_one_takes_first_response() {
    let key = sample_key();
    let responses = vec![None, Some(live(vec![1], 100000)), Some(live(vec![2], 7))];
    let r = read_one(&key, &responses);
    assert_eq!(Consistency::One, r.consistency);
    assert_eq!(
        Response::Value {
            key,
            value: Value::Value {
                content: vec![1],
                timestamp: 100000
            }
        },
        r.message
    );
}

#[test]
fn read_one_passes_errors_through() {
    let key = sample_key();
    let error = InternodeResponse::Error {
        key: key.clone(),
        message: "Key doesn't belong to this shard!".to_string(),
    };
    let responses = vec![Some(error), Some(live(vec![1], 1))];
    let r = read_one(&key, &responses);
    match r.message {
        Response::Error { key: k, .. } => assert_eq!(key, k),
        _ => panic!(),
    }
}

#[test]
fn read_one_with_no_reply_is_an_error() {
    let key = sample_key();
    let responses = vec![None, None, None];
    let r = read_one(&key, &responses);
    assert_eq!(
        Response::Error {
            key,
            message: "All the storage nodes replied with errors.".to_string()
        },
        r.message
    );
}

#[test]
fn read_one_returns_seeded_replica() {
    // Only the first replica of the shard holds the value; the rest
    // answer with the absence marker. The first reply wins.
    let key = sample_key();
    let absent = InternodeResponse::Value {
        key: key.clone(),
        value: Value::Absent,
    };
    let responses = vec![
        Some(live(vec![9, 8, 7], 100000)),
        Some(absent.clone()),
        Some(absent),
    ];
    let r = read_one(&key, &responses);
    assert_eq!(
        Response::Value {
            key,
            value: Value::Value {
                content: vec![9, 8, 7],
                timestamp: 100000
            }
        },
        r.message
    );
}

#[test]
fn read_latest_all_replicas_agree() {
    let key = sample_key();
    let responses = vec![
        Some(live(vec![9, 8, 7], 100000)),
        Some(live(vec![9, 8, 7], 100000)),
        Some(live(vec![9, 8, 7], 100000)),
    ];
    let r = read_latest(&key, &responses);
    assert_eq!(
        Response::Value {
            key,
            value: Value::Value {
                content: vec![9, 8, 7],
                timestamp: 100000
            }
        },
        r.message
    );
}

#[test]
fn read_latest_picks_newest_timestamp() {
    let key = sample_key();
    let responses = vec![
        Some(live(vec![1], 10)),
        Some(live(vec![3], 30)),
        Some(live(vec![2], 20)),
    ];
    let r = read_latest(&key, &responses);
    assert_eq!(Consistency::Latest, r.consistency);
    assert_eq!(
        Response::Value {
            key,
            value: Value::Value {
                content: vec![3],
                timestamp: 30
            }
        },
        r.message
    );
}

#[test]
fn read_latest_tie_goes_to_last_seen() {
    let key = sample_key();
    let responses = vec![Some(live(vec![1], 10)), Some(live(vec![2], 10))];
    let r = read_latest(&key, &responses);
    assert_eq!(
        Response::Value {
            key,
            value: Value::Value {
                content: vec![2],
                timestamp: 10
            }
        },
        r.message
    );
}

#[test]
fn read_latest_needs_strict_majority() {
    // One decodable, timestamped reply out of three is not enough.
    let key = sample_key();
    let responses = vec![Some(live(vec![1], 100000)), None, None];
    let r = read_latest(&key, &responses);
    assert_eq!(
        Response::Error {
            key,
            message: "Not enough storage nodes succeeded to give a response".to_string()
        },
        r.message
    );
}

#[test]
fn read_latest_absent_values_do_not_count() {
    // Replies that carry no timestamp (absence markers, errors) do
    // not count towards the majority.
    let key = sample_key();
    let absent = InternodeResponse::Value {
        key: key.clone(),
        value: Value::Absent,
    };
    let responses = vec![
        Some(live(vec![1], 5)),
        Some(absent.clone()),
        Some(absent.clone()),
    ];
    let r = read_latest(&key, &responses);
    assert_eq!(
        Response::Error {
            key,
            message: "Not enough storage nodes succeeded to give a response".to_string()
        },
        r.message
    );
}

#[test]
fn read_latest_succeeds_with_majority() {
    let key = sample_key();
    let responses = vec![Some(live(vec![1], 5)), Some(live(vec![2], 9)), None];
    let r = read_latest(&key, &responses);
    assert_eq!(
        Response::Value {
            key,
            value: Value::Value {
                content: vec![2],
                timestamp: 9
            }
        },
        r.message
    );
}

#[test]
fn read_dispatches_on_consistency() {
    let key = sample_key();
    let responses = vec![Some(live(vec![1], 100000)), None, None];
    let one = read(&key, &Consistency::One, &responses);
    assert!(matches!(one.message, Response::Value { .. }));
    assert_eq!(Consistency::One, one.consistency);
    let latest = read(&key, &Consistency::Latest, &responses);
    assert!(matches!(latest.message, Response::Error { .. }));
    assert_eq!(Consistency::Latest, latest.consistency);
}

#[test]
fn write_acks_with_majority() {
    let key = sample_key();
    let responses = vec![Some(ack(50)), Some(ack(50)), None];
    let r = sbahn::handler::write(&key, Consistency::Latest, &responses);
    assert_eq!(Consistency::Latest, r.consistency);
    assert_eq!(
        Response::WriteAck {
            key,
            timestamp: 50
        },
        r.message
    );
}

#[test]
fn write_without_quorum_is_an_error() {
    let key = sample_key();
    for responses in [
        vec![Some(ack(50)), None, None],
        vec![None, None, None],
        vec![],
    ] {
        let r = sbahn::handler::write(&key, Consistency::Latest, &responses);
        assert_eq!(
            Response::Error {
                key: key.clone(),
                message: "Quorum write could not be accomplished.".to_string()
            },
            r.message
        );
    }
}

#[test]
fn write_errors_do_not_count_as_acks() {
    let key = sample_key();
    let error = InternodeResponse::Error {
        key: key.clone(),
        message: "Key doesn't belong to this shard!".to_string(),
    };
    let responses = vec![Some(ack(50)), Some(error.clone()), Some(error)];
    let r = sbahn::handler::write(&key, Consistency::One, &responses);
    assert_eq!(Consistency::One, r.consistency);
    assert_eq!(
        Response::Error {
            key,
            message: "Quorum write could not be accomplished.".to_string()
        },
        r.message
    );
}

#[test]
fn plan_action_stamps_writes_and_deletes() {
    let key = sample_key();
    let (shard, request) = plan_action(
        Action::Write {
            key: key.clone(),
            content: vec![1],
        },
        42,
        3,
    );
    assert_eq!(key.shard(3), shard);
    assert_eq!(
        InternodeRequest::Write {
            key: key.clone(),
            value: Value::Value {
                content: vec![1],
                timestamp: 42
            }
        },
        request
    );

    let (shard, request) = plan_action(Action::Delete { key: key.clone() }, 43, 3);
    assert_eq!(key.shard(3), shard);
    assert_eq!(
        InternodeRequest::Write {
            key: key.clone(),
            value: Value::Tombstone { timestamp: 43 }
        },
        request
    );

    let (shard, request) = plan_action(Action::Read { key: key.clone() }, 44, 3);
    assert_eq!(key.shard(3), shard);
    assert_eq!(InternodeRequest::Read { key }, request);
}

#[test]
fn clock_runs_forward_of_the_epoch() {
    let now = get_now();
    // Sometime after 2020-01-01 in microseconds, and monotone enough
    // to be non-zero twice.
    assert!(now > 1_577_836_800_000_000);
    assert!(get_now() >= now);
}

/// One logical cluster pass without the network: write through the
/// handler pipeline to every replica of the key's shard, then read
/// back under `Latest`.
#[test]
fn pipeline_read_your_write_then_delete() {
    let key = sample_key();
    let shard_count = 3;
    let replicas_per_shard = 3;
    let shard = key.shard(shard_count);
    let mut replicas: Vec<ClientHandler<HashMapBackend>> = Vec::new();
    for _ in 0..replicas_per_shard {
        replicas.push(ClientHandler::new(HashMapBackend::new(), shard, shard_count));
    }

    // Write content [1] with the handler's timestamp.
    let write_ts = 1000;
    let (msg_shard, request) = plan_action(
        Action::Write {
            key: key.clone(),
            content: vec![1],
        },
        write_ts,
        shard_count,
    );
    assert_eq!(shard, msg_shard);
    let mut responses: Vec<Option<InternodeResponse>> = Vec::new();
    for replica in replicas.iter_mut() {
        responses.push(Some(replica.handle_message(request.clone())));
    }
    let r = sbahn::handler::write(&key, Consistency::Latest, &responses);
    assert_eq!(
        Response::WriteAck {
            key: key.clone(),
            timestamp: write_ts
        },
        r.message
    );

    // Read it back under Latest.
    let (_, request) = plan_action(Action::Read { key: key.clone() }, 1001, shard_count);
    let mut responses: Vec<Option<InternodeResponse>> = Vec::new();
    for replica in replicas.iter_mut() {
        responses.push(Some(replica.handle_message(request.clone())));
    }
    let r = read(&key, &Consistency::Latest, &responses);
    assert_eq!(
        Response::Value {
            key: key.clone(),
            value: Value::Value {
                content: vec![1],
                timestamp: write_ts
            }
        },
        r.message
    );

    // Delete, then read the tombstone back — not absence, not the
    // earlier live value.
    let delete_ts = 2000;
    let (_, request) = plan_action(Action::Delete { key: key.clone() }, delete_ts, shard_count);
    let mut responses: Vec<Option<InternodeResponse>> = Vec::new();
    for replica in replicas.iter_mut() {
        responses.push(Some(replica.handle_message(request.clone())));
    }
    let r = sbahn::handler::write(&key, Consistency::Latest, &responses);
    assert_eq!(
        Response::WriteAck {
            key: key.clone(),
            timestamp: delete_ts
        },
        r.message
    );

    let (_, request) = plan_action(Action::Read { key: key.clone() }, 2001, shard_count);
    let mut responses: Vec<Option<InternodeResponse>> = Vec::new();
    for replica in replicas.iter_mut() {
        responses.push(Some(replica.handle_message(request.clone())));
    }
    let r = read(&key, &Consistency::Latest, &responses);
    assert_eq!(
        Response::Value {
            key,
            value: Value::Tombstone {
                timestamp: delete_ts
            }
        },
        r.message
    );
}
