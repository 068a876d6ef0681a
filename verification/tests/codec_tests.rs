use sbahn::codec::{
    decode_internode_request, decode_internode_response, decode_request, decode_response_message,
    encode_internode_request, encode_internode_response, encode_request, encode_response_message,
};
use sbahn::message::{
    Action, Consistency, Error, InternodeRequest, InternodeResponse, Key, Request, Response,
    ResponseMessage, Value,
};

fn sample_key() -> Key {
    Key {
        dataset: vec![1, 2, 3],
        pkey: vec![4, 5, 6],
        lkey: vec![7, 8, 9],
    }
}

fn all_values() -> Vec<Value> {
    vec![
        Value::Absent,
        Value::Value {
            content: vec![10, 20, 30],
            timestamp: 123456,
        },
        Value::Value {
            content: vec![],
            timestamp: 0,
        },
        Value::Tombstone { timestamp: 99 },
    ]
}

#[test]
fn request_round_trip_every_variant() {
    let consistencies = vec![Consistency::One, Consistency::Latest];
    for consistency in &consistencies {
        let actions = vec![
            Action::Read { key: sample_key() },
            Action::Write {
                key: sample_key(),
                content: vec![1, 2],
            },
            Action::Write {
                key: Key {
                    dataset: vec![],
                    pkey: vec![],
                    lkey: vec![],
                },
                content: vec![],
            },
            Action::Delete { key: sample_key() },
        ];
        for action in actions {
            let m = Request {
                action,
                consistency: *consistency,
            };
            let bytes = encode_request(&m);
            assert_eq!(Ok(m), decode_request(&bytes));
        }
    }
}

#[test]
fn response_message_round_trip_every_variant() {
    let consistencies = vec![Consistency::One, Consistency::Latest];
    for consistency in &consistencies {
        let mut messages: Vec<Response> = vec![
            Response::WriteAck {
                key: sample_key(),
                timestamp: 77,
            },
            Response::Error {
                key: sample_key(),
                message: "Quorum write could not be accomplished.".to_string(),
            },
            Response::Error {
                key: sample_key(),
                message: "".to_string(),
            },
            Response::Error {
                key: sample_key(),
                message: "znak: ż, 渋谷, émoji: ☃".to_string(),
            },
        ];
        for value in all_values() {
            messages.push(Response::Value {
                key: sample_key(),
                value,
            });
        }
        for message in messages {
            let m = ResponseMessage {
                message,
                consistency: *consistency,
            };
            let bytes = encode_response_message(&m);
            assert_eq!(Ok(m), decode_response_message(&bytes));
        }
    }
}

#[test]
fn internode_request_round_trip_every_variant() {
    let mut messages = vec![InternodeRequest::Read { key: sample_key() }];
    for value in all_values() {
        messages.push(InternodeRequest::Write {
            key: sample_key(),
            value,
        });
    }
    for m in messages {
        let bytes = encode_internode_request(&m);
        assert_eq!(Ok(m), decode_internode_request(&bytes));
    }
}

#[test]
fn internode_response_round_trip_every_variant() {
    let mut messages = vec![
        InternodeResponse::WriteAck {
            key: sample_key(),
            timestamp: 100000,
        },
        InternodeResponse::Error {
            key: sample_key(),
            message: "Key doesn't belong to this shard!".to_string(),
        },
    ];
    for value in all_values() {
        messages.push(InternodeResponse::Value {
            key: sample_key(),
            value,
        });
    }
    for m in messages {
        let bytes = encode_internode_response(&m);
        assert_eq!(Ok(m), decode_internode_response(&bytes));
    }
}

#[test]
fn decode_rejects_empty_input() {
    let empty: Vec<u8> = vec![];
    assert_eq!(Err(Error::DecodeError), decode_request(&empty));
    assert_eq!(Err(Error::DecodeError), decode_response_message(&empty));
    assert_eq!(Err(Error::DecodeError), decode_internode_request(&empty));
    assert_eq!(Err(Error::DecodeError), decode_internode_response(&empty));
}

#[test]
fn decode_rejects_unknown_tag() {
    let bytes: Vec<u8> = vec![9, 0, 0, 0];
    assert_eq!(Err(Error::DecodeError), decode_request(&bytes));
    assert_eq!(Err(Error::DecodeError), decode_internode_request(&bytes));
}

#[test]
fn decode_rejects_trailing_bytes() {
    let m = InternodeRequest::Read { key: sample_key() };
    let mut bytes = encode_internode_request(&m);
    bytes.push(0);
    assert_eq!(Err(Error::DecodeError), decode_internode_request(&bytes));
}

#[test]
fn decode_rejects_truncated_message() {
    let m = Request {
        action: Action::Write {
            key: sample_key(),
            content: vec![1, 2, 3],
        },
        consistency: Consistency::Latest,
    };
    let bytes = encode_request(&m);
    for cut in 0..bytes.len() {
        let prefix = bytes[..cut].to_vec();
        assert_eq!(Err(Error::DecodeError), decode_request(&prefix));
    }
}

#[test]
fn decode_rejects_invalid_utf8_in_error_message() {
    let m = InternodeResponse::Error {
        key: sample_key(),
        message: "ab".to_string(),
    };
    let mut bytes = encode_internode_response(&m);
    // The message's UTF-8 payload sits at the very end; 0xFF is not
    // valid UTF-8 anywhere.
    let last = bytes.len() - 1;
    bytes[last] = 0xFF;
    assert_eq!(Err(Error::DecodeError), decode_internode_response(&bytes));
}

#[test]
fn encoding_is_deterministic() {
    let m = Request {
        action: Action::Delete { key: sample_key() },
        consistency: Consistency::One,
    };
    assert_eq!(encode_request(&m), encode_request(&m.clone()));
}
