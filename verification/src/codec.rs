//! The binary wire codec: a deterministic, length-prefixed encoding
//! of every message type, with decoding proved to be its exact
//! inverse in both directions.
//!
//! Layout: integers are 8 bytes little-endian; byte payloads and
//! strings (as UTF-8) carry a little-endian 64-bit length prefix;
//! enum variants carry a single leading tag byte. A whole message is
//! one encoding with nothing following it; trailing bytes are
//! rejected, so every decodable byte string re-encodes to itself.

use vstd::prelude::*;
use vstd::bytes::{
    lemma_auto_spec_u64_to_from_le_bytes, spec_u64_from_le_bytes, spec_u64_to_le_bytes,
    u64_from_le_bytes, u64_to_le_bytes,
};
use vstd::utf8::{
    decode_utf8, decode_utf8_encode_utf8, encode_utf8, encode_utf8_decode_utf8,
    encode_utf8_valid_utf8, valid_utf8,
};
use vstd::slice::{slice_subrange, slice_to_vec};
use crate::message::{
    Action, ActionV, Consistency, Error, InternodeRequest, InternodeRequestV, InternodeResponse,
    InternodeResponseV, Key, KeyV, Request, RequestV, Response, ResponseMessage, ResponseMessageV,
    ResponseV, Value, ValueV,
};

verus! {

// ---------------------------------------------------------------------------
// Well-formedness: a value is encodable when each variable-length part
// fits the 64-bit length prefix. Every value realizable in memory
// satisfies these bounds.
// ---------------------------------------------------------------------------

pub open spec fn fits_len(n: nat) -> bool {
    n <= u64::MAX
}

pub open spec fn wf_key(k: KeyV) -> bool {
    fits_len(k.dataset.len()) && fits_len(k.pkey.len()) && fits_len(k.lkey.len())
}

pub open spec fn wf_str(s: Seq<char>) -> bool {
    fits_len(encode_utf8(s).len())
}

pub open spec fn wf_value(v: ValueV) -> bool {
    match v {
        ValueV::Value { content, .. } => fits_len(content.len()),
        _ => true,
    }
}

pub open spec fn wf_action(a: ActionV) -> bool {
    match a {
        ActionV::Read { key } => wf_key(key),
        ActionV::Write { key, content } => wf_key(key) && fits_len(content.len()),
        ActionV::Delete { key } => wf_key(key),
    }
}

pub open spec fn wf_request(m: RequestV) -> bool {
    wf_action(m.action)
}

pub open spec fn wf_response(r: ResponseV) -> bool {
    match r {
        ResponseV::Value { key, value } => wf_key(key) && wf_value(value),
        ResponseV::WriteAck { key, .. } => wf_key(key),
        ResponseV::Error { key, message } => wf_key(key) && wf_str(message),
    }
}

pub open spec fn wf_response_message(m: ResponseMessageV) -> bool {
    wf_response(m.message)
}

pub open spec fn wf_internode_request(m: InternodeRequestV) -> bool {
    match m {
        InternodeRequestV::Read { key } => wf_key(key),
        InternodeRequestV::Write { key, value } => wf_key(key) && wf_value(value),
    }
}

pub open spec fn wf_internode_response(r: InternodeResponseV) -> bool {
    match r {
        InternodeResponseV::Value { key, value } => wf_key(key) && wf_value(value),
        InternodeResponseV::WriteAck { key, .. } => wf_key(key),
        InternodeResponseV::Error { key, message } => wf_key(key) && wf_str(message),
    }
}

// ---------------------------------------------------------------------------
// Specification encoders.
// ---------------------------------------------------------------------------

pub open spec fn enc_u64(x: u64) -> Seq<u8> {
    spec_u64_to_le_bytes(x)
}

pub open spec fn enc_bytes(b: Seq<u8>) -> Seq<u8>
    recommends
        fits_len(b.len()),
{
    enc_u64(b.len() as u64) + b
}

pub open spec fn enc_str(s: Seq<char>) -> Seq<u8>
    recommends
        wf_str(s),
{
    enc_bytes(encode_utf8(s))
}

pub open spec fn enc_key(k: KeyV) -> Seq<u8>
    recommends
        wf_key(k),
{
    enc_bytes(k.dataset) + enc_bytes(k.pkey) + enc_bytes(k.lkey)
}

pub open spec fn enc_value(v: ValueV) -> Seq<u8>
    recommends
        wf_value(v),
{
    match v {
        ValueV::Absent => seq![0u8],
        ValueV::Value { content, timestamp } => seq![1u8] + enc_bytes(content) + enc_u64(
            timestamp,
        ),
        ValueV::Tombstone { timestamp } => seq![2u8] + enc_u64(timestamp),
    }
}

pub open spec fn enc_consistency(c: Consistency) -> Seq<u8> {
    match c {
        Consistency::One => seq![0u8],
        Consistency::Latest => seq![1u8],
    }
}

pub open spec fn enc_action(a: ActionV) -> Seq<u8>
    recommends
        wf_action(a),
{
    match a {
        ActionV::Read { key } => seq![0u8] + enc_key(key),
        ActionV::Write { key, content } => seq![1u8] + enc_key(key) + enc_bytes(content),
        ActionV::Delete { key } => seq![2u8] + enc_key(key),
    }
}

pub open spec fn enc_request(m: RequestV) -> Seq<u8>
    recommends
        wf_request(m),
{
    enc_action(m.action) + enc_consistency(m.consistency)
}

pub open spec fn enc_response(r: ResponseV) -> Seq<u8>
    recommends
        wf_response(r),
{
    match r {
        ResponseV::Value { key, value } => seq![0u8] + enc_key(key) + enc_value(value),
        ResponseV::WriteAck { key, timestamp } => seq![1u8] + enc_key(key) + enc_u64(timestamp),
        ResponseV::Error { key, message } => seq![2u8] + enc_key(key) + enc_str(message),
    }
}

pub open spec fn enc_response_message(m: ResponseMessageV) -> Seq<u8>
    recommends
        wf_response_message(m),
{
    enc_response(m.message) + enc_consistency(m.consistency)
}

pub open spec fn enc_internode_request(m: InternodeRequestV) -> Seq<u8>
    recommends
        wf_internode_request(m),
{
    match m {
        InternodeRequestV::Read { key } => seq![0u8] + enc_key(key),
        InternodeRequestV::Write { key, value } => seq![1u8] + enc_key(key) + enc_value(value),
    }
}

pub open spec fn enc_internode_response(r: InternodeResponseV) -> Seq<u8>
    recommends
        wf_internode_response(r),
{
    match r {
        InternodeResponseV::Value { key, value } => seq![0u8] + enc_key(key) + enc_value(value),
        InternodeResponseV::WriteAck { key, timestamp } => seq![1u8] + enc_key(key) + enc_u64(
            timestamp,
        ),
        InternodeResponseV::Error { key, message } => seq![2u8] + enc_key(key) + enc_str(message),
    }
}

// ---------------------------------------------------------------------------
// Specification decoders. Each consumes a prefix of the byte sequence
// and yields the decoded value together with the remainder.
// ---------------------------------------------------------------------------

pub open spec fn dec_u64(s: Seq<u8>) -> Option<(u64, Seq<u8>)> {
    if s.len() >= 8 {
        Some((spec_u64_from_le_bytes(s.take(8)), s.skip(8)))
    } else {
        None
    }
}

pub open spec fn dec_bytes(s: Seq<u8>) -> Option<(Seq<u8>, Seq<u8>)> {
    match dec_u64(s) {
        Some((n, r)) => if n <= r.len() {
            Some((r.take(n as int), r.skip(n as int)))
        } else {
            None
        },
        None => None,
    }
}

pub open spec fn dec_str(s: Seq<u8>) -> Option<(Seq<char>, Seq<u8>)> {
    match dec_bytes(s) {
        Some((b, r)) => if valid_utf8(b) {
            Some((decode_utf8(b), r))
        } else {
            None
        },
        None => None,
    }
}

pub open spec fn dec_tag(s: Seq<u8>) -> Option<(u8, Seq<u8>)> {
    if s.len() >= 1 {
        Some((s[0], s.skip(1)))
    } else {
        None
    }
}

pub open spec fn dec_key(s: Seq<u8>) -> Option<(KeyV, Seq<u8>)> {
    match dec_bytes(s) {
        Some((dataset, s1)) => match dec_bytes(s1) {
            Some((pkey, s2)) => match dec_bytes(s2) {
                Some((lkey, s3)) => Some((KeyV { dataset, pkey, lkey }, s3)),
                None => None,
            },
            None => None,
        },
        None => None,
    }
}

pub open spec fn dec_value(s: Seq<u8>) -> Option<(ValueV, Seq<u8>)> {
    match dec_tag(s) {
        Some((t, s1)) => if t == 0 {
            Some((ValueV::Absent, s1))
        } else if t == 1 {
            match dec_bytes(s1) {
                Some((content, s2)) => match dec_u64(s2) {
                    Some((timestamp, s3)) => Some((ValueV::Value { content, timestamp }, s3)),
                    None => None,
                },
                None => None,
            }
        } else if t == 2 {
            match dec_u64(s1) {
                Some((timestamp, s2)) => Some((ValueV::Tombstone { timestamp }, s2)),
                None => None,
            }
        } else {
            None
        },
        None => None,
    }
}

pub open spec fn dec_consistency(s: Seq<u8>) -> Option<(Consistency, Seq<u8>)> {
    match dec_tag(s) {
        Some((t, s1)) => if t == 0 {
            Some((Consistency::One, s1))
        } else if t == 1 {
            Some((Consistency::Latest, s1))
        } else {
            None
        },
        None => None,
    }
}

pub open spec fn dec_action(s: Seq<u8>) -> Option<(ActionV, Seq<u8>)> {
    match dec_tag(s) {
        Some((t, s1)) => if t == 0 {
            match dec_key(s1) {
                Some((key, s2)) => Some((ActionV::Read { key }, s2)),
                None => None,
            }
        } else if t == 1 {
            match dec_key(s1) {
                Some((key, s2)) => match dec_bytes(s2) {
                    Some((content, s3)) => Some((ActionV::Write { key, content }, s3)),
                    None => None,
                },
                None => None,
            }
        } else if t == 2 {
            match dec_key(s1) {
                Some((key, s2)) => Some((ActionV::Delete { key }, s2)),
                None => None,
            }
        } else {
            None
        },
        None => None,
    }
}

pub open spec fn dec_request(s: Seq<u8>) -> Option<(RequestV, Seq<u8>)> {
    match dec_action(s) {
        Some((action, s1)) => match dec_consistency(s1) {
            Some((consistency, s2)) => Some((RequestV { action, consistency }, s2)),
            None => None,
        },
        None => None,
    }
}

pub open spec fn dec_response(s: Seq<u8>) -> Option<(ResponseV, Seq<u8>)> {
    match dec_tag(s) {
        Some((t, s1)) => if t == 0 {
            match dec_key(s1) {
                Some((key, s2)) => match dec_value(s2) {
                    Some((value, s3)) => Some((ResponseV::Value { key, value }, s3)),
                    None => None,
                },
                None => None,
            }
        } else if t == 1 {
            match dec_key(s1) {
                Some((key, s2)) => match dec_u64(s2) {
                    Some((timestamp, s3)) => Some((ResponseV::WriteAck { key, timestamp }, s3)),
                    None => None,
                },
                None => None,
            }
        } else if t == 2 {
            match dec_key(s1) {
                Some((key, s2)) => match dec_str(s2) {
                    Some((message, s3)) => Some((ResponseV::Error { key, message }, s3)),
                    None => None,
                },
                None => None,
            }
        } else {
            None
        },
        None => None,
    }
}

pub open spec fn dec_response_message(s: Seq<u8>) -> Option<(ResponseMessageV, Seq<u8>)> {
    match dec_response(s) {
        Some((message, s1)) => match dec_consistency(s1) {
            Some((consistency, s2)) => Some((ResponseMessageV { message, consistency }, s2)),
            None => None,
        },
        None => None,
    }
}

pub open spec fn dec_internode_request(s: Seq<u8>) -> Option<(InternodeRequestV, Seq<u8>)> {
    match dec_tag(s) {
        Some((t, s1)) => if t == 0 {
            match dec_key(s1) {
                Some((key, s2)) => Some((InternodeRequestV::Read { key }, s2)),
                None => None,
            }
        } else if t == 1 {
            match dec_key(s1) {
                Some((key, s2)) => match dec_value(s2) {
                    Some((value, s3)) => Some((InternodeRequestV::Write { key, value }, s3)),
                    None => None,
                },
                None => None,
            }
        } else {
            None
        },
        None => None,
    }
}

pub open spec fn dec_internode_response(s: Seq<u8>) -> Option<(InternodeResponseV, Seq<u8>)> {
    match dec_tag(s) {
        Some((t, s1)) => if t == 0 {
            match dec_key(s1) {
                Some((key, s2)) => match dec_value(s2) {
                    Some((value, s3)) => Some((InternodeResponseV::Value { key, value }, s3)),
                    None => None,
                },
                None => None,
            }
        } else if t == 1 {
            match dec_key(s1) {
                Some((key, s2)) => match dec_u64(s2) {
                    Some((timestamp, s3)) => Some(
                        (InternodeResponseV::WriteAck { key, timestamp }, s3),
                    ),
                    None => None,
                },
                None => None,
            }
        } else if t == 2 {
            match dec_key(s1) {
                Some((key, s2)) => match dec_str(s2) {
                    Some((message, s3)) => Some((InternodeResponseV::Error { key, message }, s3)),
                    None => None,
                },
                None => None,
            }
        } else {
            None
        },
        None => None,
    }
}

// ---------------------------------------------------------------------------
// Whole-message decoding: one message per byte string, nothing after it.
// ---------------------------------------------------------------------------

pub open spec fn request_of_bytes(s: Seq<u8>) -> Option<RequestV> {
    match dec_request(s) {
        Some((m, rest)) => if rest.len() == 0 {
            Some(m)
        } else {
            None
        },
        None => None,
    }
}

pub open spec fn response_message_of_bytes(s: Seq<u8>) -> Option<ResponseMessageV> {
    match dec_response_message(s) {
        Some((m, rest)) => if rest.len() == 0 {
            Some(m)
        } else {
            None
        },
        None => None,
    }
}

pub open spec fn internode_request_of_bytes(s: Seq<u8>) -> Option<InternodeRequestV> {
    match dec_internode_request(s) {
        Some((m, rest)) => if rest.len() == 0 {
            Some(m)
        } else {
            None
        },
        None => None,
    }
}

pub open spec fn internode_response_of_bytes(s: Seq<u8>) -> Option<InternodeResponseV> {
    match dec_internode_response(s) {
        Some((m, rest)) => if rest.len() == 0 {
            Some(m)
        } else {
            None
        },
        None => None,
    }
}

// ---------------------------------------------------------------------------
// Round trip, forward direction: decoding an encoding yields the
// encoded value and leaves exactly the trailing bytes.
// ---------------------------------------------------------------------------

proof fn lemma_dec_u64_enc(x: u64, rest: Seq<u8>)
    ensures
        dec_u64(enc_u64(x) + rest) == Some((x, rest)),
{
    lemma_auto_spec_u64_to_from_le_bytes();
    let s = enc_u64(x) + rest;
    assert(s.take(8) =~= enc_u64(x));
    assert(s.skip(8) =~= rest);
}

proof fn lemma_dec_bytes_enc(b: Seq<u8>, rest: Seq<u8>)
    requires
        fits_len(b.len()),
    ensures
        dec_bytes(enc_bytes(b) + rest) == Some((b, rest)),
{
    assert(enc_bytes(b) + rest =~= enc_u64(b.len() as u64) + (b + rest));
    lemma_dec_u64_enc(b.len() as u64, b + rest);
    assert((b + rest).take(b.len() as int) =~= b);
    assert((b + rest).skip(b.len() as int) =~= rest);
}

proof fn lemma_dec_str_enc(s: Seq<char>, rest: Seq<u8>)
    requires
        wf_str(s),
    ensures
        dec_str(enc_str(s) + rest) == Some((s, rest)),
{
    lemma_dec_bytes_enc(encode_utf8(s), rest);
    encode_utf8_valid_utf8(s);
    encode_utf8_decode_utf8(s);
}

proof fn lemma_dec_tag_enc(t: u8, rest: Seq<u8>)
    ensures
        dec_tag(seq![t] + rest) == Some((t, rest)),
{
    let s = seq![t] + rest;
    assert(s[0] == t);
    assert(s.skip(1) =~= rest);
}

proof fn lemma_dec_key_enc(k: KeyV, rest: Seq<u8>)
    requires
        wf_key(k),
    ensures
        dec_key(enc_key(k) + rest) == Some((k, rest)),
{
    assert(enc_key(k) + rest =~= enc_bytes(k.dataset) + (enc_bytes(k.pkey) + (enc_bytes(k.lkey)
        + rest)));
    lemma_dec_bytes_enc(k.dataset, enc_bytes(k.pkey) + (enc_bytes(k.lkey) + rest));
    lemma_dec_bytes_enc(k.pkey, enc_bytes(k.lkey) + rest);
    lemma_dec_bytes_enc(k.lkey, rest);
    assert(KeyV { dataset: k.dataset, pkey: k.pkey, lkey: k.lkey } =~= k);
}

proof fn lemma_dec_value_enc(v: ValueV, rest: Seq<u8>)
    requires
        wf_value(v),
    ensures
        dec_value(enc_value(v) + rest) == Some((v, rest)),
{
    match v {
        ValueV::Absent => {
            lemma_dec_tag_enc(0u8, rest);
        },
        ValueV::Value { content, timestamp } => {
            assert(enc_value(v) + rest =~= seq![1u8] + (enc_bytes(content) + (enc_u64(timestamp)
                + rest)));
            lemma_dec_tag_enc(1u8, enc_bytes(content) + (enc_u64(timestamp) + rest));
            lemma_dec_bytes_enc(content, enc_u64(timestamp) + rest);
            lemma_dec_u64_enc(timestamp, rest);
        },
        ValueV::Tombstone { timestamp } => {
            assert(enc_value(v) + rest =~= seq![2u8] + (enc_u64(timestamp) + rest));
            lemma_dec_tag_enc(2u8, enc_u64(timestamp) + rest);
            lemma_dec_u64_enc(timestamp, rest);
        },
    }
}

proof fn lemma_dec_consistency_enc(c: Consistency, rest: Seq<u8>)
    ensures
        dec_consistency(enc_consistency(c) + rest) == Some((c, rest)),
{
    match c {
        Consistency::One => lemma_dec_tag_enc(0u8, rest),
        Consistency::Latest => lemma_dec_tag_enc(1u8, rest),
    }
}

proof fn lemma_dec_action_enc(a: ActionV, rest: Seq<u8>)
    requires
        wf_action(a),
    ensures
        dec_action(enc_action(a) + rest) == Some((a, rest)),
{
    match a {
        ActionV::Read { key } => {
            assert(enc_action(a) + rest =~= seq![0u8] + (enc_key(key) + rest));
            lemma_dec_tag_enc(0u8, enc_key(key) + rest);
            lemma_dec_key_enc(key, rest);
        },
        ActionV::Write { key, content } => {
            assert(enc_action(a) + rest =~= seq![1u8] + (enc_key(key) + (enc_bytes(content)
                + rest)));
            lemma_dec_tag_enc(1u8, enc_key(key) + (enc_bytes(content) + rest));
            lemma_dec_key_enc(key, enc_bytes(content) + rest);
            lemma_dec_bytes_enc(content, rest);
        },
        ActionV::Delete { key } => {
            assert(enc_action(a) + rest =~= seq![2u8] + (enc_key(key) + rest));
            lemma_dec_tag_enc(2u8, enc_key(key) + rest);
            lemma_dec_key_enc(key, rest);
        },
    }
}

proof fn lemma_dec_request_enc(m: RequestV, rest: Seq<u8>)
    requires
        wf_request(m),
    ensures
        dec_request(enc_request(m) + rest) == Some((m, rest)),
{
    assert(enc_request(m) + rest =~= enc_action(m.action) + (enc_consistency(m.consistency)
        + rest));
    lemma_dec_action_enc(m.action, enc_consistency(m.consistency) + rest);
    lemma_dec_consistency_enc(m.consistency, rest);
    assert(RequestV { action: m.action, consistency: m.consistency } =~= m);
}

proof fn lemma_dec_response_enc(r: ResponseV, rest: Seq<u8>)
    requires
        wf_response(r),
    ensures
        dec_response(enc_response(r) + rest) == Some((r, rest)),
{
    match r {
        ResponseV::Value { key, value } => {
            assert(enc_response(r) + rest =~= seq![0u8] + (enc_key(key) + (enc_value(value)
                + rest)));
            lemma_dec_tag_enc(0u8, enc_key(key) + (enc_value(value) + rest));
            lemma_dec_key_enc(key, enc_value(value) + rest);
            lemma_dec_value_enc(value, rest);
        },
        ResponseV::WriteAck { key, timestamp } => {
            assert(enc_response(r) + rest =~= seq![1u8] + (enc_key(key) + (enc_u64(timestamp)
                + rest)));
            lemma_dec_tag_enc(1u8, enc_key(key) + (enc_u64(timestamp) + rest));
            lemma_dec_key_enc(key, enc_u64(timestamp) + rest);
            lemma_dec_u64_enc(timestamp, rest);
        },
        ResponseV::Error { key, message } => {
            assert(enc_response(r) + rest =~= seq![2u8] + (enc_key(key) + (enc_str(message)
                + rest)));
            lemma_dec_tag_enc(2u8, enc_key(key) + (enc_str(message) + rest));
            lemma_dec_key_enc(key, enc_str(message) + rest);
            lemma_dec_str_enc(message, rest);
        },
    }
}

proof fn lemma_dec_response_message_enc(m: ResponseMessageV, rest: Seq<u8>)
    requires
        wf_response_message(m),
    ensures
        dec_response_message(enc_response_message(m) + rest) == Some((m, rest)),
{
    assert(enc_response_message(m) + rest =~= enc_response(m.message) + (enc_consistency(
        m.consistency,
    ) + rest));
    lemma_dec_response_enc(m.message, enc_consistency(m.consistency) + rest);
    lemma_dec_consistency_enc(m.consistency, rest);
    assert(ResponseMessageV { message: m.message, consistency: m.consistency } =~= m);
}

proof fn lemma_dec_internode_request_enc(m: InternodeRequestV, rest: Seq<u8>)
    requires
        wf_internode_request(m),
    ensures
        dec_internode_request(enc_internode_request(m) + rest) == Some((m, rest)),
{
    match m {
        InternodeRequestV::Read { key } => {
            assert(enc_internode_request(m) + rest =~= seq![0u8] + (enc_key(key) + rest));
            lemma_dec_tag_enc(0u8, enc_key(key) + rest);
            lemma_dec_key_enc(key, rest);
        },
        InternodeRequestV::Write { key, value } => {
            assert(enc_internode_request(m) + rest =~= seq![1u8] + (enc_key(key) + (enc_value(
                value,
            ) + rest)));
            lemma_dec_tag_enc(1u8, enc_key(key) + (enc_value(value) + rest));
            lemma_dec_key_enc(key, enc_value(value) + rest);
            lemma_dec_value_enc(value, rest);
        },
    }
}

proof fn lemma_dec_internode_response_enc(r: InternodeResponseV, rest: Seq<u8>)
    requires
        wf_internode_response(r),
    ensures
        dec_internode_response(enc_internode_response(r) + rest) == Some((r, rest)),
{
    match r {
        InternodeResponseV::Value { key, value } => {
            assert(enc_internode_response(r) + rest =~= seq![0u8] + (enc_key(key) + (enc_value(
                value,
            ) + rest)));
            lemma_dec_tag_enc(0u8, enc_key(key) + (enc_value(value) + rest));
            lemma_dec_key_enc(key, enc_value(value) + rest);
            lemma_dec_value_enc(value, rest);
        },
        InternodeResponseV::WriteAck { key, timestamp } => {
            assert(enc_internode_response(r) + rest =~= seq![1u8] + (enc_key(key) + (enc_u64(
                timestamp,
            ) + rest)));
            lemma_dec_tag_enc(1u8, enc_key(key) + (enc_u64(timestamp) + rest));
            lemma_dec_key_enc(key, enc_u64(timestamp) + rest);
            lemma_dec_u64_enc(timestamp, rest);
        },
        InternodeResponseV::Error { key, message } => {
            assert(enc_internode_response(r) + rest =~= seq![2u8] + (enc_key(key) + (enc_str(
                message,
            ) + rest)));
            lemma_dec_tag_enc(2u8, enc_key(key) + (enc_str(message) + rest));
            lemma_dec_key_enc(key, enc_str(message) + rest);
            lemma_dec_str_enc(message, rest);
        },
    }
}

// ---------------------------------------------------------------------------
// Round trip, backward direction: whatever decodes was the encoding
// of its result followed by the remainder, so the codec is canonical.
// ---------------------------------------------------------------------------

proof fn lemma_enc_dec_u64(s: Seq<u8>)
    requires
        dec_u64(s) is Some,
    ensures
        ({
            let p = dec_u64(s)->Some_0;
            enc_u64(p.0) + p.1 == s
        }),
{
    lemma_auto_spec_u64_to_from_le_bytes();
    assert(s.take(8).len() == 8);
    assert(spec_u64_to_le_bytes(spec_u64_from_le_bytes(s.take(8))) == s.take(8));
    assert(s.take(8) + s.skip(8) =~= s);
}

proof fn lemma_enc_dec_bytes(s: Seq<u8>)
    requires
        dec_bytes(s) is Some,
    ensures
        ({
            let p = dec_bytes(s)->Some_0;
            fits_len(p.0.len()) && enc_bytes(p.0) + p.1 == s
        }),
{
    lemma_enc_dec_u64(s);
    let q = dec_u64(s)->Some_0;
    let n = q.0;
    let r = q.1;
    let b = r.take(n as int);
    assert(b.len() == n as int);
    assert(b + r.skip(n as int) =~= r);
    assert(enc_bytes(b) + r.skip(n as int) =~= enc_u64(n) + r);
}

proof fn lemma_enc_dec_str(s: Seq<u8>)
    requires
        dec_str(s) is Some,
    ensures
        ({
            let p = dec_str(s)->Some_0;
            wf_str(p.0) && enc_str(p.0) + p.1 == s
        }),
{
    lemma_enc_dec_bytes(s);
    let b = dec_bytes(s)->Some_0.0;
    decode_utf8_encode_utf8(b);
}

proof fn lemma_enc_dec_tag(s: Seq<u8>)
    requires
        dec_tag(s) is Some,
    ensures
        ({
            let p = dec_tag(s)->Some_0;
            seq![p.0] + p.1 == s
        }),
{
    assert(seq![s[0]] + s.skip(1) =~= s);
}

proof fn lemma_enc_dec_key(s: Seq<u8>)
    requires
        dec_key(s) is Some,
    ensures
        ({
            let p = dec_key(s)->Some_0;
            wf_key(p.0) && enc_key(p.0) + p.1 == s
        }),
{
    lemma_enc_dec_bytes(s);
    let s1 = dec_bytes(s)->Some_0.1;
    lemma_enc_dec_bytes(s1);
    let s2 = dec_bytes(s1)->Some_0.1;
    lemma_enc_dec_bytes(s2);
    let dataset = dec_bytes(s)->Some_0.0;
    let pkey = dec_bytes(s1)->Some_0.0;
    let lkey = dec_bytes(s2)->Some_0.0;
    let s3 = dec_bytes(s2)->Some_0.1;
    let k = KeyV { dataset, pkey, lkey };
    assert(enc_key(k) + s3 =~= enc_bytes(dataset) + (enc_bytes(pkey) + (enc_bytes(lkey) + s3)));
}

proof fn lemma_enc_dec_value(s: Seq<u8>)
    requires
        dec_value(s) is Some,
    ensures
        ({
            let p = dec_value(s)->Some_0;
            wf_value(p.0) && enc_value(p.0) + p.1 == s
        }),
{
    lemma_enc_dec_tag(s);
    let t = dec_tag(s)->Some_0.0;
    let s1 = dec_tag(s)->Some_0.1;
    if t == 0 {
        assert(enc_value(ValueV::Absent) + s1 =~= seq![0u8] + s1);
    } else if t == 1 {
        lemma_enc_dec_bytes(s1);
        let content = dec_bytes(s1)->Some_0.0;
        let s2 = dec_bytes(s1)->Some_0.1;
        lemma_enc_dec_u64(s2);
        let timestamp = dec_u64(s2)->Some_0.0;
        let s3 = dec_u64(s2)->Some_0.1;
        let v = ValueV::Value { content, timestamp };
        assert(enc_value(v) + s3 =~= seq![1u8] + (enc_bytes(content) + (enc_u64(timestamp)
            + s3)));
    } else {
        lemma_enc_dec_u64(s1);
        let timestamp = dec_u64(s1)->Some_0.0;
        let s2 = dec_u64(s1)->Some_0.1;
        let v = ValueV::Tombstone { timestamp };
        assert(enc_value(v) + s2 =~= seq![2u8] + (enc_u64(timestamp) + s2));
    }
}

proof fn lemma_enc_dec_consistency(s: Seq<u8>)
    requires
        dec_consistency(s) is Some,
    ensures
        ({
            let p = dec_consistency(s)->Some_0;
            enc_consistency(p.0) + p.1 == s
        }),
{
    lemma_enc_dec_tag(s);
}

proof fn lemma_enc_dec_action(s: Seq<u8>)
    requires
        dec_action(s) is Some,
    ensures
        ({
            let p = dec_action(s)->Some_0;
            wf_action(p.0) && enc_action(p.0) + p.1 == s
        }),
{
    lemma_enc_dec_tag(s);
    let t = dec_tag(s)->Some_0.0;
    let s1 = dec_tag(s)->Some_0.1;
    lemma_enc_dec_key(s1);
    let key = dec_key(s1)->Some_0.0;
    let s2 = dec_key(s1)->Some_0.1;
    if t == 0 {
        assert(enc_action(ActionV::Read { key }) + s2 =~= seq![0u8] + (enc_key(key) + s2));
    } else if t == 1 {
        lemma_enc_dec_bytes(s2);
        let content = dec_bytes(s2)->Some_0.0;
        let s3 = dec_bytes(s2)->Some_0.1;
        assert(enc_action(ActionV::Write { key, content }) + s3 =~= seq![1u8] + (enc_key(key)
            + (enc_bytes(content) + s3)));
    } else {
        assert(enc_action(ActionV::Delete { key }) + s2 =~= seq![2u8] + (enc_key(key) + s2));
    }
}

proof fn lemma_enc_dec_request(s: Seq<u8>)
    requires
        dec_request(s) is Some,
    ensures
        ({
            let p = dec_request(s)->Some_0;
            wf_request(p.0) && enc_request(p.0) + p.1 == s
        }),
{
    lemma_enc_dec_action(s);
    let action = dec_action(s)->Some_0.0;
    let s1 = dec_action(s)->Some_0.1;
    lemma_enc_dec_consistency(s1);
    let consistency = dec_consistency(s1)->Some_0.0;
    let s2 = dec_consistency(s1)->Some_0.1;
    let m = RequestV { action, consistency };
    assert(enc_request(m) + s2 =~= enc_action(action) + (enc_consistency(consistency) + s2));
}

#[verifier::rlimit(50)]
#[verifier::spinoff_prover]
proof fn lemma_enc_dec_response(s: Seq<u8>)
    requires
        dec_response(s) is Some,
    ensures
        ({
            let p = dec_response(s)->Some_0;
            wf_response(p.0) && enc_response(p.0) + p.1 == s
        }),
{
    lemma_enc_dec_tag(s);
    let t = dec_tag(s)->Some_0.0;
    let s1 = dec_tag(s)->Some_0.1;
    lemma_enc_dec_key(s1);
    let key = dec_key(s1)->Some_0.0;
    let s2 = dec_key(s1)->Some_0.1;
    if t == 0 {
        lemma_enc_dec_value(s2);
        let value = dec_value(s2)->Some_0.0;
        let s3 = dec_value(s2)->Some_0.1;
        assert(enc_response(ResponseV::Value { key, value }) + s3 =~= seq![0u8] + (enc_key(key)
            + (enc_value(value) + s3)));
    } else if t == 1 {
        lemma_enc_dec_u64(s2);
        let timestamp = dec_u64(s2)->Some_0.0;
        let s3 = dec_u64(s2)->Some_0.1;
        assert(enc_response(ResponseV::WriteAck { key, timestamp }) + s3 =~= seq![1u8] + (enc_key(
            key,
        ) + (enc_u64(timestamp) + s3)));
    } else {
        lemma_enc_dec_str(s2);
        let message = dec_str(s2)->Some_0.0;
        let s3 = dec_str(s2)->Some_0.1;
        assert(enc_response(ResponseV::Error { key, message }) + s3 =~= seq![2u8] + (enc_key(key)
            + (enc_str(message) + s3)));
    }
}

proof fn lemma_enc_dec_response_message(s: Seq<u8>)
    requires
        dec_response_message(s) is Some,
    ensures
        ({
            let p = dec_response_message(s)->Some_0;
            wf_response_message(p.0) && enc_response_message(p.0) + p.1 == s
        }),
{
    lemma_enc_dec_response(s);
    let message = dec_response(s)->Some_0.0;
    let s1 = dec_response(s)->Some_0.1;
    lemma_enc_dec_consistency(s1);
    let consistency = dec_consistency(s1)->Some_0.0;
    let s2 = dec_consistency(s1)->Some_0.1;
    let m = ResponseMessageV { message, consistency };
    assert(enc_response_message(m) + s2 =~= enc_response(message) + (enc_consistency(consistency)
        + s2));
}

proof fn lemma_enc_dec_internode_request(s: Seq<u8>)
    requires
        dec_internode_request(s) is Some,
    ensures
        ({
            let p = dec_internode_request(s)->Some_0;
            wf_internode_request(p.0) && enc_internode_request(p.0) + p.1 == s
        }),
{
    lemma_enc_dec_tag(s);
    let t = dec_tag(s)->Some_0.0;
    let s1 = dec_tag(s)->Some_0.1;
    lemma_enc_dec_key(s1);
    let key = dec_key(s1)->Some_0.0;
    let s2 = dec_key(s1)->Some_0.1;
    if t == 0 {
        assert(enc_internode_request(InternodeRequestV::Read { key }) + s2 =~= seq![0u8]
            + (enc_key(key) + s2));
    } else {
        lemma_enc_dec_value(s2);
        let value = dec_value(s2)->Some_0.0;
        let s3 = dec_value(s2)->Some_0.1;
        assert(enc_internode_request(InternodeRequestV::Write { key, value }) + s3 =~= seq![1u8]
            + (enc_key(key) + (enc_value(value) + s3)));
    }
}

proof fn lemma_enc_dec_internode_response(s: Seq<u8>)
    requires
        dec_internode_response(s) is Some,
    ensures
        ({
            let p = dec_internode_response(s)->Some_0;
            wf_internode_response(p.0) && enc_internode_response(p.0) + p.1 == s
        }),
{
    lemma_enc_dec_tag(s);
    let t = dec_tag(s)->Some_0.0;
    let s1 = dec_tag(s)->Some_0.1;
    lemma_enc_dec_key(s1);
    let key = dec_key(s1)->Some_0.0;
    let s2 = dec_key(s1)->Some_0.1;
    if t == 0 {
        lemma_enc_dec_value(s2);
        let value = dec_value(s2)->Some_0.0;
        let s3 = dec_value(s2)->Some_0.1;
        assert(enc_internode_response(InternodeResponseV::Value { key, value }) + s3 =~= seq![0u8]
            + (enc_key(key) + (enc_value(value) + s3)));
    } else if t == 1 {
        lemma_enc_dec_u64(s2);
        let timestamp = dec_u64(s2)->Some_0.0;
        let s3 = dec_u64(s2)->Some_0.1;
        assert(enc_internode_response(InternodeResponseV::WriteAck { key, timestamp }) + s3
            =~= seq![1u8] + (enc_key(key) + (enc_u64(timestamp) + s3)));
    } else {
        lemma_enc_dec_str(s2);
        let message = dec_str(s2)->Some_0.0;
        let s3 = dec_str(s2)->Some_0.1;
        assert(enc_internode_response(InternodeResponseV::Error { key, message }) + s3
            =~= seq![2u8] + (enc_key(key) + (enc_str(message) + s3)));
    }
}

// ---------------------------------------------------------------------------
// The codec's laws, public: decoding an encoded message yields that
// message back, and any byte string that decodes at all re-encodes to
// itself. They hold for every variant of every message type.
// ---------------------------------------------------------------------------

/// Decoding inverts encoding for client requests.
pub proof fn lemma_request_round_trip(m: RequestV)
    requires
        wf_request(m),
    ensures
        request_of_bytes(enc_request(m)) == Some(m),
{
    lemma_dec_request_enc(m, Seq::<u8>::empty());
    assert(enc_request(m) + Seq::<u8>::empty() =~= enc_request(m));
}

/// Encoding inverts decoding for client requests: bytes that decode
/// are exactly the encoding of what they decode to.
pub proof fn lemma_request_bytes_exact(bytes: Seq<u8>)
    ensures
        request_of_bytes(bytes) matches Some(m) ==> wf_request(m) && enc_request(m) == bytes,
{
    if request_of_bytes(bytes) is Some {
        lemma_enc_dec_request(bytes);
        let m = dec_request(bytes)->Some_0.0;
        assert(enc_request(m) + Seq::<u8>::empty() =~= enc_request(m));
    }
}

/// Decoding inverts encoding for response envelopes.
pub proof fn lemma_response_message_round_trip(m: ResponseMessageV)
    requires
        wf_response_message(m),
    ensures
        response_message_of_bytes(enc_response_message(m)) == Some(m),
{
    lemma_dec_response_message_enc(m, Seq::<u8>::empty());
    assert(enc_response_message(m) + Seq::<u8>::empty() =~= enc_response_message(m));
}

/// Encoding inverts decoding for response envelopes.
pub proof fn lemma_response_message_bytes_exact(bytes: Seq<u8>)
    ensures
        response_message_of_bytes(bytes) matches Some(m) ==> wf_response_message(m)
            && enc_response_message(m) == bytes,
{
    if response_message_of_bytes(bytes) is Some {
        lemma_enc_dec_response_message(bytes);
        let m = dec_response_message(bytes)->Some_0.0;
        assert(enc_response_message(m) + Seq::<u8>::empty() =~= enc_response_message(m));
    }
}

/// Decoding inverts encoding for internode requests.
pub proof fn lemma_internode_request_round_trip(m: InternodeRequestV)
    requires
        wf_internode_request(m),
    ensures
        internode_request_of_bytes(enc_internode_request(m)) == Some(m),
{
    lemma_dec_internode_request_enc(m, Seq::<u8>::empty());
    assert(enc_internode_request(m) + Seq::<u8>::empty() =~= enc_internode_request(m));
}

/// Encoding inverts decoding for internode requests.
pub proof fn lemma_internode_request_bytes_exact(bytes: Seq<u8>)
    ensures
        internode_request_of_bytes(bytes) matches Some(m) ==> wf_internode_request(m)
            && enc_internode_request(m) == bytes,
{
    if internode_request_of_bytes(bytes) is Some {
        lemma_enc_dec_internode_request(bytes);
        let m = dec_internode_request(bytes)->Some_0.0;
        assert(enc_internode_request(m) + Seq::<u8>::empty() =~= enc_internode_request(m));
    }
}

/// Decoding inverts encoding for internode responses.
pub proof fn lemma_internode_response_round_trip(m: InternodeResponseV)
    requires
        wf_internode_response(m),
    ensures
        internode_response_of_bytes(enc_internode_response(m)) == Some(m),
{
    lemma_dec_internode_response_enc(m, Seq::<u8>::empty());
    assert(enc_internode_response(m) + Seq::<u8>::empty() =~= enc_internode_response(m));
}

/// Encoding inverts decoding for internode responses.
pub proof fn lemma_internode_response_bytes_exact(bytes: Seq<u8>)
    ensures
        internode_response_of_bytes(bytes) matches Some(m) ==> wf_internode_response(m)
            && enc_internode_response(m) == bytes,
{
    if internode_response_of_bytes(bytes) is Some {
        lemma_enc_dec_internode_response(bytes);
        let m = dec_internode_response(bytes)->Some_0.0;
        assert(enc_internode_response(m) + Seq::<u8>::empty() =~= enc_internode_response(m));
    }
}

// ---------------------------------------------------------------------------
// Executable encoders. Each appends the encoding of one value to an
// output buffer.
// ---------------------------------------------------------------------------

fn emit_u64(out: &mut Vec<u8>, x: u64)
    ensures
        final(out)@ == old(out)@ + enc_u64(x),
{
    let mut b = u64_to_le_bytes(x);
    out.append(&mut b);
}

fn emit_bytes(out: &mut Vec<u8>, b: &Vec<u8>)
    ensures
        final(out)@ == old(out)@ + enc_bytes(b@),
{
    emit_u64(out, b.len() as u64);
    let mut tmp = slice_to_vec(b.as_slice());
    out.append(&mut tmp);
    proof {
        assert(out@ =~= old(out)@ + enc_bytes(b@));
    }
}

fn emit_str(out: &mut Vec<u8>, s: &String)
    ensures
        final(out)@ == old(out)@ + enc_str(s@),
{
    let bytes: &[u8] = s.as_str().as_bytes();
    emit_u64(out, bytes.len() as u64);
    let mut tmp = slice_to_vec(bytes);
    out.append(&mut tmp);
    proof {
        assert(out@ =~= old(out)@ + enc_str(s@));
    }
}

fn emit_key(out: &mut Vec<u8>, k: &Key)
    ensures
        final(out)@ == old(out)@ + enc_key(k@),
{
    emit_bytes(out, &k.dataset);
    emit_bytes(out, &k.pkey);
    emit_bytes(out, &k.lkey);
    proof {
        assert(out@ =~= old(out)@ + enc_key(k@));
    }
}

fn emit_value(out: &mut Vec<u8>, v: &Value)
    ensures
        final(out)@ == old(out)@ + enc_value(v@),
{
    match v {
        Value::Absent => {
            out.push(0u8);
            proof {
                assert(out@ =~= old(out)@ + enc_value(v@));
            }
        },
        Value::Value { content, timestamp } => {
            out.push(1u8);
            emit_bytes(out, content);
            emit_u64(out, *timestamp);
            proof {
                assert(out@ =~= old(out)@ + enc_value(v@));
            }
        },
        Value::Tombstone { timestamp } => {
            out.push(2u8);
            emit_u64(out, *timestamp);
            proof {
                assert(out@ =~= old(out)@ + enc_value(v@));
            }
        },
    }
}

fn emit_consistency(out: &mut Vec<u8>, c: Consistency)
    ensures
        final(out)@ == old(out)@ + enc_consistency(c),
{
    match c {
        Consistency::One => out.push(0u8),
        Consistency::Latest => out.push(1u8),
    }
    proof {
        assert(out@ =~= old(out)@ + enc_consistency(c));
    }
}

fn emit_action(out: &mut Vec<u8>, a: &Action)
    ensures
        final(out)@ == old(out)@ + enc_action(a@),
{
    match a {
        Action::Read { key } => {
            out.push(0u8);
            emit_key(out, key);
        },
        Action::Write { key, content } => {
            out.push(1u8);
            emit_key(out, key);
            emit_bytes(out, content);
        },
        Action::Delete { key } => {
            out.push(2u8);
            emit_key(out, key);
        },
    }
    proof {
        assert(out@ =~= old(out)@ + enc_action(a@));
    }
}

/// Encode a client request for the wire.
pub fn encode_request(m: &Request) -> (r: Vec<u8>)
    ensures
        r@ == enc_request(m@),
{
    let mut out: Vec<u8> = Vec::new();
    emit_action(&mut out, &m.action);
    emit_consistency(&mut out, m.consistency);
    proof {
        assert(out@ =~= enc_request(m@));
    }
    out
}

fn emit_response(out: &mut Vec<u8>, r: &Response)
    ensures
        final(out)@ == old(out)@ + enc_response(r@),
{
    match r {
        Response::Value { key, value } => {
            out.push(0u8);
            emit_key(out, key);
            emit_value(out, value);
        },
        Response::WriteAck { key, timestamp } => {
            out.push(1u8);
            emit_key(out, key);
            emit_u64(out, *timestamp);
        },
        Response::Error { key, message } => {
            out.push(2u8);
            emit_key(out, key);
            emit_str(out, message);
        },
    }
    proof {
        assert(out@ =~= old(out)@ + enc_response(r@));
    }
}

/// Encode a handler-to-client response envelope for the wire.
pub fn encode_response_message(m: &ResponseMessage) -> (r: Vec<u8>)
    ensures
        r@ == enc_response_message(m@),
{
    let mut out: Vec<u8> = Vec::new();
    emit_response(&mut out, &m.message);
    emit_consistency(&mut out, m.consistency);
    proof {
        assert(out@ =~= enc_response_message(m@));
    }
    out
}

/// Encode an internode request for the wire.
pub fn encode_internode_request(m: &InternodeRequest) -> (r: Vec<u8>)
    ensures
        r@ == enc_internode_request(m@),
{
    let mut out: Vec<u8> = Vec::new();
    match m {
        InternodeRequest::Read { key } => {
            out.push(0u8);
            emit_key(&mut out, key);
        },
        InternodeRequest::Write { key, value } => {
            out.push(1u8);
            emit_key(&mut out, key);
            emit_value(&mut out, value);
        },
    }
    proof {
        assert(out@ =~= enc_internode_request(m@));
    }
    out
}

/// Encode an internode response for the wire.
pub fn encode_internode_response(m: &InternodeResponse) -> (r: Vec<u8>)
    ensures
        r@ == enc_internode_response(m@),
{
    let mut out: Vec<u8> = Vec::new();
    match m {
        InternodeResponse::Value { key, value } => {
            out.push(0u8);
            emit_key(&mut out, key);
            emit_value(&mut out, value);
        },
        InternodeResponse::WriteAck { key, timestamp } => {
            out.push(1u8);
            emit_key(&mut out, key);
            emit_u64(&mut out, *timestamp);
        },
        InternodeResponse::Error { key, message } => {
            out.push(2u8);
            emit_key(&mut out, key);
            emit_str(&mut out, message);
        },
    }
    proof {
        assert(out@ =~= enc_internode_response(m@));
    }
    out
}

// ---------------------------------------------------------------------------
// Executable decoders. Each reads one value at a byte position and
// returns it with the position just past it, refining the
// specification decoder applied to the bytes from that position on.
// ---------------------------------------------------------------------------

/// Relies on `String::from_utf8`: it succeeds exactly on valid UTF-8
/// input and returns the string whose UTF-8 encoding is that input.
#[verifier::external_body]
fn string_from_utf8(bytes: Vec<u8>) -> (r: Option<String>)
    ensures
        r is Some <==> valid_utf8(bytes@),
        r matches Some(s) ==> encode_utf8(s@) == bytes@,
{
    String::from_utf8(bytes).ok()
}

fn take_u64(s: &[u8], pos: usize) -> (r: Option<(u64, usize)>)
    requires
        pos <= s@.len(),
    ensures
        match r {
            Some(p) => pos <= p.1 <= s@.len() && dec_u64(s@.skip(pos as int)) == Some(
                (p.0, s@.skip(p.1 as int)),
            ),
            None => dec_u64(s@.skip(pos as int)) is None,
        },
{
    if s.len() - pos >= 8 {
        let sub = slice_subrange(s, pos, pos + 8);
        let x = u64_from_le_bytes(sub);
        proof {
            assert(s@.skip(pos as int).take(8) =~= s@.subrange(pos as int, pos as int + 8));
            assert(s@.skip(pos as int).skip(8) =~= s@.skip(pos as int + 8));
        }
        Some((x, pos + 8))
    } else {
        None
    }
}

fn take_bytes(s: &[u8], pos: usize) -> (r: Option<(Vec<u8>, usize)>)
    requires
        pos <= s@.len(),
    ensures
        match r {
            Some(p) => pos <= p.1 <= s@.len() && dec_bytes(s@.skip(pos as int)) == Some(
                (p.0@, s@.skip(p.1 as int)),
            ),
            None => dec_bytes(s@.skip(pos as int)) is None,
        },
{
    match take_u64(s, pos) {
        Some((n, pos1)) => {
            if n <= (s.len() - pos1) as u64 {
                let len = n as usize;
                let sub = slice_subrange(s, pos1, pos1 + len);
                let b = slice_to_vec(sub);
                proof {
                    let rem = s@.skip(pos1 as int);
                    assert(rem.take(n as int) =~= s@.subrange(pos1 as int, pos1 as int + n));
                    assert(rem.skip(n as int) =~= s@.skip(pos1 as int + n));
                }
                Some((b, pos1 + len))
            } else {
                None
            }
        },
        None => None,
    }
}

fn take_string(s: &[u8], pos: usize) -> (r: Option<(String, usize)>)
    requires
        pos <= s@.len(),
    ensures
        match r {
            Some(p) => pos <= p.1 <= s@.len() && dec_str(s@.skip(pos as int)) == Some(
                (p.0@, s@.skip(p.1 as int)),
            ),
            None => dec_str(s@.skip(pos as int)) is None,
        },
{
    match take_bytes(s, pos) {
        Some((b, pos1)) => {
            let ghost bv = b@;
            match string_from_utf8(b) {
                Some(st) => {
                    proof {
                        encode_utf8_decode_utf8(st@);
                    }
                    Some((st, pos1))
                },
                None => None,
            }
        },
        None => None,
    }
}

fn take_tag(s: &[u8], pos: usize) -> (r: Option<(u8, usize)>)
    requires
        pos <= s@.len(),
    ensures
        match r {
            Some(p) => pos <= p.1 <= s@.len() && dec_tag(s@.skip(pos as int)) == Some(
                (p.0, s@.skip(p.1 as int)),
            ),
            None => dec_tag(s@.skip(pos as int)) is None,
        },
{
    if pos < s.len() {
        let t = s[pos];
        proof {
            assert(s@.skip(pos as int)[0] == s@[pos as int]);
            assert(s@.skip(pos as int).skip(1) =~= s@.skip(pos as int + 1));
        }
        Some((t, pos + 1))
    } else {
        None
    }
}

fn take_key(s: &[u8], pos: usize) -> (r: Option<(Key, usize)>)
    requires
        pos <= s@.len(),
    ensures
        match r {
            Some(p) => pos <= p.1 <= s@.len() && dec_key(s@.skip(pos as int)) == Some(
                (p.0@, s@.skip(p.1 as int)),
            ),
            None => dec_key(s@.skip(pos as int)) is None,
        },
{
    match take_bytes(s, pos) {
        Some((dataset, pos1)) => match take_bytes(s, pos1) {
            Some((pkey, pos2)) => match take_bytes(s, pos2) {
                Some((lkey, pos3)) => Some((Key { dataset, pkey, lkey }, pos3)),
                None => None,
            },
            None => None,
        },
        None => None,
    }
}

fn take_value(s: &[u8], pos: usize) -> (r: Option<(Value, usize)>)
    requires
        pos <= s@.len(),
    ensures
        match r {
            Some(p) => pos <= p.1 <= s@.len() && dec_value(s@.skip(pos as int)) == Some(
                (p.0@, s@.skip(p.1 as int)),
            ),
            None => dec_value(s@.skip(pos as int)) is None,
        },
{
    match take_tag(s, pos) {
        Some((t, pos1)) => {
            if t == 0 {
                Some((Value::Absent, pos1))
            } else if t == 1 {
                match take_bytes(s, pos1) {
                    Some((content, pos2)) => match take_u64(s, pos2) {
                        Some((timestamp, pos3)) => Some(
                            (Value::Value { content, timestamp }, pos3),
                        ),
                        None => None,
                    },
                    None => None,
                }
            } else if t == 2 {
                match take_u64(s, pos1) {
                    Some((timestamp, pos2)) => Some((Value::Tombstone { timestamp }, pos2)),
                    None => None,
                }
            } else {
                None
            }
        },
        None => None,
    }
}

fn take_consistency(s: &[u8], pos: usize) -> (r: Option<(Consistency, usize)>)
    requires
        pos <= s@.len(),
    ensures
        match r {
            Some(p) => pos <= p.1 <= s@.len() && dec_consistency(s@.skip(pos as int)) == Some(
                (p.0, s@.skip(p.1 as int)),
            ),
            None => dec_consistency(s@.skip(pos as int)) is None,
        },
{
    match take_tag(s, pos) {
        Some((t, pos1)) => {
            if t == 0 {
                Some((Consistency::One, pos1))
            } else if t == 1 {
                Some((Consistency::Latest, pos1))
            } else {
                None
            }
        },
        None => None,
    }
}

fn take_action(s: &[u8], pos: usize) -> (r: Option<(Action, usize)>)
    requires
        pos <= s@.len(),
    ensures
        match r {
            Some(p) => pos <= p.1 <= s@.len() && dec_action(s@.skip(pos as int)) == Some(
                (p.0@, s@.skip(p.1 as int)),
            ),
            None => dec_action(s@.skip(pos as int)) is None,
        },
{
    match take_tag(s, pos) {
        Some((t, pos1)) => {
            if t == 0 {
                match take_key(s, pos1) {
                    Some((key, pos2)) => Some((Action::Read { key }, pos2)),
                    None => None,
                }
            } else if t == 1 {
                match take_key(s, pos1) {
                    Some((key, pos2)) => match take_bytes(s, pos2) {
                        Some((content, pos3)) => Some((Action::Write { key, content }, pos3)),
                        None => None,
                    },
                    None => None,
                }
            } else if t == 2 {
                match take_key(s, pos1) {
                    Some((key, pos2)) => Some((Action::Delete { key }, pos2)),
                    None => None,
                }
            } else {
                None
            }
        },
        None => None,
    }
}

fn take_response(s: &[u8], pos: usize) -> (r: Option<(Response, usize)>)
    requires
        pos <= s@.len(),
    ensures
        match r {
            Some(p) => pos <= p.1 <= s@.len() && dec_response(s@.skip(pos as int)) == Some(
                (p.0@, s@.skip(p.1 as int)),
            ),
            None => dec_response(s@.skip(pos as int)) is None,
        },
{
    match take_tag(s, pos) {
        Some((t, pos1)) => {
            if t == 0 {
                match take_key(s, pos1) {
                    Some((key, pos2)) => match take_value(s, pos2) {
                        Some((value, pos3)) => Some((Response::Value { key, value }, pos3)),
                        None => None,
                    },
                    None => None,
                }
            } else if t == 1 {
                match take_key(s, pos1) {
                    Some((key, pos2)) => match take_u64(s, pos2) {
                        Some((timestamp, pos3)) => Some(
                            (Response::WriteAck { key, timestamp }, pos3),
                        ),
                        None => None,
                    },
                    None => None,
                }
            } else if t == 2 {
                match take_key(s, pos1) {
                    Some((key, pos2)) => match take_string(s, pos2) {
                        Some((message, pos3)) => Some((Response::Error { key, message }, pos3)),
                        None => None,
                    },
                    None => None,
                }
            } else {
                None
            }
        },
        None => None,
    }
}

fn take_internode_response_body(s: &[u8], pos: usize) -> (r: Option<(InternodeResponse, usize)>)
    requires
        pos <= s@.len(),
    ensures
        match r {
            Some(p) => pos <= p.1 <= s@.len() && dec_internode_response(s@.skip(pos as int))
                == Some((p.0@, s@.skip(p.1 as int))),
            None => dec_internode_response(s@.skip(pos as int)) is None,
        },
{
    match take_tag(s, pos) {
        Some((t, pos1)) => {
            if t == 0 {
                match take_key(s, pos1) {
                    Some((key, pos2)) => match take_value(s, pos2) {
                        Some((value, pos3)) => Some(
                            (InternodeResponse::Value { key, value }, pos3),
                        ),
                        None => None,
                    },
                    None => None,
                }
            } else if t == 1 {
                match take_key(s, pos1) {
                    Some((key, pos2)) => match take_u64(s, pos2) {
                        Some((timestamp, pos3)) => Some(
                            (InternodeResponse::WriteAck { key, timestamp }, pos3),
                        ),
                        None => None,
                    },
                    None => None,
                }
            } else if t == 2 {
                match take_key(s, pos1) {
                    Some((key, pos2)) => match take_string(s, pos2) {
                        Some((message, pos3)) => Some(
                            (InternodeResponse::Error { key, message }, pos3),
                        ),
                        None => None,
                    },
                    None => None,
                }
            } else {
                None
            }
        },
        None => None,
    }
}

/// Decode a client request from one whole wire message.
pub fn decode_request(bytes: &[u8]) -> (r: Result<Request, Error>)
    ensures
        r matches Ok(m) ==> request_of_bytes(bytes@) == Some(m@),
        r matches Err(e) ==> request_of_bytes(bytes@) is None && e == Error::DecodeError,
{
    proof {
        assert(bytes@.skip(0) =~= bytes@);
    }
    match take_action(bytes, 0) {
        Some((action, pos1)) => match take_consistency(bytes, pos1) {
            Some((consistency, pos2)) => {
                if pos2 == bytes.len() {
                    Ok(Request { action, consistency })
                } else {
                    Err(Error::DecodeError)
                }
            },
            None => Err(Error::DecodeError),
        },
        None => Err(Error::DecodeError),
    }
}

/// Decode a handler-to-client response envelope from one whole wire message.
pub fn decode_response_message(bytes: &[u8]) -> (r: Result<ResponseMessage, Error>)
    ensures
        r matches Ok(m) ==> response_message_of_bytes(bytes@) == Some(m@),
        r matches Err(e) ==> response_message_of_bytes(bytes@) is None && e == Error::DecodeError,
{
    proof {
        assert(bytes@.skip(0) =~= bytes@);
    }
    match take_response(bytes, 0) {
        Some((message, pos1)) => match take_consistency(bytes, pos1) {
            Some((consistency, pos2)) => {
                if pos2 == bytes.len() {
                    Ok(ResponseMessage { message, consistency })
                } else {
                    Err(Error::DecodeError)
                }
            },
            None => Err(Error::DecodeError),
        },
        None => Err(Error::DecodeError),
    }
}

/// Decode an internode request from one whole wire message.
pub fn decode_internode_request(bytes: &[u8]) -> (r: Result<InternodeRequest, Error>)
    ensures
        r matches Ok(m) ==> internode_request_of_bytes(bytes@) == Some(m@),
        r matches Err(e) ==> internode_request_of_bytes(bytes@) is None && e
            == Error::DecodeError,
{
    proof {
        assert(bytes@.skip(0) =~= bytes@);
    }
    let parsed: Option<(InternodeRequest, usize)> = match take_tag(bytes, 0) {
        Some((t, pos1)) => {
            if t == 0 {
                match take_key(bytes, pos1) {
                    Some((key, pos2)) => Some((InternodeRequest::Read { key }, pos2)),
                    None => None,
                }
            } else if t == 1 {
                match take_key(bytes, pos1) {
                    Some((key, pos2)) => match take_value(bytes, pos2) {
                        Some((value, pos3)) => Some(
                            (InternodeRequest::Write { key, value }, pos3),
                        ),
                        None => None,
                    },
                    None => None,
                }
            } else {
                None
            }
        },
        None => None,
    };
    match parsed {
        Some((m, end)) => {
            if end == bytes.len() {
                Ok(m)
            } else {
                Err(Error::DecodeError)
            }
        },
        None => Err(Error::DecodeError),
    }
}

/// Decode an internode response from one whole wire message.
pub fn decode_internode_response(bytes: &[u8]) -> (r: Result<InternodeResponse, Error>)
    ensures
        r matches Ok(m) ==> internode_response_of_bytes(bytes@) == Some(m@),
        r matches Err(e) ==> internode_response_of_bytes(bytes@) is None && e
            == Error::DecodeError,
{
    proof {
        assert(bytes@.skip(0) =~= bytes@);
    }
    match take_internode_response_body(bytes, 0) {
        Some((m, end)) => {
            if end == bytes.len() {
                Ok(m)
            } else {
                Err(Error::DecodeError)
            }
        },
        None => Err(Error::DecodeError),
    }
}

} // verus!
