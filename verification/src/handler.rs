//! The handler's request pipeline: planning the internode request for
//! a client action, stamping writes with one timestamp for the whole
//! fan-out, and reconciling the replica responses of one shard under
//! the client's consistency level.
//!
//! The fan-out itself is network work and happens outside this crate;
//! a missing entry (`None`) in a response vector stands for a replica
//! whose reply never arrived or did not decode, which is a silent
//! drop for reads and a missing acknowledgement for writes.

use vstd::prelude::*;
use crate::message::{
    response_of, shard_of, timestamp_of, value_timestamp, Action, ActionV, Consistency,
    InternodeRequest, InternodeRequestV, InternodeResponse, InternodeResponseV, Key, KeyV,
    Response, ResponseMessage, ResponseMessageV, ResponseV, Value, ValueV,
};
use crate::storage_node::replica_read;

verus! {

/// The views of a vector of fan-out outcomes.
pub open spec fn views_of(responses: Seq<Option<InternodeResponse>>) -> Seq<
    Option<InternodeResponseV>,
> {
    responses.map_values(
        |o: Option<InternodeResponse>|
            match o {
                Some(r) => Some(r@),
                None => None,
            },
    )
}

// ---------------------------------------------------------------------------
// Reads under `One`: the first decodable response wins, whatever it
// says; with no decodable response at all, a fixed error.
// ---------------------------------------------------------------------------

/// The error returned when no storage node gave a decodable reply.
pub open spec fn one_read_error_message() -> Seq<char> {
    "All the storage nodes replied with errors."@
}

/// The first decodable response of a fan-out, in arrival order.
pub open spec fn first_response(responses: Seq<Option<InternodeResponseV>>) -> Option<
    InternodeResponseV,
>
    decreases responses.len(),
{
    if responses.len() == 0 {
        None
    } else {
        match responses[0] {
            Some(r) => Some(r),
            None => first_response(responses.drop_first()),
        }
    }
}

/// What a `One` read answers: the first decodable response, or the
/// fixed error when there is none.
pub open spec fn spec_read_one(key: KeyV, responses: Seq<Option<InternodeResponseV>>)
    -> ResponseMessageV {
    match first_response(responses) {
        Some(r) => ResponseMessageV {
            message: response_of(r),
            consistency: Consistency::One,
        },
        None => ResponseMessageV {
            message: ResponseV::Error { key, message: one_read_error_message() },
            consistency: Consistency::One,
        },
    }
}

proof fn lemma_first_response_at(s: Seq<Option<InternodeResponseV>>, i: int)
    requires
        0 <= i < s.len(),
        forall|j: int| 0 <= j < i ==> s[j] is None,
        s[i] is Some,
    ensures
        first_response(s) == s[i],
    decreases i,
{
    if i > 0 {
        assert(forall|j: int| 0 <= j < i - 1 ==> s.drop_first()[j] is None);
        lemma_first_response_at(s.drop_first(), i - 1);
    }
}

proof fn lemma_first_response_none(s: Seq<Option<InternodeResponseV>>)
    requires
        forall|j: int| 0 <= j < s.len() ==> s[j] is None,
    ensures
        first_response(s) is None,
    decreases s.len(),
{
    if s.len() > 0 {
        lemma_first_response_none(s.drop_first());
    }
}

/// Obtain one (any) valid response from all the shard responses.
pub fn read_one(key: &Key, responses: &Vec<Option<InternodeResponse>>) -> (r: ResponseMessage)
    ensures
        r@ == spec_read_one(key@, views_of(responses@)),
{
    let ghost v = views_of(responses@);
    let n = responses.len();
    let mut i: usize = 0;
    while i < n
        invariant
            n == responses@.len(),
            v == views_of(responses@),
            0 <= i <= n,
            forall|j: int| 0 <= j < i ==> v[j] is None,
        decreases n - i,
    {
        match &responses[i] {
            Some(found) => {
                proof {
                    lemma_first_response_at(v, i as int);
                }
                return ResponseMessage {
                    message: found.duplicate().to_response(),
                    consistency: Consistency::One,
                };
            },
            None => {},
        }
        i += 1;
    }
    proof {
        lemma_first_response_none(v);
    }
    ResponseMessage {
        message: Response::Error {
            key: key.duplicate(),
            message: "All the storage nodes replied with errors.".to_string(),
        },
        consistency: Consistency::One,
    }
}

// ---------------------------------------------------------------------------
// Reads under `Latest`: wait for every replica, then pick the
// response with the newest timestamp, provided a strict majority of
// replicas produced a timestamped response at all.
// ---------------------------------------------------------------------------

/// The error returned when too few storage nodes answered a `Latest` read.
pub open spec fn latest_read_error_message() -> Seq<char> {
    "Not enough storage nodes succeeded to give a response"@
}

/// The placeholder error for a quorum of timestamped responses with
/// no newest one among them. `lemma_success_implies_latest` shows no
/// caller ever sees it.
pub open spec fn missing_latest_message() -> Seq<char> {
    "?"@
}

/// A fan-out with any timestamped response always has a newest one,
/// so the placeholder branch of `spec_read_latest` is never taken.
pub proof fn lemma_success_implies_latest(responses: Seq<Option<InternodeResponseV>>)
    requires
        success_count(responses) > 0,
    ensures
        latest_response(responses).1 is Some,
    decreases responses.len(),
{
    if responses.len() > 0 {
        let prev = latest_response(responses.drop_last());
        match responses.last() {
            Some(r) => {
                if timestamp_of(r) is None {
                    lemma_success_implies_latest(responses.drop_last());
                } else {
                    let ts = timestamp_of(r)->Some_0;
                    if ts < prev.0 {
                        // The running maximum stands, and a positive
                        // maximum was set by some response.
                        lemma_latest_none_has_zero(responses.drop_last());
                    }
                }
            },
            None => {
                lemma_success_implies_latest(responses.drop_last());
            },
        }
    }
}

proof fn lemma_latest_none_has_zero(responses: Seq<Option<InternodeResponseV>>)
    ensures
        latest_response(responses).1 is None ==> latest_response(responses).0 == 0,
    decreases responses.len(),
{
    if responses.len() > 0 {
        lemma_latest_none_has_zero(responses.drop_last());
    }
}

/// How many fan-out outcomes carry any timestamp. A decodable reply
/// whose value is the absence marker carries none and does not count.
pub open spec fn success_count(responses: Seq<Option<InternodeResponseV>>) -> int
    decreases responses.len(),
{
    if responses.len() == 0 {
        0
    } else {
        success_count(responses.drop_last()) + (
        match responses.last() {
            Some(r) => if timestamp_of(r) is Some {
                1int
            } else {
                0int
            },
            None => 0int,
        })
    }
}

/// The running maximum of the fan-out: the highest timestamp seen so
/// far and the response that carried it, later responses winning ties.
pub open spec fn latest_response(responses: Seq<Option<InternodeResponseV>>) -> (u64, Option<
    InternodeResponseV,
>)
    decreases responses.len(),
{
    if responses.len() == 0 {
        (0u64, None)
    } else {
        let prev = latest_response(responses.drop_last());
        match responses.last() {
            Some(r) => match timestamp_of(r) {
                Some(ts) => if ts >= prev.0 {
                    (ts, Some(r))
                } else {
                    prev
                },
                None => prev,
            },
            None => prev,
        }
    }
}

/// What a `Latest` read answers: an error unless strictly more than
/// half of the replicas produced a timestamped response, else the
/// timestamped response seen last among those with the newest
/// timestamp.
pub open spec fn spec_read_latest(key: KeyV, responses: Seq<Option<InternodeResponseV>>)
    -> ResponseMessageV {
    let needed = responses.len() as int / 2;
    if success_count(responses) <= needed {
        ResponseMessageV {
            message: ResponseV::Error { key, message: latest_read_error_message() },
            consistency: Consistency::Latest,
        }
    } else {
        match latest_response(responses).1 {
            Some(r) => ResponseMessageV {
                message: response_of(r),
                consistency: Consistency::Latest,
            },
            None => ResponseMessageV {
                message: ResponseV::Error { key, message: missing_latest_message() },
                consistency: Consistency::Latest,
            },
        }
    }
}

/// Obtain the newest value among those stored in this shard's
/// storage nodes.
pub fn read_latest(key: &Key, responses: &Vec<Option<InternodeResponse>>) -> (r: ResponseMessage)
    ensures
        r@ == spec_read_latest(key@, views_of(responses@)),
{
    let ghost v = views_of(responses@);
    let n = responses.len();
    let mut i: usize = 0;
    let mut successes: usize = 0;
    let mut max_timestamp: u64 = 0;
    let mut best: Option<InternodeResponse> = None;
    while i < n
        invariant
            n == responses@.len(),
            v == views_of(responses@),
            0 <= i <= n,
            successes as int == success_count(v.take(i as int)),
            successes <= i,
            max_timestamp == latest_response(v.take(i as int)).0,
            match (best, latest_response(v.take(i as int)).1) {
                (Some(b), Some(l)) => b@ == l,
                (None, None) => true,
                _ => false,
            },
        decreases n - i,
    {
        proof {
            assert(v.take(i + 1).drop_last() =~= v.take(i as int));
            assert(v.take(i + 1).last() == v[i as int]);
        }
        match &responses[i] {
            Some(resp) => {
                match resp.get_timestamp() {
                    Some(ts) => {
                        successes += 1;
                        if ts >= max_timestamp {
                            max_timestamp = ts;
                            best = Some(resp.duplicate());
                        }
                    },
                    None => {},
                }
            },
            None => {},
        }
        i += 1;
    }
    proof {
        assert(v.take(n as int) =~= v);
    }
    let needed = n / 2;
    if successes <= needed {
        ResponseMessage {
            message: Response::Error {
                key: key.duplicate(),
                message: "Not enough storage nodes succeeded to give a response".to_string(),
            },
            consistency: Consistency::Latest,
        }
    } else {
        match best {
            Some(m) => ResponseMessage {
                message: m.to_response(),
                consistency: Consistency::Latest,
            },
            None => ResponseMessage {
                message: Response::Error { key: key.duplicate(), message: "?".to_string() },
                consistency: Consistency::Latest,
            },
        }
    }
}

// ---------------------------------------------------------------------------
// Writes: every replica of the shard is sent the same timestamped
// value; the write is acknowledged once a strict majority of replicas
// acknowledged it.
// ---------------------------------------------------------------------------

/// The error returned when a write reached less than a strict
/// majority of the shard's replicas.
pub open spec fn quorum_error_message() -> Seq<char> {
    "Quorum write could not be accomplished."@
}

/// How many fan-out outcomes acknowledged the write.
pub open spec fn ack_count(responses: Seq<Option<InternodeResponseV>>) -> int
    decreases responses.len(),
{
    if responses.len() == 0 {
        0
    } else {
        ack_count(responses.drop_last()) + (
        match responses.last() {
            Some(r) => if r is WriteAck {
                1int
            } else {
                0int
            },
            None => 0int,
        })
    }
}

/// The acknowledgement seen last in the fan-out, if any.
pub open spec fn last_ack(responses: Seq<Option<InternodeResponseV>>) -> Option<
    InternodeResponseV,
>
    decreases responses.len(),
{
    if responses.len() == 0 {
        None
    } else {
        match responses.last() {
            Some(r) => if r is WriteAck {
                Some(r)
            } else {
                last_ack(responses.drop_last())
            },
            None => last_ack(responses.drop_last()),
        }
    }
}

/// What a write answers: the last acknowledgement when at least
/// `floor(n / 2) + 1` replicas acknowledged, else the quorum error.
/// The request's consistency level is echoed either way.
pub open spec fn spec_write(
    key: KeyV,
    consistency: Consistency,
    responses: Seq<Option<InternodeResponseV>>,
) -> ResponseMessageV {
    if ack_count(responses) >= responses.len() as int / 2 + 1 {
        match last_ack(responses) {
            Some(InternodeResponseV::WriteAck { key: acked_key, timestamp }) => ResponseMessageV {
                message: ResponseV::WriteAck { key: acked_key, timestamp },
                consistency,
            },
            _ => ResponseMessageV {
                message: ResponseV::Error { key, message: quorum_error_message() },
                consistency,
            },
        }
    } else {
        ResponseMessageV {
            message: ResponseV::Error { key, message: quorum_error_message() },
            consistency,
        }
    }
}

/// Count the acknowledgements of this shard's storage nodes and
/// acknowledge the write to the client once a strict majority of them
/// acknowledged it.
pub fn write(key: &Key, consistency: Consistency, responses: &Vec<Option<InternodeResponse>>)
    -> (r: ResponseMessage)
    ensures
        r@ == spec_write(key@, consistency, views_of(responses@)),
{
    let ghost v = views_of(responses@);
    let n = responses.len();
    let mut i: usize = 0;
    let mut write_count: usize = 0;
    let mut ack: Option<(Key, u64)> = None;
    while i < n
        invariant
            n == responses@.len(),
            v == views_of(responses@),
            0 <= i <= n,
            write_count as int == ack_count(v.take(i as int)),
            write_count <= i,
            match (ack, last_ack(v.take(i as int))) {
                (Some(a), Some(l)) => l == (InternodeResponseV::WriteAck {
                    key: a.0@,
                    timestamp: a.1,
                }),
                (None, None) => true,
                _ => false,
            },
        decreases n - i,
    {
        proof {
            assert(v.take(i + 1).drop_last() =~= v.take(i as int));
            assert(v.take(i + 1).last() == v[i as int]);
        }
        match &responses[i] {
            Some(InternodeResponse::WriteAck { key: acked_key, timestamp }) => {
                write_count += 1;
                ack = Some((acked_key.duplicate(), *timestamp));
            },
            _ => {},
        }
        i += 1;
    }
    proof {
        assert(v.take(n as int) =~= v);
    }
    if write_count >= n / 2 + 1 {
        match ack {
            Some((acked_key, timestamp)) => ResponseMessage {
                message: Response::WriteAck { key: acked_key, timestamp },
                consistency,
            },
            None => ResponseMessage {
                message: Response::Error {
                    key: key.duplicate(),
                    message: "Quorum write could not be accomplished.".to_string(),
                },
                consistency,
            },
        }
    } else {
        ResponseMessage {
            message: Response::Error {
                key: key.duplicate(),
                message: "Quorum write could not be accomplished.".to_string(),
            },
            consistency,
        }
    }
}

/// Read from all nodes for this key's shard, and use `consistency` to
/// collate the storage nodes' responses.
pub fn read(key: &Key, consistency: &Consistency, responses: &Vec<Option<InternodeResponse>>)
    -> (r: ResponseMessage)
    ensures
        r@ == match *consistency {
            Consistency::One => spec_read_one(key@, views_of(responses@)),
            Consistency::Latest => spec_read_latest(key@, views_of(responses@)),
        },
{
    match consistency {
        Consistency::One => read_one(key, responses),
        Consistency::Latest => read_latest(key, responses),
    }
}

// ---------------------------------------------------------------------------
// Planning: one timestamp per incoming write or delete, assigned by
// the handler at receipt and reused for every replica of the fan-out.
// ---------------------------------------------------------------------------

/// The key a client action operates on.
pub open spec fn action_key(a: ActionV) -> KeyV {
    match a {
        ActionV::Read { key } => key,
        ActionV::Write { key, .. } => key,
        ActionV::Delete { key } => key,
    }
}

/// The internode request a client action turns into: reads pass
/// through, writes become live values and deletes become tombstones,
/// both carrying the handler's timestamp.
pub open spec fn spec_plan(a: ActionV, timestamp: u64) -> InternodeRequestV {
    match a {
        ActionV::Read { key } => InternodeRequestV::Read { key },
        ActionV::Write { key, content } => InternodeRequestV::Write {
            key,
            value: ValueV::Value { content, timestamp },
        },
        ActionV::Delete { key } => InternodeRequestV::Write {
            key,
            value: ValueV::Tombstone { timestamp },
        },
    }
}

/// Turn one client action into the shard to address and the internode
/// request to fan out to every replica of that shard.
pub fn plan_action(action: Action, timestamp: u64, shard_count: usize) -> (r: (
    usize,
    InternodeRequest,
))
    requires
        shard_count > 0,
    ensures
        r.0 as int == shard_of(action_key(action@).pkey, shard_count as int),
        r.0 < shard_count,
        r.1@ == spec_plan(action@, timestamp),
{
    match action {
        Action::Read { key } => {
            let msg_shard = key.shard(shard_count);
            (msg_shard, InternodeRequest::Read { key })
        },
        Action::Write { key, content } => {
            let msg_shard = key.shard(shard_count);
            (
                msg_shard,
                InternodeRequest::Write { key, value: Value::Value { content, timestamp } },
            )
        },
        Action::Delete { key } => {
            let msg_shard = key.shard(shard_count);
            (msg_shard, InternodeRequest::Write { key, value: Value::Tombstone { timestamp } })
        },
    }
}

// ---------------------------------------------------------------------------
// The clock: wall time in microseconds since the Unix epoch. The
// value itself promises nothing — clocks move freely — so everything
// downstream takes the timestamp as an argument.
// ---------------------------------------------------------------------------

/// Relies on `time::OffsetDateTime`: `now_utc().unix_timestamp_nanos()`
/// is the current wall-clock time as nanoseconds since the Unix
/// epoch. Nothing is assumed of the value.
#[verifier::external_body]
fn now_unix_nanos() -> (r: i128) {
    time::OffsetDateTime::now_utc().unix_timestamp_nanos()
}

/// The whole microseconds in a signed nanosecond count, clamped to
/// the `u64` timestamp range.
pub open spec fn micros_of_nanos(nanos: int) -> u64 {
    if nanos < 0 {
        0u64
    } else if nanos / 1000 > u64::MAX {
        u64::MAX as u64
    } else {
        (nanos / 1000) as u64
    }
}

/// Convert a nanosecond count to clamped whole microseconds.
pub fn micros_from_nanos(nanos: i128) -> (r: u64)
    ensures
        r == micros_of_nanos(nanos as int),
{
    if nanos < 0 {
        0
    } else {
        let micros = nanos / 1000;
        if micros > u64::MAX as i128 {
            u64::MAX
        } else {
            micros as u64
        }
    }
}

/// Current Unix timestamp, in microseconds.
pub fn get_now() -> (r: u64) {
    micros_from_nanos(now_unix_nanos())
}

// ---------------------------------------------------------------------------
// Laws tying the pipeline together: what a sequence of writes through
// one handler leaves on the replicas, and what a later `Latest` read
// of the shard then returns.
// ---------------------------------------------------------------------------

/// The replica state after a sequence of internode writes to one key,
/// applied in order.
pub open spec fn apply_writes(
    m: Map<KeyV, ValueV>,
    shard: int,
    shard_count: int,
    key: KeyV,
    writes: Seq<ValueV>,
) -> Map<KeyV, ValueV>
    decreases writes.len(),
{
    if writes.len() == 0 {
        m
    } else {
        crate::storage_node::replica_write(
            apply_writes(m, shard, shard_count, key, writes.drop_last()),
            shard,
            shard_count,
            key,
            writes.last(),
        ).0
    }
}

proof fn lemma_apply_writes_last(
    m: Map<KeyV, ValueV>,
    shard: int,
    shard_count: int,
    key: KeyV,
    writes: Seq<ValueV>,
)
    requires
        shard_of(key.pkey, shard_count) == shard,
        writes.len() > 0,
        timestamp_of_value_is_some(writes.last()),
    ensures
        apply_writes(m, shard, shard_count, key, writes).contains_key(key),
        apply_writes(m, shard, shard_count, key, writes)[key] == writes.last(),
{
}

/// Whether a stored value carries a timestamp, as every live value
/// and tombstone does.
pub open spec fn timestamp_of_value_is_some(v: ValueV) -> bool {
    value_timestamp(v) is Some
}

proof fn lemma_latest_uniform(resp: InternodeResponseV, n: nat)
    requires
        n > 0,
        timestamp_of(resp) is Some,
    ensures
        success_count(Seq::new(n, |i: int| Some(resp))) == n,
        latest_response(Seq::new(n, |i: int| Some(resp))).1 == Some(resp),
    decreases n,
{
    let s = Seq::new(n, |i: int| Some(resp));
    assert(s.last() == Some(resp));
    if n == 1 {
        assert(s.drop_last() =~= Seq::<Option<InternodeResponseV>>::empty());
        assert(success_count(Seq::<Option<InternodeResponseV>>::empty()) == 0);
        assert(latest_response(Seq::<Option<InternodeResponseV>>::empty()) == (
            0u64,
            None::<InternodeResponseV>,
        ));
        assert(success_count(s) == 1);
        assert(latest_response(s).1 == Some(resp));
    } else {
        assert(s.drop_last() =~= Seq::new((n - 1) as nat, |i: int| Some(resp)));
        lemma_latest_uniform(resp, (n - 1) as nat);
        assert(success_count(s) == success_count(s.drop_last()) + 1);
        assert(latest_response(s).1 == Some(resp));
    }
}

/// Read-your-writes under `Latest`: after any sequence of writes to
/// one key through one handler — every replica of the key's shard
/// applied every write, in order and without loss — a `Latest` read
/// answered by all of the shard's replicas returns the value written
/// last.
pub proof fn lemma_read_your_writes(
    m0: Map<KeyV, ValueV>,
    shard: int,
    shard_count: int,
    key: KeyV,
    writes: Seq<ValueV>,
    n: nat,
)
    requires
        shard_of(key.pkey, shard_count) == shard,
        writes.len() > 0,
        forall|i: int| 0 <= i < writes.len() ==> timestamp_of_value_is_some(#[trigger] writes[i]),
        n > 0,
    ensures
        ({
            let m = apply_writes(m0, shard, shard_count, key, writes);
            let resp = replica_read(m, shard, shard_count, key);
            spec_read_latest(key, Seq::new(n, |i: int| Some(resp))) == (ResponseMessageV {
                message: ResponseV::Value { key, value: writes.last() },
                consistency: Consistency::Latest,
            })
        }),
{
    lemma_apply_writes_last(m0, shard, shard_count, key, writes);
    let m = apply_writes(m0, shard, shard_count, key, writes);
    let resp = replica_read(m, shard, shard_count, key);
    lemma_latest_uniform(resp, n);
    assert(n as int / 2 < n as int);
}

/// Write-then-read under `Latest`: when the write applied last is a
/// live value, the read returns exactly the content written last,
/// under the write's own timestamp.
pub proof fn lemma_read_returns_last_written_content(
    m0: Map<KeyV, ValueV>,
    shard: int,
    shard_count: int,
    key: KeyV,
    writes: Seq<ValueV>,
    content: Seq<u8>,
    write_timestamp: u64,
    n: nat,
)
    requires
        shard_of(key.pkey, shard_count) == shard,
        writes.len() > 0,
        forall|i: int| 0 <= i < writes.len() ==> timestamp_of_value_is_some(#[trigger] writes[i]),
        writes.last() == (ValueV::Value { content, timestamp: write_timestamp }),
        n > 0,
    ensures
        ({
            let m = apply_writes(m0, shard, shard_count, key, writes);
            let resp = replica_read(m, shard, shard_count, key);
            spec_read_latest(key, Seq::new(n, |i: int| Some(resp))) == (ResponseMessageV {
                message: ResponseV::Value {
                    key,
                    value: ValueV::Value { content, timestamp: write_timestamp },
                },
                consistency: Consistency::Latest,
            })
        }),
{
    lemma_read_your_writes(m0, shard, shard_count, key, writes, n);
}

/// Delete-then-read under `Latest`: when the write applied last is
/// the delete's tombstone, the read returns that tombstone — not the
/// absence marker and not any earlier live value.
pub proof fn lemma_delete_then_read_returns_tombstone(
    m0: Map<KeyV, ValueV>,
    shard: int,
    shard_count: int,
    key: KeyV,
    writes: Seq<ValueV>,
    delete_timestamp: u64,
    n: nat,
)
    requires
        shard_of(key.pkey, shard_count) == shard,
        writes.len() > 0,
        forall|i: int| 0 <= i < writes.len() ==> timestamp_of_value_is_some(#[trigger] writes[i]),
        writes.last() == (ValueV::Tombstone { timestamp: delete_timestamp }),
        n > 0,
    ensures
        ({
            let m = apply_writes(m0, shard, shard_count, key, writes);
            let resp = replica_read(m, shard, shard_count, key);
            spec_read_latest(key, Seq::new(n, |i: int| Some(resp))) == (ResponseMessageV {
                message: ResponseV::Value {
                    key,
                    value: ValueV::Tombstone { timestamp: delete_timestamp },
                },
                consistency: Consistency::Latest,
            })
        }),
{
    lemma_read_your_writes(m0, shard, shard_count, key, writes, n);
}

} // verus!