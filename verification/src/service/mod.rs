//! Decisions of the queue service that do not depend on storage: who may
//! create and delete namespaces and queues, which attribute rows a queue
//! configuration writes, and how stored attribute rows are read back.

pub mod queue_attributes;

use crate::api::auth::{Permission, Role, User};
use crate::error::Error;
use crate::sqs::messages::requested;
use crate::sqs::request::check_user_access;
use crate::text::str_eq;
use vstd::prelude::*;

verus! {

/// Dead-letter configuration of a queue: where messages go after too many
/// receives. The target is written `namespace:queue`.
#[derive(Debug, Clone)]
pub struct RedrivePolicy {
    pub dead_letter_target_arn: String,
    pub max_receive_count: u64,
}

/// Delivery configuration of a queue.
#[derive(Debug, Clone, Copy)]
pub struct QueueConfig {
    pub queue: u64,
    pub max_retries: u64,
    pub dead_letter_queue: Option<u64>,
}

/// The attributes of a queue as set and read through SQS. Unrecognized
/// attributes keep their JSON text.
#[derive(Debug, Clone)]
pub struct QueueAttributesSer {
    pub delay_seconds: Option<u64>,
    pub max_message_size: Option<u64>,
    pub message_retention_period: Option<u64>,
    pub receive_message_wait_time_seconds: Option<u64>,
    pub visibility_timeout: Option<u64>,
    /// The redrive policy, as JSON text.
    pub redrive_policy: Option<String>,
    pub other: Vec<(String, String)>,
}

/// The value of a stored attribute row.
#[derive(Debug, Clone)]
pub enum AttributeValue {
    /// A numeric attribute.
    Number(u64),
    /// A textual attribute (the redrive policy).
    Text(String),
    /// Any other attribute, as JSON text.
    Json(String),
}

/// An attribute row viewed as character sequences: its key and its value.
pub enum AttributeRow {
    Number(Seq<char>, u64),
    Text(Seq<char>, Seq<char>),
    Json(Seq<char>, Seq<char>),
}

/// The view of a written row.
pub open spec fn row_view(key: String, value: AttributeValue) -> AttributeRow {
    match value {
        AttributeValue::Number(n) => AttributeRow::Number(key@, n),
        AttributeValue::Text(t) => AttributeRow::Text(key@, t@),
        AttributeValue::Json(j) => AttributeRow::Json(key@, j@),
    }
}

/// Written rows viewed in order.
pub open spec fn rows_view(rows: Seq<(String, AttributeValue)>) -> Seq<AttributeRow> {
    rows.map_values(|r: (String, AttributeValue)| row_view(r.0, r.1))
}

/// The row for an optional numeric attribute: one row when it is set.
pub open spec fn number_row(key: Seq<char>, v: Option<u64>) -> Seq<AttributeRow> {
    match v {
        Some(n) => seq![AttributeRow::Number(key, n)],
        None => seq![],
    }
}

/// The rows of unrecognized attributes, in order.
pub open spec fn other_rows(other: Seq<(String, String)>) -> Seq<AttributeRow> {
    other.map_values(|p: (String, String)| AttributeRow::Json(p.0@, p.1@))
}

/// The rows that setting `a` writes, in order: each set numeric attribute,
/// the redrive policy when set, then every unrecognized attribute.
pub open spec fn attribute_rows(a: QueueAttributesSer) -> Seq<AttributeRow> {
    number_row("delay_seconds"@, a.delay_seconds) + number_row(
        "max_message_size"@,
        a.max_message_size,
    ) + number_row("message_retention_period"@, a.message_retention_period) + number_row(
        "receive_message_wait_time_seconds"@,
        a.receive_message_wait_time_seconds,
    ) + number_row("visibility_timeout"@, a.visibility_timeout) + match a.redrive_policy {
        Some(p) => seq![AttributeRow::Text("redrive_policy"@, p@)],
        None => seq![],
    } + other_rows(a.other@)
}

/// Appends the row of an optional numeric attribute.
fn push_number_row(rows: &mut Vec<(String, AttributeValue)>, key: &str, v: Option<u64>)
    ensures
        rows_view(final(rows)@) == rows_view(old(rows)@) + number_row(key@, v),
{
    let ghost before = rows_view(rows@);
    match v {
        Some(n) => {
            rows.push((key.to_owned(), AttributeValue::Number(n)));
            assert(rows_view(rows@) =~= before + seq![AttributeRow::Number(key@, n)]);
        },
        None => {
            assert(rows_view(rows@) =~= before + Seq::<AttributeRow>::empty());
        },
    }
}

impl QueueAttributesSer {
    /// No attribute set.
    pub fn empty() -> (r: QueueAttributesSer)
        ensures
            r.delay_seconds is None,
            r.max_message_size is None,
            r.message_retention_period is None,
            r.receive_message_wait_time_seconds is None,
            r.visibility_timeout is None,
            r.redrive_policy is None,
            r.other@.len() == 0,
    {
        QueueAttributesSer {
            delay_seconds: None,
            max_message_size: None,
            message_retention_period: None,
            receive_message_wait_time_seconds: None,
            visibility_timeout: None,
            redrive_policy: None,
            other: Vec::new(),
        }
    }

    /// The rows setting these attributes writes (see [`attribute_rows`]);
    /// each is upserted under its key.
    pub fn writes(self) -> (r: Vec<(String, AttributeValue)>)
        ensures
            rows_view(r@) == attribute_rows(self),
    {
        let ghost a = self;
        let mut rows: Vec<(String, AttributeValue)> = Vec::new();
        proof {
            reveal_strlit("delay_seconds");
            reveal_strlit("max_message_size");
            reveal_strlit("message_retention_period");
            reveal_strlit("receive_message_wait_time_seconds");
            reveal_strlit("visibility_timeout");
            reveal_strlit("redrive_policy");
        }
        push_number_row(&mut rows, "delay_seconds", self.delay_seconds);
        push_number_row(&mut rows, "max_message_size", self.max_message_size);
        push_number_row(&mut rows, "message_retention_period", self.message_retention_period);
        push_number_row(
            &mut rows,
            "receive_message_wait_time_seconds",
            self.receive_message_wait_time_seconds,
        );
        push_number_row(&mut rows, "visibility_timeout", self.visibility_timeout);
        let ghost before = rows_view(rows@);
        match self.redrive_policy {
            Some(p) => {
                let ghost pv = p@;
                rows.push((String::from_str("redrive_policy"), AttributeValue::Text(p)));
                assert(rows_view(rows@) =~= before + seq![AttributeRow::Text("redrive_policy"@, pv)]);
            },
            None => {
                assert(rows_view(rows@) =~= before + Seq::<AttributeRow>::empty());
            },
        }
        let ghost fixed = rows_view(rows@);
        let other = self.other;
        let ghost ov = other@;
        let mut rest = other;
        let ghost n = rest.len();
        let mut done: usize = 0;
        while rest.len() > 0
            invariant
                done + rest.len() == n,
                n == ov.len(),
                forall|j: int| 0 <= j < rest.len() ==> #[trigger] rest@[j] == ov[done + j],
                rows_view(rows@) == fixed + other_rows(ov.take(done as int)),
            decreases rest.len(),
        {
            let (k, v) = rest.remove(0);
            let ghost row = AttributeRow::Json(k@, v@);
            let ghost before_rows = rows_view(rows@);
            rows.push((k, AttributeValue::Json(v)));
            assert(rows_view(rows@) =~= before_rows.push(row));
            assert(other_rows(ov.take(done + 1)) =~= other_rows(ov.take(done as int)).push(row));
            done += 1;
        }
        assert(ov.take(n as int) =~= ov);
        assert(fixed + other_rows(ov) =~= attribute_rows(a));
        rows
    }
}

/// The attribute a stored key denotes.
#[derive(Debug, Clone, Copy, PartialEq, Eq, Structural)]
pub enum AttributeKey {
    DelaySeconds,
    MaxMessageSize,
    MessageRetentionPeriod,
    ReceiveMessageWaitTimeSeconds,
    VisibilityTimeout,
    RedrivePolicy,
    Other,
}

/// The attribute a stored key denotes.
pub open spec fn attribute_key_of(k: Seq<char>) -> AttributeKey {
    if k == "delay_seconds"@ {
        AttributeKey::DelaySeconds
    } else if k == "max_message_size"@ {
        AttributeKey::MaxMessageSize
    } else if k == "message_retention_period"@ {
        AttributeKey::MessageRetentionPeriod
    } else if k == "receive_message_wait_time_seconds"@ {
        AttributeKey::ReceiveMessageWaitTimeSeconds
    } else if k == "visibility_timeout"@ {
        AttributeKey::VisibilityTimeout
    } else if k == "redrive_policy"@ {
        AttributeKey::RedrivePolicy
    } else {
        AttributeKey::Other
    }
}

/// The attribute a stored key denotes (see [`attribute_key_of`]).
pub fn attribute_key(k: &str) -> (r: AttributeKey)
    ensures
        r == attribute_key_of(k@),
{
    if str_eq(k, "delay_seconds") {
        AttributeKey::DelaySeconds
    } else if str_eq(k, "max_message_size") {
        AttributeKey::MaxMessageSize
    } else if str_eq(k, "message_retention_period") {
        AttributeKey::MessageRetentionPeriod
    } else if str_eq(k, "receive_message_wait_time_seconds") {
        AttributeKey::ReceiveMessageWaitTimeSeconds
    } else if str_eq(k, "visibility_timeout") {
        AttributeKey::VisibilityTimeout
    } else if str_eq(k, "redrive_policy") {
        AttributeKey::RedrivePolicy
    } else {
        AttributeKey::Other
    }
}

/// Whether a value has the type the key's attribute holds: a number for
/// the numeric attributes, text for the redrive policy, JSON otherwise.
pub open spec fn value_fits(key: AttributeKey, value: AttributeValue) -> bool {
    match key {
        AttributeKey::RedrivePolicy => value is Text,
        AttributeKey::Other => value is Json,
        _ => value is Number,
    }
}

/// The name SQS requests an attribute by: the AWS name of a recognized
/// attribute, the stored key of any other.
pub open spec fn sqs_name_of(k: AttributeKey, key: Seq<char>) -> Seq<char> {
    match k {
        AttributeKey::DelaySeconds => "DelaySeconds"@,
        AttributeKey::MaxMessageSize => "MaximumMessageSize"@,
        AttributeKey::MessageRetentionPeriod => "MessageRetentionPeriod"@,
        AttributeKey::ReceiveMessageWaitTimeSeconds => "ReceiveMessageWaitTimeSeconds"@,
        AttributeKey::VisibilityTimeout => "VisibilityTimeout"@,
        AttributeKey::RedrivePolicy => "RedrivePolicy"@,
        AttributeKey::Other => key,
    }
}

/// The AWS name of a recognized attribute (see [`sqs_name_of`]).
fn sqs_name(k: AttributeKey) -> (r: &'static str)
    requires
        k != AttributeKey::Other,
    ensures
        r@ == sqs_name_of(k, Seq::empty()),
{
    match k {
        AttributeKey::DelaySeconds => "DelaySeconds",
        AttributeKey::MaxMessageSize => "MaximumMessageSize",
        AttributeKey::MessageRetentionPeriod => "MessageRetentionPeriod",
        AttributeKey::ReceiveMessageWaitTimeSeconds => "ReceiveMessageWaitTimeSeconds",
        AttributeKey::VisibilityTimeout => "VisibilityTimeout",
        AttributeKey::RedrivePolicy => "RedrivePolicy",
        AttributeKey::Other => "",
    }
}

/// The attributes `a` with a stored row recorded (see
/// [`QueueAttributesSer::record`]) when its name is requested.
pub open spec fn recorded(a: QueueAttributesSer, key: String, value: AttributeValue) -> QueueAttributesSer {
    match attribute_key_of(key@) {
        AttributeKey::DelaySeconds => QueueAttributesSer { delay_seconds: Some(value->Number_0), ..a },
        AttributeKey::MaxMessageSize => QueueAttributesSer {
            max_message_size: Some(value->Number_0),
            ..a
        },
        AttributeKey::MessageRetentionPeriod => QueueAttributesSer {
            message_retention_period: Some(value->Number_0),
            ..a
        },
        AttributeKey::ReceiveMessageWaitTimeSeconds => QueueAttributesSer {
            receive_message_wait_time_seconds: Some(value->Number_0),
            ..a
        },
        AttributeKey::VisibilityTimeout => QueueAttributesSer {
            visibility_timeout: Some(value->Number_0),
            ..a
        },
        AttributeKey::RedrivePolicy => QueueAttributesSer { redrive_policy: Some(value->Text_0), ..a },
        AttributeKey::Other => a,
    }
}

impl QueueAttributesSer {
    /// Records a stored attribute row read back for a queue when its name
    /// (see [`sqs_name_of`]) is requested, or `All` is: a recognized
    /// attribute takes the value, an unrecognized one is appended. A row
    /// whose name is not requested leaves the attributes as they were.
    pub fn record(&mut self, key: String, value: AttributeValue, names: &Vec<String>)
        requires
            value_fits(attribute_key_of(key@), value),
        ensures
            ({
                let o = *old(self);
                let f = *final(self);
                if !requested(
                    crate::text::strings_view(names@),
                    sqs_name_of(attribute_key_of(key@), key@),
                ) {
                    f == o
                } else if attribute_key_of(key@) == AttributeKey::Other {
                    f == QueueAttributesSer { other: f.other, ..o } && f.other@ == o.other@.push(
                        (key, value->Json_0),
                    )
                } else {
                    f == recorded(o, key, value)
                }
            }),
            attributes_view(*final(self)) == record_row(
                attributes_view(*old(self)),
                row_view(key, value),
                crate::text::strings_view(names@),
            ),
    {
        let k = attribute_key(key.as_str());
        let all = crate::sqs::messages::contains_name(names, "All");
        let wanted = if k == AttributeKey::Other {
            all || crate::sqs::messages::contains_name(names, key.as_str())
        } else {
            all || crate::sqs::messages::contains_name(names, sqs_name(k))
        };
        if !wanted {
            return ;
        }
        match (k, value) {
            (AttributeKey::DelaySeconds, AttributeValue::Number(n)) => {
                self.delay_seconds = Some(n);
            },
            (AttributeKey::MaxMessageSize, AttributeValue::Number(n)) => {
                self.max_message_size = Some(n);
            },
            (AttributeKey::MessageRetentionPeriod, AttributeValue::Number(n)) => {
                self.message_retention_period = Some(n);
            },
            (AttributeKey::ReceiveMessageWaitTimeSeconds, AttributeValue::Number(n)) => {
                self.receive_message_wait_time_seconds = Some(n);
            },
            (AttributeKey::VisibilityTimeout, AttributeValue::Number(n)) => {
                self.visibility_timeout = Some(n);
            },
            (AttributeKey::RedrivePolicy, AttributeValue::Text(t)) => {
                self.redrive_policy = Some(t);
            },
            (AttributeKey::Other, AttributeValue::Json(j)) => {
                let ghost before = crate::text::pairs_view(self.other@);
                let ghost kv = (key@, j@);
                self.other.push((key, j));
                assert(crate::text::pairs_view(self.other@) =~= before.push(kv));
            },
            _ => {},
        }
    }
}

/// The attributes of a queue viewed as plain values.
#[verifier::ext_equal]
pub struct AttributesView {
    pub delay_seconds: Option<u64>,
    pub max_message_size: Option<u64>,
    pub message_retention_period: Option<u64>,
    pub receive_message_wait_time_seconds: Option<u64>,
    pub visibility_timeout: Option<u64>,
    pub redrive_policy: Option<Seq<char>>,
    pub other: Seq<(Seq<char>, Seq<char>)>,
}

/// The view of queue attributes.
pub open spec fn attributes_view(a: QueueAttributesSer) -> AttributesView {
    AttributesView {
        delay_seconds: a.delay_seconds,
        max_message_size: a.max_message_size,
        message_retention_period: a.message_retention_period,
        receive_message_wait_time_seconds: a.receive_message_wait_time_seconds,
        visibility_timeout: a.visibility_timeout,
        redrive_policy: match a.redrive_policy {
            Some(p) => Some(p@),
            None => None,
        },
        other: crate::text::pairs_view(a.other@),
    }
}

/// The attributes `v` after reading back a stored row for a request of
/// `names` (see [`QueueAttributesSer::record`]).
pub open spec fn record_row(v: AttributesView, row: AttributeRow, names: Seq<Seq<char>>) -> AttributesView {
    match row {
        AttributeRow::Number(k, n) => {
            let ak = attribute_key_of(k);
            if !requested(names, sqs_name_of(ak, k)) {
                v
            } else {
                match ak {
                    AttributeKey::DelaySeconds => AttributesView { delay_seconds: Some(n), ..v },
                    AttributeKey::MaxMessageSize => AttributesView { max_message_size: Some(n), ..v },
                    AttributeKey::MessageRetentionPeriod => AttributesView {
                        message_retention_period: Some(n),
                        ..v
                    },
                    AttributeKey::ReceiveMessageWaitTimeSeconds => AttributesView {
                        receive_message_wait_time_seconds: Some(n),
                        ..v
                    },
                    AttributeKey::VisibilityTimeout => AttributesView {
                        visibility_timeout: Some(n),
                        ..v
                    },
                    _ => v,
                }
            }
        },
        AttributeRow::Text(k, t) => if attribute_key_of(k) == AttributeKey::RedrivePolicy
            && requested(names, "RedrivePolicy"@) {
            AttributesView { redrive_policy: Some(t), ..v }
        } else {
            v
        },
        AttributeRow::Json(k, j) => if attribute_key_of(k) == AttributeKey::Other && requested(
            names,
            k,
        ) {
            AttributesView { other: v.other.push((k, j)), ..v }
        } else {
            v
        },
    }
}

/// The attributes `v` after reading back the stored rows in order.
pub open spec fn read_rows(v: AttributesView, rows: Seq<AttributeRow>, names: Seq<Seq<char>>) -> AttributesView
    decreases rows.len(),
{
    if rows.len() == 0 {
        v
    } else {
        record_row(read_rows(v, rows.drop_last(), names), rows.last(), names)
    }
}

/// No attribute set, as a view.
pub open spec fn no_attributes() -> AttributesView {
    AttributesView {
        delay_seconds: None,
        max_message_size: None,
        message_retention_period: None,
        receive_message_wait_time_seconds: None,
        visibility_timeout: None,
        redrive_policy: None,
        other: seq![],
    }
}

/// An optional value kept when its name is requested.
pub open spec fn if_requested<T>(names: Seq<Seq<char>>, name: Seq<char>, v: Option<T>) -> Option<T> {
    if requested(names, name) {
        v
    } else {
        None
    }
}

/// What a request of `names` reads back of the attributes `v`: each
/// recognized attribute when its AWS name (or `All`) is requested, and the
/// requested unrecognized attributes in order.
pub open spec fn requested_view(v: AttributesView, names: Seq<Seq<char>>) -> AttributesView {
    AttributesView {
        delay_seconds: if_requested(names, "DelaySeconds"@, v.delay_seconds),
        max_message_size: if_requested(names, "MaximumMessageSize"@, v.max_message_size),
        message_retention_period: if_requested(
            names,
            "MessageRetentionPeriod"@,
            v.message_retention_period,
        ),
        receive_message_wait_time_seconds: if_requested(
            names,
            "ReceiveMessageWaitTimeSeconds"@,
            v.receive_message_wait_time_seconds,
        ),
        visibility_timeout: if_requested(names, "VisibilityTimeout"@, v.visibility_timeout),
        redrive_policy: if_requested(names, "RedrivePolicy"@, v.redrive_policy),
        other: crate::sqs::messages::named_only(v.other, names),
    }
}

/// Whether every unrecognized attribute has a key no recognized attribute
/// is stored under.
pub open spec fn others_unrecognized(a: QueueAttributesSer) -> bool {
    forall|i: int|
        0 <= i < a.other@.len() ==> attribute_key_of((#[trigger] a.other@[i]).0@)
            == AttributeKey::Other
}

/// Reading rows back in two runs reads the concatenation.
proof fn lemma_read_rows_concat(
    v: AttributesView,
    a: Seq<AttributeRow>,
    b: Seq<AttributeRow>,
    names: Seq<Seq<char>>,
)
    ensures
        read_rows(v, a + b, names) == read_rows(read_rows(v, a, names), b, names),
    decreases b.len(),
{
    if b.len() > 0 {
        lemma_read_rows_concat(v, a, b.drop_last(), names);
        assert((a + b).drop_last() =~= a + b.drop_last());
    }
}

/// Reading back the rows of unrecognized attributes appends the requested
/// ones, in order.
proof fn lemma_read_other_rows(v: AttributesView, other: Seq<(String, String)>, names: Seq<Seq<char>>)
    requires
        forall|i: int|
            0 <= i < other.len() ==> attribute_key_of((#[trigger] other[i]).0@)
                == AttributeKey::Other,
    ensures
        read_rows(v, other_rows(other), names) == (AttributesView {
            other: v.other + crate::sqs::messages::named_only(crate::text::pairs_view(other), names),
            ..v
        }),
    decreases other.len(),
{
    let pv = crate::text::pairs_view(other);
    if other.len() == 0 {
        assert(other_rows(other) =~= seq![]);
        assert(pv =~= seq![]);
        assert(v.other + seq![] =~= v.other);
    } else {
        let d = other.drop_last();
        lemma_read_other_rows(v, d, names);
        assert(other_rows(other).drop_last() =~= other_rows(d));
        assert(pv.drop_last() =~= crate::text::pairs_view(d));
        assert(attribute_key_of(other[other.len() - 1].0@) == AttributeKey::Other);
        let prev = crate::sqs::messages::named_only(crate::text::pairs_view(d), names);
        assert(v.other + prev.push(pv.last()) =~= (v.other + prev).push(pv.last()));
    }
}

/// What is set is what is read back: after setting the attributes `a`,
/// reading the stored rows back for a request of `names` gives exactly the
/// requested attributes of `a`, each with the value set, and the requested
/// unrecognized attributes in the order they were set. Requesting `All`
/// gives back all of `a`.
pub proof fn lemma_set_then_get(a: QueueAttributesSer, names: Seq<Seq<char>>)
    requires
        others_unrecognized(a),
    ensures
        read_rows(no_attributes(), attribute_rows(a), names) == requested_view(
            attributes_view(a),
            names,
        ),
        names.contains("All"@) ==> read_rows(no_attributes(), attribute_rows(a), names)
            == attributes_view(a),
{
    reveal_strlit("delay_seconds");
    reveal_strlit("max_message_size");
    reveal_strlit("message_retention_period");
    reveal_strlit("receive_message_wait_time_seconds");
    reveal_strlit("visibility_timeout");
    reveal_strlit("redrive_policy");
    let r1 = number_row("delay_seconds"@, a.delay_seconds);
    let r2 = number_row("max_message_size"@, a.max_message_size);
    let r3 = number_row("message_retention_period"@, a.message_retention_period);
    let r4 = number_row(
        "receive_message_wait_time_seconds"@,
        a.receive_message_wait_time_seconds,
    );
    let r5 = number_row("visibility_timeout"@, a.visibility_timeout);
    let r6 = match a.redrive_policy {
        Some(p) => seq![AttributeRow::Text("redrive_policy"@, p@)],
        None => Seq::<AttributeRow>::empty(),
    };
    let r7 = other_rows(a.other@);
    let v0 = no_attributes();
    lemma_read_rows_concat(v0, r1 + r2 + r3 + r4 + r5 + r6, r7, names);
    lemma_read_rows_concat(v0, r1 + r2 + r3 + r4 + r5, r6, names);
    lemma_read_rows_concat(v0, r1 + r2 + r3 + r4, r5, names);
    lemma_read_rows_concat(v0, r1 + r2 + r3, r4, names);
    lemma_read_rows_concat(v0, r1 + r2, r3, names);
    lemma_read_rows_concat(v0, r1, r2, names);
    assert("max_message_size"@[0] != "delay_seconds"@[0]);
    assert("message_retention_period"@[0] != "delay_seconds"@[0]);
    assert("message_retention_period"@[1] != "max_message_size"@[1]);
    assert("receive_message_wait_time_seconds"@[0] != "delay_seconds"@[0]);
    assert("receive_message_wait_time_seconds"@[0] != "max_message_size"@[0]);
    assert("receive_message_wait_time_seconds"@[0] != "message_retention_period"@[0]);
    assert("visibility_timeout"@[0] != "delay_seconds"@[0]);
    assert("visibility_timeout"@[0] != "max_message_size"@[0]);
    assert("visibility_timeout"@[0] != "message_retention_period"@[0]);
    assert("visibility_timeout"@[0] != "receive_message_wait_time_seconds"@[0]);
    assert("redrive_policy"@[0] != "delay_seconds"@[0]);
    assert("redrive_policy"@[0] != "max_message_size"@[0]);
    assert("redrive_policy"@[0] != "message_retention_period"@[0]);
    assert("redrive_policy"@[2] != "receive_message_wait_time_seconds"@[2]);
    assert("redrive_policy"@[0] != "visibility_timeout"@[0]);
    assert(attribute_key_of("delay_seconds"@) == AttributeKey::DelaySeconds);
    assert(attribute_key_of("max_message_size"@) == AttributeKey::MaxMessageSize);
    assert(attribute_key_of("message_retention_period"@) == AttributeKey::MessageRetentionPeriod);
    assert(attribute_key_of("receive_message_wait_time_seconds"@)
        == AttributeKey::ReceiveMessageWaitTimeSeconds);
    assert(attribute_key_of("visibility_timeout"@) == AttributeKey::VisibilityTimeout);
    assert(attribute_key_of("redrive_policy"@) == AttributeKey::RedrivePolicy);
    let v1 = read_rows(v0, r1, names);
    let v2 = read_rows(v1, r2, names);
    let v3 = read_rows(v2, r3, names);
    let v4 = read_rows(v3, r4, names);
    let v5 = read_rows(v4, r5, names);
    let v6 = read_rows(v5, r6, names);
    assert(v1 == AttributesView {
        delay_seconds: if_requested(names, "DelaySeconds"@, a.delay_seconds),
        ..v0
    }) by {
        reveal_with_fuel(read_rows, 2);
    }
    assert(v2 == AttributesView {
        max_message_size: if_requested(names, "MaximumMessageSize"@, a.max_message_size),
        ..v1
    }) by {
        reveal_with_fuel(read_rows, 2);
    }
    assert(v3 == AttributesView {
        message_retention_period: if_requested(
            names,
            "MessageRetentionPeriod"@,
            a.message_retention_period,
        ),
        ..v2
    }) by {
        reveal_with_fuel(read_rows, 2);
    }
    assert(v4 == AttributesView {
        receive_message_wait_time_seconds: if_requested(
            names,
            "ReceiveMessageWaitTimeSeconds"@,
            a.receive_message_wait_time_seconds,
        ),
        ..v3
    }) by {
        reveal_with_fuel(read_rows, 2);
    }
    assert(v5 == AttributesView {
        visibility_timeout: if_requested(names, "VisibilityTimeout"@, a.visibility_timeout),
        ..v4
    }) by {
        reveal_with_fuel(read_rows, 2);
    }
    assert(v6 == AttributesView {
        redrive_policy: if_requested(names, "RedrivePolicy"@, attributes_view(a).redrive_policy),
        ..v5
    }) by {
        reveal_with_fuel(read_rows, 2);
    }
    assert forall|i: int| 0 <= i < a.other@.len() implies attribute_key_of(
        (#[trigger] a.other@[i]).0@,
    ) == AttributeKey::Other by {}
    lemma_read_other_rows(v6, a.other@, names);
    assert(v6.other =~= seq![]);
    assert(seq![] + crate::sqs::messages::named_only(crate::text::pairs_view(a.other@), names)
        =~= crate::sqs::messages::named_only(crate::text::pairs_view(a.other@), names));
    assert(r1 + r2 + r3 + r4 + r5 + r6 + r7 == attribute_rows(a));
    if names.contains("All"@) {
        crate::sqs::messages::lemma_all_keeps_everything(crate::text::pairs_view(a.other@), names);
    }
}

/// The key an attribute row is stored under.
pub open spec fn row_key(r: AttributeRow) -> Seq<char> {
    match r {
        AttributeRow::Number(k, _) => k,
        AttributeRow::Text(k, _) => k,
        AttributeRow::Json(k, _) => k,
    }
}

/// The stored attribute rows of a queue after upserting `rows`, in order,
/// into `stored`: each row replaces whatever was stored under its key.
pub open spec fn upsert_rows(stored: Map<Seq<char>, AttributeRow>, rows: Seq<AttributeRow>) -> Map<
    Seq<char>,
    AttributeRow,
>
    decreases rows.len(),
{
    if rows.len() == 0 {
        stored
    } else {
        upsert_rows(stored, rows.drop_last()).insert(row_key(rows.last()), rows.last())
    }
}

/// Whether one of the rows is stored under `k`.
pub open spec fn sets_key(rows: Seq<AttributeRow>, k: Seq<char>) -> bool
    decreases rows.len(),
{
    rows.len() > 0 && (row_key(rows.last()) == k || sets_key(rows.drop_last(), k))
}

/// Under a key the rows set, what ends up stored does not depend on what
/// was stored before; under any other key the stored row is untouched.
proof fn lemma_upsert_at(
    m1: Map<Seq<char>, AttributeRow>,
    m2: Map<Seq<char>, AttributeRow>,
    rows: Seq<AttributeRow>,
    k: Seq<char>,
)
    ensures
        sets_key(rows, k) ==> upsert_rows(m1, rows).dom().contains(k) && upsert_rows(
            m2,
            rows,
        ).dom().contains(k) && upsert_rows(m1, rows)[k] == upsert_rows(m2, rows)[k],
        !sets_key(rows, k) ==> upsert_rows(m1, rows).dom().contains(k) == m1.dom().contains(k)
            && upsert_rows(m1, rows)[k] == m1[k],
    decreases rows.len(),
{
    if rows.len() > 0 {
        lemma_upsert_at(m1, m2, rows.drop_last(), k);
    }
}

/// Setting the same attributes twice stores what setting them once stores.
pub proof fn lemma_set_is_idempotent(stored: Map<Seq<char>, AttributeRow>, a: QueueAttributesSer)
    ensures
        upsert_rows(upsert_rows(stored, attribute_rows(a)), attribute_rows(a)) == upsert_rows(
            stored,
            attribute_rows(a),
        ),
{
    let rows = attribute_rows(a);
    let once = upsert_rows(stored, rows);
    let twice = upsert_rows(once, rows);
    assert forall|k: Seq<char>| #[trigger] twice.dom().contains(k) <==> once.dom().contains(k) by {
        lemma_upsert_at(once, stored, rows, k);
    }
    assert forall|k: Seq<char>| #[trigger] once.dom().contains(k) implies twice[k] == once[k] by {
        lemma_upsert_at(once, stored, rows, k);
    }
    assert(twice =~= once);
}

/// Upserting rows in two runs upserts their concatenation.
proof fn lemma_upsert_concat(
    m: Map<Seq<char>, AttributeRow>,
    a: Seq<AttributeRow>,
    b: Seq<AttributeRow>,
)
    ensures
        upsert_rows(m, a + b) == upsert_rows(upsert_rows(m, a), b),
    decreases b.len(),
{
    if b.len() == 0 {
        assert(a + b =~= a);
    } else {
        lemma_upsert_concat(m, a, b.drop_last());
        assert((a + b).drop_last() =~= a + b.drop_last());
    }
}

/// A concatenation sets a key when one of its parts does.
proof fn lemma_sets_key_concat(a: Seq<AttributeRow>, b: Seq<AttributeRow>, k: Seq<char>)
    ensures
        sets_key(a + b, k) == (sets_key(a, k) || sets_key(b, k)),
    decreases b.len(),
{
    if b.len() == 0 {
        assert(a + b =~= a);
    } else {
        lemma_sets_key_concat(a, b.drop_last(), k);
        assert((a + b).drop_last() =~= a + b.drop_last());
    }
}

/// The rows of unrecognized attributes set no key a recognized attribute
/// is stored under.
proof fn lemma_other_rows_keys(other: Seq<(String, String)>, k: Seq<char>)
    requires
        forall|i: int|
            0 <= i < other.len() ==> attribute_key_of((#[trigger] other[i]).0@)
                == AttributeKey::Other,
        attribute_key_of(k) != AttributeKey::Other,
    ensures
        !sets_key(other_rows(other), k),
    decreases other.len(),
{
    if other.len() > 0 {
        lemma_other_rows_keys(other.drop_last(), k);
        assert(other_rows(other).drop_last() =~= other_rows(other.drop_last()));
        assert(attribute_key_of(other[other.len() - 1].0@) == AttributeKey::Other);
    }
}

/// Under a key only the middle run sets, the stored row is what upserting
/// the middle run alone stores there.
proof fn lemma_upsert_middle(
    m: Map<Seq<char>, AttributeRow>,
    a: Seq<AttributeRow>,
    x: Seq<AttributeRow>,
    b: Seq<AttributeRow>,
    k: Seq<char>,
)
    requires
        !sets_key(a, k),
        !sets_key(b, k),
    ensures
        upsert_rows(m, a + x + b).dom().contains(k) == upsert_rows(m, x).dom().contains(k),
        upsert_rows(m, a + x + b)[k] == upsert_rows(m, x)[k],
{
    lemma_upsert_concat(m, a + x, b);
    lemma_upsert_concat(m, a, x);
    let before = upsert_rows(upsert_rows(m, a), x);
    lemma_upsert_at(before, before, b, k);
    lemma_upsert_at(upsert_rows(m, a), m, x, k);
    lemma_upsert_at(m, m, a, k);
    lemma_upsert_at(m, m, x, k);
}

/// The number stored under a key, when a numeric row is stored there.
pub open spec fn stored_number(m: Map<Seq<char>, AttributeRow>, k: Seq<char>) -> Option<u64> {
    if m.dom().contains(k) && m[k] is Number {
        Some(m[k]->Number_1)
    } else {
        None
    }
}

/// The text stored under a key, when a textual row is stored there.
pub open spec fn stored_text(m: Map<Seq<char>, AttributeRow>, k: Seq<char>) -> Option<Seq<char>> {
    if m.dom().contains(k) && m[k] is Text {
        Some(m[k]->Text_1)
    } else {
        None
    }
}

/// A value newly set, else the one held before.
pub open spec fn set_or_kept<T>(new: Option<T>, before: Option<T>) -> Option<T> {
    match new {
        Some(v) => Some(v),
        None => before,
    }
}

/// Upserting the row of an optional numeric attribute stores the number
/// when it is set and leaves the key as it was otherwise.
proof fn lemma_number_row_stored(m: Map<Seq<char>, AttributeRow>, k: Seq<char>, v: Option<u64>)
    ensures
        stored_number(upsert_rows(m, number_row(k, v)), k) == set_or_kept(v, stored_number(m, k)),
        v is None ==> upsert_rows(m, number_row(k, v)) == m,
{
    reveal_with_fuel(upsert_rows, 2);
    if let Some(n) = v {
        assert(number_row(k, v).drop_last() =~= Seq::<AttributeRow>::empty());
    }
}

/// The run of rows setting the `i`-th recognized attribute (1 to 6), or
/// the unrecognized ones (7), as [`attribute_rows`] lists them.
#[verifier::opaque]
pub open spec fn attribute_run(a: QueueAttributesSer, i: int) -> Seq<AttributeRow> {
    if i == 1 {
        number_row("delay_seconds"@, a.delay_seconds)
    } else if i == 2 {
        number_row("max_message_size"@, a.max_message_size)
    } else if i == 3 {
        number_row("message_retention_period"@, a.message_retention_period)
    } else if i == 4 {
        number_row("receive_message_wait_time_seconds"@, a.receive_message_wait_time_seconds)
    } else if i == 5 {
        number_row("visibility_timeout"@, a.visibility_timeout)
    } else if i == 6 {
        match a.redrive_policy {
            Some(p) => seq![AttributeRow::Text("redrive_policy"@, p@)],
            None => seq![],
        }
    } else {
        other_rows(a.other@)
    }
}

/// The key the `i`-th recognized attribute is stored under.
pub open spec fn attribute_store_key(i: int) -> Seq<char> {
    if i == 1 {
        "delay_seconds"@
    } else if i == 2 {
        "max_message_size"@
    } else if i == 3 {
        "message_retention_period"@
    } else if i == 4 {
        "receive_message_wait_time_seconds"@
    } else if i == 5 {
        "visibility_timeout"@
    } else {
        "redrive_policy"@
    }
}

/// The rows a setting writes are its runs in order, and each run sets no
/// recognized key but its own.
proof fn lemma_attribute_runs(a: QueueAttributesSer)
    requires
        others_unrecognized(a),
    ensures
        attribute_rows(a) == attribute_run(a, 1) + attribute_run(a, 2) + attribute_run(a, 3)
            + attribute_run(a, 4) + attribute_run(a, 5) + attribute_run(a, 6) + attribute_run(a, 7),
        forall|i: int, j: int|
            1 <= i <= 7 && 1 <= j <= 6 && i != j ==> !sets_key(
                #[trigger] attribute_run(a, i),
                #[trigger] attribute_store_key(j),
            ),
{
    reveal(attribute_run);
    reveal_strlit("delay_seconds");
    reveal_strlit("max_message_size");
    reveal_strlit("message_retention_period");
    reveal_strlit("receive_message_wait_time_seconds");
    reveal_strlit("visibility_timeout");
    reveal_strlit("redrive_policy");
    let k1 = "delay_seconds"@;
    let k2 = "max_message_size"@;
    let k3 = "message_retention_period"@;
    let k4 = "receive_message_wait_time_seconds"@;
    let k5 = "visibility_timeout"@;
    let k6 = "redrive_policy"@;
    assert(k2[0] != k1[0]);
    assert(k3[0] != k1[0]);
    assert(k3[1] != k2[1]);
    assert(k4[0] != k1[0] && k4[0] != k2[0] && k4[0] != k3[0]);
    assert(k5[0] != k1[0] && k5[0] != k2[0] && k5[0] != k3[0] && k5[0] != k4[0]);
    assert(k6[0] != k1[0] && k6[0] != k2[0] && k6[0] != k3[0] && k6[2] != k4[2] && k6[0]
        != k5[0]);
    assert(attribute_key_of(k1) == AttributeKey::DelaySeconds);
    assert(attribute_key_of(k2) == AttributeKey::MaxMessageSize);
    assert(attribute_key_of(k3) == AttributeKey::MessageRetentionPeriod);
    assert(attribute_key_of(k4) == AttributeKey::ReceiveMessageWaitTimeSeconds);
    assert(attribute_key_of(k5) == AttributeKey::VisibilityTimeout);
    assert(attribute_key_of(k6) == AttributeKey::RedrivePolicy);
    assert forall|i: int| 0 <= i < a.other@.len() implies attribute_key_of(
        (#[trigger] a.other@[i]).0@,
    ) == AttributeKey::Other by {}
    assert forall|i: int, j: int|
        1 <= i <= 7 && 1 <= j <= 6 && i != j implies !sets_key(
        #[trigger] attribute_run(a, i),
        #[trigger] attribute_store_key(j),
    ) by {
        if i == 7 {
            lemma_other_rows_keys(a.other@, attribute_store_key(j));
        } else {
            reveal_with_fuel(sets_key, 2);
        }
    }
}

/// The runs `lo` to `hi - 1` of a setting's rows, concatenated in order.
pub open spec fn attribute_runs(a: QueueAttributesSer, lo: int, hi: int) -> Seq<AttributeRow>
    decreases hi - lo,
{
    if hi <= lo {
        seq![]
    } else {
        attribute_runs(a, lo, hi - 1) + attribute_run(a, hi - 1)
    }
}

/// Runs split at any point in between.
proof fn lemma_runs_split(a: QueueAttributesSer, lo: int, mid: int, hi: int)
    requires
        lo <= mid <= hi,
    ensures
        attribute_runs(a, lo, hi) == attribute_runs(a, lo, mid) + attribute_runs(a, mid, hi),
    decreases hi - mid,
{
    if hi > mid {
        lemma_runs_split(a, lo, mid, hi - 1);
        assert(attribute_runs(a, lo, hi) =~= attribute_runs(a, lo, mid) + attribute_runs(
            a,
            mid,
            hi,
        ));
    } else {
        assert(attribute_runs(a, lo, hi) =~= attribute_runs(a, lo, mid) + Seq::empty());
    }
}

/// Runs that leave out the `j`-th do not set its key.
proof fn lemma_runs_skip_key(a: QueueAttributesSer, lo: int, hi: int, j: int)
    requires
        others_unrecognized(a),
        1 <= lo,
        hi <= 8,
        1 <= j <= 6,
        !(lo <= j < hi),
    ensures
        !sets_key(attribute_runs(a, lo, hi), attribute_store_key(j)),
    decreases hi - lo,
{
    if hi > lo {
        lemma_runs_skip_key(a, lo, hi - 1, j);
        lemma_attribute_runs(a);
        lemma_sets_key_concat(
            attribute_runs(a, lo, hi - 1),
            attribute_run(a, hi - 1),
            attribute_store_key(j),
        );
    }
}

/// Under the key of the `i`-th recognized attribute, setting `a` stores
/// what its own run alone stores there: no other run sets that key.
proof fn lemma_run_alone(stored: Map<Seq<char>, AttributeRow>, a: QueueAttributesSer, i: int)
    requires
        others_unrecognized(a),
        1 <= i <= 6,
    ensures
        ({
            let k = attribute_store_key(i);
            let after = upsert_rows(stored, attribute_rows(a));
            let alone = upsert_rows(stored, attribute_run(a, i));
            &&& after.dom().contains(k) == alone.dom().contains(k)
            &&& after[k] == alone[k]
        }),
{
    let k = attribute_store_key(i);
    lemma_attribute_runs(a);
    assert(attribute_rows(a) =~= attribute_runs(a, 1, 8)) by {
        reveal_with_fuel(attribute_runs, 8);
    }
    lemma_runs_split(a, 1, i, 8);
    lemma_runs_split(a, i, i + 1, 8);
    assert(attribute_runs(a, i, i + 1) =~= attribute_run(a, i)) by {
        reveal_with_fuel(attribute_runs, 2);
    }
    lemma_runs_skip_key(a, 1, i, i);
    lemma_runs_skip_key(a, i + 1, 8, i);
    assert(attribute_runs(a, 1, 8) == attribute_runs(a, 1, i) + attribute_run(a, i)
        + attribute_runs(a, i + 1, 8));
    lemma_upsert_middle(stored, attribute_runs(a, 1, i), attribute_run(a, i), attribute_runs(a, i + 1, 8), k);
}

/// Get after set, whatever was stored before: after the attributes `a`
/// are set on a queue whose stored rows were `stored`, each recognized
/// attribute holds the value set when `a` sets it, and the value it held
/// before otherwise (a later read gives it back when its name is
/// requested, see [`record_row`]).
pub proof fn lemma_set_then_get_any_state(stored: Map<Seq<char>, AttributeRow>, a: QueueAttributesSer)
    requires
        others_unrecognized(a),
    ensures
        ({
            let after = upsert_rows(stored, attribute_rows(a));
            &&& stored_number(after, "delay_seconds"@) == set_or_kept(
                a.delay_seconds,
                stored_number(stored, "delay_seconds"@),
            )
            &&& stored_number(after, "max_message_size"@) == set_or_kept(
                a.max_message_size,
                stored_number(stored, "max_message_size"@),
            )
            &&& stored_number(after, "message_retention_period"@) == set_or_kept(
                a.message_retention_period,
                stored_number(stored, "message_retention_period"@),
            )
            &&& stored_number(after, "receive_message_wait_time_seconds"@) == set_or_kept(
                a.receive_message_wait_time_seconds,
                stored_number(stored, "receive_message_wait_time_seconds"@),
            )
            &&& stored_number(after, "visibility_timeout"@) == set_or_kept(
                a.visibility_timeout,
                stored_number(stored, "visibility_timeout"@),
            )
            &&& stored_text(after, "redrive_policy"@) == set_or_kept(
                attributes_view(a).redrive_policy,
                stored_text(stored, "redrive_policy"@),
            )
        }),
{
    reveal(attribute_run);
    reveal_strlit("delay_seconds");
    reveal_strlit("max_message_size");
    reveal_strlit("message_retention_period");
    reveal_strlit("receive_message_wait_time_seconds");
    reveal_strlit("visibility_timeout");
    reveal_strlit("redrive_policy");
    lemma_run_alone(stored, a, 1);
    lemma_number_row_stored(stored, "delay_seconds"@, a.delay_seconds);
    lemma_run_alone(stored, a, 2);
    lemma_number_row_stored(stored, "max_message_size"@, a.max_message_size);
    lemma_run_alone(stored, a, 3);
    lemma_number_row_stored(stored, "message_retention_period"@, a.message_retention_period);
    lemma_run_alone(stored, a, 4);
    lemma_number_row_stored(
        stored,
        "receive_message_wait_time_seconds"@,
        a.receive_message_wait_time_seconds,
    );
    lemma_run_alone(stored, a, 5);
    lemma_number_row_stored(stored, "visibility_timeout"@, a.visibility_timeout);
    lemma_run_alone(stored, a, 6);
    reveal_with_fuel(upsert_rows, 2);
    if let Some(p) = a.redrive_policy {
        assert(attribute_run(a, 6).drop_last() =~= Seq::<AttributeRow>::empty());
    }
}

/// Create then get: a queue created with the attributes `a` stores exactly
/// the recognized attributes `a` sets.
pub proof fn lemma_create_then_get(a: QueueAttributesSer)
    requires
        others_unrecognized(a),
    ensures
        ({
            let created = upsert_rows(Map::empty(), attribute_rows(a));
            &&& stored_number(created, "delay_seconds"@) == a.delay_seconds
            &&& stored_number(created, "max_message_size"@) == a.max_message_size
            &&& stored_number(created, "message_retention_period"@) == a.message_retention_period
            &&& stored_number(created, "receive_message_wait_time_seconds"@)
                == a.receive_message_wait_time_seconds
            &&& stored_number(created, "visibility_timeout"@) == a.visibility_timeout
            &&& stored_text(created, "redrive_policy"@) == attributes_view(a).redrive_policy
        }),
{
    lemma_set_then_get_any_state(Map::empty(), a);
}

/// Setting attributes leaves the rows of every key they do not set as
/// they were.
pub proof fn lemma_set_keeps_other_keys(
    stored: Map<Seq<char>, AttributeRow>,
    a: QueueAttributesSer,
    k: Seq<char>,
)
    requires
        !sets_key(attribute_rows(a), k),
    ensures
        upsert_rows(stored, attribute_rows(a)).dom().contains(k) == stored.dom().contains(k),
        upsert_rows(stored, attribute_rows(a))[k] == stored[k],
{
    lemma_upsert_at(stored, stored, attribute_rows(a), k);
}

// ---------------------------------------------------------------------------
// Who may manage namespaces and queues
// ---------------------------------------------------------------------------

/// The creator of a new namespace: the caller must be a known user with
/// the administrator role. Answers their user id.
pub fn namespace_creator(caller: Option<User>) -> (r: Result<u64, Error>)
    ensures
        match caller {
            Some(u) => if u.role == Role::Admin {
                r == Ok::<u64, Error>(u.id)
            } else {
                r matches Err(Error::Unauthorized)
            },
            None => r matches Err(Error::Unauthorized),
        },
{
    match caller {
        Some(u) => match u.role {
            Role::Admin => Ok(u.id),
            Role::User => Err(Error::Unauthorized),
        },
        None => Err(Error::Unauthorized),
    }
}

/// The message reported when a namespace does not exist.
pub open spec fn missing_namespace_message(name: Seq<char>) -> Seq<char> {
    "Namespace "@ + name + " does not exist"@
}

/// The error reported when a namespace does not exist.
fn missing_namespace(name: &str) -> (r: Error)
    ensures
        r matches Error::InternalServerError { message } && message@ == missing_namespace_message(
            name@,
        ),
{
    let mut m = String::from_str("Namespace ");
    m.append(name);
    m.append(" does not exist");
    Error::internal(m)
}

/// Whether the caller may delete the namespace `name` (whose id is
/// `namespace_id`, if it exists): they need a permission on it that allows
/// deletion. Answers the namespace id.
pub fn namespace_deletion(name: &str, namespace_id: Option<u64>, permission: Option<Permission>) -> (r:
    Result<u64, Error>)
    ensures
        match namespace_id {
            None => r matches Err(Error::InternalServerError { message }) && message@
                == missing_namespace_message(name@),
            Some(id) => match permission {
                None => r matches Err(Error::Unauthorized),
                Some(p) => if p.can_delete_ns {
                    r == Ok::<u64, Error>(id)
                } else {
                    r matches Err(Error::Unauthorized)
                },
            },
        },
{
    let id = match namespace_id {
        None => {
            return Err(missing_namespace(name));
        },
        Some(id) => id,
    };
    let (_user, can_delete) = match check_user_access(permission) {
        Ok(p) => p,
        Err(e) => {
            return Err(e);
        },
    };
    if !can_delete {
        return Err(Error::Unauthorized);
    }
    Ok(id)
}

/// Who creates a queue in the namespace `name` (whose id is
/// `namespace_id`, if it exists): any caller with a permission on it.
/// Answers the namespace id and the creator's user id.
pub fn queue_creator(name: &str, namespace_id: Option<u64>, permission: Option<Permission>) -> (r:
    Result<(u64, u64), Error>)
    ensures
        match namespace_id {
            None => r matches Err(Error::InternalServerError { message }) && message@
                == missing_namespace_message(name@),
            Some(id) => match permission {
                None => r matches Err(Error::Unauthorized),
                Some(p) => r == Ok::<(u64, u64), Error>((id, p.user)),
            },
        },
{
    let id = match namespace_id {
        None => {
            return Err(missing_namespace(name));
        },
        Some(id) => id,
    };
    match check_user_access(permission) {
        Ok((user, _)) => Ok((id, user)),
        Err(e) => Err(e),
    }
}

/// The role a new user gets: the one requested, else a plain user.
pub fn new_user_role(role: Option<Role>) -> (r: Role)
    ensures
        r == (match role {
            Some(x) => x,
            None => Role::User,
        }),
{
    match role {
        Some(x) => x,
        None => Role::User,
    }
}

/// The queue an operation on `queue` in `namespace` acts on: the
/// namespace must exist (its id is `namespace_id`), the caller must hold a
/// permission on it, and the queue must exist in it (its id is
/// `queue_id`). Answers the queue id.
pub fn queue_access(
    namespace: &str,
    namespace_id: Option<u64>,
    permission: Option<Permission>,
    queue: &str,
    queue_id: Option<u64>,
) -> (r: Result<u64, Error>)
    ensures
        namespace_id is None ==> (r matches Err(Error::NamespaceNotFound { namespace: n })
            && n@ == namespace@),
        namespace_id is Some && permission is None ==> r matches Err(Error::Unauthorized),
        namespace_id is Some && permission is Some && queue_id is None ==> (r matches Err(
            Error::QueueNotFound { queue: q, namespace: n },
        ) && q@ == queue@ && n@ == namespace@),
        namespace_id is Some && permission is Some && queue_id is Some ==> r == Ok::<u64, Error>(
            queue_id->0,
        ),
{
    if namespace_id.is_none() {
        return Err(Error::namespace_not_found(namespace));
    }
    match check_user_access(permission) {
        Err(e) => {
            return Err(e);
        },
        Ok(_) => {},
    }
    match queue_id {
        Some(id) => Ok(id),
        None => Err(Error::queue_not_found(queue, namespace)),
    }
}

/// The new delivery configuration of a queue: the requested attempt cap,
/// and the dead-letter queue named, if any, which must exist in the same
/// namespace (`dead_letter` carries its name and id, if it exists).
pub fn updated_queue_config(
    queue_id: u64,
    max_retries: u64,
    namespace: &str,
    dead_letter: Option<(String, Option<u64>)>,
) -> (r: Result<QueueConfig, Error>)
    ensures
        match dead_letter {
            None => r == Ok::<QueueConfig, Error>(
                QueueConfig { queue: queue_id, max_retries, dead_letter_queue: None },
            ),
            Some((name, None)) => r matches Err(Error::QueueNotFound { queue: q, namespace: n })
                && q@ == name@ && n@ == namespace@,
            Some((_, Some(id))) => r == Ok::<QueueConfig, Error>(
                QueueConfig { queue: queue_id, max_retries, dead_letter_queue: Some(id) },
            ),
        },
{
    let dead_letter_queue = match dead_letter {
        None => None,
        Some((name, None)) => {
            return Err(Error::queue_not_found(name.as_str(), namespace));
        },
        Some((_, Some(id))) => Some(id),
    };
    Ok(QueueConfig { queue: queue_id, max_retries, dead_letter_queue })
}

} // verus!
