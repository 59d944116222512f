//! AWS SQS-compatible request and response types and the message attribute
//! model with its binary encoding (the input of the attribute MD5 digest).

use vstd::prelude::*;

verus! {

// ---------------------------------------------------------------------------
// Message attributes
// ---------------------------------------------------------------------------

/// A message attribute in SQS format: text, a number carried as text, or raw
/// bytes.
#[derive(Debug, Clone)]
pub enum SqsMessageAttribute {
    String { string_value: String },
    Number { string_value: String },
    Binary { binary_value: Vec<u8> },
}

/// The data type name of an attribute.
pub open spec fn data_type_name(a: SqsMessageAttribute) -> Seq<char> {
    match a {
        SqsMessageAttribute::String { .. } => "String"@,
        SqsMessageAttribute::Number { .. } => "Number"@,
        SqsMessageAttribute::Binary { .. } => "Binary"@,
    }
}

/// Big-endian encoding of a 32-bit unsigned integer (`BufMut::put_u32`).
pub open spec fn be_u32(v: u32) -> Seq<u8> {
    seq![
        (v / 0x1000000) as u8,
        ((v / 0x10000) % 0x100) as u8,
        ((v / 0x100) % 0x100) as u8,
        (v % 0x100) as u8,
    ]
}

/// A byte string preceded by its length as a big-endian `u32` (lengths that
/// do not fit are truncated, as the `as u32` cast does).
pub open spec fn length_prefixed(bytes: Seq<u8>) -> Seq<u8> {
    be_u32(bytes.len() as u32) + bytes
}

/// The transport tag of an attribute's value: 1 for string and number
/// values, 2 for binary ones.
pub open spec fn value_tag(a: SqsMessageAttribute) -> u8 {
    match a {
        SqsMessageAttribute::Binary { .. } => 2,
        _ => 1,
    }
}

/// The bytes of an attribute's value: the UTF-8 text, or the raw bytes.
pub open spec fn value_bytes(a: SqsMessageAttribute) -> Seq<u8> {
    match a {
        SqsMessageAttribute::String { string_value } => vstd::utf8::encode_utf8(string_value@),
        SqsMessageAttribute::Number { string_value } => vstd::utf8::encode_utf8(string_value@),
        SqsMessageAttribute::Binary { binary_value } => binary_value@,
    }
}

/// The SQS binary encoding of a named attribute:
/// `[key length][key][type length][type][tag byte][value length][value]`,
/// lengths as big-endian `u32`.
pub open spec fn encode_attribute(key: Seq<char>, a: SqsMessageAttribute) -> Seq<u8> {
    length_prefixed(vstd::utf8::encode_utf8(key)) + length_prefixed(
        vstd::utf8::encode_utf8(data_type_name(a)),
    ) + seq![value_tag(a)] + length_prefixed(value_bytes(a))
}

/// Appends `v` in big-endian byte order.
pub fn put_u32(buf: &mut Vec<u8>, v: u32)
    ensures
        final(buf)@ == old(buf)@ + be_u32(v),
{
    buf.push((v / 0x1000000) as u8);
    buf.push(((v / 0x10000) % 0x100) as u8);
    buf.push(((v / 0x100) % 0x100) as u8);
    buf.push((v % 0x100) as u8);
    assert(buf@ =~= old(buf)@ + be_u32(v));
}

/// Appends the bytes of `src`.
pub fn put_slice(buf: &mut Vec<u8>, src: &[u8])
    ensures
        final(buf)@ == old(buf)@ + src@,
{
    let ghost start = buf@;
    let mut i: usize = 0;
    while i < src.len()
        invariant
            0 <= i <= src.len(),
            buf@ == start + src@.take(i as int),
        decreases src.len() - i,
    {
        buf.push(src[i]);
        assert(src@.take(i + 1) =~= src@.take(i as int).push(src@[i as int]));
        i += 1;
    }
    assert(src@.take(src.len() as int) =~= src@);
}

impl SqsMessageAttribute {
    /// The attribute's data type name.
    pub fn data_type(&self) -> (r: &'static str)
        ensures
            r@ == data_type_name(*self),
    {
        match self {
            SqsMessageAttribute::String { .. } => "String",
            SqsMessageAttribute::Number { .. } => "Number",
            SqsMessageAttribute::Binary { .. } => "Binary",
        }
    }

    /// The attribute's SQS binary encoding under `key`.
    pub fn serialize(&self, key: &str) -> (r: Vec<u8>)
        ensures
            r@ == encode_attribute(key@, *self),
    {
        let mut buf = Vec::new();
        self.serialize_into(key, &mut buf);
        assert(buf@ =~= encode_attribute(key@, *self));
        buf
    }

    /// Appends the attribute's SQS binary encoding under `key` to `buf`.
    pub fn serialize_into(&self, key: &str, buf: &mut Vec<u8>)
        ensures
            final(buf)@ == old(buf)@ + encode_attribute(key@, *self),
    {
        let k_bytes = key.as_bytes();
        put_u32(buf, k_bytes.len() as u32);
        put_slice(buf, k_bytes);

        let t_bytes = self.data_type().as_bytes();
        put_u32(buf, t_bytes.len() as u32);
        put_slice(buf, t_bytes);

        match self {
            SqsMessageAttribute::String { string_value } | SqsMessageAttribute::Number {
                string_value,
            } => {
                let v_bytes = string_value.as_str().as_bytes();
                buf.push(1u8);
                put_u32(buf, v_bytes.len() as u32);
                put_slice(buf, v_bytes);
            },
            SqsMessageAttribute::Binary { binary_value } => {
                let v_bytes = binary_value.as_slice();
                buf.push(2u8);
                put_u32(buf, v_bytes.len() as u32);
                put_slice(buf, v_bytes);
            },
        }
        assert(buf@ =~= old(buf)@ + encode_attribute(key@, *self));
    }
}

// ---------------------------------------------------------------------------
// Messages
// ---------------------------------------------------------------------------

/// A message in SQS format, as returned to consumers. The attribute lists
/// hold each name at most once, in ascending name order.
#[derive(Debug, Clone)]
pub struct SqsMessage {
    pub message_id: String,
    pub receipt_handle: String,
    pub md5_of_body: String,
    pub body: String,
    pub attributes: Vec<(String, String)>,
    pub md5_of_message_attributes: String,
    pub message_attributes: Vec<(String, SqsMessageAttribute)>,
}

// ---------------------------------------------------------------------------
// Operations' request and response types
// ---------------------------------------------------------------------------

/// Response for the SendMessage operation.
#[derive(Debug, Clone)]
pub struct SendMessageResponse {
    pub message_id: u64,
    pub md5_of_message_body: String,
    pub md5_of_message_attributes: String,
}

/// Request for the GetQueueUrl operation.
#[derive(Debug, Clone)]
pub struct GetQueueUrlRequest {
    pub queue_name: String,
}

/// Request for the CreateQueue operation.
#[derive(Debug, Clone)]
pub struct CreateQueueRequest {
    pub queue_name: String,
    pub attributes: Vec<(String, String)>,
    pub tags: Vec<(String, String)>,
}

/// Request for the ListQueues operation.
#[derive(Debug, Clone)]
pub struct ListQueuesRequest {
    pub queue_name_prefix: Option<String>,
}

/// Empty response for the ChangeMessageVisibility operation.
#[derive(Debug, Clone)]
pub struct ChangeMessageVisibilityResponse {}

/// Empty response for the DeleteMessage operation.
#[derive(Debug, Clone)]
pub struct DeleteMessageResponse {}

/// Empty response for the DeleteQueue operation.
#[derive(Debug, Clone)]
pub struct DeleteQueueResponse {}

/// Response for the PurgeQueue operation.
#[derive(Debug, Clone)]
pub struct PurgeQueueResponse {
    pub success: bool,
}

/// Response for the ReceiveMessage operation.
#[derive(Debug, Clone)]
pub struct ReceiveMessageResponse {
    pub messages: Vec<SqsMessage>,
}

/// Entry of a batch message send request.
#[derive(Debug, Clone)]
pub struct SendMessageBatchRequestEntry {
    pub id: String,
    pub message_body: String,
    pub delay_seconds: Option<u64>,
    pub message_attributes: Vec<(String, SqsMessageAttribute)>,
    pub message_deduplication_id: Option<String>,
    pub message_group_id: Option<String>,
}

/// Successful result entry of a batch message send.
#[derive(Debug, Clone)]
pub struct SendMessageBatchResultEntry {
    pub id: String,
    pub message_id: String,
    pub md5_of_message_body: String,
}

/// Failed result entry of a batch message send.
#[derive(Debug, Clone)]
pub struct SendMessageBatchResultErrorEntry {
    pub id: String,
    pub sender_fault: bool,
    pub code: String,
    pub message: Option<String>,
}

/// Response for a batch message send.
#[derive(Debug, Clone)]
pub struct SendMessageBatchResponse {
    pub successful: Vec<SendMessageBatchResultEntry>,
    pub failed: Vec<SendMessageBatchResultErrorEntry>,
}

/// Response listing a queue's tags.
#[derive(Debug, Clone)]
pub struct ListQueueTagsResponse {
    pub tags: Vec<(String, String)>,
}

/// Empty response for the TagQueue operation.
#[derive(Debug, Clone)]
pub struct TagQueueResponse {}

/// Empty response for the UntagQueue operation.
#[derive(Debug, Clone)]
pub struct UntagQueueResponse {}

/// Empty response for the SetQueueAttributes operation.
#[derive(Debug, Clone)]
pub struct SetQueueAttributesResponse {}

/// Entry of a batch message delete request.
#[derive(Debug, Clone)]
pub struct DeleteMessageBatchRequestEntry {
    pub id: String,
    pub receipt_handle: String,
}

/// Successful result entry of a batch message delete.
#[derive(Debug, Clone)]
pub struct DeleteMessageBatchResultSuccess {
    pub id: String,
}

/// Failed result entry of a batch message delete.
#[derive(Debug, Clone)]
pub struct DeleteMessageBatchResultError {
    pub code: String,
    pub id: String,
    pub message: String,
    pub sender_fault: bool,
}

/// Response for a batch message delete.
#[derive(Debug, Clone)]
pub struct DeleteMessageBatchResponse {
    pub failed: Vec<DeleteMessageBatchResultError>,
    pub successful: Vec<DeleteMessageBatchResultSuccess>,
}

/// Successful result entry of a batch visibility change.
#[derive(Debug, Clone)]
pub struct ChangeMessageVisibilityBatchResultSuccess {
    pub id: String,
}

/// Failed result entry of a batch visibility change.
#[derive(Debug, Clone)]
pub struct ChangeMessageVisibilityBatchResultError {
    pub code: String,
    pub id: String,
    pub message: String,
    pub sender_fault: bool,
}

/// Response for a batch visibility change.
#[derive(Debug, Clone)]
pub struct ChangeMessageVisibilityBatchResponse {
    pub failed: Vec<ChangeMessageVisibilityBatchResultError>,
    pub successful: Vec<ChangeMessageVisibilityBatchResultSuccess>,
}

/// Response for a queue URL lookup.
#[derive(Debug, Clone)]
pub struct GetQueueUrlResponse {
    pub queue_url: String,
}

/// Response for a queue creation: the new queue's URL.
#[derive(Debug, Clone)]
pub struct CreateQueueResponse {
    pub queue_url: String,
}

/// Response for a queue listing.
#[derive(Debug, Clone)]
pub struct ListQueuesResponse {
    pub queue_urls: Vec<String>,
}

/// Response for a queue attribute lookup.
#[derive(Debug, Clone)]
pub struct GetQueueAttributesResponse {
    pub attributes: crate::service::QueueAttributesSer,
}

/// The response of any SQS operation.
#[derive(Debug, Clone)]
pub enum SqsResponse {
    ChangeMessageVisibility(ChangeMessageVisibilityResponse),
    SendMessage(SendMessageResponse),
    GetQueueUrl(GetQueueUrlResponse),
    CreateQueue(CreateQueueResponse),
    ListQueues(ListQueuesResponse),
    DeleteMessage(DeleteMessageResponse),
    PurgeQueue(PurgeQueueResponse),
    DeleteQueue(DeleteQueueResponse),
    GetQueueAttributes(GetQueueAttributesResponse),
    ReceiveMessage(ReceiveMessageResponse),
    SendMessageBatch(SendMessageBatchResponse),
    ListQueueTags(ListQueueTagsResponse),
    TagQueue(TagQueueResponse),
    UntagQueue(UntagQueueResponse),
    SetQueueAttributes(SetQueueAttributesResponse),
    DeleteMessageBatch(DeleteMessageBatchResponse),
    ChangeMessageVisibilityBatch(ChangeMessageVisibilityBatchResponse),
}

} // verus!
