//! The wire codec: how a frame is written as a JSON object and read back, and
//! the same for the payload inside a message frame.
//!
//! The JSON itself is `serde_json`'s. What is decided here is the shape: which
//! members an object must have, what each may hold, and what is malformed.

use crate::json::{
    items_of, json_array, json_object, json_of, json_parse, json_string, json_text, members_of,
    open_json, parse_json, print_json, Json, Node,
};
use crate::wire::{
    texts, ChatMessage, ChatMessageView, DecodeError, Frame, FrameView, MsgTypes,
    WebSocketMessage, WebSocketMessageView,
};
use serde_json::Value;
use vstd::prelude::*;
use vstd::string::StringExecFns;

verus! {

/// The value that an object has under a key: that of the last member with the
/// key, or `None` where no member has it.
pub open spec fn member(members: Seq<(Seq<char>, Json)>, key: Seq<char>) -> Option<Json>
    decreases members.len(),
{
    if members.len() == 0 {
        None
    } else if members.last().0 == key {
        Some(members.last().1)
    } else {
        member(members.drop_last(), key)
    }
}

/// The JSON that an optional value holds.
pub open spec fn field_json(field: Option<Value>) -> Option<Json> {
    match field {
        Some(v) => Some(json_of(v)),
        None => None,
    }
}

proof fn lemma_member_last_match(members: Seq<(Seq<char>, Json)>, i: int, key: Seq<char>)
    requires
        0 <= i < members.len(),
        members[i].0 == key,
        forall|k: int| i < k < members.len() ==> members[k].0 != key,
    ensures
        member(members, key) == Some(members[i].1),
    decreases members.len(),
{
    if i < members.len() - 1 {
        lemma_member_last_match(members.drop_last(), i, key);
    }
}

proof fn lemma_member_absent(members: Seq<(Seq<char>, Json)>, key: Seq<char>)
    requires
        forall|k: int| 0 <= k < members.len() ==> members[k].0 != key,
    ensures
        member(members, key) is None,
    decreases members.len(),
{
    if members.len() > 0 {
        lemma_member_absent(members.drop_last(), key);
    }
}

proof fn lemma_member_remove(members: Seq<(Seq<char>, Json)>, i: int, key: Seq<char>)
    requires
        0 <= i < members.len(),
        members[i].0 != key,
    ensures
        member(members.remove(i), key) == member(members, key),
    decreases members.len(),
{
    if i == members.len() - 1 {
        assert(members.remove(i) =~= members.drop_last());
    } else {
        assert(members.remove(i).last() == members.last());
        assert(members.remove(i).drop_last() =~= members.drop_last().remove(i));
        lemma_member_remove(members.drop_last(), i, key);
    }
}

/// Takes the member with the given key out of a list of members and returns
/// its value. Where the key occurs more than once it is the last that leaves.
fn take_member(members: &mut Vec<(String, Value)>, key: &str) -> (r: Option<Value>)
    ensures
        field_json(r) == member(members_of(old(members)@), key@),
        forall|other: Seq<char>|
            other != key@ ==> #[trigger] member(members_of(final(members)@), other) == member(
                members_of(old(members)@),
                other,
            ),
{
    let wanted = String::from_str(key);
    let ghost before = members_of(members@);
    let mut i: usize = members.len();
    while i > 0
        invariant
            i <= members.len(),
            *members == *old(members),
            wanted@ == key@,
            before == members_of(members@),
            forall|k: int| i <= k < members.len() ==> before[k].0 != key@,
        decreases i,
    {
        i -= 1;
        if members[i].0 == wanted {
            let found = members.remove(i);
            proof {
                lemma_member_last_match(before, i as int, key@);
                assert(members_of(members@) =~= before.remove(i as int));
                assert forall|other: Seq<char>| other != key@ implies #[trigger] member(
                    members_of(members@),
                    other,
                ) == member(before, other) by {
                    lemma_member_remove(before, i as int, other);
                }
            }
            return Some(found.1);
        }
    }
    proof {
        lemma_member_absent(before, key@);
    }
    None
}

/// Whether every value of a list is a JSON string.
pub open spec fn all_text(items: Seq<Json>) -> bool {
    forall|i: int| 0 <= i < items.len() ==> #[trigger] items[i] is Text
}

/// The characters of each string of a list of JSON strings.
pub open spec fn item_texts(items: Seq<Json>) -> Seq<Seq<char>> {
    items.map_values(|j: Json| j->Text_0)
}

/// The JSON strings with the given characters.
pub open spec fn text_items(names: Seq<Seq<char>>) -> Seq<Json> {
    names.map_values(|s: Seq<char>| Json::Text(s))
}

/// A member that must be a string: its characters, or `None` where the member
/// is missing or holds anything else.
pub open spec fn required_text(field: Option<Json>) -> Option<Seq<char>> {
    match field {
        Some(Json::Text(s)) => Some(s),
        _ => None,
    }
}

/// A member that may be left out. Missing and `null` both read as
/// `Some(None)`, a string as `Some(Some(..))`, anything else is an error,
/// `None`.
pub open spec fn optional_text(field: Option<Json>) -> Option<Option<Seq<char>>> {
    match field {
        None => Some(None),
        Some(Json::Null) => Some(None),
        Some(Json::Text(s)) => Some(Some(s)),
        _ => None,
    }
}

/// A member that may be left out and otherwise holds an array of strings.
/// Missing and `null` both read as `Some(None)`; an array with anything but
/// strings in it, or a value that is no array, is an error, `None`.
pub open spec fn optional_list(field: Option<Json>) -> Option<Option<Seq<Seq<char>>>> {
    match field {
        None => Some(None),
        Some(Json::Null) => Some(None),
        Some(Json::Array(items)) => if all_text(items) {
            Some(Some(item_texts(items)))
        } else {
            None
        },
        _ => None,
    }
}

/// The tag under `messageType`: the member must be one of the three words.
pub open spec fn tag_of(field: Option<Json>) -> Option<MsgTypes> {
    match field {
        Some(Json::Text(name)) => MsgTypes::spec_from_name(name),
        _ => None,
    }
}

/// The record that a JSON value holds: an object with a known `messageType`,
/// and `dataArray` and `data` each missing, `null` or of its type. Other
/// members are passed over. `None` where the value has no such shape.
pub open spec fn message_of_json(j: Json) -> Option<WebSocketMessageView> {
    match j {
        Json::Object(members) => match (
            tag_of(member(members, "messageType"@)),
            optional_list(member(members, "dataArray"@)),
            optional_text(member(members, "data"@)),
        ) {
            (Some(message_type), Some(data_array), Some(data)) => Some(
                WebSocketMessageView { message_type, data_array, data },
            ),
            _ => None,
        },
        _ => None,
    }
}

/// The JSON object written for a record: `messageType` first, then
/// `dataArray` and `data`, each only where the record has it.
pub open spec fn json_of_message(m: WebSocketMessageView) -> Json {
    Json::Object(
        seq![("messageType"@, Json::Text(m.message_type.spec_name()))] + (match m.data_array {
            Some(names) => seq![("dataArray"@, Json::Array(text_items(names)))],
            None => Seq::empty(),
        }) + (match m.data {
            Some(text) => seq![("data"@, Json::Text(text))],
            None => Seq::empty(),
        }),
    )
}

/// The chat message that a JSON value holds: an object with strings under
/// `from` and `message`. `None` where the value has no such shape.
pub open spec fn payload_of_json(j: Json) -> Option<ChatMessageView> {
    match j {
        Json::Object(members) => match (
            required_text(member(members, "from"@)),
            required_text(member(members, "message"@)),
        ) {
            (Some(from), Some(body)) => Some(ChatMessageView { from, body }),
            _ => None,
        },
        _ => None,
    }
}

/// The JSON object written for a chat message.
pub open spec fn json_of_payload(m: ChatMessageView) -> Json {
    Json::Object(seq![("from"@, Json::Text(m.from)), ("message"@, Json::Text(m.body))])
}

/// The text of a frame.
pub open spec fn spec_encode(frame: FrameView) -> Seq<char> {
    json_text(json_of_message(frame.to_wire()))
}

/// The frame of a text, or why there is none. Every failure of the outer
/// layer is `Malformed`: a text that is no JSON, a value that is no record,
/// a record that is no frame.
pub open spec fn spec_decode(text: Seq<char>) -> Result<FrameView, DecodeError> {
    match json_parse(text) {
        Some(j) => match message_of_json(j) {
            Some(m) => match m.to_frame() {
                Some(frame) => Ok(frame),
                None => Err(DecodeError::Malformed),
            },
            None => Err(DecodeError::Malformed),
        },
        None => Err(DecodeError::Malformed),
    }
}

/// The text of a chat message, as it travels in the `data` of a message frame.
pub open spec fn spec_encode_payload(message: ChatMessageView) -> Seq<char> {
    json_text(json_of_payload(message))
}

/// The chat message of a text. Every failure of the inner layer is
/// `InvalidPayload`.
pub open spec fn spec_decode_payload(text: Seq<char>) -> Result<ChatMessageView, DecodeError> {
    match json_parse(text) {
        Some(j) => match payload_of_json(j) {
            Some(message) => Ok(message),
            None => Err(DecodeError::InvalidPayload),
        },
        None => Err(DecodeError::InvalidPayload),
    }
}

/// The view of a record that may be missing.
pub open spec fn message_view(message: Option<WebSocketMessage>) -> Option<WebSocketMessageView> {
    match message {
        Some(m) => Some(m@),
        None => None,
    }
}

/// The view of a chat message that may be missing.
pub open spec fn payload_view(message: Option<ChatMessage>) -> Option<ChatMessageView> {
    match message {
        Some(m) => Some(m@),
        None => None,
    }
}

/// The view of what `decode` returns.
pub open spec fn decoded_view(r: Result<Frame, DecodeError>) -> Result<FrameView, DecodeError> {
    match r {
        Ok(frame) => Ok(frame@),
        Err(e) => Err(e),
    }
}

/// The view of what `decode_payload` returns.
pub open spec fn decoded_payload_view(r: Result<ChatMessage, DecodeError>) -> Result<
    ChatMessageView,
    DecodeError,
> {
    match r {
        Ok(message) => Ok(message@),
        Err(e) => Err(e),
    }
}

fn read_required_text(field: Option<Value>) -> (r: Option<String>)
    ensures
        match r {
            Some(s) => required_text(field_json(field)) == Some(s@),
            None => required_text(field_json(field)) is None,
        },
{
    match field {
        Some(v) => match open_json(v) {
            Node::Text(s) => Some(s),
            _ => None,
        },
        None => None,
    }
}

fn read_optional_text(field: Option<Value>) -> (r: Option<Option<String>>)
    ensures
        match r {
            Some(Some(s)) => optional_text(field_json(field)) == Some(Some(s@)),
            Some(None) => optional_text(field_json(field)) == Some(None::<Seq<char>>),
            None => optional_text(field_json(field)) is None,
        },
{
    match field {
        None => Some(None),
        Some(v) => match open_json(v) {
            Node::Null => Some(None),
            Node::Text(s) => Some(Some(s)),
            _ => None,
        },
    }
}

fn read_texts(items: Vec<Value>) -> (r: Option<Vec<String>>)
    ensures
        match r {
            Some(list) => all_text(items_of(items@)) && texts(list@) == item_texts(
                items_of(items@),
            ),
            None => !all_text(items_of(items@)),
        },
{
    let mut list: Vec<String> = Vec::new();
    for item in it: items
        invariant
            it.seq() == items@,
            list.len() == it.index(),
            forall|k: int| 0 <= k < list.len() ==> json_of(items@[k]) == Json::Text(list[k]@),
    {
        let ghost at = list.len() as int;
        match open_json(item) {
            Node::Text(s) => {
                list.push(s);
            },
            _ => {
                assert(!(items_of(items@)[at] is Text));
                return None;
            },
        }
    }
    assert(all_text(items_of(items@)));
    assert(texts(list@) =~= item_texts(items_of(items@)));
    Some(list)
}

fn read_optional_list(field: Option<Value>) -> (r: Option<Option<Vec<String>>>)
    ensures
        match r {
            Some(Some(list)) => optional_list(field_json(field)) == Some(Some(texts(list@))),
            Some(None) => optional_list(field_json(field)) == Some(None::<Seq<Seq<char>>>),
            None => optional_list(field_json(field)) is None,
        },
{
    match field {
        None => Some(None),
        Some(v) => match open_json(v) {
            Node::Null => Some(None),
            Node::Array(items) => match read_texts(items) {
                Some(list) => Some(Some(list)),
                None => None,
            },
            _ => None,
        },
    }
}

fn read_tag(field: Option<Value>) -> (r: Option<MsgTypes>)
    ensures
        r == tag_of(field_json(field)),
{
    match field {
        Some(v) => match open_json(v) {
            Node::Text(name) => MsgTypes::from_name(name.as_str()),
            _ => None,
        },
        None => None,
    }
}

/// The keys of the wire format differ from one another.
proof fn lemma_keys_differ()
    ensures
        "messageType"@ != "dataArray"@,
        "messageType"@ != "data"@,
        "dataArray"@ != "data"@,
        "from"@ != "message"@,
{
    reveal_strlit("messageType");
    reveal_strlit("dataArray");
    reveal_strlit("data");
    reveal_strlit("from");
    reveal_strlit("message");
    assert("messageType"@.len() == 11);
    assert("dataArray"@.len() == 9);
    assert("data"@.len() == 4);
    assert("from"@.len() == 4);
    assert("message"@.len() == 7);
}

impl WebSocketMessage {
    /// Reads a record from a JSON value, as `message_of_json` says.
    pub fn from_json(v: Value) -> (r: Option<WebSocketMessage>)
        ensures
            message_view(r) == message_of_json(json_of(v)),
    {
        match open_json(v) {
            Node::Object(members) => {
                let mut members = members;
                proof {
                    lemma_keys_differ();
                }
                let tag = read_tag(take_member(&mut members, "messageType"));
                let list = read_optional_list(take_member(&mut members, "dataArray"));
                let text = read_optional_text(take_member(&mut members, "data"));
                match (tag, list, text) {
                    (Some(message_type), Some(data_array), Some(data)) => Some(
                        WebSocketMessage { message_type, data_array, data },
                    ),
                    _ => None,
                }
            },
            _ => None,
        }
    }

    /// Writes the record as a JSON value, as `json_of_message` says.
    pub fn into_json(self) -> (r: Value)
        ensures
            json_of(r) == json_of_message(self@),
    {
        let WebSocketMessage { message_type, data_array, data } = self;
        let mut members: Vec<(String, Value)> = Vec::new();
        let tag = json_string(String::from_str(message_type.name()));
        members.push((String::from_str("messageType"), tag));
        if let Some(names) = data_array {
            let mut items: Vec<Value> = Vec::new();
            for name in it: names
                invariant
                    it.seq() == names@,
                    items.len() == it.index(),
                    forall|k: int|
                        0 <= k < items.len() ==> json_of(items[k]) == Json::Text(names@[k]@),
            {
                items.push(json_string(name));
            }
            assert(items_of(items@) =~= text_items(texts(names@)));
            members.push((String::from_str("dataArray"), json_array(items)));
        }
        if let Some(text) = data {
            members.push((String::from_str("data"), json_string(text)));
        }
        proof {
            lemma_keys_differ();
            assert(members_of(members@) =~= json_of_message(self@)->Object_0);
        }
        json_object(members)
    }
}

impl ChatMessage {
    /// Reads a chat message from a JSON value, as `payload_of_json` says.
    pub fn from_json(v: Value) -> (r: Option<ChatMessage>)
        ensures
            payload_view(r) == payload_of_json(json_of(v)),
    {
        match open_json(v) {
            Node::Object(members) => {
                let mut members = members;
                proof {
                    lemma_keys_differ();
                }
                let from = read_required_text(take_member(&mut members, "from"));
                let body = read_required_text(take_member(&mut members, "message"));
                match (from, body) {
                    (Some(from), Some(body)) => Some(ChatMessage { from, body }),
                    _ => None,
                }
            },
            _ => None,
        }
    }

    /// Writes the chat message as a JSON value, as `json_of_payload` says.
    pub fn to_json(&self) -> (r: Value)
        ensures
            json_of(r) == json_of_payload(self@),
    {
        let mut members: Vec<(String, Value)> = Vec::new();
        members.push((String::from_str("from"), json_string(self.from.clone())));
        members.push((String::from_str("message"), json_string(self.body.clone())));
        proof {
            lemma_keys_differ();
            assert(members_of(members@) =~= json_of_payload(self@)->Object_0);
        }
        json_object(members)
    }
}

/// Writes a frame as text.
pub fn encode(frame: &Frame) -> (r: String)
    ensures
        r@ == spec_encode(frame@),
{
    let value = frame.to_wire().into_json();
    print_json(&value)
}

/// Reads a frame from text. A text that does not hold a frame is reported,
/// never passed over: the error says so and no frame is made up.
pub fn decode(text: &str) -> (r: Result<Frame, DecodeError>)
    ensures
        decoded_view(r) == spec_decode(text@),
{
    match parse_json(text) {
        Ok(value) => match WebSocketMessage::from_json(value) {
            Some(message) => match Frame::from_wire(message) {
                Some(frame) => Ok(frame),
                None => Err(DecodeError::Malformed),
            },
            None => Err(DecodeError::Malformed),
        },
        Err(_) => Err(DecodeError::Malformed),
    }
}

/// Writes a chat message as the text that a message frame carries.
pub fn encode_payload(message: &ChatMessage) -> (r: String)
    ensures
        r@ == spec_encode_payload(message@),
{
    let value = message.to_json();
    print_json(&value)
}

/// Reads a chat message from the text that a message frame carries.
pub fn decode_payload(text: &str) -> (r: Result<ChatMessage, DecodeError>)
    ensures
        decoded_payload_view(r) == spec_decode_payload(text@),
{
    match parse_json(text) {
        Ok(value) => match ChatMessage::from_json(value) {
            Some(message) => Ok(message),
            None => Err(DecodeError::InvalidPayload),
        },
        Err(_) => Err(DecodeError::InvalidPayload),
    }
}

} // verus!
