//! The wire unit of the chat protocol: the three kinds of frame, the flat
//! record that carries one over the connection, and the rule that tells a
//! well-formed record from a malformed one.

use vstd::prelude::*;
use vstd::string::StringExecFns;

verus! {

/// The characters of each string of a list.
pub open spec fn texts(names: Seq<String>) -> Seq<Seq<char>> {
    names.map_values(|s: String| s@)
}

/// Whether a string holds exactly the characters of `word`.
pub fn text_is(s: &str, word: &str) -> (r: bool)
    ensures
        r == (s@ == word@),
{
    String::from_str(s) == String::from_str(word)
}

/// A copy of a list of strings.
pub fn clone_texts(names: &Vec<String>) -> (r: Vec<String>)
    ensures
        texts(r@) == texts(names@),
{
    let mut copy: Vec<String> = Vec::new();
    let mut i: usize = 0;
    while i < names.len()
        invariant
            i <= names.len(),
            copy.len() == i,
            forall|k: int| 0 <= k < i ==> copy[k]@ == names[k]@,
        decreases names.len() - i,
    {
        copy.push(names[i].clone());
        i += 1;
    }
    assert(texts(copy@) =~= texts(names@));
    copy
}

/// The tag of a frame, as the `messageType` field names it.
#[derive(Clone, Copy, Debug, PartialEq, Eq, Structural)]
pub enum MsgTypes {
    Users,
    Register,
    Message,
}

impl MsgTypes {
    /// The lowercase word that stands for the tag on the wire.
    pub open spec fn spec_name(self) -> Seq<char> {
        match self {
            MsgTypes::Users => "users"@,
            MsgTypes::Register => "register"@,
            MsgTypes::Message => "message"@,
        }
    }

    /// The tag that a word stands for, if it is one of the three.
    pub open spec fn spec_from_name(name: Seq<char>) -> Option<MsgTypes> {
        if name == "users"@ {
            Some(MsgTypes::Users)
        } else if name == "register"@ {
            Some(MsgTypes::Register)
        } else if name == "message"@ {
            Some(MsgTypes::Message)
        } else {
            None
        }
    }

    pub fn name(self) -> (r: &'static str)
        ensures
            r@ == self.spec_name(),
    {
        match self {
            MsgTypes::Users => "users",
            MsgTypes::Register => "register",
            MsgTypes::Message => "message",
        }
    }

    pub fn from_name(name: &str) -> (r: Option<MsgTypes>)
        ensures
            r == MsgTypes::spec_from_name(name@),
    {
        if text_is(name, "users") {
            Some(MsgTypes::Users)
        } else if text_is(name, "register") {
            Some(MsgTypes::Register)
        } else if text_is(name, "message") {
            Some(MsgTypes::Message)
        } else {
            None
        }
    }

    /// The three words are distinct, so a tag is found again from its word.
    pub proof fn lemma_name_round_trip(self)
        ensures
            MsgTypes::spec_from_name(self.spec_name()) == Some(self),
    {
        reveal_strlit("users");
        reveal_strlit("register");
        reveal_strlit("message");
        assert("users"@.len() == 5);
        assert("register"@.len() == 8);
        assert("message"@.len() == 7);
    }
}

/// Why a text was not accepted as a frame.
#[derive(Clone, Copy, Debug, PartialEq, Eq, Structural)]
pub enum DecodeError {
    /// The outer frame has none of the known shapes.
    Malformed,
    /// The frame is a message whose inner payload is not `{from, message}`.
    InvalidPayload,
}

/// The flat record of the wire format: a tag and two optional fields.
#[derive(Clone, Debug, PartialEq, Eq)]
pub struct WebSocketMessage {
    pub message_type: MsgTypes,
    pub data_array: Option<Vec<String>>,
    pub data: Option<String>,
}

/// A `WebSocketMessage` as mathematics.
pub struct WebSocketMessageView {
    pub message_type: MsgTypes,
    pub data_array: Option<Seq<Seq<char>>>,
    pub data: Option<Seq<char>>,
}

impl View for WebSocketMessage {
    type V = WebSocketMessageView;

    open spec fn view(&self) -> WebSocketMessageView {
        WebSocketMessageView {
            message_type: self.message_type,
            data_array: match self.data_array {
                Some(names) => Some(texts(names@)),
                None => None,
            },
            data: match self.data {
                Some(text) => Some(text@),
                None => None,
            },
        }
    }
}

/// One unit exchanged over the connection.
#[derive(Clone, Debug, PartialEq, Eq)]
pub enum Frame {
    /// Client to server, once: the username of the session.
    Register { data: String },
    /// Server to client: the whole roster.
    Users { data_array: Vec<String> },
    /// Either way: a chat message, itself encoded as text.
    Message { data: String },
}

/// A `Frame` as mathematics.
pub enum FrameView {
    Register { data: Seq<char> },
    Users { data_array: Seq<Seq<char>> },
    Message { data: Seq<char> },
}

impl View for Frame {
    type V = FrameView;

    open spec fn view(&self) -> FrameView {
        match self {
            Frame::Register { data } => FrameView::Register { data: data@ },
            Frame::Users { data_array } => FrameView::Users { data_array: texts(data_array@) },
            Frame::Message { data } => FrameView::Message { data: data@ },
        }
    }
}

impl FrameView {
    /// The record that carries this frame: the tag, and the one field that
    /// the tag calls for.
    pub open spec fn to_wire(self) -> WebSocketMessageView {
        match self {
            FrameView::Register { data } => WebSocketMessageView {
                message_type: MsgTypes::Register,
                data_array: None,
                data: Some(data),
            },
            FrameView::Users { data_array } => WebSocketMessageView {
                message_type: MsgTypes::Users,
                data_array: Some(data_array),
                data: None,
            },
            FrameView::Message { data } => WebSocketMessageView {
                message_type: MsgTypes::Message,
                data_array: None,
                data: Some(data),
            },
        }
    }
}

impl WebSocketMessageView {
    /// The frame that this record carries. A record is a frame only if the
    /// field that its tag calls for is there and the other one is not.
    pub open spec fn to_frame(self) -> Option<FrameView> {
        match (self.message_type, self.data_array, self.data) {
            (MsgTypes::Register, None, Some(data)) => Some(FrameView::Register { data }),
            (MsgTypes::Users, Some(data_array), None) => Some(FrameView::Users { data_array }),
            (MsgTypes::Message, None, Some(data)) => Some(FrameView::Message { data }),
            _ => None,
        }
    }
}

/// One chat message, as the inner payload of a message frame carries it.
#[derive(Clone, Debug, PartialEq, Eq)]
pub struct ChatMessage {
    pub from: String,
    pub body: String,
}

/// A `ChatMessage` as mathematics.
pub struct ChatMessageView {
    pub from: Seq<char>,
    pub body: Seq<char>,
}

impl View for ChatMessage {
    type V = ChatMessageView;

    open spec fn view(&self) -> ChatMessageView {
        ChatMessageView { from: self.from@, body: self.body@ }
    }
}

/// The view of a frame that may be missing.
pub open spec fn frame_view(frame: Option<Frame>) -> Option<FrameView> {
    match frame {
        Some(f) => Some(f@),
        None => None,
    }
}

impl Frame {
    /// The record that carries this frame.
    pub fn to_wire(&self) -> (r: WebSocketMessage)
        ensures
            r@ == self@.to_wire(),
    {
        match self {
            Frame::Register { data } => WebSocketMessage {
                message_type: MsgTypes::Register,
                data_array: None,
                data: Some(data.clone()),
            },
            Frame::Users { data_array } => WebSocketMessage {
                message_type: MsgTypes::Users,
                data_array: Some(clone_texts(data_array)),
                data: None,
            },
            Frame::Message { data } => WebSocketMessage {
                message_type: MsgTypes::Message,
                data_array: None,
                data: Some(data.clone()),
            },
        }
    }

    /// The frame that a record carries, or `None` where the record is
    /// malformed.
    pub fn from_wire(message: WebSocketMessage) -> (r: Option<Frame>)
        ensures
            frame_view(r) == message@.to_frame(),
    {
        let WebSocketMessage { message_type, data_array, data } = message;
        match (message_type, data_array, data) {
            (MsgTypes::Register, None, Some(data)) => Some(Frame::Register { data }),
            (MsgTypes::Users, Some(data_array), None) => Some(Frame::Users { data_array }),
            (MsgTypes::Message, None, Some(data)) => Some(Frame::Message { data }),
            _ => None,
        }
    }
}

} // verus!
