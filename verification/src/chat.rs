//! The chat session: the roster and the message log of one client, the
//! transitions that inbound frames and the user's actions cause, and what the
//! view shows of them.

use crate::bus::{EventBus, SubscriptionId};
use crate::channel::{Channel, ChannelView, SendFailure};
use crate::codec::{
    decode, decode_payload, encode, encode_payload, spec_decode, spec_decode_payload, spec_encode,
    spec_encode_payload,
};
use crate::wire::{
    text_is, texts, ChatMessage, ChatMessageView, DecodeError, Frame, FrameView,
};
use vstd::prelude::*;
use vstd::string::{StrSliceExecFns, StringExecFns};

verus! {

/// Whether a text ends with the given characters.
pub open spec fn ends_with(text: Seq<char>, suffix: Seq<char>) -> bool {
    text.len() >= suffix.len() && text.subrange(text.len() - suffix.len(), text.len() as int)
        == suffix
}

/// Whether a message body is shown as an image: it ends in `.gif`, in lower
/// case, and nothing else is looked at.
pub open spec fn is_image(body: Seq<char>) -> bool {
    ends_with(body, ".gif"@)
}

/// The address of the avatar drawn for a username.
pub open spec fn avatar_url(name: Seq<char>) -> Seq<char> {
    "https://avatars.dicebear.com/api/adventurer-neutral/"@ + name + ".svg"@
}

/// Whether a string ends with another.
pub fn has_suffix(text: &str, suffix: &str) -> (r: bool)
    ensures
        r == ends_with(text@, suffix@),
{
    let length = text.unicode_len();
    let tail = suffix.unicode_len();
    if length < tail {
        false
    } else {
        text_is(text.substring_char(length - tail, length), suffix)
    }
}

/// One user of the roster, as the view shows them.
#[derive(Clone, Debug, PartialEq, Eq)]
pub struct UserProfile {
    pub name: String,
    pub avatar: String,
}

/// A `UserProfile` as mathematics.
pub struct UserProfileView {
    pub name: Seq<char>,
    pub avatar: Seq<char>,
}

impl View for UserProfile {
    type V = UserProfileView;

    open spec fn view(&self) -> UserProfileView {
        UserProfileView { name: self.name@, avatar: self.avatar@ }
    }
}

/// The profile that belongs to a username.
pub open spec fn profile_of(name: Seq<char>) -> UserProfileView {
    UserProfileView { name, avatar: avatar_url(name) }
}

/// The profiles of a list of usernames, in their order.
pub open spec fn profiles_of(names: Seq<Seq<char>>) -> Seq<UserProfileView> {
    names.map_values(|name: Seq<char>| profile_of(name))
}

/// The views of a list of profiles.
pub open spec fn roster_view(users: Seq<UserProfile>) -> Seq<UserProfileView> {
    users.map_values(|u: UserProfile| u@)
}

/// The views of a list of chat messages.
pub open spec fn log_view(messages: Seq<ChatMessage>) -> Seq<ChatMessageView> {
    messages.map_values(|m: ChatMessage| m@)
}

impl UserProfile {
    /// The profile of a username.
    pub fn new(name: String) -> (r: UserProfile)
        ensures
            r@ == profile_of(name@),
    {
        let site = String::from_str("https://avatars.dicebear.com/api/adventurer-neutral/");
        let avatar = site.concat(name.as_str()).concat(".svg");
        UserProfile { name, avatar }
    }

    /// A copy of the profile.
    pub fn copy(&self) -> (r: UserProfile)
        ensures
            r@ == self@,
    {
        UserProfile { name: self.name.clone(), avatar: self.avatar.clone() }
    }
}

/// What the session is asked to handle.
#[derive(Clone, Debug, PartialEq, Eq)]
pub enum Msg {
    /// A text that arrived over the event bus.
    HandleMsg(String),
    /// The user asks to send what stands in the input.
    SubmitMessage,
}

/// A `Msg` as mathematics.
pub enum MsgView {
    HandleMsg(Seq<char>),
    SubmitMessage,
}

impl View for Msg {
    type V = MsgView;

    open spec fn view(&self) -> MsgView {
        match self {
            Msg::HandleMsg(text) => MsgView::HandleMsg(text@),
            Msg::SubmitMessage => MsgView::SubmitMessage,
        }
    }
}

impl Msg {
    /// What a key pressed in the input asks for: Enter submits, any other key
    /// asks for nothing.
    pub fn for_key(key: &str) -> (r: Option<Msg>)
        ensures
            match r {
                Some(msg) => key@ == "Enter"@ && msg@ == MsgView::SubmitMessage,
                None => key@ != "Enter"@,
            },
    {
        if text_is(key, "Enter") {
            Some(Msg::SubmitMessage)
        } else {
            None
        }
    }
}

/// The state of a session as mathematics.
pub struct SessionState {
    /// The name under which the session registered.
    pub username: Seq<char>,
    /// Who is connected, as the last roster frame said.
    pub roster: Seq<UserProfileView>,
    /// The messages received, in the order of arrival.
    pub log: Seq<ChatMessageView>,
    /// What stands in the input.
    pub input: Seq<char>,
    /// The session's subscription on the event bus.
    pub subscription: SubscriptionId,
}

impl SessionState {
    /// The state of a session that was just created.
    pub open spec fn initial(username: Seq<char>, subscription: SubscriptionId) -> SessionState {
        SessionState {
            username,
            roster: Seq::empty(),
            log: Seq::empty(),
            input: Seq::empty(),
            subscription,
        }
    }

    /// The state after an inbound text. A roster frame replaces the roster, a
    /// message frame with a sound payload adds one entry to the log, and
    /// everything else leaves the state as it is: a register frame, a
    /// malformed frame, a message whose payload is invalid.
    pub open spec fn after_frame(self, text: Seq<char>) -> SessionState {
        match spec_decode(text) {
            Ok(FrameView::Users { data_array }) => SessionState {
                roster: profiles_of(data_array),
                ..self
            },
            Ok(FrameView::Message { data }) => match spec_decode_payload(data) {
                Ok(message) => SessionState { log: self.log.push(message), ..self },
                Err(_) => self,
            },
            _ => self,
        }
    }

    /// What handling an inbound text reports: whether the view has to be
    /// drawn again, or why the text was dropped. It does not depend on the
    /// state.
    pub open spec fn frame_result(text: Seq<char>) -> Result<bool, DecodeError> {
        match spec_decode(text) {
            Ok(FrameView::Users { .. }) => Ok(true),
            Ok(FrameView::Message { data }) => match spec_decode_payload(data) {
                Ok(_) => Ok(true),
                Err(e) => Err(e),
            },
            Ok(FrameView::Register { .. }) => Ok(false),
            Err(e) => Err(e),
        }
    }

    /// The frame text that a submit sends, or `None` where the input is empty
    /// and nothing is sent.
    pub open spec fn submission(self) -> Option<Seq<char>> {
        if self.input.len() == 0 {
            None
        } else {
            Some(
                spec_encode(
                    FrameView::Message {
                        data: spec_encode_payload(
                            ChatMessageView { from: self.username, body: self.input },
                        ),
                    },
                ),
            )
        }
    }

    /// The state after a submit: the input is empty, the rest is as it was.
    pub open spec fn after_submit(self) -> SessionState {
        SessionState { input: Seq::empty(), ..self }
    }

    /// The state after one `Msg`.
    pub open spec fn after(self, msg: MsgView) -> SessionState {
        match msg {
            MsgView::HandleMsg(text) => self.after_frame(text),
            MsgView::SubmitMessage => self.after_submit(),
        }
    }

    /// The state after a sequence of `Msg`s, handled in order.
    pub open spec fn after_all(self, msgs: Seq<MsgView>) -> SessionState
        decreases msgs.len(),
    {
        if msgs.len() == 0 {
            self
        } else {
            self.after_all(msgs.drop_last()).after(msgs.last())
        }
    }
}

/// The channel after the session handled a `Msg` in the given state: only a
/// submit with something in the input sends.
pub open spec fn channel_after(
    state: SessionState,
    msg: MsgView,
    channel: ChannelView,
) -> ChannelView {
    match msg {
        MsgView::HandleMsg(_) => channel,
        MsgView::SubmitMessage => match state.submission() {
            Some(text) => channel.after_send(text),
            None => channel,
        },
    }
}

/// What handling a `Msg` returns: whether the view has to be drawn again.
pub open spec fn redraw_after(msg: MsgView) -> bool {
    match msg {
        MsgView::HandleMsg(text) => SessionState::frame_result(text) == Ok::<bool, DecodeError>(
            true,
        ),
        MsgView::SubmitMessage => false,
    }
}

/// One session of the chat: a username, the roster, the log, the input.
pub struct Chat {
    username: String,
    users: Vec<UserProfile>,
    messages: Vec<ChatMessage>,
    chat_input: String,
    subscription: SubscriptionId,
}

impl Chat {
    /// The state that the session is in.
    pub closed spec fn state(&self) -> SessionState {
        SessionState {
            username: self.username@,
            roster: roster_view(self.users@),
            log: log_view(self.messages@),
            input: self.chat_input@,
            subscription: self.subscription,
        }
    }

    /// Starts a session: registers the username with the server, and
    /// subscribes to the bus. The roster and the log start empty. Where the
    /// register frame cannot be queued the session starts all the same.
    pub fn create(username: String, channel: &mut Channel, bus: &mut EventBus) -> (r: Chat)
        requires
            old(bus).wf(),
            old(bus).issued() < u64::MAX,
        ensures
            final(bus).wf(),
            final(bus).issued() == old(bus).issued() + 1,
            r.state() == SessionState::initial(username@, r.state().subscription),
            r.state().subscription.0 == old(bus).issued(),
            !old(bus)@.dom().contains(r.state().subscription),
            final(bus)@ == old(bus)@.insert(r.state().subscription, Seq::<Seq<char>>::empty()),
            final(channel)@ == old(channel)@.after_send(
                spec_encode(FrameView::Register { data: username@ }),
            ),
    {
        let register = Frame::Register { data: username.clone() };
        let _ = channel.send(encode(&register));
        let subscription = bus.subscribe();
        let r = Chat {
            username,
            users: Vec::new(),
            messages: Vec::new(),
            chat_input: String::new(),
            subscription,
        };
        assert(r.state().roster =~= Seq::<UserProfileView>::empty());
        assert(r.state().log =~= Seq::<ChatMessageView>::empty());
        r
    }

    /// Ends the session: its subscription is closed, and what was still in
    /// its feed is dropped. The connection and the other subscriptions go on.
    pub fn destroy(self, bus: &mut EventBus)
        requires
            old(bus).wf(),
        ensures
            final(bus).wf(),
            final(bus).issued() == old(bus).issued(),
            final(bus)@ == old(bus)@.remove(self.state().subscription),
    {
        bus.unsubscribe(self.subscription);
    }

    /// Handles one inbound text and reports whether the view has to be drawn
    /// again. A text that is no frame, or a message whose payload is invalid,
    /// is dropped: the error is returned and the state is as it was.
    pub fn handle_frame(&mut self, text: &str) -> (r: Result<bool, DecodeError>)
        ensures
            final(self).state() == old(self).state().after_frame(text@),
            r == SessionState::frame_result(text@),
    {
        match decode(text) {
            Ok(Frame::Users { data_array }) => {
                let mut users: Vec<UserProfile> = Vec::new();
                for name in it: data_array
                    invariant
                        it.seq() == data_array@,
                        users.len() == it.index(),
                        forall|k: int|
                            0 <= k < users.len() ==> users[k]@ == profile_of(data_array@[k]@),
                {
                    users.push(UserProfile::new(name));
                }
                assert(roster_view(users@) =~= profiles_of(texts(data_array@)));
                self.users = users;
                Ok(true)
            },
            Ok(Frame::Message { data }) => match decode_payload(data.as_str()) {
                Ok(message) => {
                    let ghost before = self.messages@;
                    self.messages.push(message);
                    assert(log_view(self.messages@) =~= log_view(before).push(message@));
                    Ok(true)
                },
                Err(e) => Err(e),
            },
            Ok(Frame::Register { .. }) => Ok(false),
            Err(e) => Err(e),
        }
    }

    /// Puts a text into the input, in place of what stood there.
    pub fn set_input(&mut self, text: String)
        ensures
            final(self).state() == (SessionState { input: text@, ..old(self).state() }),
    {
        self.chat_input = text;
    }

    /// Sends what stands in the input as a chat message from this user, and
    /// empties the input. With an empty input nothing is sent. The message is
    /// not added to the log: it gets there when the server sends it back.
    /// Returns whether a frame was queued, or the failure to queue it.
    pub fn submit(&mut self, channel: &mut Channel) -> (r: Result<bool, SendFailure>)
        ensures
            final(self).state() == old(self).state().after_submit(),
            final(channel)@ == channel_after(
                old(self).state(),
                MsgView::SubmitMessage,
                old(channel)@,
            ),
            r == (match old(self).state().submission() {
                Some(_) => match old(channel)@.send_result() {
                    Ok(_) => Ok(true),
                    Err(e) => Err(e),
                },
                None => Ok(false),
            }),
    {
        if self.chat_input.as_str().unicode_len() == 0 {
            assert(self.chat_input@ =~= Seq::<char>::empty());
            return Ok(false);
        }
        let message = ChatMessage { from: self.username.clone(), body: self.chat_input.clone() };
        let frame = Frame::Message { data: encode_payload(&message) };
        let sent = channel.send(encode(&frame));
        self.chat_input = String::new();
        match sent {
            Ok(_) => Ok(true),
            Err(e) => Err(e),
        }
    }

    /// Handles one `Msg` and returns whether the view has to be drawn again.
    /// Errors are dropped here, as the session goes on whatever arrives; the
    /// functions `handle_frame` and `submit` return them.
    pub fn update(&mut self, msg: Msg, channel: &mut Channel) -> (r: bool)
        ensures
            final(self).state() == old(self).state().after(msg@),
            final(channel)@ == channel_after(old(self).state(), msg@, old(channel)@),
            r == redraw_after(msg@),
    {
        match msg {
            Msg::HandleMsg(text) => match self.handle_frame(text.as_str()) {
                Ok(redraw) => redraw,
                Err(_) => false,
            },
            Msg::SubmitMessage => {
                let _ = self.submit(channel);
                false
            },
        }
    }

    /// The next `Msg` that the bus holds for the session: the oldest text of
    /// its feed, to be handled. `None` where the feed is empty.
    pub fn next_msg(&self, bus: &mut EventBus) -> (r: Option<Msg>)
        requires
            old(bus).wf(),
        ensures
            final(bus).wf(),
            final(bus).issued() == old(bus).issued(),
            match r {
                Some(msg) => {
                    let id = self.state().subscription;
                    &&& old(bus)@.dom().contains(id)
                    &&& old(bus)@[id].len() > 0
                    &&& msg@ == MsgView::HandleMsg(old(bus)@[id][0])
                    &&& final(bus)@ == old(bus)@.insert(id, old(bus)@[id].drop_first())
                },
                None => {
                    let id = self.state().subscription;
                    &&& !old(bus)@.dom().contains(id) || old(bus)@[id].len() == 0
                    &&& final(bus)@ == old(bus)@
                },
            },
    {
        match bus.receive(self.subscription) {
            Some(text) => Some(Msg::HandleMsg(text)),
            None => None,
        }
    }

    pub fn username(&self) -> (r: &String)
        ensures
            r@ == self.state().username,
    {
        &self.username
    }

    /// The roster.
    pub fn users(&self) -> (r: &Vec<UserProfile>)
        ensures
            roster_view(r@) == self.state().roster,
    {
        &self.users
    }

    /// The log.
    pub fn messages(&self) -> (r: &Vec<ChatMessage>)
        ensures
            log_view(r@) == self.state().log,
    {
        &self.messages
    }

    pub fn chat_input(&self) -> (r: &String)
        ensures
            r@ == self.state().input,
    {
        &self.chat_input
    }

    pub fn subscription(&self) -> (r: SubscriptionId)
        ensures
            r == self.state().subscription,
    {
        self.subscription
    }
}

/// How the body of a message is shown.
#[derive(Clone, Debug, PartialEq, Eq)]
pub enum MessageContent {
    /// The body is the address of an image.
    Image(String),
    /// The body is plain text.
    Text(String),
}

/// A `MessageContent` as mathematics.
pub enum MessageContentView {
    Image(Seq<char>),
    Text(Seq<char>),
}

impl View for MessageContent {
    type V = MessageContentView;

    open spec fn view(&self) -> MessageContentView {
        match self {
            MessageContent::Image(address) => MessageContentView::Image(address@),
            MessageContent::Text(text) => MessageContentView::Text(text@),
        }
    }
}

/// One line of the message log, as the view shows it.
#[derive(Clone, Debug, PartialEq, Eq)]
pub struct MessageRow {
    pub from: String,
    /// The sender's avatar; empty where the sender is not on the roster.
    pub avatar: String,
    pub content: MessageContent,
}

/// A `MessageRow` as mathematics.
pub struct MessageRowView {
    pub from: Seq<char>,
    pub avatar: Seq<char>,
    pub content: MessageContentView,
}

impl View for MessageRow {
    type V = MessageRowView;

    open spec fn view(&self) -> MessageRowView {
        MessageRowView { from: self.from@, avatar: self.avatar@, content: self.content@ }
    }
}

/// What the view shows: the roster, and the log line by line.
#[derive(Clone, Debug, PartialEq, Eq)]
pub struct Screen {
    pub users: Vec<UserProfile>,
    pub messages: Vec<MessageRow>,
}

/// A `Screen` as mathematics.
pub struct ScreenView {
    pub users: Seq<UserProfileView>,
    pub messages: Seq<MessageRowView>,
}

impl View for Screen {
    type V = ScreenView;

    open spec fn view(&self) -> ScreenView {
        ScreenView {
            users: roster_view(self.users@),
            messages: self.messages@.map_values(|row: MessageRow| row@),
        }
    }
}

/// How a body is shown.
pub open spec fn content_of(body: Seq<char>) -> MessageContentView {
    if is_image(body) {
        MessageContentView::Image(body)
    } else {
        MessageContentView::Text(body)
    }
}

/// The avatar of the first user on the roster with the given name, or the
/// empty text where the roster has no such user.
pub open spec fn avatar_for(roster: Seq<UserProfileView>, name: Seq<char>) -> Seq<char>
    decreases roster.len(),
{
    if roster.len() == 0 {
        Seq::empty()
    } else if roster[0].name == name {
        roster[0].avatar
    } else {
        avatar_for(roster.drop_first(), name)
    }
}

/// The line shown for a message, with the roster as it is.
pub open spec fn row_of(roster: Seq<UserProfileView>, message: ChatMessageView) -> MessageRowView {
    MessageRowView {
        from: message.from,
        avatar: avatar_for(roster, message.from),
        content: content_of(message.body),
    }
}

/// What the view shows in a state.
pub open spec fn screen_of(state: SessionState) -> ScreenView {
    ScreenView {
        users: state.roster,
        messages: state.log.map_values(|m: ChatMessageView| row_of(state.roster, m)),
    }
}

impl MessageContent {
    /// Tells an image from text by the end of the body.
    pub fn classify(body: &str) -> (r: MessageContent)
        ensures
            r@ == content_of(body@),
    {
        if has_suffix(body, ".gif") {
            MessageContent::Image(String::from_str(body))
        } else {
            MessageContent::Text(String::from_str(body))
        }
    }

    /// Whether the body is shown as an image.
    pub fn is_image(&self) -> (r: bool)
        ensures
            r == (self@ is Image),
    {
        match self {
            MessageContent::Image(_) => true,
            MessageContent::Text(_) => false,
        }
    }
}

impl Chat {
    /// The avatar shown beside a message from the given sender.
    pub fn avatar_of(&self, name: &str) -> (r: String)
        ensures
            r@ == avatar_for(self.state().roster, name@),
    {
        let wanted = String::from_str(name);
        let ghost roster = roster_view(self.users@);
        let mut i: usize = 0;
        assert(roster.skip(0) =~= roster);
        while i < self.users.len()
            invariant
                i <= self.users.len(),
                wanted@ == name@,
                roster == roster_view(self.users@),
                avatar_for(roster, name@) == avatar_for(roster.skip(i as int), name@),
            decreases self.users.len() - i,
        {
            if self.users[i].name == wanted {
                assert(roster.skip(i as int)[0] == self.users[i as int]@);
                return self.users[i].avatar.clone();
            }
            assert(roster.skip(i as int)[0] == self.users[i as int]@);
            assert(roster.skip(i as int).drop_first() =~= roster.skip(i + 1));
            i += 1;
        }
        assert(roster.skip(i as int).len() == 0);
        String::new()
    }

    /// What the view shows of the session: the roster as it is, and for each
    /// message of the log its sender, the sender's avatar and the body as an
    /// image or as text.
    pub fn view(&self) -> (r: Screen)
        ensures
            r@ == screen_of(self.state()),
    {
        let mut users: Vec<UserProfile> = Vec::new();
        let mut i: usize = 0;
        while i < self.users.len()
            invariant
                i <= self.users.len(),
                users.len() == i,
                forall|k: int| 0 <= k < i ==> users[k]@ == self.users[k]@,
            decreases self.users.len() - i,
        {
            users.push(self.users[i].copy());
            i += 1;
        }
        let mut messages: Vec<MessageRow> = Vec::new();
        let mut j: usize = 0;
        while j < self.messages.len()
            invariant
                j <= self.messages.len(),
                messages.len() == j,
                forall|k: int|
                    0 <= k < j ==> messages[k]@ == row_of(self.state().roster, self.messages[k]@),
            decreases self.messages.len() - j,
        {
            let message = &self.messages[j];
            messages.push(
                MessageRow {
                    from: message.from.clone(),
                    avatar: self.avatar_of(message.from.as_str()),
                    content: MessageContent::classify(message.body.as_str()),
                },
            );
            j += 1;
        }
        let r = Screen { users, messages };
        assert(r@.users =~= screen_of(self.state()).users);
        assert(r@.messages =~= screen_of(self.state()).messages);
        r
    }
}

} // verus!
