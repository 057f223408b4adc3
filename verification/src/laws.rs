//! What holds of the codec and of the session whatever the inputs are.

use crate::chat::{profiles_of, MsgView, SessionState};
use crate::codec::{
    all_text, item_texts, json_of_message, json_of_payload, member, message_of_json,
    optional_list, optional_text, payload_of_json, required_text, spec_decode,
    spec_decode_payload, tag_of, text_items,
};
use crate::json::{json_parse, Json};
use crate::wire::{
    ChatMessageView, DecodeError, FrameView, MsgTypes, WebSocketMessageView,
};
use vstd::prelude::*;

verus! {

/// A frame is found again from the record that carries it.
pub proof fn lemma_wire_round_trip(frame: FrameView)
    ensures
        frame.to_wire().to_frame() == Some(frame),
{
}

/// A record is found again from the JSON object written for it.
pub proof fn lemma_message_round_trip(m: WebSocketMessageView)
    ensures
        message_of_json(json_of_message(m)) == Some(m),
{
    reveal_strlit("messageType");
    reveal_strlit("dataArray");
    reveal_strlit("data");
    assert("messageType"@.len() == 11);
    assert("dataArray"@.len() == 9);
    assert("data"@.len() == 4);
    m.message_type.lemma_name_round_trip();
    let members = json_of_message(m)->Object_0;
    let tag = ("messageType"@, Json::Text(m.message_type.spec_name()));
    reveal_with_fuel(member, 4);
    match m.data_array {
        Some(names) => {
            let items = text_items(names);
            assert(all_text(items));
            assert(item_texts(items) =~= names);
            let list = ("dataArray"@, Json::Array(items));
            match m.data {
                Some(text) => {
                    let data = ("data"@, Json::Text(text));
                    assert(members =~= seq![tag, list, data]);
                    assert(members.drop_last() =~= seq![tag, list]);
                    assert(members.drop_last().drop_last() =~= seq![tag]);
                },
                None => {
                    assert(members =~= seq![tag, list]);
                    assert(members.drop_last() =~= seq![tag]);
                    assert(members.drop_last().drop_last() =~= Seq::empty());
                },
            }
        },
        None => {
            match m.data {
                Some(text) => {
                    let data = ("data"@, Json::Text(text));
                    assert(members =~= seq![tag, data]);
                    assert(members.drop_last() =~= seq![tag]);
                    assert(members.drop_last().drop_last() =~= Seq::empty());
                },
                None => {
                    assert(members =~= seq![tag]);
                    assert(members.drop_last() =~= Seq::empty());
                },
            }
        },
    }
    assert(tag_of(member(members, "messageType"@)) == Some(m.message_type));
    assert(optional_list(member(members, "dataArray"@)) == Some(m.data_array));
    assert(optional_text(member(members, "data"@)) == Some(m.data));
}

/// A chat message is found again from the JSON object written for it.
pub proof fn lemma_payload_round_trip(message: ChatMessageView)
    ensures
        payload_of_json(json_of_payload(message)) == Some(message),
{
    reveal_strlit("from");
    reveal_strlit("message");
    assert("from"@.len() == 4);
    assert("message"@.len() == 7);
    let members = json_of_payload(message)->Object_0;
    reveal_with_fuel(member, 3);
    assert(members.drop_last() =~= seq![("from"@, Json::Text(message.from))]);
    assert(required_text(member(members, "from"@)) == Some(message.from));
    assert(required_text(member(members, "message"@)) == Some(message.body));
}

/// Decoding undoes encoding: a frame is read back from every text that holds
/// the JSON object written for it.
pub proof fn lemma_decode_inverts_encode(frame: FrameView, text: Seq<char>)
    ensures
        json_parse(text) == Some(json_of_message(frame.to_wire())) ==> spec_decode(text)
            == Ok::<FrameView, DecodeError>(frame),
{
    lemma_message_round_trip(frame.to_wire());
    lemma_wire_round_trip(frame);
}

/// The same for the payload of a message frame.
pub proof fn lemma_decode_inverts_encode_payload(message: ChatMessageView, text: Seq<char>)
    ensures
        json_parse(text) == Some(json_of_payload(message)) ==> spec_decode_payload(text)
            == Ok::<ChatMessageView, DecodeError>(message),
{
    lemma_payload_round_trip(message);
}

/// A text whose JSON object is tagged `message` and has nothing under `data`
/// is malformed.
pub proof fn lemma_message_without_data_is_malformed(
    text: Seq<char>,
    members: Seq<(Seq<char>, Json)>,
)
    ensures
        ({
            &&& json_parse(text) == Some(Json::Object(members))
            &&& member(members, "messageType"@) == Some(Json::Text("message"@))
            &&& member(members, "data"@) is None
        }) ==> spec_decode(text) == Err::<FrameView, DecodeError>(DecodeError::Malformed),
{
    MsgTypes::Message.lemma_name_round_trip();
}

/// A roster frame replaces the roster: what comes out is made of the names
/// in the frame and of nothing that was there before. The log is as it was.
pub proof fn lemma_roster_replaced(state: SessionState, text: Seq<char>, names: Seq<Seq<char>>)
    ensures
        spec_decode(text) == Ok::<FrameView, DecodeError>(FrameView::Users { data_array: names })
            ==> {
            &&& state.after_frame(text).roster == profiles_of(names)
            &&& state.after_frame(text).log == state.log
        },
{
}

/// A text that is dropped with an error leaves the state as it was.
pub proof fn lemma_dropped_frame_changes_nothing(state: SessionState, text: Seq<char>)
    ensures
        SessionState::frame_result(text) is Err ==> state.after_frame(text) == state,
        SessionState::frame_result(text) == Ok::<bool, DecodeError>(false)
            ==> state.after_frame(text) == state,
{
}

/// Submitting does not touch the log.
pub proof fn lemma_no_local_echo(state: SessionState)
    ensures
        state.after_submit().log == state.log,
        state.after(MsgView::SubmitMessage).log == state.log,
{
}

/// The log changes in one way only: an inbound message frame with a sound
/// payload adds that message at the end.
pub proof fn lemma_log_grows_by_inbound_message(state: SessionState, msg: MsgView)
    ensures
        state.after(msg).log == state.log || exists|
            text: Seq<char>,
            data: Seq<char>,
            message: ChatMessageView,
        |
            {
                &&& msg == MsgView::HandleMsg(text)
                &&& spec_decode(text) == Ok::<FrameView, DecodeError>(FrameView::Message { data })
                &&& spec_decode_payload(data) == Ok::<ChatMessageView, DecodeError>(message)
                &&& state.after(msg).log == state.log.push(message)
            },
{
    match msg {
        MsgView::HandleMsg(text) => match spec_decode(text) {
            Ok(FrameView::Message { data }) => match spec_decode_payload(data) {
                Ok(message) => {
                    assert({
                        &&& msg == MsgView::HandleMsg(text)
                        &&& spec_decode(text) == Ok::<FrameView, DecodeError>(
                            FrameView::Message { data },
                        )
                        &&& spec_decode_payload(data) == Ok::<ChatMessageView, DecodeError>(message)
                        &&& state.after(msg).log == state.log.push(message)
                    });
                },
                Err(_) => {},
            },
            _ => {},
        },
        MsgView::SubmitMessage => {},
    }
}

/// The log only grows: whatever is handled, in whatever order, the log of
/// before is the beginning of the log of after, entry for entry.
pub proof fn lemma_log_append_only(state: SessionState, msgs: Seq<MsgView>)
    ensures
        state.log.len() <= state.after_all(msgs).log.len(),
        state.after_all(msgs).log.take(state.log.len() as int) == state.log,
    decreases msgs.len(),
{
    if msgs.len() == 0 {
        assert(state.log.take(state.log.len() as int) =~= state.log);
    } else {
        let before = state.after_all(msgs.drop_last());
        lemma_log_append_only(state, msgs.drop_last());
        lemma_log_grows_by_inbound_message(before, msgs.last());
        let after = before.after(msgs.last());
        assert(after.log.take(state.log.len() as int) =~= before.log.take(state.log.len() as int));
    }
}

/// Handling never changes the username or the subscription.
pub proof fn lemma_identity_is_kept(state: SessionState, msgs: Seq<MsgView>)
    ensures
        state.after_all(msgs).username == state.username,
        state.after_all(msgs).subscription == state.subscription,
    decreases msgs.len(),
{
    if msgs.len() > 0 {
        lemma_identity_is_kept(state, msgs.drop_last());
    }
}

} // verus!
