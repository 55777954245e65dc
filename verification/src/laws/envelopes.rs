//! The bytes of an envelope: what stands where, and what is said of bytes that are none.

use vstd::prelude::*;
use vstd::string::*;
use vstd::utf8::*;

use crate::binary_protocol::{
    encoded_action, encoded_list, envelope, opened, read_action, session_views, decoded_views,
    ActionView, DecodedAction, SessionAction,
};
use crate::codec::utf8_error;
use crate::text::decimal;

verus! {

/// An action is its type, the length of its payload in four bytes, the lowest first, and its
/// payload, byte by byte.
pub proof fn lemma_bytes_of_an_action(action: ActionView, payload: Seq<u8>)
    requires
        payload.len() < 0x1_0000_0000,
        match action {
            ActionView::SendBinary(data) => payload == data,
            ActionView::SendText(text) => payload == encode_utf8(text),
            ActionView::EmitEvent(data) => payload == data,
            ActionView::DownloadSnapshot(id) => payload == encode_utf8(id),
        },
    ensures
        ({
            let bytes = encoded_action(action);
            &&& bytes.len() == 5 + payload.len()
            &&& bytes[0] == (match action {
                ActionView::SendBinary(_) => 0u8,
                ActionView::SendText(_) => 1u8,
                ActionView::EmitEvent(_) => 2u8,
                ActionView::DownloadSnapshot(_) => 3u8,
            })
            &&& bytes[1] + 0x100 * bytes[2] + 0x1_0000 * bytes[3] + 0x100_0000 * bytes[4]
                == payload.len()
            &&& bytes.skip(5) == payload
        }),
{
    assert(encoded_action(action).skip(5) =~= payload);
}

/// An envelope is the number of its actions in two bytes, the lower one first, and then the
/// actions one after the other.
pub proof fn lemma_bytes_of_an_envelope(actions: Seq<ActionView>, action: ActionView)
    requires
        actions.len() < 0xffff,
    ensures
        envelope(actions).len() >= 2,
        envelope(actions)[0] + 0x100 * envelope(actions)[1] == actions.len(),
        envelope(Seq::empty()).len() == 2,
        envelope(actions.push(action)).skip(2) == envelope(actions).skip(2) + encoded_action(
            action,
        ),
{
    let more = actions.push(action);
    assert(more.drop_last() =~= actions);
    assert(envelope(more).skip(2) =~= encoded_list(more));
    assert(envelope(actions).skip(2) =~= encoded_list(actions));
    assert(encoded_list(Seq::<ActionView>::empty()).len() == 0);
}

/// An envelope that is too short for the number of its actions, or for what an action announces,
/// is refused.
pub proof fn lemma_short_envelopes(data: Seq<u8>)
    ensures
        data.len() < 2 ==> opened(data) == Err::<Seq<ActionView>, Seq<char>>(
            "Buffer too short for action count"@,
        ),
        data.len() >= 2 && data[0] == 0 && data[1] == 0 ==> opened(data) == Ok::<
            Seq<ActionView>,
            Seq<char>,
        >(Seq::empty()),
        data.len() == 2 && (data[0] != 0 || data[1] != 0) ==> opened(data) == Err::<
            Seq<ActionView>,
            Seq<char>,
        >("Unexpected end of buffer"@),
        2 < data.len() < 7 && (data[0] != 0 || data[1] != 0) ==> opened(data) == Err::<
            Seq<ActionView>,
            Seq<char>,
        >("Unexpected end of buffer reading payload length"@),
        data.len() >= 7 && (data[0] != 0 || data[1] != 0) && data.len() < 7 + data[3] + 0x100
            * data[4] + 0x1_0000 * data[5] + 0x100_0000 * data[6] ==> opened(data) == Err::<
            Seq<ActionView>,
            Seq<char>,
        >("Payload exceeds buffer"@),
{
    if data.len() >= 2 {
        let rest = data.skip(2);
        assert(data.take(2)[0] == data[0] && data.take(2)[1] == data[1]);
        if data.len() >= 7 {
            let n = rest.subrange(1, 5);
            assert(n[0] == data[3] && n[1] == data[4] && n[2] == data[5] && n[3] == data[6]);
        }
    }
}

/// An action is read by its type, from exactly the bytes that it announces: bytes are taken as
/// they are, and texts are read as UTF-8 or refused; any other type is refused.
pub proof fn lemma_actions_are_read(data: Seq<u8>, payload: Seq<u8>, tail: Seq<u8>)
    requires
        data.len() == 5,
        data[1] + 0x100 * data[2] + 0x1_0000 * data[3] + 0x100_0000 * data[4] == payload.len(),
    ensures
        ({
            let read = read_action(data + payload + tail);
            let used = 5 + payload.len() as int;
            &&& data[0] == 0 ==> read == Ok::<(ActionView, int), Seq<char>>(
                (ActionView::SendBinary(payload), used),
            )
            &&& data[0] == 1 && valid_utf8(payload) ==> read == Ok::<(ActionView, int), Seq<char>>(
                (ActionView::SendText(decode_utf8(payload)), used),
            )
            &&& data[0] == 1 && !valid_utf8(payload) ==> read == Err::<
                (ActionView, int),
                Seq<char>,
            >("Invalid UTF-8 in SendText: "@ + utf8_error(payload))
            &&& data[0] == 2 ==> read == Ok::<(ActionView, int), Seq<char>>(
                (ActionView::EmitEvent(payload), used),
            )
            &&& data[0] == 3 && valid_utf8(payload) ==> read == Ok::<(ActionView, int), Seq<char>>(
                (ActionView::DownloadSnapshot(decode_utf8(payload)), used),
            )
            &&& data[0] == 3 && !valid_utf8(payload) ==> read == Err::<
                (ActionView, int),
                Seq<char>,
            >("Invalid UTF-8 in DownloadSnapshot: "@ + utf8_error(payload))
            &&& data[0] > 3 ==> read == Err::<(ActionView, int), Seq<char>>(
                "Unknown action type: "@ + decimal(data[0] as nat),
            )
        }),
{
    let all = data + payload + tail;
    assert(all.subrange(1, 5) =~= data.subrange(1, 5));
    assert(all.subrange(5, 5 + payload.len() as int) =~= payload);
}

/// Actions are shown as what they are, one by one, with all that they carry.
pub proof fn lemma_actions_are_shown(asked: Seq<SessionAction>, read: Seq<DecodedAction>, i: int)
    ensures
        session_views(asked).len() == asked.len(),
        decoded_views(read).len() == read.len(),
        0 <= i < asked.len() ==> match asked[i] {
            SessionAction::SendBinary(data) => session_views(asked)[i] == ActionView::SendBinary(
                data@,
            ),
            SessionAction::SendText(text) => session_views(asked)[i] == ActionView::SendText(text@),
            SessionAction::Emit(event) => session_views(asked)[i] == ActionView::EmitEvent(
                crate::binary_protocol::event_json(event),
            ),
            SessionAction::DownloadSnapshot { workspace_id } => session_views(asked)[i]
                == ActionView::DownloadSnapshot(workspace_id@),
        },
        0 <= i < read.len() ==> match read[i] {
            DecodedAction::SendBinary(data) => decoded_views(read)[i] == ActionView::SendBinary(
                data@,
            ),
            DecodedAction::SendText(text) => decoded_views(read)[i] == ActionView::SendText(text@),
            DecodedAction::EmitEvent(data) => decoded_views(read)[i] == ActionView::EmitEvent(
                data@,
            ),
            DecodedAction::DownloadSnapshot(id) => decoded_views(read)[i]
                == ActionView::DownloadSnapshot(id@),
        },
{
}

} // verus!
