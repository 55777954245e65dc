//! Binary envelope format for hot-path sync messages.
//!
//! Binary exports return an action list so the host can process multiple
//! outgoing messages/events from a single guest call without JSON overhead.
//!
//! ## Wire format
//!
//! ```text
//! [u16: num_actions]
//! for each action:
//!   [u8: action_type]   // 0=SendBinary, 1=SendText, 2=EmitEvent, 3=DownloadSnapshot
//!   [u32: payload_len]
//!   [payload_bytes]
//! ```
//!
//! Integers are little-endian.

use vstd::prelude::*;
use vstd::string::*;
use vstd::utf8::*;

use crate::codec;
use crate::codec::utf8_read;
use crate::text;

verus! {

/// Action types in the binary envelope.
pub const ACTION_SEND_BINARY: u8 = 0;

pub const ACTION_SEND_TEXT: u8 = 1;

pub const ACTION_EMIT_EVENT: u8 = 2;

pub const ACTION_DOWNLOAD_SNAPSHOT: u8 = 3;

/// An event of a sync session of `diaryx_sync`.
#[verifier::external_type_specification]
#[verifier::external_body]
pub struct ExSyncEvent(diaryx_sync::SyncEvent);

/// The JSON bytes that `serde_json::to_vec` writes for an event.
pub uninterp spec fn event_json(event: diaryx_sync::SyncEvent) -> Seq<u8>;

/// `serde_json::to_vec` on an event of `diaryx_sync`, with no bytes in place of an error: the
/// bytes are a function of the event.
#[verifier::external_body]
fn event_bytes(event: &diaryx_sync::SyncEvent) -> (bytes: Vec<u8>)
    ensures
        bytes@ == event_json(*event),
{
    serde_json::to_vec(event).unwrap_or_default()
}

/// What a sync session asks of the host.
#[derive(Debug)]
pub enum SessionAction {
    SendBinary(Vec<u8>),
    SendText(String),
    Emit(diaryx_sync::SyncEvent),
    DownloadSnapshot { workspace_id: String },
}

/// Decoded action from the binary envelope.
///
/// EmitEvent carries raw JSON bytes since `SyncEvent` only derives `Serialize`.
/// The host side is responsible for deserializing the event JSON.
#[derive(Debug)]
pub enum DecodedAction {
    SendBinary(Vec<u8>),
    SendText(String),
    /// Raw JSON bytes of a serialized `SyncEvent`.
    EmitEvent(Vec<u8>),
    DownloadSnapshot(String),
}

// ---------------------------------------------------------------------------
// Models
// ---------------------------------------------------------------------------

/// What an envelope says of one action.
pub enum ActionView {
    SendBinary(Seq<u8>),
    SendText(Seq<char>),
    EmitEvent(Seq<u8>),
    DownloadSnapshot(Seq<char>),
}

impl View for SessionAction {
    type V = ActionView;

    open spec fn view(&self) -> ActionView {
        match self {
            SessionAction::SendBinary(data) => ActionView::SendBinary(data@),
            SessionAction::SendText(text) => ActionView::SendText(text@),
            SessionAction::Emit(event) => ActionView::EmitEvent(event_json(*event)),
            SessionAction::DownloadSnapshot { workspace_id } => ActionView::DownloadSnapshot(
                workspace_id@,
            ),
        }
    }
}

impl View for DecodedAction {
    type V = ActionView;

    open spec fn view(&self) -> ActionView {
        match self {
            DecodedAction::SendBinary(data) => ActionView::SendBinary(data@),
            DecodedAction::SendText(text) => ActionView::SendText(text@),
            DecodedAction::EmitEvent(data) => ActionView::EmitEvent(data@),
            DecodedAction::DownloadSnapshot(id) => ActionView::DownloadSnapshot(id@),
        }
    }
}

impl ActionView {
    /// The action's type in the envelope.
    pub open spec fn kind(self) -> u8 {
        match self {
            ActionView::SendBinary(_) => ACTION_SEND_BINARY,
            ActionView::SendText(_) => ACTION_SEND_TEXT,
            ActionView::EmitEvent(_) => ACTION_EMIT_EVENT,
            ActionView::DownloadSnapshot(_) => ACTION_DOWNLOAD_SNAPSHOT,
        }
    }

    /// The action's payload in the envelope.
    pub open spec fn payload(self) -> Seq<u8> {
        match self {
            ActionView::SendBinary(data) => data,
            ActionView::SendText(text) => encode_utf8(text),
            ActionView::EmitEvent(data) => data,
            ActionView::DownloadSnapshot(id) => encode_utf8(id),
        }
    }
}

/// The two little-endian bytes of `n`, of which the upper bits are cut off.
pub open spec fn le16(n: int) -> Seq<u8> {
    seq![(n % 256) as u8, (n / 256 % 256) as u8]
}

/// The four little-endian bytes of `n`, of which the upper bits are cut off.
pub open spec fn le32(n: int) -> Seq<u8> {
    seq![
        (n % 256) as u8,
        (n / 256 % 256) as u8,
        (n / 65536 % 256) as u8,
        (n / 16777216 % 256) as u8,
    ]
}

/// The number of two little-endian bytes.
pub open spec fn of_le16(b: Seq<u8>) -> int {
    b[0] + 256 * b[1]
}

/// The number of four little-endian bytes.
pub open spec fn of_le32(b: Seq<u8>) -> int {
    b[0] + 256 * b[1] + 65536 * b[2] + 16777216 * b[3]
}

/// The envelope's part for one action.
pub open spec fn encoded_action(action: ActionView) -> Seq<u8> {
    seq![action.kind()] + le32(action.payload().len() as int) + action.payload()
}

/// The envelope's parts for all actions, one after the other.
pub open spec fn encoded_list(actions: Seq<ActionView>) -> Seq<u8>
    decreases actions.len(),
{
    if actions.len() == 0 {
        Seq::empty()
    } else {
        encoded_list(actions.drop_last()) + encoded_action(actions.last())
    }
}

/// The envelope of a list of actions.
pub open spec fn envelope(actions: Seq<ActionView>) -> Seq<u8> {
    le16(actions.len() as int) + encoded_list(actions)
}

/// The models of the actions.
pub open spec fn session_views(actions: Seq<SessionAction>) -> Seq<ActionView> {
    actions.map_values(|a: SessionAction| a@)
}

/// The models of the actions.
pub open spec fn decoded_views(actions: Seq<DecodedAction>) -> Seq<ActionView> {
    actions.map_values(|a: DecodedAction| a@)
}

/// The action of a given type with a given payload, or what is wrong with it.
pub open spec fn action_of(kind: u8, payload: Seq<u8>) -> Result<ActionView, Seq<char>> {
    if kind == ACTION_SEND_BINARY {
        Ok(ActionView::SendBinary(payload))
    } else if kind == ACTION_SEND_TEXT {
        match utf8_read(payload) {
            Ok(text) => Ok(ActionView::SendText(text)),
            Err(e) => Err("Invalid UTF-8 in SendText: "@ + e),
        }
    } else if kind == ACTION_EMIT_EVENT {
        Ok(ActionView::EmitEvent(payload))
    } else if kind == ACTION_DOWNLOAD_SNAPSHOT {
        match utf8_read(payload) {
            Ok(id) => Ok(ActionView::DownloadSnapshot(id)),
            Err(e) => Err("Invalid UTF-8 in DownloadSnapshot: "@ + e),
        }
    } else {
        Err("Unknown action type: "@ + text::decimal(kind as nat))
    }
}

/// The action that stands first in `data` and the number of bytes it takes, or what is wrong
/// with it.
pub open spec fn read_action(data: Seq<u8>) -> Result<(ActionView, int), Seq<char>> {
    if data.len() == 0 {
        Err("Unexpected end of buffer"@)
    } else if data.len() < 5 {
        Err("Unexpected end of buffer reading payload length"@)
    } else {
        let len = of_le32(data.subrange(1, 5));
        if data.len() < 5 + len {
            Err("Payload exceeds buffer"@)
        } else {
            match action_of(data[0], data.subrange(5, 5 + len)) {
                Ok(action) => Ok((action, 5 + len)),
                Err(e) => Err(e),
            }
        }
    }
}

/// The `count` actions that stand first in `data`, or what is wrong with the first bad one.
pub open spec fn read_actions(data: Seq<u8>, count: nat) -> Result<Seq<ActionView>, Seq<char>>
    decreases count,
{
    if count == 0 {
        Ok(Seq::empty())
    } else {
        match read_action(data) {
            Ok((action, used)) => after_actions(
                seq![action],
                read_actions(data.skip(used), (count - 1) as nat),
            ),
            Err(e) => Err(e),
        }
    }
}

/// What is read in all, where `head` was read before.
pub open spec fn after_actions(
    head: Seq<ActionView>,
    rest: Result<Seq<ActionView>, Seq<char>>,
) -> Result<Seq<ActionView>, Seq<char>> {
    match rest {
        Ok(tail) => Ok(head + tail),
        Err(e) => Err(e),
    }
}

/// The actions of an envelope, or what is wrong with it.
///
/// What follows the announced number of actions is not looked at.
pub open spec fn opened(data: Seq<u8>) -> Result<Seq<ActionView>, Seq<char>> {
    if data.len() < 2 {
        Err("Buffer too short for action count"@)
    } else {
        read_actions(data.skip(2), of_le16(data.take(2)) as nat)
    }
}

// ---------------------------------------------------------------------------
// Encoding
// ---------------------------------------------------------------------------

/// Appends the four little-endian bytes of a length.
fn push_len(buf: &mut Vec<u8>, n: usize)
    ensures
        final(buf)@ == old(buf)@ + le32(n as int),
{
    buf.push((n % 256) as u8);
    buf.push((n / 256 % 256) as u8);
    buf.push((n / 65536 % 256) as u8);
    buf.push((n / 16777216 % 256) as u8);
    assert(buf@ =~= old(buf)@ + le32(n as int));
}

/// Appends the part for one action.
fn push_action(buf: &mut Vec<u8>, kind: u8, payload: &[u8])
    ensures
        final(buf)@ == old(buf)@ + (seq![kind] + le32(payload@.len() as int) + payload@),
{
    buf.push(kind);
    push_len(buf, payload.len());
    buf.extend_from_slice(payload);
    assert(buf@ =~= old(buf)@ + (seq![kind] + le32(payload@.len() as int) + payload@));
}

/// Encode a list of `SessionAction`s into the binary envelope format.
///
/// The number of actions is written with its lower 16 bits, the length of a payload with its
/// lower 32 bits.
pub fn encode_actions(actions: &[SessionAction]) -> (buf: Vec<u8>)
    ensures
        buf@ == envelope(session_views(actions@)),
{
    let ghost all = session_views(actions@);
    let num: usize = actions.len();
    let mut buf: Vec<u8> = Vec::new();
    buf.push((num % 256) as u8);
    buf.push((num / 256 % 256) as u8);
    assert(buf@ =~= le16(num as int));
    assert(all.take(0) =~= Seq::empty());
    for i in 0..num
        invariant
            num == actions@.len(),
            all == session_views(actions@),
            buf@ =~= le16(num as int) + encoded_list(all.take(i as int)),
    {
        assert(all.take(i + 1).drop_last() =~= all.take(i as int));
        assert(all.take(i + 1).last() == actions@[i as int]@);
        match &actions[i] {
            SessionAction::SendBinary(data) => {
                push_action(&mut buf, ACTION_SEND_BINARY, data.as_slice());
            },
            SessionAction::SendText(text) => {
                push_action(&mut buf, ACTION_SEND_TEXT, text.as_str().as_bytes());
            },
            SessionAction::Emit(event) => {
                let json: Vec<u8> = event_bytes(event);
                push_action(&mut buf, ACTION_EMIT_EVENT, json.as_slice());
            },
            SessionAction::DownloadSnapshot { workspace_id } => {
                push_action(&mut buf, ACTION_DOWNLOAD_SNAPSHOT, workspace_id.as_str().as_bytes());
            },
        }
    }
    assert(all.take(num as int) =~= all);
    buf
}

// ---------------------------------------------------------------------------
// Decoding
// ---------------------------------------------------------------------------

/// The bytes from `from` to `to`.
fn bytes_between(data: &[u8], from: usize, to: usize) -> (r: Vec<u8>)
    requires
        from <= to <= data@.len(),
    ensures
        r@ == data@.subrange(from as int, to as int),
{
    let mut r: Vec<u8> = Vec::new();
    r.extend_from_slice(&data[from..to]);
    assert(r@ =~= data@.subrange(from as int, to as int));
    r
}

/// The action of a given type with a given payload.
fn decode_action(kind: u8, payload: Vec<u8>) -> (r: Result<DecodedAction, String>)
    ensures
        match r {
            Ok(action) => action_of(kind, payload@) == Ok::<ActionView, Seq<char>>(action@),
            Err(e) => action_of(kind, payload@) == Err::<ActionView, Seq<char>>(e@),
        },
{
    if kind == ACTION_SEND_BINARY {
        Ok(DecodedAction::SendBinary(payload))
    } else if kind == ACTION_SEND_TEXT {
        match codec::from_utf8(payload) {
            Ok(text) => Ok(DecodedAction::SendText(text)),
            Err(e) => Err(text::join("Invalid UTF-8 in SendText: ", e.as_str())),
        }
    } else if kind == ACTION_EMIT_EVENT {
        Ok(DecodedAction::EmitEvent(payload))
    } else if kind == ACTION_DOWNLOAD_SNAPSHOT {
        match codec::from_utf8(payload) {
            Ok(id) => Ok(DecodedAction::DownloadSnapshot(id)),
            Err(e) => Err(text::join("Invalid UTF-8 in DownloadSnapshot: ", e.as_str())),
        }
    } else {
        Err(text::join("Unknown action type: ", text::number(kind as u64).as_str()))
    }
}

/// Decode a binary envelope into a list of actions.
pub fn decode_actions(data: &[u8]) -> (r: Result<Vec<DecodedAction>, String>)
    ensures
        match r {
            Ok(actions) => opened(data@) == Ok::<Seq<ActionView>, Seq<char>>(
                decoded_views(actions@),
            ),
            Err(e) => opened(data@) == Err::<Seq<ActionView>, Seq<char>>(e@),
        },
{
    let len: usize = data.len();
    if len < 2 {
        return Err("Buffer too short for action count".to_owned());
    }
    let num: usize = data[0] as usize + 256 * (data[1] as usize);
    let mut offset: usize = 2;
    let mut actions: Vec<DecodedAction> = Vec::new();
    proof {
        assert(of_le16(data@.take(2)) == num);
        let rest = read_actions(data@.skip(2), num as nat);
        match rest {
            Ok(tail) => {
                assert(decoded_views(actions@) + tail =~= tail);
            },
            Err(_) => {},
        }
    }
    for i in 0..num
        invariant
            len == data@.len(),
            len >= 2,
            2 <= offset <= len,
            opened(data@) == after_actions(
                decoded_views(actions@),
                read_actions(data@.skip(offset as int), (num - i) as nat),
            ),
    {
        let ghost rest = data@.skip(offset as int);
        if offset == len {
            return Err("Unexpected end of buffer".to_owned());
        }
        if len - offset < 5 {
            return Err("Unexpected end of buffer reading payload length".to_owned());
        }
        let action_type: u8 = data[offset];
        let declared: u64 = data[offset + 1] as u64 + 256 * (data[offset + 2] as u64) + 65536 * (
        data[offset + 3] as u64) + 16777216 * (data[offset + 4] as u64);
        assert(of_le32(rest.subrange(1, 5)) == declared);
        let payload_len: usize = declared as usize;
        let start: usize = offset + 5;
        if payload_len > len - start {
            return Err("Payload exceeds buffer".to_owned());
        }
        let payload: Vec<u8> = bytes_between(data, start, start + payload_len);
        assert(payload@ =~= rest.subrange(5, 5 + declared as int));
        match decode_action(action_type, payload) {
            Ok(action) => {
                let ghost before = decoded_views(actions@);
                let ghost tail = read_actions(
                    rest.skip(5 + declared as int),
                    (num - i - 1) as nat,
                );
                offset = start + payload_len;
                assert(rest.skip(5 + declared as int) =~= data@.skip(offset as int));
                actions.push(action);
                proof {
                    assert(decoded_views(actions@) =~= before + seq![action@]);
                    match tail {
                        Ok(t) => {
                            assert(before + (seq![action@] + t) =~= before + seq![action@] + t);
                        },
                        Err(_) => {},
                    }
                }
            },
            Err(e) => {
                return Err(e);
            },
        }
    }
    proof {
        assert(decoded_views(actions@) + Seq::<ActionView>::empty() =~= decoded_views(actions@));
    }
    Ok(actions)
}

// ---------------------------------------------------------------------------
// Laws
// ---------------------------------------------------------------------------

/// Whether the envelope format can carry the actions: their number takes 16 bits, and the
/// length of each payload 32 bits.
pub open spec fn fits(actions: Seq<ActionView>) -> bool {
    &&& actions.len() < 65536
    &&& forall|i: int| 0 <= i < actions.len() ==> (#[trigger] actions[i]).payload().len() < 4294967296
}

proof fn lemma_le32(n: int)
    requires
        0 <= n < 4294967296,
    ensures
        of_le32(le32(n)) == n,
{
}

proof fn lemma_le16(n: int)
    requires
        0 <= n < 65536,
    ensures
        of_le16(le16(n)) == n,
{
}

/// The part for one action is read back, whatever follows it.
pub proof fn lemma_read_encoded_action(action: ActionView, tail: Seq<u8>)
    requires
        action.payload().len() < 4294967296,
    ensures
        read_action(encoded_action(action) + tail) == Ok::<(ActionView, int), Seq<char>>(
            (action, encoded_action(action).len() as int),
        ),
{
    let data = encoded_action(action) + tail;
    let payload = action.payload();
    lemma_le32(payload.len() as int);
    assert(data.subrange(1, 5) =~= le32(payload.len() as int));
    assert(data.subrange(5, 5 + payload.len() as int) =~= payload);
    match action {
        ActionView::SendText(text) => {
            encode_utf8_valid_utf8(text);
            encode_utf8_decode_utf8(text);
        },
        ActionView::DownloadSnapshot(id) => {
            encode_utf8_valid_utf8(id);
            encode_utf8_decode_utf8(id);
        },
        _ => {},
    }
}

/// The parts of a list of actions begin with the part of the first.
proof fn lemma_encoded_list_first(actions: Seq<ActionView>)
    requires
        actions.len() > 0,
    ensures
        encoded_list(actions) == encoded_action(actions[0]) + encoded_list(actions.drop_first()),
    decreases actions.len(),
{
    if actions.len() == 1 {
        assert(actions.drop_last() =~= Seq::empty());
        assert(actions.drop_first() =~= Seq::empty());
        assert(encoded_list(actions) =~= encoded_action(actions[0]) + encoded_list(
            actions.drop_first(),
        ));
    } else {
        lemma_encoded_list_first(actions.drop_last());
        assert(actions.drop_last().drop_first() =~= actions.drop_first().drop_last());
        assert(encoded_list(actions) =~= encoded_action(actions[0]) + encoded_list(
            actions.drop_first(),
        ));
    }
}

/// The parts of a list of actions are read back, whatever follows them.
pub proof fn lemma_read_encoded_list(actions: Seq<ActionView>, tail: Seq<u8>)
    requires
        fits(actions),
    ensures
        read_actions(encoded_list(actions) + tail, actions.len()) == Ok::<
            Seq<ActionView>,
            Seq<char>,
        >(actions),
    decreases actions.len(),
{
    if actions.len() == 0 {
        assert(actions =~= Seq::empty());
    } else {
        let rest = actions.drop_first();
        assert forall|i: int| 0 <= i < rest.len() implies (#[trigger] rest[i]).payload().len()
            < 4294967296 by {
            assert(rest[i] == actions[i + 1]);
        }
        lemma_encoded_list_first(actions);
        let data = encoded_list(actions) + tail;
        let first = encoded_action(actions[0]);
        assert(data =~= first + (encoded_list(rest) + tail));
        lemma_read_encoded_action(actions[0], encoded_list(rest) + tail);
        assert(data.skip(first.len() as int) =~= encoded_list(rest) + tail);
        lemma_read_encoded_list(rest, tail);
        assert(seq![actions[0]] + rest =~= actions);
    }
}

/// Decoding gives back what was encoded: for a list of actions that the format can carry, an
/// envelope of them, whatever follows it, holds those actions.
pub proof fn lemma_roundtrip(actions: Seq<ActionView>, tail: Seq<u8>)
    requires
        fits(actions),
    ensures
        opened(envelope(actions) + tail) == Ok::<Seq<ActionView>, Seq<char>>(actions),
{
    let data = envelope(actions) + tail;
    lemma_le16(actions.len() as int);
    assert(data.take(2) =~= le16(actions.len() as int));
    assert(data.skip(2) =~= encoded_list(actions) + tail);
    lemma_read_encoded_list(actions, tail);
}

proof fn lemma_cut_list(actions: Seq<ActionView>, n: int)
    requires
        fits(actions),
        0 <= n < encoded_list(actions).len(),
    ensures
        read_actions(encoded_list(actions).take(n), actions.len()) is Err,
    decreases actions.len(),
{
    let data = encoded_list(actions).take(n);
    let first = encoded_action(actions[0]);
    let payload = actions[0].payload();
    let rest = actions.drop_first();
    lemma_encoded_list_first(actions);
    if n < first.len() {
        if n >= 5 {
            lemma_le32(payload.len() as int);
            assert(data.subrange(1, 5) =~= le32(payload.len() as int));
        }
    } else {
        assert forall|i: int| 0 <= i < rest.len() implies (#[trigger] rest[i]).payload().len()
            < 4294967296 by {
            assert(rest[i] == actions[i + 1]);
        }
        let tail = encoded_list(rest).take(n - first.len());
        assert(data =~= first + tail);
        lemma_read_encoded_action(actions[0], tail);
        assert(data.skip(first.len() as int) =~= tail);
        lemma_cut_list(rest, n - first.len());
    }
}

/// An envelope that is cut off anywhere is not taken for one: every proper prefix of the envelope
/// of actions that the format can carry decodes to an error.
pub proof fn lemma_cut_envelope(actions: Seq<ActionView>, n: int)
    requires
        fits(actions),
        0 <= n < envelope(actions).len(),
    ensures
        opened(envelope(actions).take(n)) is Err,
{
    let data = envelope(actions).take(n);
    if n >= 2 {
        lemma_le16(actions.len() as int);
        assert(data.take(2) =~= le16(actions.len() as int));
        assert(data.skip(2) =~= encoded_list(actions).take(n - 2));
        lemma_cut_list(actions, n - 2);
    }
}

/// Lists of actions are encoded one after the other: but for the number of actions, the envelope
/// of two lists is what stands in the envelope of the one, followed by what stands in that of the
/// other.
pub proof fn lemma_encoding_distributes(a: Seq<ActionView>, b: Seq<ActionView>)
    ensures
        encoded_list(a + b) == encoded_list(a) + encoded_list(b),
        envelope(a + b) == le16((a.len() + b.len()) as int) + envelope(a).skip(2) + envelope(
            b,
        ).skip(2),
    decreases b.len(),
{
    if b.len() == 0 {
        assert(a + b =~= a);
        assert(encoded_list(a) + encoded_list(b) =~= encoded_list(a));
    } else {
        lemma_encoding_distributes(a, b.drop_last());
        assert((a + b).drop_last() =~= a + b.drop_last());
        assert((a + b).last() == b.last());
        assert(encoded_list(a + b) =~= encoded_list(a) + encoded_list(b));
    }
    assert(envelope(a).skip(2) =~= encoded_list(a));
    assert(envelope(b).skip(2) =~= encoded_list(b));
    assert(envelope(a + b) =~= le16((a.len() + b.len()) as int) + envelope(a).skip(2) + envelope(
        b,
    ).skip(2));
}

} // verus!
