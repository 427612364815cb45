//! The binary frames exchanged on a connection.
//!
//! A client frame starts with a one-byte method tag. A server push starts
//! with its own tag and carries message blocks: a four-byte field length
//! (always 4) and the id, the same for the kind, then the text, prefixed by
//! its byte length. Every integer is little-endian.
use vstd::prelude::*;
use vstd::utf8::*;
use vstd::string::*;
use crate::le::{get_i32_le, i32_at, le_i32, lemma_i32_round_trip, put_i32_le};

verus! {

pub type MsgType = i32;

pub const MSG_T_TEXT: MsgType = 1;

pub const MSG_T_FILE: MsgType = 2;

/// Method tag of "query all" (accepted, no effect).
pub const TAG_QUERY_ALL: u8 = 1;

/// Method tag of "query single": an id follows.
pub const TAG_QUERY_SINGLE: u8 = 2;

/// Method tag of "post text": a length-prefixed string follows.
pub const TAG_POST_TEXT: u8 = 3;

/// Method tag of "upload file": a length-prefixed name, then length-prefixed content.
pub const TAG_UPLOAD: u8 = 5;

/// Tag of the push that carries the whole store to a new connection.
pub const TAG_PUSH_BATCH: u8 = 61;

/// Tag of the push that carries one message.
pub const TAG_PUSH_SINGLE: u8 = 62;

/// Byte length of a fixed-size integer field.
pub const FIELD_LEN: i32 = 4;

/// A stored message.
pub struct Msg {
    pub id: i32,
    pub msg_type: MsgType,
    pub text: String,
}

/// What a message holds, with its text as characters.
pub struct MsgView {
    pub id: i32,
    pub msg_type: MsgType,
    pub text: Seq<char>,
}

impl View for Msg {
    type V = MsgView;

    open spec fn view(&self) -> MsgView {
        MsgView { id: self.id, msg_type: self.msg_type, text: self.text@ }
    }
}

impl Msg {
    pub fn new(id: i32, msg_type: MsgType, text: String) -> (r: Self)
        ensures
            r.id == id,
            r.msg_type == msg_type,
            r.text@ == text@,
    {
        Self { id, msg_type, text }
    }
}

/// A text whose UTF-8 form fits a four-byte length prefix.
pub open spec fn fits_prefix(text: Seq<char>) -> bool {
    encode_utf8(text).len() <= i32::MAX
}

/// The block that carries one message.
pub open spec fn message_block(m: MsgView) -> Seq<u8> {
    le_i32(FIELD_LEN) + le_i32(m.id) + le_i32(FIELD_LEN) + le_i32(m.msg_type) + le_i32(
        encode_utf8(m.text).len() as i32,
    ) + encode_utf8(m.text)
}

/// The blocks of `msgs`, one after another, in order.
pub open spec fn message_blocks(msgs: Seq<MsgView>) -> Seq<u8>
    decreases msgs.len(),
{
    if msgs.len() == 0 {
        Seq::empty()
    } else {
        message_blocks(msgs.drop_last()) + message_block(msgs.last())
    }
}

/// Appends the block of `m` to `out`.
pub fn put_message(out: &mut Vec<u8>, m: &Msg)
    requires
        fits_prefix(m.text@),
    ensures
        final(out)@ == old(out)@ + message_block(m@),
{
    put_i32_le(out, FIELD_LEN);
    put_i32_le(out, m.id);
    put_i32_le(out, FIELD_LEN);
    put_i32_le(out, m.msg_type);
    let bytes = m.text.as_str().as_bytes();
    put_i32_le(out, bytes.len() as i32);
    let ghost before = out@;
    let mut i: usize = 0;
    while i < bytes.len()
        invariant
            i <= bytes@.len(),
            out@ == before + bytes@.subrange(0, i as int),
        decreases bytes@.len() - i,
    {
        out.push(bytes[i]);
        i = i + 1;
        assert(out@ =~= before + bytes@.subrange(0, i as int));
    }
    assert(bytes@.subrange(0, i as int) =~= bytes@);
    assert(out@ =~= old(out)@ + message_block(m@));
}

/// The one-message push for `m`.
pub fn encode_single(m: &Msg) -> (r: Vec<u8>)
    requires
        fits_prefix(m.text@),
    ensures
        r@ == seq![TAG_PUSH_SINGLE] + message_block(m@),
{
    let mut out: Vec<u8> = Vec::new();
    out.push(TAG_PUSH_SINGLE);
    put_message(&mut out, m);
    out
}

/// The push that carries every message of `msgs`, in order.
pub fn encode_batch(msgs: &Vec<Msg>) -> (r: Vec<u8>)
    requires
        forall|i: int| 0 <= i < msgs@.len() ==> fits_prefix(#[trigger] msgs@[i].text@),
    ensures
        r@ == seq![TAG_PUSH_BATCH] + message_blocks(msgs@.map_values(|m: Msg| m@)),
{
    let mut out: Vec<u8> = Vec::new();
    out.push(TAG_PUSH_BATCH);
    let mut i: usize = 0;
    while i < msgs.len()
        invariant
            i <= msgs@.len(),
            forall|k: int| 0 <= k < msgs@.len() ==> fits_prefix(#[trigger] msgs@[k].text@),
            out@ == seq![TAG_PUSH_BATCH] + message_blocks(
                msgs@.subrange(0, i as int).map_values(|m: Msg| m@),
            ),
        decreases msgs@.len() - i,
    {
        let ghost prev = msgs@.subrange(0, i as int).map_values(|m: Msg| m@);
        put_message(&mut out, &msgs[i]);
        i = i + 1;
        let ghost next = msgs@.subrange(0, i as int).map_values(|m: Msg| m@);
        assert(next.drop_last() =~= prev);
        assert(out@ =~= seq![TAG_PUSH_BATCH] + message_blocks(next));
    }
    assert(msgs@.subrange(0, i as int) =~= msgs@);
    out
}

/// The error for a frame that cannot be read: a length that runs past the end,
/// a string that is not UTF-8, or a field that is not where it must be.
#[derive(Debug, Clone, Copy, PartialEq, Eq)]
pub struct MalformedFrame;

/// Relies on `String::from_utf8`: it accepts exactly the valid UTF-8 byte
/// sequences, and the string it returns holds the characters they encode.
#[verifier::external_body]
fn string_from_utf8(b: Vec<u8>) -> (r: Option<String>)
    ensures
        r is Some <==> valid_utf8(b@),
        r matches Some(s) ==> s@ == decode_utf8(b@),
{
    String::from_utf8(b).ok()
}

/// A length-prefixed field starts at `pos` and its length is in range.
pub open spec fn has_field(b: Seq<u8>, pos: int) -> bool {
    &&& 0 <= pos
    &&& pos + 4 <= b.len()
    &&& 0 <= i32_at(b, pos)
    &&& pos + 4 + i32_at(b, pos) <= b.len()
}

/// Where the length-prefixed field at `pos` ends.
pub open spec fn field_end(b: Seq<u8>, pos: int) -> int {
    pos + 4 + i32_at(b, pos)
}

/// The bytes of the length-prefixed field at `pos`.
pub open spec fn field(b: Seq<u8>, pos: int) -> Seq<u8> {
    b.subrange(pos + 4, field_end(b, pos))
}

/// The length-prefixed field at `pos` holds a UTF-8 string.
pub open spec fn has_text_field(b: Seq<u8>, pos: int) -> bool {
    has_field(b, pos) && valid_utf8(field(b, pos))
}

/// Reads the length-prefixed field at `pos`, and where it ends.
fn take_field(b: &[u8], pos: usize) -> (r: Option<(Vec<u8>, usize)>)
    ensures
        r is Some <==> has_field(b@, pos as int),
        r matches Some((f, end)) ==> f@ == field(b@, pos as int) && end == field_end(
            b@,
            pos as int,
        ),
{
    if pos > b.len() || b.len() - pos < 4 {
        return None;
    }
    let n = get_i32_le(b, pos);
    if n < 0 || (b.len() - pos - 4) < n as usize {
        return None;
    }
    let start = pos + 4;
    let end = start + n as usize;
    let mut f: Vec<u8> = Vec::new();
    let mut i: usize = start;
    while i < end
        invariant
            start <= i <= end <= b@.len(),
            f@ == b@.subrange(start as int, i as int),
        decreases end - i,
    {
        f.push(b[i]);
        i = i + 1;
        assert(f@ =~= b@.subrange(start as int, i as int));
    }
    Some((f, end))
}

/// Reads the length-prefixed UTF-8 string at `pos`, and where it ends.
fn take_text(b: &[u8], pos: usize) -> (r: Option<(String, usize)>)
    ensures
        r is Some <==> has_text_field(b@, pos as int),
        r matches Some((s, end)) ==> s@ == decode_utf8(field(b@, pos as int)) && end == field_end(
            b@,
            pos as int,
        ),
{
    match take_field(b, pos) {
        None => None,
        Some((f, end)) => match string_from_utf8(f) {
            None => None,
            Some(s) => Some((s, end)),
        },
    }
}

/// The message whose block starts at `pos`, if one does.
pub open spec fn parse_message(b: Seq<u8>, pos: int) -> Option<MsgView> {
    if 0 <= pos && pos + 16 <= b.len() && i32_at(b, pos) == FIELD_LEN && i32_at(b, pos + 8)
        == FIELD_LEN && has_text_field(b, pos + 16) {
        Some(
            MsgView {
                id: i32_at(b, pos + 4),
                msg_type: i32_at(b, pos + 12),
                text: decode_utf8(field(b, pos + 16)),
            },
        )
    } else {
        None
    }
}

/// Where the message block that starts at `pos` ends.
pub open spec fn message_end(b: Seq<u8>, pos: int) -> int {
    field_end(b, pos + 16)
}

/// Reads the message block that starts at `pos`, and where it ends.
pub fn decode_message(b: &[u8], pos: usize) -> (r: Result<(Msg, usize), MalformedFrame>)
    ensures
        r is Ok <==> parse_message(b@, pos as int) is Some,
        r matches Ok((m, end)) ==> m@ == parse_message(b@, pos as int).unwrap() && end
            == message_end(b@, pos as int),
{
    if pos > b.len() || b.len() - pos < 16 {
        return Err(MalformedFrame);
    }
    if get_i32_le(b, pos) != FIELD_LEN || get_i32_le(b, pos + 8) != FIELD_LEN {
        return Err(MalformedFrame);
    }
    let id = get_i32_le(b, pos + 4);
    let msg_type = get_i32_le(b, pos + 12);
    match take_text(b, pos + 16) {
        None => Err(MalformedFrame),
        Some((text, end)) => Ok((Msg { id, msg_type, text }, end)),
    }
}

/// Decoding the block of a message, wherever it stands, gives the message
/// back, and ends where the block ends.
pub proof fn lemma_message_round_trip(pre: Seq<u8>, m: MsgView, post: Seq<u8>)
    requires
        fits_prefix(m.text),
    ensures
        parse_message(pre + message_block(m) + post, pre.len() as int) == Some(m),
        message_end(pre + message_block(m) + post, pre.len() as int) == pre.len()
            + message_block(m).len(),
{
    let t = encode_utf8(m.text);
    let b = pre + message_block(m) + post;
    let p = pre.len() as int;
    lemma_i32_round_trip(FIELD_LEN);
    lemma_i32_round_trip(m.id);
    lemma_i32_round_trip(m.msg_type);
    lemma_i32_round_trip(t.len() as i32);
    assert(b.subrange(p, p + 4) =~= le_i32(FIELD_LEN));
    assert(b.subrange(p + 4, p + 8) =~= le_i32(m.id));
    assert(b.subrange(p + 8, p + 12) =~= le_i32(FIELD_LEN));
    assert(b.subrange(p + 12, p + 16) =~= le_i32(m.msg_type));
    assert(b.subrange(p + 16, p + 20) =~= le_i32(t.len() as i32));
    assert(i32_at(b, p) == i32_at(le_i32(FIELD_LEN), 0));
    assert(i32_at(b, p + 4) == i32_at(le_i32(m.id), 0));
    assert(i32_at(b, p + 8) == i32_at(le_i32(FIELD_LEN), 0));
    assert(i32_at(b, p + 12) == i32_at(le_i32(m.msg_type), 0));
    assert(i32_at(b, p + 16) == i32_at(le_i32(t.len() as i32), 0));
    assert(field(b, p + 16) =~= t);
    encode_utf8_valid_utf8(m.text);
    encode_utf8_decode_utf8(m.text);
}

/// A frame sent by a client.
#[derive(Debug, PartialEq, Eq)]
pub enum ClientFrame {
    QueryAll,
    QuerySingle(i32),
    PostText(String),
    Upload { name: String, data: Vec<u8> },
    /// A tag with no meaning; it is accepted and has no effect.
    Unknown(u8),
}

/// What a client frame holds.
pub enum FrameView {
    QueryAll,
    QuerySingle(i32),
    PostText(Seq<char>),
    Upload(Seq<char>, Seq<u8>),
    Unknown(u8),
}

impl View for ClientFrame {
    type V = FrameView;

    open spec fn view(&self) -> FrameView {
        match self {
            ClientFrame::QueryAll => FrameView::QueryAll,
            ClientFrame::QuerySingle(id) => FrameView::QuerySingle(*id),
            ClientFrame::PostText(t) => FrameView::PostText(t@),
            ClientFrame::Upload { name, data } => FrameView::Upload(name@, data@),
            ClientFrame::Unknown(tag) => FrameView::Unknown(*tag),
        }
    }
}

/// The frame that `b` holds, read left to right, if it can be read.
pub open spec fn parse_frame(b: Seq<u8>) -> Option<FrameView> {
    if b.len() == 0 {
        None
    } else if b[0] == TAG_QUERY_ALL {
        Some(FrameView::QueryAll)
    } else if b[0] == TAG_QUERY_SINGLE {
        if b.len() >= 5 {
            Some(FrameView::QuerySingle(i32_at(b, 1)))
        } else {
            None
        }
    } else if b[0] == TAG_POST_TEXT {
        if has_text_field(b, 1) {
            Some(FrameView::PostText(decode_utf8(field(b, 1))))
        } else {
            None
        }
    } else if b[0] == TAG_UPLOAD {
        if has_text_field(b, 1) && has_field(b, field_end(b, 1)) {
            Some(FrameView::Upload(decode_utf8(field(b, 1)), field(b, field_end(b, 1))))
        } else {
            None
        }
    } else {
        Some(FrameView::Unknown(b[0]))
    }
}

/// A text that a frame posts fits a four-byte length prefix, so that it can
/// be pushed on again.
pub open spec fn frame_fits(f: FrameView) -> bool {
    match f {
        FrameView::PostText(t) => fits_prefix(t),
        _ => true,
    }
}

/// Decodes a client frame.
pub fn decode_frame(b: &[u8]) -> (r: Result<ClientFrame, MalformedFrame>)
    ensures
        r is Ok <==> parse_frame(b@) is Some,
        r matches Ok(f) ==> f@ == parse_frame(b@).unwrap() && frame_fits(f@),
{
    if b.len() == 0 {
        return Err(MalformedFrame);
    }
    let tag = b[0];
    if tag == TAG_QUERY_ALL {
        Ok(ClientFrame::QueryAll)
    } else if tag == TAG_QUERY_SINGLE {
        if b.len() < 5 {
            Err(MalformedFrame)
        } else {
            Ok(ClientFrame::QuerySingle(get_i32_le(b, 1)))
        }
    } else if tag == TAG_POST_TEXT {
        match take_text(b, 1) {
            None => Err(MalformedFrame),
            Some((text, _)) => {
                proof {
                    lemma_decoded_fits(field(b@, 1));
                }
                Ok(ClientFrame::PostText(text))
            },
        }
    } else if tag == TAG_UPLOAD {
        match take_text(b, 1) {
            None => Err(MalformedFrame),
            Some((name, end)) => match take_field(b, end) {
                None => Err(MalformedFrame),
                Some((data, _)) => Ok(ClientFrame::Upload { name, data }),
            },
        }
    } else {
        Ok(ClientFrame::Unknown(tag))
    }
}

/// A string read from a length-prefixed field fits such a prefix again.
proof fn lemma_decoded_fits(f: Seq<u8>)
    requires
        valid_utf8(f),
        f.len() <= i32::MAX,
    ensures
        fits_prefix(decode_utf8(f)),
{
    decode_utf8_encode_utf8(f);
}

/// A string field whose declared length runs past the end of the frame makes
/// the frame malformed.
pub proof fn lemma_overlong_length_rejected(b: Seq<u8>)
    requires
        b.len() >= 5,
        b[0] == TAG_POST_TEXT || b[0] == TAG_UPLOAD,
        i32_at(b, 1) > b.len() - 5,
    ensures
        parse_frame(b) is None,
{
}

} // verus!
