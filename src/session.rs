//! The decisions of a connection's two loops. The receive loop turns each
//! socket event into an action on the shared store and the hub; the send loop
//! turns each notification into the push it owes its client, if any.
use vstd::prelude::*;
use crate::codec::{
    decode_frame, encode_batch, encode_single, fits_prefix, frame_fits, message_block,
    message_blocks, parse_frame, ClientFrame, FrameView, Msg, MsgView, MSG_T_TEXT, TAG_PUSH_BATCH,
    TAG_PUSH_SINGLE,
};
use crate::store::{lemma_posted_ids_dense, log_wf, lookup, posted, posted_all, MessageStore};

verus! {

/// The id published after an upload: a signal to refresh, not a message id.
pub const REFRESH_ID: i32 = 0;

/// What the hub carries to every connection.
#[derive(Debug, Clone, Copy, PartialEq, Eq)]
pub enum Notification {
    All,
    Single(i32),
}

/// What the receive loop does next.
#[derive(Debug, PartialEq, Eq)]
pub enum RecvAction {
    /// Nothing; wait for the next event.
    Ignore,
    /// Publish this notification to every connection.
    Publish(Notification),
    /// Write `data` to the upload directory under `name`, then report how
    /// that went through `after_save`.
    Save { name: String, data: Vec<u8> },
    /// End the connection.
    Close,
}

/// What the socket handed the receive loop.
#[derive(Debug)]
pub enum SocketEvent {
    Binary(Vec<u8>),
    /// A text, ping or pong frame: not part of the protocol.
    Other,
    /// End of stream or a socket error.
    Closed,
}

/// How handling `f` on a store holding `log` leaves it (`new_log`), and the
/// action `r` that follows.
pub open spec fn dispatched(log: Seq<MsgView>, f: FrameView, new_log: Seq<MsgView>, r: RecvAction) -> bool {
    match f {
        FrameView::QueryAll => r == RecvAction::Ignore && new_log == log,
        FrameView::Unknown(_) => r == RecvAction::Ignore && new_log == log,
        FrameView::QuerySingle(id) => r == RecvAction::Publish(Notification::Single(id))
            && new_log == log,
        FrameView::PostText(t) => if log.len() < i32::MAX {
            r == RecvAction::Publish(Notification::Single(log.len() as i32)) && new_log == posted(
                log,
                t,
            )
        } else {
            r == RecvAction::Close && new_log == log
        },
        FrameView::Upload(n, d) => new_log == log && match r {
            RecvAction::Save { name, data } => name@ == n && data@ == d,
            _ => false,
        },
    }
}

/// Applies a decoded frame: a text is stored under the next id and announced;
/// a query is announced again; an upload is handed on to be written.
pub fn dispatch(store: &mut MessageStore, frame: ClientFrame) -> (r: RecvAction)
    requires
        old(store).wf(),
        frame_fits(frame@),
    ensures
        final(store).wf(),
        dispatched(old(store)@, frame@, final(store)@, r),
{
    proof {
        store.lemma_wf_log();
    }
    match frame {
        ClientFrame::QueryAll => RecvAction::Ignore,
        ClientFrame::QuerySingle(id) => RecvAction::Publish(Notification::Single(id)),
        ClientFrame::PostText(text) => match store.post_text(text) {
            Some(id) => RecvAction::Publish(Notification::Single(id)),
            None => RecvAction::Close,
        },
        ClientFrame::Upload { name, data } => RecvAction::Save { name, data },
        ClientFrame::Unknown(_) => RecvAction::Ignore,
    }
}

/// One step of the receive loop. A frame that cannot be decoded ends this
/// connection and leaves the store as it was.
pub fn receive_step(store: &mut MessageStore, ev: SocketEvent) -> (r: RecvAction)
    requires
        old(store).wf(),
    ensures
        final(store).wf(),
        match ev {
            SocketEvent::Binary(b) => match parse_frame(b@) {
                Some(f) => dispatched(old(store)@, f, final(store)@, r),
                None => r == RecvAction::Close && final(store)@ == old(store)@,
            },
            SocketEvent::Other => r == RecvAction::Ignore && final(store)@ == old(store)@,
            SocketEvent::Closed => r == RecvAction::Close && final(store)@ == old(store)@,
        },
{
    match ev {
        SocketEvent::Binary(b) => match decode_frame(b.as_slice()) {
            Ok(frame) => dispatch(store, frame),
            Err(_) => RecvAction::Close,
        },
        SocketEvent::Other => RecvAction::Ignore,
        SocketEvent::Closed => RecvAction::Close,
    }
}

/// What follows a write of an uploaded file: a refresh for everyone when it
/// was written, else the end of the connection.
pub fn after_save(saved: bool) -> (r: RecvAction)
    ensures
        saved ==> r == RecvAction::Publish(Notification::Single(REFRESH_ID)),
        !saved ==> r == RecvAction::Close,
{
    if saved {
        RecvAction::Publish(Notification::Single(REFRESH_ID))
    } else {
        RecvAction::Close
    }
}

/// The push that brings a new connection up to date with `log`.
pub open spec fn catch_up_push(log: Seq<MsgView>) -> Seq<u8> {
    seq![TAG_PUSH_BATCH] + message_blocks(log)
}

/// The push that `n` owes a client, given the store's `log`.
pub open spec fn notification_push(log: Seq<MsgView>, n: Notification) -> Option<Seq<u8>> {
    match n {
        Notification::All => None,
        Notification::Single(id) => match lookup(log, id) {
            Some(i) => Some(seq![TAG_PUSH_SINGLE] + message_block(log[i])),
            None => None,
        },
    }
}

/// The first push of the send loop: every stored message, oldest first.
pub fn catch_up_frame(store: &MessageStore) -> (r: Vec<u8>)
    requires
        store.wf(),
    ensures
        r@ == catch_up_push(store@),
{
    let msgs = store.messages();
    proof {
        store.lemma_wf_log();
        assert forall|i: int| 0 <= i < msgs@.len() implies fits_prefix(
            #[trigger] msgs@[i].text@,
        ) by {
            assert(msgs@.map_values(|m: Msg| m@)[i] == msgs@[i]@);
        }
    }
    encode_batch(msgs)
}

/// What the send loop sends for `n`: the message it names, or nothing when
/// no stored message has that id.
pub fn on_notification(store: &MessageStore, n: Notification) -> (r: Option<Vec<u8>>)
    requires
        store.wf(),
    ensures
        r is Some <==> notification_push(store@, n) is Some,
        r matches Some(v) ==> v@ == notification_push(store@, n).unwrap(),
{
    match n {
        Notification::All => None,
        Notification::Single(id) => match store.find(id) {
            Some(m) => Some(encode_single(m)),
            None => None,
        },
    }
}

/// A posted text reaches every connection: the notification that posting
/// publishes makes each send loop push exactly the new message.
pub proof fn lemma_post_fans_out(log: Seq<MsgView>, text: Seq<char>)
    requires
        log_wf(log),
        log.len() < i32::MAX,
        fits_prefix(text),
    ensures
        notification_push(posted(log, text), Notification::Single(log.len() as i32)) == Some(
            seq![TAG_PUSH_SINGLE] + message_block(
                MsgView { id: log.len() as i32, msg_type: MSG_T_TEXT, text },
            ),
        ),
{
    let new_log = posted(log, text);
    let i = log.len() as int;
    assert(new_log[i].id == i as i32);
    assert(log_wf(new_log));
    let j = choose|j: int| 0 <= j < new_log.len() && (#[trigger] new_log[j]).id == i as i32;
    assert(new_log[j].id == j);
}

/// A connection that opens after texts were posted to an empty store is
/// first sent exactly those messages, numbered from 0, in the order posted.
pub proof fn lemma_catch_up_after_posts(texts: Seq<Seq<char>>)
    ensures
        catch_up_push(posted_all(Seq::empty(), texts)) == catch_up_push(
            Seq::new(
                texts.len(),
                |i: int| MsgView { id: i as i32, msg_type: MSG_T_TEXT, text: texts[i] },
            ),
        ),
{
    lemma_posted_ids_dense(texts);
    assert(posted_all(Seq::empty(), texts) =~= Seq::new(
        texts.len(),
        |i: int| MsgView { id: i as i32, msg_type: MSG_T_TEXT, text: texts[i] },
    ));
}

} // verus!
