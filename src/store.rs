//! The shared message store: an append-only log and the id counter that
//! numbers its messages.
use vstd::prelude::*;
use crate::codec::{fits_prefix, Msg, MsgView, MSG_T_TEXT};

verus! {

/// The messages in creation order, with the next id to hand out.
pub struct MessageStore {
    id_gen: i32,
    msgs: Vec<Msg>,
}

/// The log after `text` is posted to a log holding `log`.
pub open spec fn posted(log: Seq<MsgView>, text: Seq<char>) -> Seq<MsgView> {
    log.push(MsgView { id: log.len() as i32, msg_type: MSG_T_TEXT, text })
}

/// The log after each of `texts` is posted, in order, to a log holding `log`.
pub open spec fn posted_all(log: Seq<MsgView>, texts: Seq<Seq<char>>) -> Seq<MsgView>
    decreases texts.len(),
{
    if texts.len() == 0 {
        log
    } else {
        posted(posted_all(log, texts.drop_last()), texts.last())
    }
}

/// Each message's id is its place in the log, and each text fits the wire.
pub open spec fn log_wf(log: Seq<MsgView>) -> bool {
    forall|i: int|
        0 <= i < log.len() ==> (#[trigger] log[i]).id == i && fits_prefix(log[i].text)
}

/// The position of the message with `id` in `log`, if there is one.
pub open spec fn lookup(log: Seq<MsgView>, id: i32) -> Option<int> {
    if exists|i: int| 0 <= i < log.len() && (#[trigger] log[i]).id == id {
        Some(choose|i: int| 0 <= i < log.len() && (#[trigger] log[i]).id == id)
    } else {
        None
    }
}

impl View for MessageStore {
    type V = Seq<MsgView>;

    closed spec fn view(&self) -> Seq<MsgView> {
        self.msgs@.map_values(|m: Msg| m@)
    }
}

impl MessageStore {
    /// The store's invariant: the counter is the number of messages and every
    /// message carries its own place as id.
    pub closed spec fn wf(&self) -> bool {
        &&& self.id_gen as int == self.msgs@.len()
        &&& log_wf(self@)
    }

    /// A well-formed store holds a well-formed log.
    pub proof fn lemma_wf_log(&self)
        requires
            self.wf(),
        ensures
            log_wf(self@),
            self@.len() <= i32::MAX,
    {
    }

    pub fn new() -> (r: Self)
        ensures
            r.wf(),
            r@ == Seq::<MsgView>::empty(),
    {
        let r = MessageStore { id_gen: 0, msgs: Vec::new() };
        assert(r@ =~= Seq::<MsgView>::empty());
        r
    }

    /// Whether all ids have been handed out.
    pub fn is_full(&self) -> (r: bool)
        requires
            self.wf(),
        ensures
            r == (self@.len() == i32::MAX),
    {
        self.id_gen == i32::MAX
    }

    pub fn len(&self) -> (r: usize)
        requires
            self.wf(),
        ensures
            r == self@.len(),
    {
        self.msgs.len()
    }

    /// The messages, in creation order.
    pub fn messages(&self) -> (r: &Vec<Msg>)
        ensures
            r@.map_values(|m: Msg| m@) == self@,
            r@.len() == self@.len(),
    {
        &self.msgs
    }

    /// Hands out the next id.
    fn next_id(&mut self) -> (r: i32)
        requires
            old(self).id_gen < i32::MAX,
        ensures
            r == old(self).id_gen,
            final(self).id_gen == old(self).id_gen + 1,
            final(self).msgs == old(self).msgs,
    {
        let result = self.id_gen;
        self.id_gen = self.id_gen + 1;
        result
    }

    /// Stores `text` as a new text message under the next id, and returns
    /// that id; when all ids are spent the store is left as it was.
    pub fn post_text(&mut self, text: String) -> (r: Option<i32>)
        requires
            old(self).wf(),
            fits_prefix(text@),
        ensures
            final(self).wf(),
            old(self)@.len() == i32::MAX ==> r is None && final(self)@ == old(self)@,
            old(self)@.len() < i32::MAX ==> r == Some(old(self)@.len() as i32) && final(self)@
                == posted(old(self)@, text@),
    {
        if self.is_full() {
            return None;
        }
        let id = self.next_id();
        self.msgs.push(Msg::new(id, MSG_T_TEXT, text));
        assert(self@ =~= posted(old(self)@, text@));
        Some(id)
    }

    /// The message with `id`, found by a scan from the oldest.
    pub fn find(&self, id: i32) -> (r: Option<&Msg>)
        requires
            self.wf(),
        ensures
            r is Some <==> lookup(self@, id) is Some,
            r matches Some(m) ==> m@ == self@[lookup(self@, id).unwrap()] && fits_prefix(
                m.text@,
            ),
    {
        let mut i: usize = 0;
        while i < self.msgs.len()
            invariant
                self.wf(),
                i <= self.msgs@.len(),
                forall|k: int| 0 <= k < i ==> (#[trigger] self.msgs@[k]).id != id,
            decreases self.msgs@.len() - i,
        {
            if self.msgs[i].id == id {
                proof {
                    assert(self@[i as int] == self.msgs@[i as int]@);
                    lemma_lookup_unique(self@, id, i as int);
                }
                return Some(&self.msgs[i]);
            }
            i = i + 1;
        }
        assert(lookup(self@, id) is None) by {
            if exists|k: int| 0 <= k < self@.len() && (#[trigger] self@[k]).id == id {
                let k = choose|k: int| 0 <= k < self@.len() && (#[trigger] self@[k]).id == id;
                assert(self.msgs@[k].id == id);
            }
        }
        None
    }
}

/// In a well-formed log the message with a given id is found at one place.
proof fn lemma_lookup_unique(log: Seq<MsgView>, id: i32, i: int)
    requires
        log_wf(log),
        0 <= i < log.len(),
        log[i].id == id,
    ensures
        lookup(log, id) == Some(i),
{
    let j = choose|j: int| 0 <= j < log.len() && (#[trigger] log[j]).id == id;
    assert(log[j].id == j && log[i].id == i);
}

/// Posting texts one after another to an empty store numbers them from 0
/// upwards, with neither gap nor repeat: the ids are exactly 0..n, in
/// creation order, and each message holds the text posted at its place.
pub proof fn lemma_posted_ids_dense(texts: Seq<Seq<char>>)
    ensures
        posted_all(Seq::empty(), texts).len() == texts.len(),
        forall|i: int|
            0 <= i < texts.len() ==> #[trigger] posted_all(Seq::empty(), texts)[i] == (MsgView {
                id: i as i32,
                msg_type: MSG_T_TEXT,
                text: texts[i],
            }),
    decreases texts.len(),
{
    if texts.len() > 0 {
        lemma_posted_ids_dense(texts.drop_last());
        assert forall|i: int| 0 <= i < texts.len() - 1 implies texts.drop_last()[i] == texts[i] by {}
    }
}

} // verus!
