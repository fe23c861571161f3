//! The queues between the editor and the audio side.

use crate::engine::{pad_word, struck, struck_note, word_of, SeqEdit};
use rtrb::{Consumer, Producer, RingBuffer};
use vstd::prelude::*;

verus! {

/// Pad events a queue holds.
pub const KBD_QUEUE_CAP: usize = 256;

/// Edits a queue holds.
pub const EDIT_QUEUE_CAP: usize = 512;

/// `rtrb::Producer`, the writing end of a queue.
#[verifier::external_type_specification]
#[verifier::external_body]
#[verifier::reject_recursive_types(T)]
pub struct ExProducer<T>(Producer<T>);

/// `rtrb::Consumer`, the reading end of a queue.
#[verifier::external_type_specification]
#[verifier::external_body]
#[verifier::reject_recursive_types(T)]
pub struct ExConsumer<T>(Consumer<T>);

/// The pad events that were accepted at this writing end, in order.
pub uninterp spec fn pads_sent(tx: Producer<u16>) -> Seq<u16>;

/// The pad events that were taken at this reading end, in order.
pub uninterp spec fn pads_taken(rx: Consumer<u16>) -> Seq<u16>;

/// The edits that were accepted at this writing end, in order.
pub uninterp spec fn edits_sent(tx: Producer<SeqEdit>) -> Seq<SeqEdit>;

/// The edits that were taken at this reading end, in order.
pub uninterp spec fn edits_taken(rx: Consumer<SeqEdit>) -> Seq<SeqEdit>;

/// How many pad events the queue of this writing end holds.
pub uninterp spec fn pad_room(tx: Producer<u16>) -> nat;

/// How many edits the queue of this writing end holds.
pub uninterp spec fn edit_room(tx: Producer<SeqEdit>) -> nat;

/// `rtrb::RingBuffer::new` for pad events: both ends of a fresh queue with room
/// for `capacity` events.
#[verifier::external_body]
fn new_pads(capacity: usize) -> (r: (Producer<u16>, Consumer<u16>))
    requires
        capacity <= 0x1_0000,
    ensures
        pad_room(r.0) == capacity,
        pads_sent(r.0).len() == 0,
        pads_taken(r.1).len() == 0,
{
    RingBuffer::new(capacity)
}

/// `rtrb::RingBuffer::new` for edits: both ends of a fresh queue with room for
/// `capacity` edits.
#[verifier::external_body]
fn new_edits(capacity: usize) -> (r: (Producer<SeqEdit>, Consumer<SeqEdit>))
    requires
        capacity <= 0x1_0000,
    ensures
        edit_room(r.0) == capacity,
        edits_sent(r.0).len() == 0,
        edits_taken(r.1).len() == 0,
{
    RingBuffer::new(capacity)
}

/// `rtrb::Producer::push` of a pad event: it is accepted as it is, or, where the
/// queue is full, handed back and dropped here. A queue cannot be full while
/// fewer events were accepted than it holds; after that, whether there is room
/// depends on the other end.
#[verifier::external_body]
fn push_pad(tx: &mut Producer<u16>, word: u16) -> (sent: bool)
    ensures
        pad_room(*final(tx)) == pad_room(*old(tx)),
        pads_sent(*old(tx)).len() < pad_room(*old(tx)) ==> sent,
        pads_sent(*final(tx)) == if sent {
            pads_sent(*old(tx)).push(word)
        } else {
            pads_sent(*old(tx))
        },
{
    tx.push(word).is_ok()
}

/// `rtrb::Consumer::pop` of a pad event: what it hands out is what it has taken,
/// and it takes nothing where the queue is empty. What comes out depends on the
/// other end.
#[verifier::external_body]
fn pop_pad(rx: &mut Consumer<u16>) -> (r: Option<u16>)
    ensures
        pads_taken(*final(rx)) == match r {
            Some(word) => pads_taken(*old(rx)).push(word),
            None => pads_taken(*old(rx)),
        },
{
    rx.pop().ok()
}

/// `rtrb::Producer::push` of an edit, with the same promises as for a pad event.
#[verifier::external_body]
fn push_edit(tx: &mut Producer<SeqEdit>, edit: SeqEdit) -> (sent: bool)
    ensures
        edit_room(*final(tx)) == edit_room(*old(tx)),
        edits_sent(*old(tx)).len() < edit_room(*old(tx)) ==> sent,
        edits_sent(*final(tx)) == if sent {
            edits_sent(*old(tx)).push(edit)
        } else {
            edits_sent(*old(tx))
        },
{
    tx.push(edit).is_ok()
}

/// `rtrb::Consumer::pop` of an edit, with the same promises as for a pad event.
#[verifier::external_body]
fn pop_edit(rx: &mut Consumer<SeqEdit>) -> (r: Option<SeqEdit>)
    ensures
        edits_taken(*final(rx)) == match r {
            Some(edit) => edits_taken(*old(rx)).push(edit),
            None => edits_taken(*old(rx)),
        },
{
    rx.pop().ok()
}

/// The queue for pad events.
pub fn pad_queue() -> (r: (Producer<u16>, Consumer<u16>))
    ensures
        pad_room(r.0) == 256,
        pads_sent(r.0).len() == 0,
        pads_taken(r.1).len() == 0,
{
    new_pads(KBD_QUEUE_CAP)
}

/// The queue for edits.
pub fn edit_queue() -> (r: (Producer<SeqEdit>, Consumer<SeqEdit>))
    ensures
        edit_room(r.0) == 512,
        edits_sent(r.0).len() == 0,
        edits_taken(r.1).len() == 0,
{
    new_edits(EDIT_QUEUE_CAP)
}

/// Queue a pad going down or up. A full queue drops it.
pub fn send_pad(tx: &mut Producer<u16>, on: bool, note: u8) -> (sent: bool)
    ensures
        pad_room(*final(tx)) == pad_room(*old(tx)),
        pads_sent(*old(tx)).len() < pad_room(*old(tx)) ==> sent,
        pads_sent(*final(tx)) == if sent {
            pads_sent(*old(tx)).push(word_of(on, note))
        } else {
            pads_sent(*old(tx))
        },
{
    push_pad(tx, pad_word(on, note))
}

/// What a pop of the pad queue comes to: the note that was struck, or nothing
/// for a release, and nothing at all where the queue was empty.
pub fn heard_pad(popped: Option<u16>) -> (r: Option<Option<u8>>)
    ensures
        r == match popped {
            Some(word) => Some(struck(word)),
            None => None,
        },
{
    match popped {
        Some(word) => Some(struck_note(word)),
        None => None,
    }
}

/// Take the next pad event, if there is one: the note that was struck, or
/// nothing for a release. Whether there is one depends on the other end.
pub fn next_pad(rx: &mut Consumer<u16>) -> (r: Option<Option<u8>>)
    ensures
        match r {
            Some(note) => exists|word: u16|
                pads_taken(*final(rx)) == pads_taken(*old(rx)).push(word) && note == #[trigger] struck(
                    word,
                ),
            None => pads_taken(*final(rx)) == pads_taken(*old(rx)),
        },
{
    let popped = pop_pad(rx);
    heard_pad(popped)
}

/// Queue an edit. A full queue drops it.
pub fn send_edit(tx: &mut Producer<SeqEdit>, edit: SeqEdit) -> (sent: bool)
    ensures
        edit_room(*final(tx)) == edit_room(*old(tx)),
        edits_sent(*old(tx)).len() < edit_room(*old(tx)) ==> sent,
        edits_sent(*final(tx)) == if sent {
            edits_sent(*old(tx)).push(edit)
        } else {
            edits_sent(*old(tx))
        },
{
    push_edit(tx, edit)
}

/// Take the next edit, if there is one. Whether there is one depends on the
/// other end.
pub fn next_edit(rx: &mut Consumer<SeqEdit>) -> (r: Option<SeqEdit>)
    ensures
        edits_taken(*final(rx)) == match r {
            Some(edit) => edits_taken(*old(rx)).push(edit),
            None => edits_taken(*old(rx)),
        },
{
    pop_edit(rx)
}

} // verus!
