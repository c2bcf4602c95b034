//! Multipart messages: a topic frame and a message frame, and the send flags
//! of forwarded parts.
use vstd::prelude::*;
use crate::text::{lossy_text, utf8_lossy};

verus! {

/// The topic and the text of a two-part message; other messages carry none.
pub fn topic_and_message(parts: &Vec<Vec<u8>>) -> (res: Option<(String, String)>)
    ensures
        parts@.len() != 2 ==> res is None,
        parts@.len() == 2 ==> (res matches Some((topic, message)) && topic@ == utf8_lossy(
            parts@[0]@,
        ) && message@ == utf8_lossy(parts@[1]@)),
{
    if parts.len() != 2 {
        return None;
    }
    let topic = lossy_text(parts[0].as_slice());
    let message = lossy_text(parts[1].as_slice());
    Some((topic, message))
}

/// Whether more parts follow part `index` of a message of `count` parts: for
/// every part but the last, which is sent without the "more" flag.
pub fn more_follows(index: usize, count: usize) -> (res: bool)
    requires
        index < count,
    ensures
        res == (index + 1 < count),
{
    index + 1 < count
}

/// Of the parts of a message, exactly the last is sent without the "more" flag.
pub proof fn lemma_only_last_part_ends(index: int, count: int)
    requires
        0 <= index < count,
    ensures
        !(index + 1 < count) <==> index == count - 1,
{
}

/// What a receive of the next part of a message brought.
pub enum ReceiveEvent<T> {
    /// A part, and whether more parts of its message follow.
    Part { part: T, more: bool },
    /// Nothing is waiting to be received.
    WouldBlock,
    /// The receive failed otherwise.
    Failed,
}

/// What to do after a receive.
#[derive(Clone, Copy, Debug, PartialEq, Eq, Structural)]
pub enum ReceiveAction {
    /// Receive the next part of the message.
    ReceiveNext,
    /// The message is over: forward the parts collected.
    Forward,
    /// Report the failed receive, then forward the parts collected.
    ReportAndForward,
}

/// The parts of a message collected so far, while it is received part by part.
pub struct MultipartAssembly<T> {
    parts: Vec<T>,
}

impl<T> View for MultipartAssembly<T> {
    type V = Seq<T>;

    closed spec fn view(&self) -> Seq<T> {
        self.parts@
    }
}

impl<T> MultipartAssembly<T> {
    /// Nothing collected yet.
    pub fn new() -> (res: Self)
        ensures
            res@ == Seq::<T>::empty(),
    {
        MultipartAssembly { parts: Vec::new() }
    }

    /// Takes a receive into account: a part is collected, and the message goes
    /// on while more parts follow; a receive with nothing waiting, or one that
    /// failed, ends the message with what was collected.
    pub fn on_receive(&mut self, event: ReceiveEvent<T>) -> (action: ReceiveAction)
        ensures
            match event {
                ReceiveEvent::Part { part, more } => final(self)@ == old(self)@.push(part)
                    && action == (if more {
                    ReceiveAction::ReceiveNext
                } else {
                    ReceiveAction::Forward
                }),
                ReceiveEvent::WouldBlock => final(self)@ == old(self)@ && action
                    == ReceiveAction::Forward,
                ReceiveEvent::Failed => final(self)@ == old(self)@ && action
                    == ReceiveAction::ReportAndForward,
            },
    {
        match event {
            ReceiveEvent::Part { part, more } => {
                self.parts.push(part);
                if more {
                    ReceiveAction::ReceiveNext
                } else {
                    ReceiveAction::Forward
                }
            },
            ReceiveEvent::WouldBlock => ReceiveAction::Forward,
            ReceiveEvent::Failed => ReceiveAction::ReportAndForward,
        }
    }

    /// The parts collected, in the order they came.
    pub fn into_parts(self) -> (res: Vec<T>)
        ensures
            res@ == self@,
    {
        self.parts
    }
}

} // verus!
