//! The dispatch bus: the two queues between the session state machine and
//! the conversation worker. Each queue hands out what was put in, in the
//! order in which it was put in, and takes any number of entries.
//!
//! The bus is plain data. Tasks that share it put it behind a lock of their
//! own; a consumer that wants to block waits there.

use vstd::prelude::*;
use std::collections::VecDeque;
use crate::transcription::{MessageModel, TranscriptionMessage};

verus! {

/// The control channel, from the state machine to the worker, and the
/// response channel, from the worker to the state machine.
#[derive(Debug, Clone, PartialEq, Eq)]
pub struct DispatchBus {
    control: VecDeque<TranscriptionMessage>,
    responses: VecDeque<String>,
}

/// The control messages that wait, oldest first.
pub open spec fn waiting_messages(queue: Seq<TranscriptionMessage>) -> Seq<MessageModel> {
    Seq::new(queue.len(), |i: int| queue[i]@)
}

/// The responses that wait, oldest first.
pub open spec fn waiting_responses(queue: Seq<String>) -> Seq<Seq<char>> {
    Seq::new(queue.len(), |i: int| queue[i]@)
}

impl DispatchBus {
    /// The control messages that wait, oldest first.
    pub closed spec fn messages(&self) -> Seq<MessageModel> {
        waiting_messages(self.control@)
    }

    /// The responses that wait, oldest first.
    pub closed spec fn replies(&self) -> Seq<Seq<char>> {
        waiting_responses(self.responses@)
    }

    /// How many control messages wait.
    pub fn pending_messages(&self) -> (n: usize)
        ensures
            n == self.messages().len(),
    {
        self.control.len()
    }

    /// How many responses wait.
    pub fn pending_responses(&self) -> (n: usize)
        ensures
            n == self.replies().len(),
    {
        self.responses.len()
    }

    /// A bus on which nothing waits.
    pub fn new() -> (bus: DispatchBus)
        ensures
            bus.messages() == Seq::<MessageModel>::empty(),
            bus.replies() == Seq::<Seq<char>>::empty(),
    {
        let bus = DispatchBus { control: VecDeque::new(), responses: VecDeque::new() };
        assert(bus.messages() =~= Seq::<MessageModel>::empty());
        assert(bus.replies() =~= Seq::<Seq<char>>::empty());
        bus
    }

    /// Puts a message at the end of the control channel.
    pub fn send(&mut self, message: TranscriptionMessage)
        ensures
            final(self).messages() == old(self).messages().push(message@),
            final(self).replies() == old(self).replies(),
    {
        self.control.push_back(message);
        assert(self.messages() =~= old(self).messages().push(message@));
    }

    /// Takes the message at the head of the control channel, if one waits.
    /// Nothing but the head can be taken, and nothing can be looked at
    /// without taking it.
    pub fn receive(&mut self) -> (message: Option<TranscriptionMessage>)
        ensures
            final(self).replies() == old(self).replies(),
            match message {
                Some(m) => old(self).messages().len() > 0 && m@ == old(self).messages()[0]
                    && final(self).messages() == old(self).messages().drop_first(),
                None => old(self).messages().len() == 0 && final(self).messages() == old(
                    self,
                ).messages(),
            },
    {
        let message = self.control.pop_front();
        proof {
            if message is Some {
                assert(self.messages() =~= old(self).messages().drop_first());
            } else {
                assert(self.messages() =~= old(self).messages());
            }
        }
        message
    }

    /// Puts a text at the end of the response channel.
    pub fn respond(&mut self, text: String)
        ensures
            final(self).replies() == old(self).replies().push(text@),
            final(self).messages() == old(self).messages(),
    {
        self.responses.push_back(text);
        assert(self.replies() =~= old(self).replies().push(text@));
    }

    /// Takes the text at the head of the response channel, if one waits, and
    /// returns at once if none does.
    pub fn poll_response(&mut self) -> (text: Option<String>)
        ensures
            final(self).messages() == old(self).messages(),
            match text {
                Some(t) => old(self).replies().len() > 0 && t@ == old(self).replies()[0]
                    && final(self).replies() == old(self).replies().drop_first(),
                None => old(self).replies().len() == 0 && final(self).replies() == old(
                    self,
                ).replies(),
            },
    {
        let text = self.responses.pop_front();
        proof {
            if text is Some {
                assert(self.replies() =~= old(self).replies().drop_first());
            } else {
                assert(self.replies() =~= old(self).replies());
            }
        }
        text
    }
}

/// What waits on a channel after `sent` was put on it, entry by entry.
pub open spec fn after_sending<T>(waiting: Seq<T>, sent: Seq<T>) -> Seq<T> {
    waiting + sent
}

/// What taking the head of a channel `n` times hands out, in the order in
/// which it is handed out.
pub open spec fn taken<T>(waiting: Seq<T>, n: nat) -> Seq<T>
    decreases n,
{
    if n == 0 || waiting.len() == 0 {
        seq![]
    } else {
        seq![waiting[0]] + taken(waiting.drop_first(), (n - 1) as nat)
    }
}

/// A channel is first in, first out: what is taken from an empty channel
/// after entries were put on it are those entries, in the order in which
/// they were put.
pub proof fn law_first_in_first_out<T>(sent: Seq<T>)
    ensures
        taken(after_sending(Seq::<T>::empty(), sent), sent.len()) == sent,
    decreases sent.len(),
{
    assert(after_sending(Seq::<T>::empty(), sent) =~= sent);
    lemma_taken_all(sent);
}

proof fn lemma_taken_all<T>(waiting: Seq<T>)
    ensures
        taken(waiting, waiting.len()) == waiting,
    decreases waiting.len(),
{
    if waiting.len() > 0 {
        lemma_taken_all(waiting.drop_first());
        assert(seq![waiting[0]] + waiting.drop_first() =~= waiting);
    } else {
        assert(taken(waiting, 0) =~= waiting);
    }
}

} // verus!
