use crate::message::Message;
use std::collections::VecDeque;
use vstd::prelude::*;

verus! {

/// The dispatch channel as a mathematical value.
pub struct ChannelState<J> {
    /// The messages in transit, oldest first.
    pub queue: Seq<Message<J>>,
    /// The worker that holds the receiving end, if any.
    pub holder: Option<int>,
}

/// A FIFO channel of messages whose receiving end is guarded by a lock.
///
/// Anyone may send at any time. To receive, a worker first takes the lock;
/// receiving one message releases it again, so every message is delivered to
/// exactly one worker and the lock is never held across the work that the
/// message asks for.
pub struct Channel<J> {
    queue: VecDeque<Message<J>>,
    holder: Option<usize>,
}

impl<J> View for Channel<J> {
    type V = ChannelState<J>;

    closed spec fn view(&self) -> ChannelState<J> {
        ChannelState {
            queue: self.queue@,
            holder: match self.holder {
                Some(h) => Some(h as int),
                None => None,
            },
        }
    }
}

impl<J> Channel<J> {
    /// An empty channel with a free lock.
    pub fn new() -> (channel: Channel<J>)
        ensures
            channel@ == (ChannelState::<J> { queue: Seq::empty(), holder: None }),
    {
        Channel { queue: VecDeque::new(), holder: None }
    }

    /// Put `message` behind everything sent before it. Never blocks.
    pub fn send(&mut self, message: Message<J>)
        ensures
            final(self)@ == (ChannelState {
                queue: old(self)@.queue.push(message),
                ..old(self)@
            }),
    {
        self.queue.push_back(message);
    }

    /// Worker `id` asks for the receiving end. It is granted, and the result
    /// is `true`, when nobody holds it; otherwise nothing changes.
    pub fn lock(&mut self, id: usize) -> (granted: bool)
        ensures
            granted == (old(self)@.holder is None),
            final(self)@ == if granted {
                (ChannelState { holder: Some(id as int), ..old(self)@ })
            } else {
                old(self)@
            },
    {
        if self.holder.is_some() {
            false
        } else {
            self.holder = Some(id);
            true
        }
    }

    /// Worker `id` takes the oldest message and gives the lock back. The
    /// result is `None`, and nothing changes, when `id` does not hold the
    /// lock or no message is waiting.
    pub fn recv(&mut self, id: usize) -> (message: Option<Message<J>>)
        ensures
            (message is Some) == (old(self)@.holder == Some(id as int) && old(self)@.queue.len()
                > 0),
            match message {
                Some(m) => m == old(self)@.queue[0] && final(self)@ == (ChannelState::<J> {
                    queue: old(self)@.queue.skip(1),
                    holder: None,
                }),
                None => final(self)@ == old(self)@,
            },
    {
        if self.holder != Some(id) {
            return None;
        }
        let message = self.queue.pop_front();
        if message.is_some() {
            self.holder = None;
        }
        message
    }

    /// Number of messages waiting.
    pub fn len(&self) -> (n: usize)
        ensures
            n == self@.queue.len(),
    {
        self.queue.len()
    }

    /// The worker that holds the receiving end, if any.
    pub fn holder(&self) -> (h: Option<usize>)
        ensures
            match h {
                Some(id) => self@.holder == Some(id as int),
                None => self@.holder is None,
            },
    {
        self.holder
    }
}

} // verus!
