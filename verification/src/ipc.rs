//! Queue-based delivery of messages that page scripts post through
//! `window.ipc.postMessage`.
use vstd::prelude::*;

verus! {

/// Messages posted by the page and not yet delivered, oldest first.
pub struct IpcQueue {
    messages: Vec<String>,
}

/// The text of each message, in order.
pub open spec fn message_texts(messages: Seq<String>) -> Seq<Seq<char>> {
    messages.map_values(|m: String| m@)
}

impl View for IpcQueue {
    type V = Seq<Seq<char>>;

    closed spec fn view(&self) -> Seq<Seq<char>> {
        message_texts(self.messages@)
    }
}

impl IpcQueue {
    /// An empty queue.
    pub fn new() -> (queue: Self)
        ensures
            queue@ == Seq::<Seq<char>>::empty(),
    {
        let queue = IpcQueue { messages: Vec::new() };
        assert(queue@ =~= Seq::<Seq<char>>::empty());
        queue
    }

    /// Appends a message posted by the page.
    pub fn push(&mut self, message: String)
        ensures
            final(self)@ == old(self)@.push(message@),
    {
        self.messages.push(message);
        assert(final(self)@ =~= old(self)@.push(message@));
    }

    /// Removes and returns every waiting message, oldest first.
    pub fn drain(&mut self) -> (messages: Vec<String>)
        ensures
            message_texts(messages@) == old(self)@,
            messages@.len() == old(self)@.len(),
            final(self)@ == Seq::<Seq<char>>::empty(),
    {
        let mut taken: Vec<String> = Vec::new();
        std::mem::swap(&mut taken, &mut self.messages);
        assert(final(self)@ =~= Seq::<Seq<char>>::empty());
        taken
    }
}

} // verus!
