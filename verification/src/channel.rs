use vstd::prelude::*;
use std::sync::mpsc::Sender;

verus! {

/// The sending half of a standard channel, carried through as it is.
#[verifier::external_type_specification]
#[verifier::external_body]
#[verifier::reject_recursive_types(T)]
pub struct ExSender<T>(Sender<T>);

/// The sending half of a channel together with the record of every message
/// handed to it, oldest first. Only `send` extends the record.
#[verifier::reject_recursive_types(T)]
pub struct ChannelSender<T> {
    sender: Sender<T>,
    handed: Ghost<Seq<T>>,
}

impl<T> ChannelSender<T> {
    /// Wraps `sender`; nothing handed to it yet.
    pub fn new(sender: Sender<T>) -> (c: Self)
        ensures
            c.sender() == sender,
            c.handed() == Seq::<T>::empty(),
    {
        ChannelSender { sender, handed: Ghost(Seq::empty()) }
    }

    /// The channel this sends on.
    pub closed spec fn sender(&self) -> Sender<T> {
        self.sender
    }

    /// The messages handed to `Sender::send` through this value, oldest first.
    pub closed spec fn handed(&self) -> Seq<T> {
        self.handed@
    }

    /// Hands `msg` to `std::sync::mpsc::Sender::send` and records it. The
    /// standard library documents that `send` never blocks, and that it
    /// returns an error, giving the message back, exactly when the receiving
    /// half is gone; the result says whether the message was enqueued. Which of
    /// the two happens depends on the other thread, so nothing is stated of
    /// the result; what is stated is that `msg` was handed to the channel,
    /// after everything handed before it, on the same channel.
    #[verifier::external_body]
    pub fn send(&mut self, msg: T) -> (enqueued: bool)
        ensures
            final(self).sender() == old(self).sender(),
            final(self).handed() == old(self).handed().push(msg),
    {
        self.sender.send(msg).is_ok()
    }
}

} // verus!
