use vstd::prelude::*;

verus! {

#[verifier::external_type_specification]
#[verifier::external_body]
#[verifier::reject_recursive_types(T)]
pub struct ExChannelReceiver<T>(std::sync::mpsc::Receiver<T>);

#[verifier::external_type_specification]
#[verifier::external_body]
#[verifier::reject_recursive_types(T)]
pub struct ExChannelSender<T>(std::sync::mpsc::Sender<T>);

/// The sending side is gone, or a receiving side is.
#[derive(Debug, Clone, Copy, PartialEq, Eq, Structural)]
pub struct Disconnected;

/// What one look into a channel finds.
#[derive(Debug)]
pub enum Polled<T> {
    /// A message was waiting.
    Message(T),
    /// Nothing is waiting, but the sending side is still there.
    Empty,
    /// Nothing is waiting and the sending side is gone.
    Disconnected,
}

/// `std::sync::mpsc::Receiver::try_recv`, with its three outcomes told
/// apart. Nothing is claimed of which outcome comes: that depends on what
/// the sending side has done.
#[verifier::external_body]
fn poll<T>(receiver: &std::sync::mpsc::Receiver<T>) -> Polled<T> {
    match receiver.try_recv() {
        Ok(message) => Polled::Message(message),
        Err(std::sync::mpsc::TryRecvError::Empty) => Polled::Empty,
        Err(std::sync::mpsc::TryRecvError::Disconnected) => Polled::Disconnected,
    }
}

/// `std::sync::mpsc::Sender::send`; the result says whether the message
/// was handed over, which it is not once the receiving side is gone.
/// Nothing is claimed of which it is.
#[verifier::external_body]
fn deliver<T>(sender: &std::sync::mpsc::Sender<T>, message: T) -> bool {
    sender.send(message).is_ok()
}

/// `std::sync::mpsc::channel`: the two sides of a new channel.
#[verifier::external_body]
fn pipe<T>() -> (std::sync::mpsc::Sender<T>, std::sync::mpsc::Receiver<T>) {
    std::sync::mpsc::channel()
}

/// What a receiver reports for what a look into its channel found: the
/// message, nothing yet, or that the sending side is gone.
pub fn settle<T>(polled: Polled<T>) -> (received: Result<Option<T>, Disconnected>)
    ensures
        received == match polled {
            Polled::Message(message) => Ok::<Option<T>, Disconnected>(Some(message)),
            Polled::Empty => Ok(None),
            Polled::Disconnected => Err(Disconnected),
        },
{
    match polled {
        Polled::Message(message) => Ok(Some(message)),
        Polled::Empty => Ok(None),
        Polled::Disconnected => Err(Disconnected),
    }
}

/// The receiving side of a broadcast: it gets every message sent after it
/// subscribed.
#[verifier::reject_recursive_types(T)]
pub struct Receiver<T> {
    receiver: std::sync::mpsc::Receiver<T>,
}

impl<T> Receiver<T> {
    /// Takes the next message without waiting: `Ok(None)` where none has
    /// come yet, an error where none will come.
    pub fn try_recv(&self) -> (received: Result<Option<T>, Disconnected>) {
        settle(poll(&self.receiver))
    }
}

/// The sending side of a broadcast: each message goes to every subscriber.
#[verifier::reject_recursive_types(T)]
pub struct Sender<T: Clone> {
    senders: Vec<std::sync::mpsc::Sender<T>>,
}

impl<T: Clone> Sender<T> {
    /// Number of receivers that messages go to.
    pub closed spec fn subscribers(&self) -> nat {
        self.senders@.len()
    }

    /// Adds a receiver, to which all later messages go as well.
    pub fn subscribe(&mut self) -> (receiver: Receiver<T>)
        ensures
            final(self).subscribers() == old(self).subscribers() + 1,
    {
        let (sender, receiver) = pipe();
        self.senders.push(sender);
        Receiver { receiver }
    }

    /// Sends a copy of `message` to each subscriber in turn, and stops with
    /// an error at the first that is gone. Whether a subscriber is gone is
    /// for the channel to say; with no subscriber the send succeeds.
    pub fn send(&self, message: T) -> (sent: Result<(), Disconnected>)
        ensures
            self.subscribers() == 0 ==> sent is Ok,
    {
        let mut i: usize = 0;
        while i < self.senders.len()
            invariant
                i <= self.senders.len(),
            decreases self.senders.len() - i,
        {
            if !deliver(&self.senders[i], message.clone()) {
                return Err(Disconnected);
            }
            i = i + 1;
        }
        Ok(())
    }
}

/// A broadcast with one subscriber to begin with.
pub fn channel<T: Clone>() -> (ends: (Sender<T>, Receiver<T>))
    ensures
        ends.0.subscribers() == 1,
{
    let (sender, receiver) = pipe();
    let mut senders: Vec<std::sync::mpsc::Sender<T>> = Vec::new();
    senders.push(sender);
    (Sender { senders }, Receiver { receiver })
}

} // verus!
