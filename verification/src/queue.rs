use vstd::prelude::*;
use crate::error::E;
use crate::error::Error;
use crate::translate::TranslationRequest;
use crate::translate::Translator;

verus! {

// The process-wide translation queue: an unbounded FIFO of pending
// chunks, fan-in from sessions, fan-out to worker subscribers. The
// channel itself comes from an outside crate; its endpoints are opaque
// here and everything the session layer claims about sequencing is
// stated on the sessions' own ghost logs, never on the channel.

#[verifier::external_type_specification]
#[verifier::external_body]
#[verifier::reject_recursive_types(T)]
pub struct ExSender<T>(crossbeam_channel::Sender<T>);

#[verifier::external_type_specification]
#[verifier::external_body]
#[verifier::reject_recursive_types(T)]
pub struct ExReceiver<T>(crossbeam_channel::Receiver<T>);

#[verifier::external_type_specification]
#[verifier::external_body]
#[verifier::reject_recursive_types(T)]
pub struct ExSendError<T>(crossbeam_channel::SendError<T>);

/// Relies on `crossbeam_channel::unbounded`: a fresh channel of
/// unbounded capacity, returning its two endpoints.
#[verifier::external_body]
pub(crate) fn new_channel<T>() -> (crossbeam_channel::Sender<T>, crossbeam_channel::Receiver<T>) {
    crossbeam_channel::unbounded()
}

/// Relies on `crossbeam_channel::Sender::send`: on an unbounded channel
/// it blocks never, delivers the message unless every receiver is gone,
/// and hands the message back inside the error when delivery failed.
#[verifier::external_body]
pub(crate) fn channel_send<T>(
    tx: &crossbeam_channel::Sender<T>,
    msg: T,
) -> Result<(), crossbeam_channel::SendError<T>> {
    tx.send(msg)
}

/// Relies on `crossbeam_channel::Sender::clone`: another handle to the
/// same channel.
#[verifier::external_body]
pub(crate) fn clone_sender<T>(tx: &crossbeam_channel::Sender<T>) -> crossbeam_channel::Sender<T> {
    tx.clone()
}

/// Relies on `crossbeam_channel::Receiver::clone`: another handle to
/// the same channel; each message still reaches exactly one receiver.
#[verifier::external_body]
pub(crate) fn clone_receiver<T>(
    rx: &crossbeam_channel::Receiver<T>,
) -> crossbeam_channel::Receiver<T> {
    rx.clone()
}

/// The process-wide FIFO of pending translation requests.
pub struct TranslationQueue {
    sender: crossbeam_channel::Sender<TranslationRequest>,
    receiver: Option<crossbeam_channel::Receiver<TranslationRequest>>,
}

impl TranslationQueue {
    /// A fresh queue holding both endpoints.
    pub fn new() -> (r: E<Self>)
        ensures
            r matches Ok(q) && q.has_receiver(),
    {
        let (sender, receiver) = new_channel();
        Ok(TranslationQueue { sender, receiver: Some(receiver) })
    }

    pub closed spec fn has_receiver(&self) -> bool {
        self.receiver is Some
    }

    /// Hands a request to the queue. The queue does not reorder; the
    /// only failure is a queue whose receiving side is gone.
    pub fn enqueue(&self, request: TranslationRequest) -> (r: E<()>)
        ensures
            r is Err ==> r == Err::<(), Error>(Error::QueueClosed),
    {
        match channel_send(&self.sender, request) {
            Ok(()) => Ok(()),
            Err(_) => Err(Error::QueueClosed),
        }
    }

    /// Surrenders the receiving endpoint to a worker loop.
    pub fn take_receiver(&mut self) -> (r: Option<crossbeam_channel::Receiver<TranslationRequest>>)
        ensures
            r is Some <==> old(self).has_receiver(),
            !final(self).has_receiver(),
    {
        self.receiver.take()
    }

    /// Another handle onto the same queue, as a further subscriber or
    /// enqueuer.
    pub fn clone_handle(&self) -> (r: Self)
        ensures
            r.has_receiver() <==> self.has_receiver(),
    {
        let receiver = match &self.receiver {
            Some(rx) => Some(clone_receiver(rx)),
            None => None,
        };
        TranslationQueue { sender: clone_sender(&self.sender), receiver }
    }
}

/// One worker-dispatch step on a pulled request: a request whose
/// session has gone invalid since enqueue is dropped without reaching
/// the recognizer; a live one is handed over, and the recognizer's
/// verdict is passed through.
pub fn dispatch_request<T: Translator>(
    translator: &T,
    request: TranslationRequest,
    session_valid: bool,
) -> (r: E<bool>)
    ensures
        !session_valid ==> r == Ok::<bool, Error>(false),
        session_valid ==> (r == Ok::<bool, Error>(true) || r is Err),
{
    if !session_valid {
        return Ok(false);
    }
    match translator.translate(request) {
        Ok(()) => Ok(true),
        Err(e) => Err(e),
    }
}

} // verus!
