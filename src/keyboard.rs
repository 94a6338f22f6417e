//! Keyboard input: bounded queues filled by the interrupt handler and
//! drained by tasks.
//!
//! The interrupt handler must neither block nor allocate, so it only pushes
//! into a fixed-capacity lock-free queue and wakes the task that drains it.
//! When the scancode queue is full the backlog is cleared rather than the
//! newest input dropped, so that typing stays responsive.
use crate::queue::{array_len, array_new, array_pop, array_push, share};
use crossbeam_queue::ArrayQueue;
use futures_util::task::AtomicWaker;
use pc_keyboard::DecodedKey;
use std::sync::Arc;
use vstd::prelude::*;

verus! {

#[verifier::external_type_specification]
#[verifier::external_body]
pub struct ExAtomicWaker(futures_util::task::AtomicWaker);

#[verifier::external_type_specification]
#[verifier::external_body]
pub struct ExWaker(core::task::Waker);

#[verifier::external_type_specification]
#[verifier::external_body]
pub struct ExDecodedKey(pc_keyboard::DecodedKey);

/// Relies on `futures_util::task::AtomicWaker::new`: no waker registered.
#[verifier::external_body]
fn atomic_waker_new() -> (r: AtomicWaker) {
    AtomicWaker::new()
}

/// Relies on `futures_util::task::AtomicWaker::register`: `waker` is woken by
/// the next `wake`.
#[verifier::external_body]
fn atomic_waker_register(slot: &AtomicWaker, waker: &core::task::Waker) {
    slot.register(waker)
}

/// Relies on `futures_util::task::AtomicWaker::take`: removes the registered
/// waker without waking it.
#[verifier::external_body]
fn atomic_waker_take(slot: &AtomicWaker) {
    slot.take();
}

/// Relies on `futures_util::task::AtomicWaker::wake`: wakes the registered
/// waker, if any.
#[verifier::external_body]
fn atomic_waker_wake(slot: &AtomicWaker) {
    slot.wake()
}

/// Capacity of the keyboard queues.
pub const SC_CAP: usize = 100;

/// What became of a keyboard event handed to a queue.
#[derive(Debug, Clone, Copy, PartialEq, Eq, Structural)]
pub enum Delivery {
    /// Queued, and the draining task woken.
    Queued,
    /// The queue was full: the backlog was cleared to make room for the
    /// event, which was queued in its place, and the draining task woken.
    Cleared,
    /// The queue was full: the event was dropped.
    Dropped,
    /// The queue has not been created yet: the event was dropped.
    Uninitialized,
}

/// The slot in which the task draining a queue leaves its waker.
pub struct WakeSlot {
    slot: Arc<AtomicWaker>,
}

impl WakeSlot {
    /// A slot with no waker in it.
    pub fn new() -> Self {
        WakeSlot { slot: Arc::new(atomic_waker_new()) }
    }

    /// Another handle on the same slot.
    pub fn share(&self) -> Self {
        WakeSlot { slot: share(&self.slot) }
    }
}

/// A keyboard queue together with the slot of the task that drains it.
#[verifier::reject_recursive_types(T)]
pub struct KeyQueue<T> {
    queue: Arc<ArrayQueue<T>>,
    waker: Arc<AtomicWaker>,
}

impl<T> KeyQueue<T> {
    /// An empty queue of capacity `SC_CAP` with a slot of its own.
    pub fn new() -> Self {
        KeyQueue { queue: Arc::new(array_new(SC_CAP)), waker: Arc::new(atomic_waker_new()) }
    }

    /// An empty queue of capacity `SC_CAP` whose pushes wake the task that
    /// left its waker in `slot`.
    pub fn with_slot(slot: &WakeSlot) -> Self {
        KeyQueue { queue: Arc::new(array_new(SC_CAP)), waker: share(&slot.slot) }
    }

    /// Another handle on the same queue and slot, for the other side.
    pub fn share(&self) -> Self {
        KeyQueue { queue: share(&self.queue), waker: share(&self.waker) }
    }
}

/// Empties `queue` of what it held when the call began.
fn clear_array_queue<T>(queue: &ArrayQueue<T>) {
    let n = array_len(queue);
    let mut i: usize = 0;
    while i < n
        decreases n - i,
    {
        if array_pop(queue).is_none() {
            break;
        }
        i += 1;
    }
}

/// What a poll does after its first look at the queue.
#[derive(Debug, PartialEq, Eq, Structural)]
pub enum FirstLook<T> {
    /// A value was there: the poll is ready with it.
    Ready(T),
    /// The queue was empty: register the waker, then look again, so that a
    /// push between the first look and the registration is not missed.
    RegisterAndRetry,
}

/// What a poll does after its second look, made with the waker registered.
#[derive(Debug, PartialEq, Eq, Structural)]
pub enum SecondLook<T> {
    /// A value arrived: take the waker back out and be ready with the value.
    TakeWakerAndReady(T),
    /// Still empty: stay pending; the registered waker is woken by the next
    /// push.
    Pending,
}

/// The step after the first pop of a poll, given what that pop returned.
pub fn first_look<T>(popped: Option<T>) -> (r: FirstLook<T>)
    ensures
        popped matches Some(v) ==> r == FirstLook::Ready(v),
        popped is None ==> r == FirstLook::<T>::RegisterAndRetry,
{
    match popped {
        Some(v) => FirstLook::Ready(v),
        None => FirstLook::RegisterAndRetry,
    }
}

/// The step after the second pop of a poll, given what that pop returned.
pub fn second_look<T>(popped: Option<T>) -> (r: SecondLook<T>)
    ensures
        popped matches Some(v) ==> r == SecondLook::TakeWakerAndReady(v),
        popped is None ==> r == SecondLook::<T>::Pending,
{
    match popped {
        Some(v) => SecondLook::TakeWakerAndReady(v),
        None => SecondLook::Pending,
    }
}

/// What a poll returns given what its pops returned: the first pop's value,
/// or, when the first found the queue empty, the second pop's value.
pub open spec fn polled<T>(first: Option<T>, second: Option<T>) -> Option<T> {
    if first is Some {
        first
    } else {
        second
    }
}

/// Polls `queue`: its front value, or `None` (pending) once `waker` is
/// registered in `slot`; see `first_look` and `second_look`. Also returns
/// what the two pops returned; the second pop happens only when the first
/// found the queue empty.
fn poll_queue<T>(queue: &ArrayQueue<T>, slot: &AtomicWaker, waker: &core::task::Waker) -> (r: (
    Option<T>,
    Ghost<Option<T>>,
    Ghost<Option<T>>,
))
    ensures
        r.0 == polled(r.1@, r.2@),
        r.1@ is Some ==> r.2@ is None,
{
    let first = array_pop(queue);
    let ghost g1 = first;
    match first_look(first) {
        FirstLook::Ready(v) => (Some(v), Ghost(g1), Ghost(None)),
        FirstLook::RegisterAndRetry => {
            atomic_waker_register(slot, waker);
            let second = array_pop(queue);
            let ghost g2 = second;
            match second_look(second) {
                SecondLook::TakeWakerAndReady(v) => {
                    atomic_waker_take(slot);
                    (Some(v), Ghost(g1), Ghost(g2))
                },
                SecondLook::Pending => (None, Ghost(g1), Ghost(g2)),
            }
        },
    }
}

/// Finishes handing `scancode` to `q`, given what pushing it returned: on
/// success the draining task is woken; on a full queue the backlog is cleared
/// and the scancode pushed again, so that the newest input is kept.
pub fn deliver_scancode(q: &KeyQueue<u8>, pushed: Result<(), u8>) -> (r: Delivery)
    ensures
        pushed is Ok ==> r == Delivery::Queued,
        pushed is Err ==> r == Delivery::Cleared,
{
    match pushed {
        Ok(()) => {
            atomic_waker_wake(&*q.waker);
            Delivery::Queued
        },
        Err(scancode) => {
            clear_array_queue(&*q.queue);
            let _ = array_push(&*q.queue, scancode);
            atomic_waker_wake(&*q.waker);
            Delivery::Cleared
        },
    }
}

/// Called by the keyboard interrupt handler with each scancode read. Never
/// blocks or allocates.
///
/// `scancodes` is the scancode queue, or `None` while no stream has created
/// it. The outcome of the push is handled by `deliver_scancode`.
pub fn add_scancode(scancodes: Option<&KeyQueue<u8>>, scancode: u8) -> (r: Delivery)
    ensures
        scancodes is None <==> r == Delivery::Uninitialized,
        scancodes is Some ==> r == Delivery::Queued || r == Delivery::Cleared,
{
    match scancodes {
        None => Delivery::Uninitialized,
        Some(q) => deliver_scancode(q, array_push(&*q.queue, scancode)),
    }
}

/// Finishes handing a decoded key to `q`, given what pushing it returned:
/// on success the draining task is woken; a full queue drops the key.
pub fn deliver_decoded_key(q: &KeyQueue<DecodedKey>, pushed: Result<(), DecodedKey>) -> (r: Delivery)
    ensures
        pushed is Ok ==> r == Delivery::Queued,
        pushed is Err ==> r == Delivery::Dropped,
{
    match pushed {
        Ok(()) => {
            atomic_waker_wake(&*q.waker);
            Delivery::Queued
        },
        Err(_) => Delivery::Dropped,
    }
}

/// Called by the task that decodes scancodes with each decoded key. Never
/// blocks or allocates. The outcome of the push is handled by
/// `deliver_decoded_key`.
pub fn add_decoded_key(keys: Option<&KeyQueue<DecodedKey>>, key: DecodedKey) -> (r: Delivery)
    ensures
        keys is None <==> r == Delivery::Uninitialized,
        keys is Some ==> r == Delivery::Queued || r == Delivery::Dropped,
{
    match keys {
        None => Delivery::Uninitialized,
        Some(q) => deliver_decoded_key(q, array_push(&*q.queue, key)),
    }
}

/// The stream of scancodes pushed by the keyboard interrupt handler.
pub struct ScancodeStream {
    scancodes: KeyQueue<u8>,
}

impl ScancodeStream {
    /// A stream that drains `scancodes`.
    pub fn new(scancodes: KeyQueue<u8>) -> Self {
        ScancodeStream { scancodes }
    }

    /// The next scancode, or `None` (pending) after registering `waker` to be
    /// woken by the next one; the steps are `first_look` and `second_look`.
    /// The two ghost values are what the queue's two pops returned (the second
    /// is made only when the first found the queue empty).
    pub fn poll_next(&self, waker: &core::task::Waker) -> (r: (Option<u8>, Ghost<Option<u8>>, Ghost<Option<u8>>))
        ensures
            r.0 == polled(r.1@, r.2@),
            r.1@ is Some ==> r.2@ is None,
    {
        poll_queue(&*self.scancodes.queue, &*self.scancodes.waker, waker)
    }
}

/// The stream of decoded keys. Its waker goes to its own slot, which the
/// queue of decoded keys shares once it exists (`KeyQueue::with_slot`).
pub struct DecodedKeyStream {
    slot: WakeSlot,
}

impl DecodedKeyStream {
    /// A stream whose task leaves its waker in `slot`.
    pub fn new(slot: WakeSlot) -> Self {
        DecodedKeyStream { slot }
    }

    /// The next decoded key of `keys`, or `None` (pending) after registering
    /// `waker` in the stream's slot. While the queue does not exist yet
    /// (`keys` is `None`) the poll registers and stays pending, so that the
    /// first key pushed wakes the task.
    /// As for `ScancodeStream::poll_next`, the ghost values are what the
    /// queue's pops returned; there are none without a queue.
    pub fn poll_next(&self, keys: Option<&KeyQueue<DecodedKey>>, waker: &core::task::Waker) -> (r: (
        Option<DecodedKey>,
        Ghost<Option<DecodedKey>>,
        Ghost<Option<DecodedKey>>,
    ))
        ensures
            r.0 == polled(r.1@, r.2@),
            r.1@ is Some ==> r.2@ is None,
            keys is None ==> r.0 is None && r.1@ is None && r.2@ is None,
    {
        match keys {
            Some(q) => poll_queue(&*q.queue, &*self.slot.slot, waker),
            None => {
                atomic_waker_register(&*self.slot.slot, waker);
                (None, Ghost(None), Ghost(None))
            },
        }
    }
}

} // verus!
