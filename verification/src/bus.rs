//! What happened, and the line on which it is announced.

use vstd::prelude::*;

use crossbeam_channel::{bounded, Receiver, Sender, TrySendError};

use crate::geometry::Rect;
use crate::model::{FenceState, ItemId};

verus! {

/// Something that happened to the desk, in plain data. Bounds are in whole pixels.
#[allow(inconsistent_fields)]
#[derive(Debug, PartialEq)]
pub enum CoreEvent {
    DeskLoaded { version: u32 },
    DeskSaved,
    FenceCreated { id: u64 },
    /// The icons of the fence are in no fence now.
    FenceRemoved { id: u64 },
    FenceBoundsChanged { id: u64, bounds: Rect<i64> },
    FenceStateChanged { id: u64, state: FenceState },
    IconAdded { id: ItemId },
    IconRemoved { id: ItemId },
    /// `None` stands for being in no fence.
    IconMoved { id: ItemId, from: Option<u64>, to: Option<u64> },
    IconReordered { fence_id: u64 },
}

/// Something that concerns the whole program.
#[derive(Debug, PartialEq)]
pub enum AppEvent {
    Core(CoreEvent),
    Shutdown,
}

/// How many events wait at most.
pub const BUS_CAPACITY: usize = 256;

/// `crossbeam_channel::Sender`, of which nothing is known but what the functions below say.
#[verifier::external_type_specification]
#[verifier::external_body]
#[verifier::reject_recursive_types(T)]
pub struct ExSender<T>(crossbeam_channel::Sender<T>);

/// `crossbeam_channel::Receiver`, of which nothing is known but what the functions below
/// say.
#[verifier::external_type_specification]
#[verifier::external_body]
#[verifier::reject_recursive_types(T)]
pub struct ExReceiver<T>(crossbeam_channel::Receiver<T>);

/// The number of events that may wait between a sender and its receivers; none where
/// there is no bound.
pub uninterp spec fn limit(tx: Sender<AppEvent>) -> Option<nat>;

/// What is sent on `tx` comes out of `rx`.
pub uninterp spec fn leads_to(tx: Sender<AppEvent>, rx: Receiver<AppEvent>) -> bool;

/// `crossbeam_channel::bounded`: makes a channel on which `cap` events may wait, and gives
/// its two ends. It panics where so many places cannot be had.
#[verifier::external_body]
fn open_channel(cap: usize) -> (r: (Sender<AppEvent>, Receiver<AppEvent>))
    requires
        cap <= 0xFFFF,
    ensures
        limit(r.0) == Some(cap as nat),
        leads_to(r.0, r.1),
{
    bounded(cap)
}

/// `Clone::clone` of `crossbeam_channel::Sender`: another sender of the same channel.
#[verifier::external_body]
fn another_sender(tx: &Sender<AppEvent>) -> (r: Sender<AppEvent>)
    ensures
        limit(r) == limit(*tx),
        forall|rx: Receiver<AppEvent>| leads_to(r, rx) == leads_to(*tx, rx),
{
    tx.clone()
}

/// `crossbeam_channel::Sender::try_send`: sends without waiting. Where the channel is full,
/// or has no receiver left, the event comes back as it was. Whether it was taken depends on
/// what the other ends did, and nothing is said of it.
#[verifier::external_body]
fn send_now(tx: &Sender<AppEvent>, ev: AppEvent) -> (r: Option<AppEvent>)
    ensures
        r matches Some(e) ==> e == ev,
{
    match tx.try_send(ev) {
        Ok(()) => None,
        Err(TrySendError::Full(e)) => Some(e),
        Err(TrySendError::Disconnected(e)) => Some(e),
    }
}

/// A line inside the program on which events are announced to the one who waits for them.
pub struct EventBus {
    tx: Sender<AppEvent>,
    rx: Receiver<AppEvent>,
}

impl EventBus {
    /// The end on which events are announced.
    pub closed spec fn sender(self) -> Sender<AppEvent> {
        self.tx
    }

    /// The end on which events arrive.
    pub closed spec fn receiver(self) -> Receiver<AppEvent> {
        self.rx
    }

    /// The two ends belong together, and the number of events that wait is bounded.
    pub open spec fn wf(self) -> bool {
        leads_to(self.sender(), self.receiver()) && limit(self.sender()) == Some(BUS_CAPACITY as nat)
    }

    pub fn new() -> (r: Self)
        ensures
            r.wf(),
    {
        let (tx, rx) = open_channel(BUS_CAPACITY);
        EventBus { tx, rx }
    }

    /// Another end on which events can be announced.
    pub fn tx(&self) -> (r: Sender<AppEvent>)
        ensures
            limit(r) == limit(self.sender()),
            leads_to(r, self.receiver()) == leads_to(self.sender(), self.receiver()),
    {
        another_sender(&self.tx)
    }

    /// The end on which events arrive.
    pub fn rx(&self) -> (r: &Receiver<AppEvent>)
        ensures
            *r == self.receiver(),
    {
        &self.rx
    }

    /// Announces an event. Where too many wait already it is dropped, and handed back.
    pub fn publish(&self, ev: AppEvent) -> (dropped: Option<AppEvent>)
        ensures
            dropped matches Some(e) ==> e == ev,
    {
        send_now(&self.tx, ev)
    }
}

impl Default for EventBus {
    fn default() -> (r: Self)
        ensures
            r.wf(),
    {
        EventBus::new()
    }
}

} // verus!
