//! Ingestion and lookup logic around the source collection.
//!
//! The ingestion task owns the change-feed cursor: every decoded event
//! is offered to the publisher's bounded update queue and dropped when
//! the queue stays full, while a cursor transport or decode error is
//! fatal to the whole process.  The lookup task owns a read handle and
//! answers point lookups over a roundtrip channel.

use vstd::prelude::*;
use vstd::string::*;

use crate::model::{MongoDBData, UpdateEvent};
use crate::shutdown::CancellationSignal;
use crate::text::push_char;

verus! {

/// The identity of the watched collection: its database and collection
/// names, which together form the namespace.
#[derive(Debug)]
pub struct CollectionNamespace {
    pub db: String,
    pub coll: String,
}

impl CollectionNamespace {
    /// The namespace rendering `<db>.<coll>`.  The same rendering
    /// prefixes the channels the subscribe path accepts, so channel
    /// identity is shared between the publish and lookup paths.
    pub fn namespace(&self) -> (r: String)
        ensures
            r@ == self.db@ + seq!['.'] + self.coll@,
    {
        let mut out = String::new();
        out.append(self.db.as_str());
        push_char(&mut out, '.');
        out.append(self.coll.as_str());
        proof {
            assert(out@ =~= self.db@ + seq!['.'] + self.coll@);
        }
        out
    }

    /// The channel-name prefix `<db>.<coll>:` that the subscribe path
    /// strips to recover a document id.
    pub fn channel_prefix(&self) -> (r: String)
        ensures
            r@ == self.db@ + seq!['.'] + self.coll@ + seq![':'],
    {
        let mut out = self.namespace();
        push_char(&mut out, ':');
        out
    }
}

/// One item yielded by the change-feed cursor.
#[derive(Debug)]
pub enum CursorItem {
    /// A decoded update event.
    Event(UpdateEvent),
    /// A transport or decode error: the cursor is broken.
    Error,
}

/// The ingestion loop's decision for one cursor item.
#[derive(Debug)]
pub enum StreamAction {
    /// Offer this event to the publisher's update queue.
    Forward(UpdateEvent),
    /// Raise the cancellation signal and terminate with the fatal
    /// error: a broken cursor is a whole-process fault.
    Fatal,
}

/// Decides what one cursor item leads to.  A decode failure of a
/// single item is fatal, not skipped.
pub fn change_stream_step(item: CursorItem) -> (r: StreamAction)
    ensures
        item matches CursorItem::Event(e) ==> (r matches StreamAction::Forward(f) && f == e),
        item is Error ==> r is Fatal,
{
    match item {
        CursorItem::Event(e) => StreamAction::Forward(e),
        CursorItem::Error => StreamAction::Fatal,
    }
}

/// What the ingestion loop leaves in the bounded update queue, and
/// whether it ended fatally: events are offered in cursor order, an
/// event finding the queue full is dropped, and the first cursor error
/// stops everything.
pub open spec fn spec_ingest(items: Seq<CursorItem>, queue: Seq<UpdateEvent>, capacity: nat) -> (
    Seq<UpdateEvent>,
    bool,
)
    decreases items.len(),
{
    if items.len() == 0 {
        (queue, false)
    } else {
        match items[0] {
            CursorItem::Error => (queue, true),
            CursorItem::Event(e) => spec_ingest(
                items.skip(1),
                if queue.len() < capacity {
                    queue.push(e)
                } else {
                    queue
                },
                capacity,
            ),
        }
    }
}

/// Replays the ingestion read loop over the items a cursor yielded.
///
/// Every decoded event is offered to the bounded update queue in
/// cursor order and dropped when the queue is full -- bounded
/// backpressure, never unbounded blocking.  The first cursor error
/// raises the cancellation signal and reports the fatal error; a clean
/// end of the feed reports none and leaves the signal alone.
#[verifier::loop_isolation(false)]
pub fn run_change_stream(
    items: Vec<CursorItem>,
    queue: &mut Vec<UpdateEvent>,
    capacity: usize,
    signal: &mut CancellationSignal,
) -> (fatal: bool)
    ensures
        final(queue)@ == spec_ingest(items@, old(queue)@, capacity as nat).0,
        fatal == spec_ingest(items@, old(queue)@, capacity as nat).1,
        final(signal)@ == (old(signal)@ || fatal),
{
    let ghost target = spec_ingest(items@, old(queue)@, capacity as nat);
    let mut remaining = items;
    while remaining.len() > 0
        invariant
            signal == old(signal),
            spec_ingest(remaining@, queue@, capacity as nat) == target,
        decreases remaining@.len(),
    {
        let ghost pre_items = remaining@;
        let ghost pre_queue = queue@;
        proof {
            assert(pre_items.remove(0) =~= pre_items.skip(1));
        }
        let item = remaining.remove(0);
        match item {
            CursorItem::Event(e) => {
                proof {
                    assert(pre_items[0] == CursorItem::Event(e));
                    assert(spec_ingest(pre_items, pre_queue, capacity as nat) == spec_ingest(
                        pre_items.skip(1),
                        if pre_queue.len() < capacity as nat {
                            pre_queue.push(e)
                        } else {
                            pre_queue
                        },
                        capacity as nat,
                    ));
                }
                if queue.len() < capacity {
                    queue.push(e);
                }
            },
            CursorItem::Error => {
                proof {
                    assert(pre_items[0] is Error);
                    assert(spec_ingest(pre_items, pre_queue, capacity as nat) == (pre_queue, true));
                }
                signal.cancel();
                return true;
            },
        }
    }
    false
}

/// The events inside a run of cursor items, in order.
pub open spec fn spec_events_of(items: Seq<CursorItem>) -> Seq<UpdateEvent> {
    items.map_values(|it: CursorItem| it->Event_0)
}

/// Law: while the cursor yields no error and the queue has room for
/// everything, ingestion ends cleanly and forwards every event, in the
/// order the feed emitted them, behind what was already queued.
pub proof fn lemma_ingest_in_order(items: Seq<CursorItem>, queue: Seq<UpdateEvent>, capacity: nat)
    requires
        forall|i: int| 0 <= i < items.len() ==> items[i] is Event,
        queue.len() + items.len() <= capacity,
    ensures
        !spec_ingest(items, queue, capacity).1,
        spec_ingest(items, queue, capacity).0 == queue + spec_events_of(items),
    decreases items.len(),
{
    if items.len() == 0 {
        assert(spec_ingest(items, queue, capacity).0 =~= queue + spec_events_of(items));
    } else {
        let first = items[0]->Event_0;
        assert(forall|i: int|
            0 <= i < items.skip(1).len() ==> #[trigger] items.skip(1)[i] == items[i + 1]);
        lemma_ingest_in_order(items.skip(1), queue.push(first), capacity);
        assert(queue.push(first) + spec_events_of(items.skip(1)) =~= queue + spec_events_of(
            items,
        ));
    }
}

/// The reply a lookup request is answered with.
pub type CurrentDataResponse = Result<Option<MongoDBData>, ()>;

/// What the point fetch behind one lookup request yielded.
#[derive(Debug)]
pub enum FetchOutcome {
    /// The document, decoded into a channel payload shape.
    Found(MongoDBData),
    /// No document bears the requested id.
    Missing,
    /// The fetch failed; the failure concerns this caller alone.
    FetchError,
}

/// Serves one lookup request from the outcome of its point fetch: a
/// found document is delivered, a missing one is reported as such, and
/// an I/O failure is surfaced to the requesting caller only, never
/// fatally.
pub fn current_data_reply(outcome: FetchOutcome) -> (r: CurrentDataResponse)
    ensures
        outcome matches FetchOutcome::Found(d) ==> (r matches Ok(od) && od matches Some(rd) && rd
            == d),
        outcome is Missing ==> (r matches Ok(od) && od is None),
        outcome is FetchError ==> r is Err,
{
    match outcome {
        FetchOutcome::Found(d) => Ok(Some(d)),
        FetchOutcome::Missing => Ok(None),
        FetchOutcome::FetchError => Err(()),
    }
}

} // verus!
