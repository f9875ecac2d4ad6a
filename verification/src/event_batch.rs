//! Events on their way to the user interface: which ones go out at once,
//! and how the others are gathered into batches.
//!
//! Receiving events, the timer and sending batches are the caller's
//! business: it reports each event, each timer tick and the closing of the
//! bus, and sends the batches that come back, in order.
use vstd::prelude::*;

use crate::json_value::JsonValue;
use crate::text::{chars_of, starts_with, starts_with_vec, str_eq};

verus! {

/// An event of the event bus.
#[derive(Debug)]
pub struct BusEvent {
    pub id: String,
    pub run_id: Option<String>,
    pub seq: i64,
    pub category: String,
    pub event_type: String,
    pub payload: JsonValue,
    pub created_at: String,
}

/// The most events a batch holds.
pub const MAX_BATCH: usize = 50;

/// Events that go out at once: task events, agent step events, and the
/// agent's deciding and tool-call preparation.
pub open spec fn immediate(category: Seq<char>, event_type: Seq<char>) -> bool {
    ||| category == "task"@
    ||| starts_with(event_type, "agent.step_"@)
    ||| event_type == "agent.deciding"@
    ||| event_type == "agent.tool_calls_preparing"@
}

pub fn should_flush_immediately(event: &BusEvent) -> (r: bool)
    ensures
        r == immediate(event.category@, event.event_type@),
{
    let t = chars_of(event.event_type.as_str());
    str_eq("task", &chars_of(event.category.as_str())) || starts_with_vec(&t, &chars_of("agent.step_"))
        || str_eq("agent.deciding", &t) || str_eq("agent.tool_calls_preparing", &t)
}

/// The events of batches, in order.
pub open spec fn flatten(batches: Seq<Vec<BusEvent>>) -> Seq<BusEvent>
    decreases batches.len(),
{
    if batches.len() == 0 {
        Seq::empty()
    } else {
        flatten(batches.drop_last()) + batches.last()@
    }
}

/// No batch is empty or larger than `MAX_BATCH`.
pub open spec fn batches_ok(batches: Seq<Vec<BusEvent>>) -> bool {
    forall|i: int| 0 <= i < batches.len() ==> 0 < (#[trigger] batches[i])@.len() <= MAX_BATCH
}

/// The events waiting to be sent, fewer than a full batch.
#[derive(Debug)]
pub struct EventBatcher {
    pub buffer: Vec<BusEvent>,
}

impl EventBatcher {
    pub open spec fn well_formed(&self) -> bool {
        self.buffer@.len() < MAX_BATCH
    }

    pub fn new() -> (r: EventBatcher)
        ensures
            r.buffer@.len() == 0,
            r.well_formed(),
    {
        EventBatcher { buffer: Vec::new() }
    }

    fn take_buffer(&mut self) -> (r: Vec<BusEvent>)
        ensures
            r@ == old(self).buffer@,
            final(self).buffer@.len() == 0,
    {
        let mut out: Vec<BusEvent> = Vec::new();
        std::mem::swap(&mut out, &mut self.buffer);
        out
    }

    /// An event arrived.  An immediate event goes out at once, after the
    /// waiting ones; another waits, and a full buffer goes out.  Whatever
    /// happens, the events sent and those left waiting are the ones that
    /// waited before, then this one, in order.
    pub fn on_event(&mut self, event: BusEvent) -> (r: Vec<Vec<BusEvent>>)
        requires
            old(self).well_formed(),
        ensures
            final(self).well_formed(),
            batches_ok(r@),
            flatten(r@) + final(self).buffer@ == old(self).buffer@.push(event),
            immediate(event.category@, event.event_type@) ==> final(self).buffer@.len() == 0
                && r@.len() == (if old(self).buffer@.len() > 0 { 2int } else { 1int }),
            !immediate(event.category@, event.event_type@) ==> (if old(self).buffer@.len() + 1 < MAX_BATCH {
                r@.len() == 0 && final(self).buffer@ == old(self).buffer@.push(event)
            } else {
                r@.len() == 1 && final(self).buffer@.len() == 0
            }),
    {
        let ghost before = self.buffer@;
        let mut out: Vec<Vec<BusEvent>> = Vec::new();
        if should_flush_immediately(&event) {
            if self.buffer.len() > 0 {
                let waiting = self.take_buffer();
                out.push(waiting);
                proof {
                    assert(out@.drop_last() =~= Seq::<Vec<BusEvent>>::empty());
                    assert(flatten(out@) =~= flatten(Seq::<Vec<BusEvent>>::empty()) + out@[0]@);
                    assert(flatten(out@) =~= before);
                }
            } else {
                assert(flatten(out@) =~= before);
            }
            let ghost mid = out@;
            let mut single: Vec<BusEvent> = Vec::new();
            single.push(event);
            out.push(single);
            proof {
                assert(out@.drop_last() =~= mid);
                assert(out@.last()@ =~= seq![event]);
                assert(flatten(out@) =~= flatten(mid) + seq![event]);
                assert(flatten(out@) + self.buffer@ =~= before.push(event));
            }
        } else {
            self.buffer.push(event);
            if self.buffer.len() >= MAX_BATCH {
                let full = self.take_buffer();
                let ghost fv = full@;
                out.push(full);
                proof {
                    assert(out@.drop_last() =~= Seq::<Vec<BusEvent>>::empty());
                    assert(flatten(out@) =~= flatten(Seq::<Vec<BusEvent>>::empty()) + fv);
                    assert(flatten(out@) + self.buffer@ =~= before.push(event));
                }
            } else {
                assert(flatten(out@) + self.buffer@ =~= before.push(event));
            }
        }
        out
    }

    /// The timer ticked: the waiting events go out, if there are any.
    pub fn on_tick(&mut self) -> (r: Option<Vec<BusEvent>>)
        ensures
            final(self).buffer@.len() == 0,
            match r {
                Some(b) => b@ == old(self).buffer@ && b@.len() > 0,
                None => old(self).buffer@.len() == 0,
            },
    {
        if self.buffer.len() > 0 {
            Some(self.take_buffer())
        } else {
            None
        }
    }

    /// The bus closed: the waiting events go out, if there are any, and the
    /// batcher stops.
    pub fn on_close(&mut self) -> (r: Option<Vec<BusEvent>>)
        ensures
            final(self).buffer@.len() == 0,
            match r {
                Some(b) => b@ == old(self).buffer@ && b@.len() > 0,
                None => old(self).buffer@.len() == 0,
            },
    {
        self.on_tick()
    }
}

} // verus!
