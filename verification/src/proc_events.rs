//! Events as they travel through the compiled schedule: the same payloads
//! as [`crate::events`], but parameter events may carry the unique id of a
//! target plugin so that cross-plugin automation can be routed.

use vstd::prelude::*;

use crate::events::EventMidi;
use crate::events::EventMidi2;
use crate::events::EventMidiSysex;
use crate::events::EventNote;
use crate::events::EventNoteExpression;
use crate::events::EventParamGesture;
use crate::events::EventParamMod;
use crate::events::EventParamValue;
use crate::events::EventTransport;

verus! {

/// One event in a schedule buffer.  Parameter value and modulation events
/// optionally name the unique id of the plugin they are meant for.
#[derive(Debug, Clone, Copy, PartialEq, Eq, Structural)]
pub enum ProcEvent {
    Note(EventNote),
    NoteExpression(EventNoteExpression),
    ParamValue(EventParamValue, Option<u64>),
    ParamMod(EventParamMod, Option<u64>),
    ParamGesture(EventParamGesture),
    Transport(EventTransport),
    Midi(EventMidi),
    MidiSysex(EventMidiSysex),
    Midi2(EventMidi2),
}

impl ProcEvent {
    /// Wraps a parameter value event with its optional routing target.
    pub fn param_value(event: EventParamValue, target_plugin: Option<u64>) -> (r: Self)
        ensures
            r == ProcEvent::ParamValue(event, target_plugin),
    {
        ProcEvent::ParamValue(event, target_plugin)
    }

    /// Wraps a parameter modulation event with its optional routing target.
    pub fn param_mod(event: EventParamMod, target_plugin: Option<u64>) -> (r: Self)
        ensures
            r == ProcEvent::ParamMod(event, target_plugin),
    {
        ProcEvent::ParamMod(event, target_plugin)
    }
}

/// Whether an event is one of the note kinds a note input port routes to
/// its plugin.
pub open spec fn is_note_event(e: ProcEvent) -> bool {
    ||| e is Note
    ||| e is NoteExpression
    ||| e is Midi
    ||| e is Midi2
}

/// A bounded queue of schedule events.  Pushing past the capacity still
/// appends (tolerated as a diagnostic), and reports the overflow.
pub struct ProcEventQueue {
    events: Vec<ProcEvent>,
    capacity: usize,
}

impl ProcEventQueue {
    /// The events currently queued, oldest first.
    pub closed spec fn view_spec(self) -> Seq<ProcEvent> {
        self.events@
    }

    /// The capacity the queue was created with.
    pub closed spec fn capacity_spec(self) -> int {
        self.capacity as int
    }

    /// An empty queue with room for `capacity` events.
    pub fn new(capacity: usize) -> (q: Self)
        ensures
            q.view_spec() == Seq::<ProcEvent>::empty(),
            q.capacity_spec() == capacity as int,
    {
        let q = ProcEventQueue { events: Vec::new(), capacity };
        proof {
            assert(q.view_spec() =~= Seq::<ProcEvent>::empty());
        }
        q
    }

    /// Appends one event.  Returns `true` when the queue had room for it.
    pub fn push(&mut self, event: ProcEvent) -> (in_capacity: bool)
        ensures
            final(self).view_spec() == old(self).view_spec().push(event),
            final(self).capacity_spec() == old(self).capacity_spec(),
            in_capacity == (old(self).view_spec().len() < old(self).capacity_spec()),
    {
        let in_capacity = self.events.len() < self.capacity;
        self.events.push(event);
        in_capacity
    }

    /// Removes and returns the newest event, if any.
    pub fn pop(&mut self) -> (r: Option<ProcEvent>)
        ensures
            old(self).view_spec().len() == 0 ==> {
                &&& r is None
                &&& final(self).view_spec() == old(self).view_spec()
            },
            old(self).view_spec().len() > 0 ==> {
                &&& r == Some(old(self).view_spec().last())
                &&& final(self).view_spec() == old(self).view_spec().drop_last()
            },
            final(self).capacity_spec() == old(self).capacity_spec(),
    {
        let r = self.events.pop();
        proof {
            if old(self).view_spec().len() > 0 {
                assert(self.view_spec() =~= old(self).view_spec().drop_last());
            }
        }
        r
    }

    /// Reads the event at position `i`, oldest first.
    pub fn get(&self, i: usize) -> (r: ProcEvent)
        requires
            i < self.view_spec().len(),
        ensures
            r == self.view_spec()[i as int],
    {
        self.events[i]
    }

    /// Discards all queued events.
    pub fn clear(&mut self)
        ensures
            final(self).view_spec() == Seq::<ProcEvent>::empty(),
            final(self).capacity_spec() == old(self).capacity_spec(),
    {
        self.events.clear();
        proof {
            assert(self.view_spec() =~= Seq::<ProcEvent>::empty());
        }
    }

    /// How many events are queued.
    pub fn len(&self) -> (r: usize)
        ensures
            r == self.view_spec().len(),
    {
        self.events.len()
    }
}

} // verus!
