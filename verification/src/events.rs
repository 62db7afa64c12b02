//! Plugin events: a tagged variant with a fixed-size inline payload, so the
//! event queues stay allocation-free on the audio thread.
//!
//! Sample-accurate times are in frames from the start of the block.  Real
//! parameter and velocity values are `f64`s owned by the unverified edge of
//! the host; the engine never does arithmetic on them, so they travel here
//! as raw bit patterns.

use vstd::prelude::*;

verus! {

/// Which of the four note event kinds a note event is.
#[derive(Debug, Clone, Copy, PartialEq, Eq, Structural)]
pub enum NoteEventKind {
    On,
    Off,
    Choke,
    End,
}

/// A note on/off/choke/end event.
#[derive(Debug, Clone, Copy, PartialEq, Eq, Structural)]
pub struct EventNote {
    pub time: u32,
    pub kind: NoteEventKind,
    pub port_index: i16,
    pub channel: i16,
    pub key: i16,
    pub note_id: i32,
    pub velocity_bits: u64,
}

/// A per-note expression change (pressure, brightness, ...).
#[derive(Debug, Clone, Copy, PartialEq, Eq, Structural)]
pub struct EventNoteExpression {
    pub time: u32,
    pub expression_id: i32,
    pub port_index: i16,
    pub channel: i16,
    pub key: i16,
    pub note_id: i32,
    pub value_bits: u64,
}

/// A new plain value for one parameter.
#[derive(Debug, Clone, Copy, PartialEq, Eq, Structural)]
pub struct EventParamValue {
    pub time: u32,
    pub param_id: u32,
    pub note_id: i32,
    pub port_index: i16,
    pub channel: i16,
    pub key: i16,
    pub value_bits: u64,
}

/// A new modulation amount for one parameter.
#[derive(Debug, Clone, Copy, PartialEq, Eq, Structural)]
pub struct EventParamMod {
    pub time: u32,
    pub param_id: u32,
    pub note_id: i32,
    pub port_index: i16,
    pub channel: i16,
    pub key: i16,
    pub amount_bits: u64,
}

/// Begin or end of a user gesture on one parameter.
#[derive(Debug, Clone, Copy, PartialEq, Eq, Structural)]
pub struct EventParamGesture {
    pub time: u32,
    pub param_id: u32,
    pub is_begin: bool,
}

/// A transport snapshot: song position, tempo and loop points.
#[derive(Debug, Clone, Copy, PartialEq, Eq, Structural)]
pub struct EventTransport {
    pub time: u32,
    pub flags: u32,
    pub song_pos_beats_bits: u64,
    pub song_pos_seconds_bits: u64,
    pub tempo_bits: u64,
    pub tempo_inc_bits: u64,
    pub loop_start_beats_bits: u64,
    pub loop_end_beats_bits: u64,
    pub bar_start_bits: u64,
    pub bar_number: i32,
    pub tsig_num: u16,
    pub tsig_denom: u16,
}

/// A three-byte MIDI 1.0 message.
#[derive(Debug, Clone, Copy, PartialEq, Eq, Structural)]
pub struct EventMidi {
    pub time: u32,
    pub port_index: u16,
    pub status: u8,
    pub data1: u8,
    pub data2: u8,
}

/// A MIDI system-exclusive message; the payload bytes live outside the
/// queue, the event only marks its arrival on a port.
#[derive(Debug, Clone, Copy, PartialEq, Eq, Structural)]
pub struct EventMidiSysex {
    pub time: u32,
    pub port_index: u16,
    pub data_len: u32,
}

/// A MIDI 2.0 universal MIDI packet: four 32-bit words.
#[derive(Debug, Clone, Copy, PartialEq, Eq, Structural)]
pub struct EventMidi2 {
    pub time: u32,
    pub port_index: u16,
    pub data0: u32,
    pub data1: u32,
    pub data2: u32,
    pub data3: u32,
}

/// One event travelling between the host and a plugin.
#[derive(Debug, Clone, Copy, PartialEq, Eq, Structural)]
pub enum PluginEvent {
    Note(EventNote),
    NoteExpression(EventNoteExpression),
    ParamValue(EventParamValue),
    ParamMod(EventParamMod),
    ParamGesture(EventParamGesture),
    Transport(EventTransport),
    Midi(EventMidi),
    MidiSysex(EventMidiSysex),
    Midi2(EventMidi2),
}

/// One event record in a queue slot.  Every slot has the size of the
/// largest variant, so pushing never allocates per event.
#[derive(Debug, Clone, Copy, PartialEq, Eq, Structural)]
pub struct AllocatedEvent {
    event: PluginEvent,
}

impl AllocatedEvent {
    /// The event stored in this slot.
    pub closed spec fn event_spec(self) -> PluginEvent {
        self.event
    }

    /// Stores one event in a fixed-size slot.
    pub fn from_event(event: PluginEvent) -> (r: Self)
        ensures
            r.event_spec() == event,
    {
        AllocatedEvent { event }
    }

    /// Reads the event back out of the slot.
    pub fn get(&self) -> (r: Result<PluginEvent, ()>)
        ensures
            r == Ok::<PluginEvent, ()>(self.event_spec()),
    {
        Ok(self.event)
    }
}

/// A bounded queue of event records.  Pushing past the capacity still
/// appends (the engine tolerates the resulting allocation as a diagnostic),
/// and also reports the overflow to the caller.
pub struct EventQueue {
    events: Vec<AllocatedEvent>,
    capacity: usize,
}

impl EventQueue {
    /// The events currently queued, oldest first.
    pub closed spec fn view_spec(self) -> Seq<PluginEvent> {
        self.events@.map(|i: int, e: AllocatedEvent| e.event_spec())
    }

    /// The capacity the queue was created with.
    pub closed spec fn capacity_spec(self) -> int {
        self.capacity as int
    }

    /// An empty queue with room for `capacity` events.
    pub fn new(capacity: usize) -> (q: Self)
        ensures
            q.view_spec() == Seq::<PluginEvent>::empty(),
            q.capacity_spec() == capacity as int,
    {
        let q = EventQueue { events: Vec::new(), capacity };
        proof {
            assert(q.view_spec() =~= Seq::<PluginEvent>::empty());
        }
        q
    }

    /// Appends one event.  Returns `true` when the queue had room for it,
    /// `false` when this push went past the capacity.
    pub fn push(&mut self, event: PluginEvent) -> (in_capacity: bool)
        ensures
            final(self).view_spec() == old(self).view_spec().push(event),
            final(self).capacity_spec() == old(self).capacity_spec(),
            in_capacity == (old(self).view_spec().len() < old(self).capacity_spec()),
    {
        let in_capacity = self.events.len() < self.capacity;
        self.events.push(AllocatedEvent::from_event(event));
        proof {
            assert(self.view_spec() =~= old(self).view_spec().push(event));
        }
        in_capacity
    }

    /// Removes and returns the newest event, if any.
    pub fn pop(&mut self) -> (r: Option<AllocatedEvent>)
        ensures
            old(self).view_spec().len() == 0 ==> {
                &&& r is None
                &&& final(self).view_spec() == old(self).view_spec()
            },
            old(self).view_spec().len() > 0 ==> {
                &&& r matches Some(e) && e.event_spec() == old(self).view_spec().last()
                &&& final(self).view_spec() == old(self).view_spec().drop_last()
            },
            final(self).capacity_spec() == old(self).capacity_spec(),
    {
        let r = self.events.pop();
        proof {
            if old(self).view_spec().len() > 0 {
                assert(self.view_spec() =~= old(self).view_spec().drop_last());
            }
        }
        r
    }

    /// Reads the event at position `i`, oldest first.
    pub fn get(&self, i: usize) -> (r: AllocatedEvent)
        requires
            i < self.view_spec().len(),
        ensures
            r.event_spec() == self.view_spec()[i as int],
    {
        self.events[i]
    }

    /// Discards all queued events.
    pub fn clear(&mut self)
        ensures
            final(self).view_spec() == Seq::<PluginEvent>::empty(),
            final(self).capacity_spec() == old(self).capacity_spec(),
    {
        self.events.clear();
        proof {
            assert(self.view_spec() =~= Seq::<PluginEvent>::empty());
        }
    }

    /// How many events are queued.
    pub fn len(&self) -> (r: usize)
        ensures
            r == self.view_spec().len(),
    {
        self.events.len()
    }
}

} // verus!
