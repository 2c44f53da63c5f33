//! Input events as plain values.
use crate::ndk_sys::{
    AINPUT_EVENT_TYPE_KEY, AINPUT_EVENT_TYPE_MOTION, AKEY_EVENT_ACTION_DOWN, AKEY_EVENT_ACTION_UP,
    AMOTION_EVENT_ACTION_CANCEL, AMOTION_EVENT_ACTION_DOWN, AMOTION_EVENT_ACTION_MOVE,
    AMOTION_EVENT_ACTION_UP,
};
use vstd::prelude::*;

verus! {

/// A contact on the screen: the bits of its coordinates, which are 32-bit floats.
#[derive(Debug, Clone, Copy, PartialEq, Eq, Structural)]
pub struct Pointer {
    pub x_bits: u32,
    pub y_bits: u32,
}

/// What a motion event says.
#[derive(Debug, Clone, Copy, PartialEq, Eq, Structural)]
pub enum TouchPhase {
    Down,
    Up,
    Move,
    Cancel,
    /// Any other action, by its number.
    Other(i32),
}

impl TouchPhase {
    /// The phase for an action's number.
    pub open spec fn of(action: i32) -> TouchPhase {
        if action == AMOTION_EVENT_ACTION_DOWN {
            TouchPhase::Down
        } else if action == AMOTION_EVENT_ACTION_UP {
            TouchPhase::Up
        } else if action == AMOTION_EVENT_ACTION_MOVE {
            TouchPhase::Move
        } else if action == AMOTION_EVENT_ACTION_CANCEL {
            TouchPhase::Cancel
        } else {
            TouchPhase::Other(action)
        }
    }

    /// The phase for an action's number.
    pub fn from_raw(action: i32) -> (r: Self)
        ensures
            r == TouchPhase::of(action),
    {
        if action == AMOTION_EVENT_ACTION_DOWN {
            TouchPhase::Down
        } else if action == AMOTION_EVENT_ACTION_UP {
            TouchPhase::Up
        } else if action == AMOTION_EVENT_ACTION_MOVE {
            TouchPhase::Move
        } else if action == AMOTION_EVENT_ACTION_CANCEL {
            TouchPhase::Cancel
        } else {
            TouchPhase::Other(action)
        }
    }
}

/// Whether a key is pressed or released.
#[derive(Debug, Clone, Copy, PartialEq, Eq, Structural)]
pub enum KeyPhase {
    Down,
    Up,
    /// Any other action, by its number.
    Other(i32),
}

impl KeyPhase {
    /// The phase for an action's number.
    pub open spec fn of(action: i32) -> KeyPhase {
        if action == AKEY_EVENT_ACTION_DOWN {
            KeyPhase::Down
        } else if action == AKEY_EVENT_ACTION_UP {
            KeyPhase::Up
        } else {
            KeyPhase::Other(action)
        }
    }

    /// The phase for an action's number.
    pub fn from_raw(action: i32) -> (r: Self)
        ensures
            r == KeyPhase::of(action),
    {
        if action == AKEY_EVENT_ACTION_DOWN {
            KeyPhase::Down
        } else if action == AKEY_EVENT_ACTION_UP {
            KeyPhase::Up
        } else {
            KeyPhase::Other(action)
        }
    }
}

/// Different actions are different phases: no action's number is lost.
pub proof fn phases_keep_the_action(a: i32, b: i32)
    ensures
        TouchPhase::of(a) == TouchPhase::of(b) ==> a == b,
        KeyPhase::of(a) == KeyPhase::of(b) ==> a == b,
{
}

/// What the system holds of an event: its type, and the values that can be asked
/// of events of that type.
#[derive(Debug)]
pub struct RawEvent {
    pub event_type: i32,
    pub action: i32,
    pub pointers: Vec<Pointer>,
    pub key_code: i32,
    pub repeat_count: i32,
    pub event_time_nanos: i64,
}

/// An input event.
#[allow(inconsistent_fields)]
#[derive(Debug)]
pub enum InputEvent {
    Touch { phase: TouchPhase, pointers: Vec<Pointer>, event_time_nanos: i64 },
    Key { phase: KeyPhase, key_code: i32, repeat_count: i32, event_time_nanos: i64 },
    /// An event of another type, by that type's number.
    Unrecognized { raw_type: i32 },
}

/// Whether an event says what the system holds of it.
pub open spec fn event_of(raw: RawEvent, event: InputEvent) -> bool {
    match event {
        InputEvent::Touch { phase, pointers, event_time_nanos } => {
            &&& raw.event_type == AINPUT_EVENT_TYPE_MOTION
            &&& phase == TouchPhase::of(raw.action)
            &&& pointers@ == raw.pointers@
            &&& event_time_nanos == raw.event_time_nanos
        },
        InputEvent::Key { phase, key_code, repeat_count, event_time_nanos } => {
            &&& raw.event_type == AINPUT_EVENT_TYPE_KEY
            &&& phase == KeyPhase::of(raw.action)
            &&& key_code == raw.key_code
            &&& repeat_count == raw.repeat_count
            &&& event_time_nanos == raw.event_time_nanos
        },
        InputEvent::Unrecognized { raw_type } => {
            &&& raw.event_type != AINPUT_EVENT_TYPE_MOTION
            &&& raw.event_type != AINPUT_EVENT_TYPE_KEY
            &&& raw_type == raw.event_type
        },
    }
}

fn copy_pointers(v: &Vec<Pointer>) -> (r: Vec<Pointer>)
    ensures
        r@ == v@,
{
    let mut out: Vec<Pointer> = Vec::new();
    for i in 0..v.len()
        invariant
            out@ == v@.take(i as int),
    {
        out.push(v[i]);
        assert(out@ =~= v@.take(i + 1));
    }
    assert(v@.take(v@.len() as int) =~= v@);
    out
}

/// Reads an event.
pub fn parse_event(raw: &RawEvent) -> (r: InputEvent)
    ensures
        event_of(*raw, r),
{
    if raw.event_type == AINPUT_EVENT_TYPE_MOTION {
        InputEvent::Touch {
            phase: TouchPhase::from_raw(raw.action),
            pointers: copy_pointers(&raw.pointers),
            event_time_nanos: raw.event_time_nanos,
        }
    } else if raw.event_type == AINPUT_EVENT_TYPE_KEY {
        InputEvent::Key {
            phase: KeyPhase::from_raw(raw.action),
            key_code: raw.key_code,
            repeat_count: raw.repeat_count,
            event_time_nanos: raw.event_time_nanos,
        }
    } else {
        InputEvent::Unrecognized { raw_type: raw.event_type }
    }
}

/// Reads all events that were queued, in order. Each of them is also finished, as
/// not handled; those that the system wants to see first are no exception.
pub fn drain_events(queued: &Vec<RawEvent>) -> (r: Vec<InputEvent>)
    ensures
        r.len() == queued.len(),
        forall|i: int| 0 <= i < r.len() ==> event_of(queued@[i], #[trigger] r@[i]),
{
    let mut out: Vec<InputEvent> = Vec::new();
    for i in 0..queued.len()
        invariant
            out.len() == i,
            forall|j: int| 0 <= j < i ==> event_of(queued@[j], #[trigger] out@[j]),
    {
        out.push(parse_event(&queued[i]));
    }
    out
}

/// The codes of the phases are those of the platform: of a touch 0 to 3 in the order
/// down, up, move and cancel, and of a key 0 and 1 for down and up.
pub proof fn phases_have_their_codes(action: i32)
    ensures
        TouchPhase::of(action) == TouchPhase::Down <==> action == 0,
        TouchPhase::of(action) == TouchPhase::Up <==> action == 1,
        TouchPhase::of(action) == TouchPhase::Move <==> action == 2,
        TouchPhase::of(action) == TouchPhase::Cancel <==> action == 3,
        action < 0 || action > 3 ==> TouchPhase::of(action) == TouchPhase::Other(action),
        KeyPhase::of(action) == KeyPhase::Down <==> action == 0,
        KeyPhase::of(action) == KeyPhase::Up <==> action == 1,
        action < 0 || action > 1 ==> KeyPhase::of(action) == KeyPhase::Other(action),
{
}

/// An event is a key or a touch as its code says, and nothing of it is lost.
pub proof fn events_keep_what_they_tell(raw: RawEvent, event: InputEvent)
    requires
        event_of(raw, event),
    ensures
        event is Key <==> raw.event_type == 1,
        event is Touch <==> raw.event_type == 2,
        event matches InputEvent::Touch { phase, pointers, event_time_nanos } ==> pointers@
            == raw.pointers@ && event_time_nanos == raw.event_time_nanos && phase
            == TouchPhase::of(raw.action),
        event matches InputEvent::Key {
            phase,
            key_code,
            repeat_count,
            event_time_nanos,
        } ==> phase == KeyPhase::of(raw.action) && key_code == raw.key_code && repeat_count
            == raw.repeat_count && event_time_nanos == raw.event_time_nanos,
        event matches InputEvent::Unrecognized { raw_type } ==> raw_type == raw.event_type,
{
}

} // verus!
