use vstd::prelude::*;
use crate::frame::Frame;
use crate::pool_laws::no_duplicates;
use crate::shape::NoteShape;
use crate::state::{
    frame_played, mix, read_and_play, voices_after, voices_value, without_dead, State, StateView,
};
use crate::units::OUTPUT_ONE;

verus! {

/// What the player's controls send to the engine.
#[derive(Clone, Copy, Debug, PartialEq, Eq, Structural)]
pub enum AppEvent {
    FrameUpdate,
    SetShape(NoteShape),
}

/// The number of events that the control channel holds.
pub const CONTROL_CAPACITY: usize = 5;

/// `rtrb::Producer`, the writing end of a queue between two threads. Nothing is
/// known of what it holds.
#[verifier::external_type_specification]
#[verifier::external_body]
#[verifier::reject_recursive_types(T)]
pub struct ExProducer<T>(rtrb::Producer<T>);

/// `rtrb::Consumer`, the reading end of such a queue. Nothing is known of what it
/// holds.
#[verifier::external_type_specification]
#[verifier::external_body]
#[verifier::reject_recursive_types(T)]
pub struct ExConsumer<T>(rtrb::Consumer<T>);

/// `rtrb::PopError`, which `rtrb::Consumer::pop` gives where the queue is empty.
#[verifier::external_type_specification]
#[verifier::external_body]
pub struct ExPopError(rtrb::PopError);

/// `rtrb::PushError`, in which `rtrb::Producer::push` hands back the element that a
/// full queue did not take.
#[verifier::external_type_specification]
#[verifier::external_body]
#[verifier::reject_recursive_types(T)]
pub struct ExPushError<T>(rtrb::PushError<T>);

/// `rtrb::Consumer::pop` takes the oldest element out of the queue, or fails where
/// the queue is empty. What the queue holds is up to the producer's thread, so
/// nothing is claimed of the result.
pub assume_specification<T>[ rtrb::Consumer::<T>::pop ](queue: &mut rtrb::Consumer<T>) -> (r: Result<
    T,
    rtrb::PopError,
>)
;

/// What `rtrb::Producer::cached_slots` returns for the writing end of a control
/// channel: the number of slots that this end knows to be free. The reading end,
/// on its own thread, only ever frees more; this end learns of that when it finds
/// no free slot among those it knows.
pub uninterp spec fn known_slots(queue: rtrb::Producer<AppEvent>) -> nat;

/// `rtrb::Producer::push` puts an element into the queue, or hands it back where the
/// queue is full. Where the writing end knows of a free slot, the element goes in
/// and one slot less is known to be free. Where it knows of none, it looks again at
/// how far the reading end has come, and the push fails only if no slot is free
/// then either.
#[verifier::external_body]
fn try_push(queue: &mut rtrb::Producer<AppEvent>, event: AppEvent) -> (r: Result<
    (),
    rtrb::PushError<AppEvent>,
>)
    ensures
        known_slots(*old(queue)) > 0 ==> r is Ok && known_slots(*final(queue)) == known_slots(*old(queue))
            - 1,
        r is Err ==> known_slots(*final(queue)) == 0,
{
    queue.push(event)
}

/// `rtrb::RingBuffer::new` makes an empty queue of the given capacity and gives its
/// two ends: the writing end knows every slot to be free. The call reserves room
/// for `capacity` elements at once, which fails for a capacity of more bytes than
/// memory can hold: the capacities let in here are far from that.
#[verifier::external_body]
fn ring_buffer(capacity: usize) -> (ends: (rtrb::Producer<AppEvent>, rtrb::Consumer<AppEvent>))
    requires
        capacity <= 1024,
    ensures
        known_slots(ends.0) == capacity,
{
    rtrb::RingBuffer::new(capacity)
}

/// A control channel of `CONTROL_CAPACITY` events: the end that the controls send
/// into, with every slot free, and the end that the engine reads.
pub fn control_channel() -> (ends: (rtrb::Producer<AppEvent>, rtrb::Consumer<AppEvent>))
    ensures
        known_slots(ends.0) == CONTROL_CAPACITY,
{
    ring_buffer(CONTROL_CAPACITY)
}

/// Sends an event to the engine without waiting. While the sending end knows of a
/// free slot the event is delivered, and one slot less is known to be free. Where
/// the channel is full the event is not delivered, and the result is `false`.
pub fn push_event(channel: &mut rtrb::Producer<AppEvent>, event: AppEvent) -> (delivered: bool)
    ensures
        known_slots(*old(channel)) > 0 ==> delivered && known_slots(*final(channel)) == known_slots(
            *old(channel),
        ) - 1,
        !delivered ==> known_slots(*final(channel)) == 0,
{
    push_outcome(try_push(channel, event))
}

/// Whether a push into the control channel has delivered its event: it has unless
/// the channel handed the event back.
pub fn push_outcome(pushed: Result<(), rtrb::PushError<AppEvent>>) -> (delivered: bool)
    ensures
        delivered == pushed is Ok,
{
    match pushed {
        Ok(_) => true,
        Err(_) => false,
    }
}

/// The state after an event from the controls: a `SetShape` sets the waveform that
/// is asked for; anything else, and no event, changes nothing.
pub open spec fn event_applied(s: StateView, event: Option<AppEvent>) -> StateView {
    match event {
        Some(AppEvent::SetShape(shape)) => StateView { shape, ..s },
        _ => s,
    }
}

/// The engine as the audio host drives it: the state, the reading end of the
/// control channel, the time stamp of the frame that was last taken up, and the
/// tick, which counts the samples since the pool was last empty.
pub struct Player {
    state: State,
    events: rtrb::Consumer<AppEvent>,
    last_timestamp: i32,
    tick: u32,
}

/// What the player holds, as plain values.
pub struct PlayerView {
    pub state: StateView,
    pub last_timestamp: int,
    pub tick: int,
}

impl View for Player {
    type V = PlayerView;

    closed spec fn view(&self) -> PlayerView {
        PlayerView {
            state: self.state@,
            last_timestamp: self.last_timestamp as int,
            tick: self.tick as int,
        }
    }
}

impl PlayerView {
    /// The state is well formed, and the tick fits its machine word.
    pub open spec fn wf(self) -> bool {
        &&& self.state.wf()
        &&& 0 <= self.tick <= u32::MAX
    }
}

/// The player after a frame is offered: a frame with a new time stamp is taken up,
/// one with the time stamp that was seen last changes nothing.
pub open spec fn frame_taken(p: PlayerView, frame: &Frame) -> PlayerView {
    if frame.timestamp != p.last_timestamp {
        PlayerView { state: frame_played(p.state, frame), last_timestamp: frame.timestamp as int, ..p }
    } else {
        p
    }
}

/// The tick after a sample: it starts over when the pool is empty, and when it has
/// reached the largest tick there is.
pub open spec fn tick_after(tick: int, voices: nat) -> int {
    if voices == 0 || tick >= u32::MAX {
        0
    } else {
        tick + 1
    }
}

/// The player after one sample.
pub open spec fn sample_taken(p: PlayerView) -> PlayerView {
    let voices = without_dead(voices_after(p.state.voices, p.state.sample_rate, p.tick));
    PlayerView { state: StateView { voices, ..p.state }, tick: tick_after(p.tick, voices.len()), ..p }
}

/// The sample that the player gives next.
pub open spec fn sample_heard(p: PlayerView) -> int {
    mix(voices_value(p.state.voices, p.state.sample_rate, p.tick))
}

/// The player after `n` samples.
pub open spec fn samples_taken(p: PlayerView, n: nat) -> PlayerView
    decreases n,
{
    if n == 0 {
        p
    } else {
        sample_taken(samples_taken(p, (n - 1) as nat))
    }
}

/// The next `n` samples that the player gives.
pub open spec fn samples_heard(p: PlayerView, n: nat) -> Seq<int> {
    Seq::new(n, |k: int| sample_heard(samples_taken(p, k as nat)))
}

/// The player at the start of a buffer: the event from the controls is applied,
/// then the frame is offered.
pub open spec fn buffer_begun(p: PlayerView, frame: &Frame, event: Option<AppEvent>) -> PlayerView {
    frame_taken(PlayerView { state: event_applied(p.state, event), ..p }, frame)
}

impl Player {
    /// A player that has seen no frame and has given no sample.
    pub fn new(state: State, events: rtrb::Consumer<AppEvent>) -> (p: Player)
        requires
            state@.wf(),
        ensures
            p@ == (PlayerView { state: state@, last_timestamp: 0, tick: 0 }),
            p@.wf(),
    {
        Player { state, events, last_timestamp: 0, tick: 0 }
    }

    /// The engine's state.
    pub fn state(&self) -> (s: &State)
        ensures
            s@ == self@.state,
    {
        &self.state
    }

    /// The samples given since the pool was last empty.
    pub fn tick(&self) -> (t: u32)
        ensures
            t == self@.tick,
    {
        self.tick
    }

    /// The time stamp of the frame that was last taken up.
    pub fn last_timestamp(&self) -> (t: i32)
        ensures
            t == self@.last_timestamp,
    {
        self.last_timestamp
    }

    /// Applies an event from the controls.
    pub fn apply_event(&mut self, event: Option<AppEvent>)
        ensures
            final(self)@ == (PlayerView { state: event_applied(old(self)@.state, event), ..old(self)@ }),
            old(self)@.wf() ==> final(self)@.wf(),
    {
        match event {
            Some(AppEvent::SetShape(shape)) => {
                self.state.set_shape(shape);
            },
            _ => {},
        }
    }

    /// Offers a frame: it is taken up if its time stamp is new.
    pub fn take_frame(&mut self, frame: &Frame)
        requires
            old(self)@.wf(),
        ensures
            final(self)@ == frame_taken(old(self)@, frame),
            final(self)@.wf(),
            no_duplicates(old(self)@.state.voices) ==> no_duplicates(final(self)@.state.voices),
    {
        if frame.timestamp != self.last_timestamp {
            read_and_play(frame, &mut self.state);
            self.last_timestamp = frame.timestamp;
        }
    }

    /// Gives the next sample.
    pub fn next_sample(&mut self) -> (v: i64)
        requires
            old(self)@.wf(),
        ensures
            final(self)@ == sample_taken(old(self)@),
            v == sample_heard(old(self)@),
            final(self)@.wf(),
            -OUTPUT_ONE <= v <= OUTPUT_ONE,
            no_duplicates(old(self)@.state.voices) ==> no_duplicates(final(self)@.state.voices),
    {
        let v: i64 = self.state.get_sample(self.tick);
        if self.state.voice_count() == 0 || self.tick == u32::MAX {
            self.tick = 0;
        } else {
            self.tick = self.tick + 1;
        }
        v
    }

    /// Renders one buffer, given the event that the control channel held: applies
    /// the event, offers the frame, and fills every slot of `data` with a sample.
    pub fn render(&mut self, frame: &Frame, event: Option<AppEvent>, data: &mut Vec<i64>)
        requires
            old(self)@.wf(),
        ensures
            final(self)@ == samples_taken(buffer_begun(old(self)@, frame, event), old(data)@.len()),
            final(data)@.len() == old(data)@.len(),
            forall|k: int| 0 <= k < final(data)@.len() ==> final(data)@[k] == samples_heard(
                buffer_begun(old(self)@, frame, event),
                old(data)@.len(),
            )[k],
            forall|k: int| 0 <= k < final(data)@.len() ==> -OUTPUT_ONE <= #[trigger] final(data)@[k] <= OUTPUT_ONE,
            final(self)@.wf(),
            no_duplicates(old(self)@.state.voices) ==> no_duplicates(final(self)@.state.voices),
    {
        self.apply_event(event);
        self.take_frame(frame);
        let ghost begun = self@;
        let ghost len = data@.len();
        let mut k: usize = 0;
        while k < data.len()
            invariant
                data@.len() == len,
                k <= len,
                begun.wf(),
                self@.wf(),
                no_duplicates(begun.state.voices) ==> no_duplicates(self@.state.voices),
                self@ == samples_taken(begun, k as nat),
                forall|j: int| 0 <= j < k ==> data@[j] == sample_heard(samples_taken(begun, j as nat)),
                forall|j: int| 0 <= j < k ==> -OUTPUT_ONE <= #[trigger] data@[j] <= OUTPUT_ONE,
            decreases len - k,
        {
            let v: i64 = self.next_sample();
            data[k] = v;
            k += 1;
        }
    }

    /// Renders one buffer: takes at most one event out of the control channel, and
    /// goes on as `render` does with it.
    pub fn fill(&mut self, frame: &Frame, data: &mut Vec<i64>)
        requires
            old(self)@.wf(),
        ensures
            exists|event: Option<AppEvent>|
                {
                    &&& final(self)@ == samples_taken(
                        buffer_begun(old(self)@, frame, event),
                        old(data)@.len(),
                    )
                    &&& forall|k: int| 0 <= k < final(data)@.len() ==> final(data)@[k] == samples_heard(
                        buffer_begun(old(self)@, frame, event),
                        old(data)@.len(),
                    )[k]
                },
            final(data)@.len() == old(data)@.len(),
            forall|k: int| 0 <= k < final(data)@.len() ==> -OUTPUT_ONE <= #[trigger] final(data)@[k] <= OUTPUT_ONE,
            final(self)@.wf(),
            no_duplicates(old(self)@.state.voices) ==> no_duplicates(final(self)@.state.voices),
    {
        let event = match self.events.pop() {
            Ok(event) => Some(event),
            Err(_) => None,
        };
        self.render(frame, event, data);
    }
}

} // verus!
