use vstd::prelude::*;
use crate::frame::{Finger, Vector};
use crate::playback::{
    generators_after, generators_bent, generators_value, generators_wf, GeneratorView,
    TriggerDefinition, MAX_GENERATORS,
};
use crate::units::{
    div_toward_zero, quotient_toward_zero, AMP_ONE, DECAY_BIAS, DECAY_KEEP, DECAY_SCALE, PPM_ONE,
    RISE_STEP, TARGET_VOLUME, VOLUME_ONE,
};

verus! {

/// Where a voice is in its life. A voice only ever moves forward through these.
#[derive(Clone, Copy, Debug, PartialEq, Eq, Structural)]
pub enum NoteState {
    Rising,
    Steady,
    Dying,
    Dead,
}

/// The name of a state.
pub open spec fn state_name(state: NoteState) -> Seq<char> {
    match state {
        NoteState::Rising => "Rising"@,
        NoteState::Steady => "Steady"@,
        NoteState::Dying => "Dying"@,
        NoteState::Dead => "Dead"@,
    }
}

/// How far along its life a state is.
pub open spec fn state_rank(state: NoteState) -> int {
    match state {
        NoteState::Rising => 0,
        NoteState::Steady => 1,
        NoteState::Dying => 2,
        NoteState::Dead => 3,
    }
}

impl NoteState {
    /// The name of this state.
    pub fn name(&self) -> (r: String)
        ensures
            r@ == state_name(*self),
    {
        match self {
            NoteState::Rising => "Rising".to_owned(),
            NoteState::Steady => "Steady".to_owned(),
            NoteState::Dying => "Dying".to_owned(),
            NoteState::Dead => "Dead".to_owned(),
        }
    }
}

/// One voice: a note that a finger holds or has let go of.
#[derive(Debug)]
pub struct Note {
    finger: Finger,
    state: NoteState,
    volume: u32,
    target_volume: u32,
    position: Vector,
    trigger: TriggerDefinition,
}

/// What a voice holds, as plain values.
pub struct NoteView {
    pub finger: Finger,
    pub state: NoteState,
    pub volume: int,
    pub target_volume: int,
    /// The tip position that the voice last took note of.
    pub position: Vector,
    pub generators: Seq<GeneratorView>,
}

impl View for Note {
    type V = NoteView;

    closed spec fn view(&self) -> NoteView {
        NoteView {
            finger: self.finger,
            state: self.state,
            volume: self.volume as int,
            target_volume: self.target_volume as int,
            position: self.position,
            generators: self.trigger@,
        }
    }
}

impl NoteView {
    /// The volume is never above the target by more than one rising step, a rising
    /// voice is still below its target, and a dead voice is silent.
    pub open spec fn wf(self) -> bool {
        &&& generators_wf(self.generators)
        &&& 1 <= self.target_volume
        &&& self.target_volume + RISE_STEP <= VOLUME_ONE
        &&& 0 <= self.volume < self.target_volume + RISE_STEP
        &&& (self.state == NoteState::Rising ==> self.volume < self.target_volume)
        &&& (self.state == NoteState::Dead ==> self.volume == 0)
    }

    /// Whether the voice is still held: it is neither dying nor dead.
    pub open spec fn is_live(self) -> bool {
        self.state == NoteState::Rising || self.state == NoteState::Steady
    }

    /// Whether this is the voice that `finger` holds.
    pub open spec fn matches(self, finger: Finger) -> bool {
        self.finger == finger && self.is_live()
    }
}

/// The volume of a dying voice one sample on, before it is held at zero.
pub open spec fn decayed(volume: int) -> int {
    (volume * DECAY_KEEP) / (DECAY_SCALE as int) - DECAY_BIAS
}

/// The envelope one sample on. A rising voice gains one step, and is steady once it
/// has reached its target. A dying voice decays, and is dead once its volume would
/// fall below zero. A steady and a dead voice stay as they are.
pub open spec fn envelope_after(state: NoteState, volume: int, target: int) -> (NoteState, int) {
    match state {
        NoteState::Rising => {
            if volume + RISE_STEP >= target {
                (NoteState::Steady, volume + RISE_STEP)
            } else {
                (NoteState::Rising, volume + RISE_STEP)
            }
        },
        NoteState::Steady => (NoteState::Steady, volume),
        NoteState::Dying => {
            if decayed(volume) < 0 {
                (NoteState::Dead, 0)
            } else {
                (NoteState::Dying, decayed(volume))
            }
        },
        NoteState::Dead => (NoteState::Dead, volume),
    }
}

/// An amplitude at a volume, in output units, rounded toward zero. The output has
/// the volume's unit: an amplitude of `AMP_ONE` gives the volume itself.
pub open spec fn scale_by_volume(volume: int, amplitude: int) -> int {
    div_toward_zero(volume * amplitude, AMP_ONE as int)
}

/// The voice after tick `i`. A dead voice is left as it is; any other has its
/// envelope and each of its generators moved on.
pub open spec fn note_after(n: NoteView, rate: int, i: int) -> NoteView {
    if n.state == NoteState::Dead {
        n
    } else {
        let e = envelope_after(n.state, n.volume, n.target_volume);
        NoteView { state: e.0, volume: e.1, generators: generators_after(n.generators, rate, i), ..n }
    }
}

/// The voice's output at tick `i`, in output units: nothing from a dead voice, else
/// the sum of its generators at the volume that the envelope has after the tick.
pub open spec fn note_value(n: NoteView, rate: int, i: int) -> int {
    if n.state == NoteState::Dead {
        0
    } else {
        scale_by_volume(
            envelope_after(n.state, n.volume, n.target_volume).1,
            generators_value(n.generators, rate, i),
        )
    }
}

/// The voice after its finger is lifted: dying, unless it was dead already.
pub open spec fn note_killed(n: NoteView) -> NoteView {
    if n.state == NoteState::Dead {
        n
    } else {
        NoteView { state: NoteState::Dying, ..n }
    }
}

/// The multiplier, in millionths, for a tip that moved from `last_x` to `new_x`:
/// one, and a millionth more for each thousandth of a unit moved.
pub open spec fn bend_multiplier(last_x: int, new_x: int) -> int {
    PPM_ONE + (new_x - last_x)
}

/// The voice after its tip is seen at `position`: where the tip has moved sideways,
/// every generator's target frequency is multiplied, and the new `x` is kept.
pub open spec fn note_moved(n: NoteView, position: Vector) -> NoteView {
    if position.x != n.position.x {
        NoteView {
            generators: generators_bent(n.generators, bend_multiplier(n.position.x as int, position.x as int)),
            position: Vector { x: position.x, ..n.position },
            ..n
        }
    } else {
        n
    }
}

impl Note {
    /// A voice for `finger` that starts to rise from silence.
    pub fn new(finger: Finger, trigger: TriggerDefinition, position: Vector) -> (n: Note)
        requires
            generators_wf(trigger@),
        ensures
            n@ == (NoteView {
                finger,
                state: NoteState::Rising,
                volume: 0,
                target_volume: TARGET_VOLUME as int,
                position,
                generators: trigger@,
            }),
            n@.wf(),
    {
        Note { finger, state: NoteState::Rising, volume: 0, target_volume: TARGET_VOLUME, position, trigger }
    }

    pub fn finger(&self) -> (f: Finger)
        ensures
            f == self@.finger,
    {
        self.finger
    }

    pub fn state(&self) -> (s: NoteState)
        ensures
            s == self@.state,
    {
        self.state
    }

    pub fn volume(&self) -> (v: u32)
        ensures
            v == self@.volume,
    {
        self.volume
    }

    pub fn target_volume(&self) -> (v: u32)
        ensures
            v == self@.target_volume,
    {
        self.target_volume
    }

    /// The tip position that the voice last took note of.
    pub fn position(&self) -> (p: Vector)
        ensures
            p == self@.position,
    {
        self.position
    }

    /// The voice's own generators.
    pub fn trigger(&self) -> (t: &TriggerDefinition)
        ensures
            t@ == self@.generators,
    {
        &self.trigger
    }

    /// Lets the voice die away. A dead voice stays dead.
    pub fn kill(&mut self)
        ensures
            final(self)@ == note_killed(old(self)@),
            old(self)@.wf() ==> final(self)@.wf(),
    {
        if self.state != NoteState::Dead {
            self.state = NoteState::Dying;
        }
    }

    /// Whether the voice still belongs in the pool: it is not dead.
    pub fn should_retain(&self) -> (keep: bool)
        ensures
            keep == (self@.state != NoteState::Dead),
    {
        self.state != NoteState::Dead
    }

    /// Whether this is the voice that `finger` holds.
    pub fn matches(&self, finger: Finger) -> (m: bool)
        ensures
            m == self@.matches(finger),
    {
        self.finger == finger && self.state != NoteState::Dying && self.state != NoteState::Dead
    }

    /// Moves the voice on by one sample and gives its output at tick `i` of a stream
    /// of `sample_rate` samples per second, in output units (`OUTPUT_ONE` is 1.0).
    pub fn get_sample(&mut self, sample_rate: u32, i: u32) -> (v: i64)
        requires
            old(self)@.wf(),
            sample_rate >= 1,
        ensures
            final(self)@ == note_after(old(self)@, sample_rate as int, i as int),
            v == note_value(old(self)@, sample_rate as int, i as int),
            final(self)@.wf(),
            state_rank(final(self)@.state) >= state_rank(old(self)@.state),
            old(self)@.state == NoteState::Dying ==> final(self)@.volume <= old(self)@.volume,
            old(self)@.state == NoteState::Dead ==> v == 0 && final(self)@ == old(self)@,
            -(MAX_GENERATORS as int) * 0x8000_0000 * 100 <= v <= (MAX_GENERATORS as int) * 0x8000_0000 * 100,
    {
        if self.state == NoteState::Dead {
            return 0;
        }
        proof {
            lemma_decay_shrinks(self.volume as int);
        }
        if self.state == NoteState::Rising {
            self.volume = self.volume + RISE_STEP;
            if self.volume >= self.target_volume {
                self.state = NoteState::Steady;
            }
        } else if self.state == NoteState::Dying {
            let kept: u64 = ((self.volume as u64) * (DECAY_KEEP as u64)) / (DECAY_SCALE as u64);
            if kept < DECAY_BIAS as u64 {
                self.volume = 0;
                self.state = NoteState::Dead;
            } else {
                self.volume = (kept - DECAY_BIAS as u64) as u32;
            }
        }
        let amplitude: i64 = self.trigger.get_sample(sample_rate, i);
        proof {
            lemma_scale_bounds(self.volume as int, amplitude as int);
        }
        let v: i128 = quotient_toward_zero((self.volume as i128) * (amplitude as i128), AMP_ONE as i128);
        v as i64
    }

    /// Takes note of the tip's new position: a sideways move bends the pitch of
    /// every generator, by a millionth for each thousandth of a unit.
    pub fn update_position(&mut self, position: Vector)
        requires
            old(self)@.wf(),
        ensures
            final(self)@ == note_moved(old(self)@, position),
            final(self)@.wf(),
    {
        if position.x != self.position.x {
            let delta: i64 = (position.x as i64) - (self.position.x as i64);
            let multiplier: i64 = PPM_ONE + delta;
            self.trigger.adjust_freq(multiplier);
            self.position.x = position.x;
        }
    }
}

/// The envelope after `steps` samples.
pub open spec fn envelope_run(state: NoteState, volume: int, target: int, steps: nat) -> (NoteState, int)
    decreases steps,
{
    if steps == 0 {
        (state, volume)
    } else {
        let e = envelope_run(state, volume, target, (steps - 1) as nat);
        envelope_after(e.0, e.1, target)
    }
}

/// The voice after the ticks in `ticks`, one after the other.
pub open spec fn note_run(n: NoteView, rate: int, ticks: Seq<int>) -> NoteView
    decreases ticks.len(),
{
    if ticks.len() == 0 {
        n
    } else {
        note_after(note_run(n, rate, ticks.drop_last()), rate, ticks.last())
    }
}

/// The volume stays in range: one sample on it is still at least zero and less than
/// one rising step above the target, and below the target while the voice rises.
/// While the voice dies away the volume does not grow.
pub proof fn lemma_volume_in_range(state: NoteState, volume: int, target: int)
    requires
        0 <= volume < target + RISE_STEP,
        state == NoteState::Rising ==> volume < target,
        state == NoteState::Dead ==> volume == 0,
    ensures
        0 <= envelope_after(state, volume, target).1 < target + RISE_STEP,
        envelope_after(state, volume, target).0 == NoteState::Rising ==> envelope_after(
            state,
            volume,
            target,
        ).1 < target,
        envelope_after(state, volume, target).0 == NoteState::Dead ==> envelope_after(state, volume, target).1
            == 0,
        state == NoteState::Dying ==> envelope_after(state, volume, target).1 <= volume,
{
    lemma_decay_shrinks(volume);
}

/// A state is only ever followed by itself or by a later one: rising, steady, dying,
/// dead. This holds of a sample and of a lifted finger.
pub proof fn lemma_states_go_one_way(n: NoteView, rate: int, i: int)
    ensures
        state_rank(note_after(n, rate, i).state) >= state_rank(n.state),
        state_rank(note_killed(n).state) >= state_rank(n.state),
        n.state == NoteState::Rising ==> note_after(n, rate, i).state == NoteState::Rising || note_after(
            n,
            rate,
            i,
        ).state == NoteState::Steady,
        n.state == NoteState::Steady ==> note_after(n, rate, i).state == NoteState::Steady,
        n.state == NoteState::Dying ==> note_after(n, rate, i).state == NoteState::Dying || note_after(
            n,
            rate,
            i,
        ).state == NoteState::Dead,
{
}

/// Whatever the ticks, the state of a voice never goes back.
pub proof fn lemma_run_goes_one_way(n: NoteView, rate: int, ticks: Seq<int>)
    ensures
        state_rank(note_run(n, rate, ticks).state) >= state_rank(n.state),
    decreases ticks.len(),
{
    if ticks.len() > 0 {
        lemma_run_goes_one_way(n, rate, ticks.drop_last());
        lemma_states_go_one_way(note_run(n, rate, ticks.drop_last()), rate, ticks.last());
    }
}

/// Dead is final: whatever the ticks, a dead voice stays exactly as it is, and a
/// lifted finger does not change it.
pub proof fn lemma_dead_is_final(n: NoteView, rate: int, ticks: Seq<int>)
    requires
        n.state == NoteState::Dead,
    ensures
        note_run(n, rate, ticks) == n,
        note_killed(n) == n,
    decreases ticks.len(),
{
    if ticks.len() > 0 {
        lemma_dead_is_final(n, rate, ticks.drop_last());
    }
}

/// A dead voice is silent: whatever ticks have gone by since it died, its output
/// at the next one is zero.
pub proof fn lemma_dead_is_silent(n: NoteView, rate: int, ticks: Seq<int>, i: int)
    requires
        n.state == NoteState::Dead,
    ensures
        note_value(note_run(n, rate, ticks), rate, i) == 0,
{
    lemma_dead_is_final(n, rate, ticks);
}

/// A dying voice is dead, at a volume of exactly zero, after no more samples than
/// its volume holds units, and one more.
pub proof fn lemma_dying_ends(volume: int, target: int, steps: nat)
    requires
        volume >= 0,
        steps > volume,
    ensures
        envelope_run(NoteState::Dying, volume, target, steps) == (NoteState::Dead, 0int),
{
    lemma_dying_run(volume, target, steps);
}

/// Where a dying voice stands on the way down: it loses a twenty-thousandth of
/// its volume and `DECAY_BIAS` per sample, so its volume and 20000 together shrink
/// like a rate of interest. `decay_level(0)` is 20000 itself; each further level is
/// a tenth above the one before, rounded down.
pub open spec fn decay_level(stages: nat) -> int
    decreases stages,
{
    if stages == 0 {
        20_000
    } else {
        (decay_level((stages - 1) as nat) * 11) / 10
    }
}

/// The envelope after `a + b` samples is the envelope `b` samples after the first `a`.
pub proof fn lemma_run_adds(state: NoteState, volume: int, target: int, a: nat, b: nat)
    ensures
        envelope_run(state, volume, target, a + b) == envelope_run(
            envelope_run(state, volume, target, a).0,
            envelope_run(state, volume, target, a).1,
            target,
            b,
        ),
    decreases b,
{
    if b > 0 {
        lemma_run_adds(state, volume, target, a, (b - 1) as nat);
        assert((a + b - 1) as nat == a + (b - 1) as nat);
    }
}

/// The envelope of a dead voice stays as it is.
pub proof fn lemma_dead_envelope_stays(volume: int, target: int, steps: nat)
    ensures
        envelope_run(NoteState::Dead, volume, target, steps) == (NoteState::Dead, volume),
    decreases steps,
{
    if steps > 0 {
        lemma_dead_envelope_stays(volume, target, (steps - 1) as nat);
    }
}

/// How a dying voice ends does not depend on its target.
pub proof fn lemma_decay_ignores_target(volume: int, target: int, other: int, steps: nat)
    ensures
        envelope_run(NoteState::Dying, volume, target, steps) == envelope_run(
            NoteState::Dying,
            volume,
            other,
            steps,
        ),
        envelope_run(NoteState::Dying, volume, target, steps).0 == NoteState::Dying || envelope_run(
            NoteState::Dying,
            volume,
            target,
            steps,
        ).0 == NoteState::Dead,
    decreases steps,
{
    if steps > 0 {
        lemma_decay_ignores_target(volume, target, other, (steps - 1) as nat);
    }
}

/// The state and the volume of a voice follow the envelope, whatever the ticks.
pub proof fn lemma_run_follows_envelope(n: NoteView, rate: int, ticks: Seq<int>)
    ensures
        (note_run(n, rate, ticks).state, note_run(n, rate, ticks).volume) == envelope_run(
            n.state,
            n.volume,
            n.target_volume,
            ticks.len(),
        ),
        note_run(n, rate, ticks).target_volume == n.target_volume,
    decreases ticks.len(),
{
    if ticks.len() > 0 {
        lemma_run_follows_envelope(n, rate, ticks.drop_last());
    }
}

/// A dying voice loses, per sample, at least a twenty-thousandth of its volume and
/// of 20000 together.
proof fn lemma_decay_step(volume: int)
    requires
        volume >= 0,
    ensures
        20_000 * (volume - decayed(volume)) >= volume + 20_000,
{
    let x = volume * DECAY_KEEP;
    vstd::arithmetic::div_mod::lemma_fundamental_div_mod(x, DECAY_SCALE as int);
    vstd::arithmetic::div_mod::lemma_mod_bound(x, DECAY_SCALE as int);
}

/// While a dying voice is still above a level, every sample so far has taken at
/// least a twenty-thousandth of that level off its volume.
proof fn lemma_dying_slows(volume: int, target: int, level: int, steps: nat)
    requires
        volume >= 0,
        level >= 0,
    ensures
        ({
            let e = envelope_run(NoteState::Dying, volume, target, steps);
            e == (NoteState::Dead, 0int) || (e.0 == NoteState::Dying && 0 <= e.1 <= volume && (e.1 + 20_000
                > level ==> 20_000 * (volume - e.1) >= steps * level))
        }),
    decreases steps,
{
    if steps == 0 {
        assert(steps * level == 0) by (nonlinear_arith)
            requires
                steps == 0,
        ;
    } else {
        let before = envelope_run(NoteState::Dying, volume, target, (steps - 1) as nat);
        lemma_dying_slows(volume, target, level, (steps - 1) as nat);
        if before.0 == NoteState::Dying {
            lemma_decay_shrinks(before.1);
            lemma_decay_step(before.1);
            assert((steps - 1) * level + level == steps * level) by (nonlinear_arith);
        }
    }
}

/// Two thousand samples take a dying voice from one level down to the level below.
proof fn lemma_dying_stage(volume: int, target: int, level: int)
    requires
        volume >= 0,
        level >= 0,
        10 * (volume + 20_000) <= 11 * level,
    ensures
        ({
            let e = envelope_run(NoteState::Dying, volume, target, 2000);
            e == (NoteState::Dead, 0int) || (e.0 == NoteState::Dying && 0 <= e.1 && e.1 + 20_000 <= level)
        }),
{
    lemma_dying_slows(volume, target, level, 2000);
    assert(2000nat * level == 2000 * level);
}

proof fn lemma_level_is_positive(stages: nat)
    ensures
        decay_level(stages) >= 20_000,
    decreases stages,
{
    if stages > 0 {
        lemma_level_is_positive((stages - 1) as nat);
    }
}

/// A dying voice that starts no higher than a level is dead two thousand samples
/// later for each stage of that level, and one sample more.
pub proof fn lemma_dying_ends_by_level(volume: int, target: int, stages: nat)
    requires
        volume >= 0,
        volume + 20_000 <= decay_level(stages),
    ensures
        envelope_run(NoteState::Dying, volume, target, (2000 * stages + 1) as nat) == (NoteState::Dead, 0int),
    decreases stages,
{
    if stages == 0 {
        reveal_with_fuel(envelope_run, 3);
        assert(decayed(0) == -1);
    } else {
        let level = decay_level((stages - 1) as nat);
        lemma_level_is_positive((stages - 1) as nat);
        lemma_dying_stage(volume, target, level);
        let e = envelope_run(NoteState::Dying, volume, target, 2000);
        let rest = (2000 * (stages - 1) + 1) as nat;
        lemma_run_adds(NoteState::Dying, volume, target, 2000, rest);
        assert(2000 + rest == (2000 * stages + 1) as nat);
        if e.0 == NoteState::Dead {
            lemma_dead_envelope_stays(0, target, rest);
        } else {
            lemma_dying_ends_by_level(e.1, target, (stages - 1) as nat);
        }
    }
}

/// A voice that is let go at no more than its target and one rising step is dead,
/// at a volume of exactly zero, within 150000 samples.
pub proof fn lemma_dying_ends_soon(volume: int, target: int)
    requires
        0 <= volume <= TARGET_VOLUME + RISE_STEP,
    ensures
        envelope_run(NoteState::Dying, volume, target, 150_000) == (NoteState::Dead, 0int),
{
    lemma_level_73();
    lemma_dying_ends_by_level(volume, target, 73);
    lemma_run_adds(NoteState::Dying, volume, target, 146_001, 3_999);
    lemma_dead_envelope_stays(0, target, 3_999);
}

/// The same of a voice in the pool: whatever the ticks, it is dead after 150000 of
/// them.
pub proof fn lemma_dying_note_ends_soon(n: NoteView, rate: int, ticks: Seq<int>)
    requires
        n.state == NoteState::Dying,
        0 <= n.volume <= TARGET_VOLUME + RISE_STEP,
        ticks.len() == 150_000,
    ensures
        note_run(n, rate, ticks).state == NoteState::Dead,
        note_run(n, rate, ticks).volume == 0,
{
    lemma_run_follows_envelope(n, rate, ticks);
    lemma_dying_ends_soon(n.volume, n.target_volume);
}

/// The levels, one by one: the seventy-third lies above every volume that a voice
/// can be let go at, and 20000.
proof fn lemma_level_73()
    ensures
        decay_level(73) >= 20_020_200,
{
    assert(decay_level(0) == 20_000);
    assert(decay_level(1) == 22000);
    assert(decay_level(2) == 24200);
    assert(decay_level(3) == 26620);
    assert(decay_level(4) == 29282);
    assert(decay_level(5) == 32210);
    assert(decay_level(6) == 35431);
    assert(decay_level(7) == 38974);
    assert(decay_level(8) == 42871);
    assert(decay_level(9) == 47158);
    assert(decay_level(10) == 51873);
    assert(decay_level(11) == 57060);
    assert(decay_level(12) == 62766);
    assert(decay_level(13) == 69042);
    assert(decay_level(14) == 75946);
    assert(decay_level(15) == 83540);
    assert(decay_level(16) == 91894);
    assert(decay_level(17) == 101083);
    assert(decay_level(18) == 111191);
    assert(decay_level(19) == 122310);
    assert(decay_level(20) == 134541);
    assert(decay_level(21) == 147995);
    assert(decay_level(22) == 162794);
    assert(decay_level(23) == 179073);
    assert(decay_level(24) == 196980);
    assert(decay_level(25) == 216678);
    assert(decay_level(26) == 238345);
    assert(decay_level(27) == 262179);
    assert(decay_level(28) == 288396);
    assert(decay_level(29) == 317235);
    assert(decay_level(30) == 348958);
    assert(decay_level(31) == 383853);
    assert(decay_level(32) == 422238);
    assert(decay_level(33) == 464461);
    assert(decay_level(34) == 510907);
    assert(decay_level(35) == 561997);
    assert(decay_level(36) == 618196);
    assert(decay_level(37) == 680015);
    assert(decay_level(38) == 748016);
    assert(decay_level(39) == 822817);
    assert(decay_level(40) == 905098);
    assert(decay_level(41) == 995607);
    assert(decay_level(42) == 1095167);
    assert(decay_level(43) == 1204683);
    assert(decay_level(44) == 1325151);
    assert(decay_level(45) == 1457666);
    assert(decay_level(46) == 1603432);
    assert(decay_level(47) == 1763775);
    assert(decay_level(48) == 1940152);
    assert(decay_level(49) == 2134167);
    assert(decay_level(50) == 2347583);
    assert(decay_level(51) == 2582341);
    assert(decay_level(52) == 2840575);
    assert(decay_level(53) == 3124632);
    assert(decay_level(54) == 3437095);
    assert(decay_level(55) == 3780804);
    assert(decay_level(56) == 4158884);
    assert(decay_level(57) == 4574772);
    assert(decay_level(58) == 5032249);
    assert(decay_level(59) == 5535473);
    assert(decay_level(60) == 6089020);
    assert(decay_level(61) == 6697922);
    assert(decay_level(62) == 7367714);
    assert(decay_level(63) == 8104485);
    assert(decay_level(64) == 8914933);
    assert(decay_level(65) == 9806426);
    assert(decay_level(66) == 10787068);
    assert(decay_level(67) == 11865774);
    assert(decay_level(68) == 13052351);
    assert(decay_level(69) == 14357586);
    assert(decay_level(70) == 15793344);
    assert(decay_level(71) == 17372678);
    assert(decay_level(72) == 19109945);
    assert(decay_level(73) == 21020939);
}

/// After `steps` samples a dying voice is dead and silent, or still dying with at
/// least `steps` units of volume gone.
proof fn lemma_dying_run(volume: int, target: int, steps: nat)
    requires
        volume >= 0,
    ensures
        ({
            let e = envelope_run(NoteState::Dying, volume, target, steps);
            e == (NoteState::Dead, 0int) || (e.0 == NoteState::Dying && 0 <= e.1 <= volume - steps)
        }),
    decreases steps,
{
    if steps > 0 {
        lemma_dying_run(volume, target, (steps - 1) as nat);
        let e = envelope_run(NoteState::Dying, volume, target, (steps - 1) as nat);
        if e.0 == NoteState::Dying {
            lemma_decay_shrinks(e.1);
        }
    }
}

/// A dying voice never gets louder, and loses at least one unit while it sounds.
pub proof fn lemma_decay_shrinks(volume: int)
    requires
        volume >= 0,
    ensures
        decayed(volume) < volume,
        decayed(volume) >= -1,
        0 <= (volume * DECAY_KEEP) / (DECAY_SCALE as int) <= volume,
{
    let x = volume * DECAY_KEEP;
    let q = x / (DECAY_SCALE as int);
    vstd::arithmetic::div_mod::lemma_fundamental_div_mod(x, DECAY_SCALE as int);
    vstd::arithmetic::div_mod::lemma_mod_bound(x, DECAY_SCALE as int);
}

/// At a volume of no more than full scale, the output is no further from zero than
/// the amplitude, taken in output units.
pub proof fn lemma_scale_bounds(volume: int, amplitude: int)
    requires
        0 <= volume <= VOLUME_ONE,
    ensures
        amplitude >= 0 ==> 0 <= scale_by_volume(volume, amplitude) <= 100 * amplitude,
        amplitude <= 0 ==> 100 * amplitude <= scale_by_volume(volume, amplitude) <= 0,
        amplitude >= 0 ==> 0 <= volume * amplitude <= VOLUME_ONE * amplitude,
        amplitude <= 0 ==> VOLUME_ONE * amplitude <= volume * amplitude <= 0,
{
    let x = volume * amplitude;
    let top = VOLUME_ONE as int;
    let one = AMP_ONE as int;
    if amplitude >= 0 {
        assert(0 <= x <= top * amplitude) by (nonlinear_arith)
            requires
                0 <= volume <= top,
                amplitude >= 0,
                x == volume * amplitude,
        ;
        vstd::arithmetic::div_mod::lemma_fundamental_div_mod(x, one);
        vstd::arithmetic::div_mod::lemma_mod_bound(x, one);
        assert(0 <= x / one <= 100 * amplitude) by (nonlinear_arith)
            requires
                one == 1_000_000,
                0 <= x <= 100_000_000 * amplitude,
                x == one * (x / one) + x % one,
                0 <= x % one < one,
        ;
    } else {
        assert(top * amplitude <= x <= 0) by (nonlinear_arith)
            requires
                0 <= volume <= top,
                amplitude < 0,
                x == volume * amplitude,
        ;
        vstd::arithmetic::div_mod::lemma_fundamental_div_mod(-x, one);
        vstd::arithmetic::div_mod::lemma_mod_bound(-x, one);
        assert(0 <= (-x) / one <= 100 * (-amplitude)) by (nonlinear_arith)
            requires
                one == 1_000_000,
                0 <= -x <= 100_000_000 * (-amplitude),
                -x == one * ((-x) / one) + (-x) % one,
                0 <= (-x) % one < one,
        ;
    }
}

/// A voice whose generators stand at full scale gives exactly its volume, and
/// exactly its volume below zero where they stand at full scale below zero.
pub proof fn lemma_full_scale_output(volume: int)
    requires
        volume >= 0,
    ensures
        scale_by_volume(volume, AMP_ONE as int) == volume,
        scale_by_volume(volume, -AMP_ONE) == -volume,
{
    let one = AMP_ONE as int;
    assert(volume * one == one * volume) by (nonlinear_arith);
    assert(volume * (-one) == -(one * volume)) by (nonlinear_arith);
    assert(one * volume >= 0) by (nonlinear_arith)
        requires
            volume >= 0,
            one == 1_000_000,
    ;
    vstd::arithmetic::div_mod::lemma_div_multiples_vanish(volume, one);
}

} // verus!
