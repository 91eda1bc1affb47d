//! The per-frame decisions of the payload: it is called once per game frame
//! (from the hooked frame delay), first plays the start-up script and then
//! waits until both players' inputs for the frame are known and applies them.
//! Driving the virtual pads and sleeping are left to the caller, which
//! performs the `PadCommand`s and `WaitStep`s that these functions return.

use vstd::prelude::*;
use crate::input_queue::{GameInputQueue, ring_has, ring_input};
use crate::init_sequence::{InputSequence, SeqInput, step_fits};

verus! {

/// Polls of the input rings per frame.
pub const NUM_ITERATIONS: u32 = 4;

/// Polls after which waiting for a frame's inputs gives up (ten seconds of
/// frames at four polls each).
pub const MAX_WAIT_TIME: u32 = 60 * 4 * 10;

/// Set the virtual pad of `player` (0 or 1) to `buttons`.
#[derive(Clone, Copy, PartialEq, Eq, Debug)]
pub struct PadCommand {
    pub buttons: u16,
    pub player: u8,
}

/// What one hook call asks of its caller before it returns: the pad update of
/// the start-up script, if it issued one, and whether the frame has to be
/// synchronised (wait for both inputs, then apply them).
#[derive(Clone, Copy, PartialEq, Eq, Debug)]
pub struct HookCall {
    pub init_pad: Option<PadCommand>,
    pub sync: bool,
}

/// One poll of the wait for a frame's inputs.
#[derive(Clone, Copy, PartialEq, Eq, Debug)]
pub enum WaitStep {
    /// Both inputs are there; the game should still delay for `wait_time` ms.
    Ready { wait_time: u32 },
    /// Not yet: sleep `millis` ms, then poll again with `frame_wait`.
    Sleep { millis: u32, frame_wait: u32 },
    /// Not after `MAX_WAIT_TIME` polls: the session cannot be kept in sync.
    GiveUp,
}

/// The buttons that step `s` presses on frame `frame` of its run.
pub open spec fn step_buttons(s: SeqInput, frame: int) -> u16 {
    if 0 <= frame < s.hold {
        s.input
    } else {
        0
    }
}

/// Whether step `s` ends on frame `frame`: its pause is over and nothing is pressed.
pub open spec fn step_finished(s: SeqInput, frame: int) -> bool {
    frame == s.hold + s.delay_after && step_buttons(s, frame) == 0
}

/// One poll of the wait, given whether both inputs are present.
pub open spec fn spec_wait_step(ready: bool, ms: u32, frame_wait: u32) -> WaitStep {
    if ready {
        WaitStep::Ready { wait_time: spec_remaining_wait(ms, frame_wait) as u32 }
    } else if frame_wait + 1 == MAX_WAIT_TIME {
        WaitStep::GiveUp
    } else {
        WaitStep::Sleep { millis: ms / NUM_ITERATIONS, frame_wait: (frame_wait + 1) as u32 }
    }
}

/// The number of sleeps that polling from `frame_wait` on performs while
/// the inputs' presence stays `ready` (the rings do not change during a wait).
pub open spec fn sleeps_until_done(ready: bool, ms: u32, frame_wait: u32) -> nat
    decreases MAX_WAIT_TIME - frame_wait,
{
    if frame_wait >= MAX_WAIT_TIME {
        0
    } else {
        match spec_wait_step(ready, ms, frame_wait) {
            WaitStep::Sleep { frame_wait: next, .. } => if next > frame_wait {
                1 + sleeps_until_done(ready, ms, next)
            } else {
                0
            },
            _ => 0,
        }
    }
}

/// The part of a frame's `ms` delay that is left after `frame_wait` polls,
/// each of which slept a quarter of it.
pub open spec fn spec_remaining_wait(ms: u32, frame_wait: u32) -> int {
    if frame_wait == 0 {
        ms as int
    } else if frame_wait <= NUM_ITERATIONS {
        ms - (ms / NUM_ITERATIONS) * frame_wait
    } else {
        0
    }
}

/// The delay left of `ms` after `frame_wait` polls (see `spec_remaining_wait`).
pub fn remaining_wait(ms: u32, frame_wait: u32) -> (res: u32)
    ensures
        res == spec_remaining_wait(ms, frame_wait),
{
    let mut wait_time = ms;
    if frame_wait > 0 && frame_wait <= NUM_ITERATIONS {
        let slice = ms / NUM_ITERATIONS;
        assert(slice * frame_wait <= ms) by (nonlinear_arith)
            requires
                slice == ms / 4,
                frame_wait <= 4,
        ;
        wait_time = ms - slice * frame_wait;
    }
    if frame_wait > NUM_ITERATIONS {
        wait_time = 0;
    }
    wait_time
}

/// The frame state of the payload: the frame counter, both players' input
/// rings and the start-up script.
pub struct GameInputHandler {
    current_frame: i32,
    p1_buffer: GameInputQueue,
    p2_buffer: GameInputQueue,
    first_time: bool,
    init_sequence: InputSequence,
}

impl GameInputHandler {
    #[verifier::type_invariant]
    spec fn script_consistent(self) -> bool {
        &&& self.init_sequence.index() <= self.init_sequence.steps().len()
        &&& !self.first_time ==> self.init_sequence.index() == self.init_sequence.steps().len()
    }

    /// The number of the current frame (-1 before the first, and at the
    /// restart of each start-up step).
    pub closed spec fn frame(&self) -> int {
        self.current_frame as int
    }

    /// Whether the start-up script is still running.
    pub closed spec fn initializing(&self) -> bool {
        self.first_time
    }

    /// The start-up script's steps.
    pub closed spec fn steps(&self) -> Seq<SeqInput> {
        self.init_sequence.steps()
    }

    /// The index of the start-up step that runs next.
    pub closed spec fn step_index(&self) -> nat {
        self.init_sequence.index()
    }

    /// Player one's input ring.
    pub closed spec fn p1(&self) -> Seq<crate::input_queue::GameInput> {
        self.p1_buffer@
    }

    /// Player two's input ring.
    pub closed spec fn p2(&self) -> Seq<crate::input_queue::GameInput> {
        self.p2_buffer@
    }

    /// The current frame number.
    pub fn current_frame(&self) -> (res: i32)
        ensures
            res == self.frame(),
            self.step_index() <= self.steps().len(),
            !self.initializing() ==> self.step_index() == self.steps().len(),
    {
        proof {
            use_type_invariant(self);
        }
        self.current_frame
    }

    /// One step of the start-up script on the current frame: press the step's
    /// buttons while it is held, and when it has ended restart the frame
    /// count and move to the next step. Once every step has run, the script
    /// is over and nothing is pressed.
    fn do_init_sequence(&mut self) -> (res: Option<PadCommand>)
        requires
            old(self).initializing(),
        ensures
            final(self).steps() == old(self).steps(),
            final(self).p1() == old(self).p1(),
            final(self).p2() == old(self).p2(),
            ({
                let idx = old(self).step_index();
                let f = old(self).frame();
                if idx < old(self).steps().len() {
                    let s = old(self).steps()[idx as int];
                    &&& res == Some(PadCommand { buttons: step_buttons(s, f), player: s.player })
                    &&& final(self).initializing() == old(self).initializing()
                    &&& if step_finished(s, f) {
                        final(self).frame() == -1 && final(self).step_index() == idx + 1
                    } else {
                        final(self).frame() == f && final(self).step_index() == idx
                    }
                } else {
                    &&& res is None
                    &&& !final(self).initializing()
                    &&& final(self).frame() == f
                    &&& final(self).step_index() == idx
                }
            }),
    {
        let mut inp: u16 = 0;
        let seq = self.init_sequence.current();
        match seq {
            None => {
                self.first_time = false;
                None
            },
            Some(step) => {
                assert(step_fits(step));
                let player = step.player;
                if self.current_frame >= 0 && self.current_frame < step.hold as i32 {
                    inp = step.input;
                }
                if self.current_frame == (step.hold + step.delay_after) as i32 && inp == 0 {
                    self.current_frame = -1;
                    self.init_sequence.advance();
                }
                Some(PadCommand { buttons: inp, player })
            },
        }
    }

    /// The first part of a hook call: count the frame, run the start-up
    /// script while it lasts, and say whether this frame must be synchronised.
    pub fn on_hook_call(&mut self) -> (res: HookCall)
        requires
            old(self).frame() < i32::MAX,
        ensures
            final(self).steps() == old(self).steps(),
            old(self).step_index() <= final(self).step_index() <= old(self).step_index() + 1,
            final(self).step_index() <= final(self).steps().len(),
            !final(self).initializing() ==> final(self).step_index() == final(self).steps().len(),
            !old(self).initializing() ==> !final(self).initializing(),
            final(self).p1() == old(self).p1(),
            final(self).p2() == old(self).p2(),
            ({
                let idx = old(self).step_index();
                let f = old(self).frame() + 1;
                if old(self).initializing() && idx < old(self).steps().len() {
                    let s = old(self).steps()[idx as int];
                    &&& res.init_pad == Some(PadCommand { buttons: step_buttons(s, f), player: s.player })
                    &&& (0 <= f < s.hold ==> res.init_pad == Some(PadCommand { buttons: s.input, player: s.player }))
                    &&& (f >= s.hold ==> res.init_pad == Some(PadCommand { buttons: 0, player: s.player }))
                    &&& final(self).initializing()
                    &&& if step_finished(s, f) {
                        final(self).frame() == -1 && final(self).step_index() == idx + 1
                    } else {
                        final(self).frame() == f && final(self).step_index() == idx
                    }
                } else {
                    &&& res.init_pad is None
                    &&& !final(self).initializing()
                    &&& final(self).frame() == f
                    &&& final(self).step_index() == idx
                }
            }),
            res.sync == (final(self).frame() >= 0 && !final(self).initializing()),
    {
        proof {
            use_type_invariant(&*self);
        }
        self.current_frame = self.current_frame + 1;
        let mut init_pad: Option<PadCommand> = None;
        if self.first_time {
            init_pad = self.do_init_sequence();
        }
        let sync = self.current_frame >= 0 && !self.first_time;
        HookCall { init_pad, sync }
    }

    /// One poll of the wait for the current frame's inputs, after
    /// `frame_wait` polls that found them missing.
    pub fn wait_step(&self, ms: u32, frame_wait: u32) -> (res: WaitStep)
        requires
            frame_wait < MAX_WAIT_TIME,
        ensures
            res == spec_wait_step(
                ring_has(self.p1(), self.frame()) && ring_has(self.p2(), self.frame()),
                ms,
                frame_wait,
            ),
            res matches WaitStep::Ready { wait_time } ==> wait_time <= ms,
            ring_has(self.p1(), self.frame()) && ring_has(self.p2(), self.frame()) ==> res
                == (WaitStep::Ready {
                wait_time: (if frame_wait <= NUM_ITERATIONS {
                    ms - (ms / 4) * frame_wait
                } else {
                    0
                }) as u32,
            }),
    {
        proof {
            lemma_remaining_wait_bounds(ms, frame_wait, frame_wait);
        }
        let frame = self.current_frame;
        if self.p1_buffer.has_input(frame) && self.p2_buffer.has_input(frame) {
            return WaitStep::Ready { wait_time: remaining_wait(ms, frame_wait) };
        }
        let next = frame_wait + 1;
        if next == MAX_WAIT_TIME {
            WaitStep::GiveUp
        } else {
            WaitStep::Sleep { millis: ms / NUM_ITERATIONS, frame_wait: next }
        }
    }

    /// The pad updates that apply both players' inputs for the current frame.
    pub fn apply_input(&self) -> (res: (PadCommand, PadCommand))
        ensures
            res.0 == (PadCommand { buttons: ring_input(self.p1(), self.frame()), player: 0 }),
            res.1 == (PadCommand { buttons: ring_input(self.p2(), self.frame()), player: 1 }),
    {
        let frame = self.current_frame;
        let p1 = self.p1_buffer.get_input(frame);
        let p2 = self.p2_buffer.get_input(frame);
        (PadCommand { buttons: p1, player: 0 }, PadCommand { buttons: p2, player: 1 })
    }
}

impl Default for GameInputHandler {
    /// A handler before its first frame: fresh rings, the start-up script at
    /// its first step.
    fn default() -> (res: GameInputHandler)
        ensures
            res.frame() == -1,
            res.initializing(),
            res.steps() == crate::init_sequence::game_init_steps(),
            res.step_index() == 0,
            res.p1() == crate::input_queue::fresh_ring(),
            res.p2() == crate::input_queue::fresh_ring(),
    {
        GameInputHandler {
            current_frame: -1,
            p1_buffer: GameInputQueue::new(),
            p2_buffer: GameInputQueue::new(),
            first_time: true,
            init_sequence: InputSequence::init_game_seq(),
        }
    }
}


/// Each start-up step ends on exactly one frame of its run: the one at which
/// its hold and its pause have both passed.
pub proof fn lemma_step_ends_after_hold_and_pause(s: SeqInput, frame: int)
    ensures
        step_finished(s, frame) <==> frame == s.hold + s.delay_after,
{
}

/// The delay left after waiting never exceeds the frame's delay, and the
/// more polls it took, the less of it is left.
pub proof fn lemma_remaining_wait_bounds(ms: u32, a: u32, b: u32)
    ensures
        0 <= spec_remaining_wait(ms, a) <= ms,
        a <= b ==> spec_remaining_wait(ms, b) <= spec_remaining_wait(ms, a),
{
    if a <= 4 {
        assert((ms / 4) * a <= ms) by (nonlinear_arith)
            requires
                a <= 4,
        ;
    }
    if a <= b {
        assert((ms / 4) * a <= (ms / 4) * b) by (nonlinear_arith)
            requires
                a <= b,
        ;
    }
}

/// Inputs that never arrive are polled `MAX_WAIT_TIME` times: the wait sleeps
/// `MAX_WAIT_TIME - 1` times and then gives up.
pub proof fn lemma_unready_frame_gives_up(ms: u32, frame_wait: u32)
    requires
        frame_wait < MAX_WAIT_TIME,
    ensures
        sleeps_until_done(false, ms, frame_wait) == MAX_WAIT_TIME - 1 - frame_wait,
    decreases MAX_WAIT_TIME - frame_wait,
{
    if frame_wait + 1 < MAX_WAIT_TIME {
        lemma_unready_frame_gives_up(ms, (frame_wait + 1) as u32);
    }
}

/// The wait for a frame's inputs always ends: each poll that sleeps moves on
/// to the next poll count, which stays below `MAX_WAIT_TIME`, so at most
/// `MAX_WAIT_TIME - 1` sleeps happen before the wait is ready or gives up;
/// when it is ready, the delay left is at most the frame's delay.
pub proof fn lemma_wait_ends(ready: bool, ms: u32, frame_wait: u32)
    requires
        frame_wait < MAX_WAIT_TIME,
    ensures
        sleeps_until_done(ready, ms, frame_wait) <= MAX_WAIT_TIME - 1 - frame_wait,
        ready ==> sleeps_until_done(ready, ms, frame_wait) == 0,
        match spec_wait_step(ready, ms, frame_wait) {
            WaitStep::Sleep { frame_wait: next, .. } => next == frame_wait + 1 && next
                < MAX_WAIT_TIME,
            WaitStep::Ready { wait_time } => wait_time <= ms,
            WaitStep::GiveUp => !ready && frame_wait + 1 == MAX_WAIT_TIME,
        },
{
    lemma_remaining_wait_bounds(ms, frame_wait, frame_wait);
    if !ready {
        lemma_unready_frame_gives_up(ms, frame_wait);
    }
}


/// While a step is held its buttons are pressed, and from the end of its
/// hold on nothing is: the pad sees exactly the step's input on its first
/// `hold` frames.
pub proof fn lemma_step_presses_its_input(s: SeqInput, frame: int)
    ensures
        0 <= frame < s.hold ==> step_buttons(s, frame) == s.input,
        (frame < 0 || frame >= s.hold) ==> step_buttons(s, frame) == 0,
        !step_finished(s, frame) || frame >= s.hold,
{
}

/// Once both inputs are there the wait returns what is left of the frame's
/// delay: all of it after no poll, a quarter less per poll that slept, and
/// nothing once the polls have used up the frame (spilling over adds no
/// extra delay). The later the inputs arrive, the less is left.
pub proof fn lemma_ready_wait_is_remaining_delay(ms: u32, frame_wait: u32)
    ensures
        spec_wait_step(true, ms, frame_wait) == (WaitStep::Ready {
            wait_time: (if frame_wait <= NUM_ITERATIONS {
                ms - (ms / 4) * frame_wait
            } else {
                0
            }) as u32,
        }),
        frame_wait == 0 ==> spec_wait_step(true, ms, frame_wait) == (WaitStep::Ready { wait_time: ms }),
        frame_wait > NUM_ITERATIONS ==> spec_wait_step(true, ms, frame_wait) == (WaitStep::Ready { wait_time: 0 }),
        forall|a: u32, b: u32|
            a <= b ==> #[trigger] spec_remaining_wait(ms, b) <= #[trigger] spec_remaining_wait(ms, a),
{
    assert forall|a: u32, b: u32|
        a <= b implies #[trigger] spec_remaining_wait(ms, b) <= #[trigger] spec_remaining_wait(ms, a) by {
        lemma_remaining_wait_bounds(ms, a, b);
    }
}

} // verus!
