//! The scripted menu inputs that bring the game from its main menu into a
//! two-player session on an empty save slot.

use vstd::prelude::*;

verus! {

/// D-pad down.
pub const BTN_DOWN: u16 = 0x0002;
/// D-pad left.
pub const BTN_LEFT: u16 = 0x0004;
/// D-pad right.
pub const BTN_RIGHT: u16 = 0x0008;
/// Back.
pub const BTN_BACK: u16 = 0x0020;
/// A.
pub const BTN_A: u16 = 0x1000;

/// One step of a scripted sequence: `input` is held by `player` for `hold`
/// frames, then nothing is pressed for `delay_after` frames.
#[derive(Clone, Copy)]
pub struct SeqInput {
    pub input: u16,
    pub hold: u32,
    pub delay_after: u32,
    pub player: u8,
}

impl SeqInput {
    /// A step from its parts.
    pub fn new(btns: u16, hold: u32, player: u8, delay_after: u32) -> (res: SeqInput)
        ensures
            res == (SeqInput { input: btns, hold, delay_after, player }),
    {
        SeqInput { input: btns, hold, player, delay_after }
    }
}

/// A step whose frame counts stay in the range of frame numbers.
pub open spec fn step_fits(s: SeqInput) -> bool {
    s.hold + s.delay_after <= i32::MAX
}

/// Shorthand for a step of player 0.
pub open spec fn p0(input: u16, hold: u32, delay_after: u32) -> SeqInput {
    SeqInput { input, hold, delay_after, player: 0 }
}

/// The start-up script: pick the empty save slot, spell the profile name,
/// decline the body swap, enable co-op, assign both controllers and confirm.
pub open spec fn game_init_steps() -> Seq<SeqInput> {
    seq![
        p0(BTN_A, 5, 0), p0(BTN_A, 5, 0), p0(BTN_A, 5, 0), p0(BTN_A, 5, 180),
        p0(BTN_LEFT, 1, 0), p0(BTN_LEFT, 1, 0), p0(BTN_LEFT, 1, 0), p0(BTN_A, 1, 0),
        p0(BTN_LEFT, 1, 0), p0(BTN_A, 1, 30), p0(BTN_A, 1, 240),
        p0(BTN_RIGHT, 1, 0), p0(BTN_RIGHT, 1, 0), p0(BTN_DOWN, 1, 0), p0(BTN_A, 1, 0),
        p0(BTN_LEFT, 1, 0), p0(BTN_LEFT, 1, 0), p0(BTN_LEFT, 1, 0), p0(BTN_LEFT, 1, 0),
        p0(BTN_LEFT, 1, 0), p0(BTN_A, 1, 0),
        p0(BTN_LEFT, 1, 0), p0(BTN_LEFT, 1, 0), p0(BTN_LEFT, 1, 0), p0(BTN_LEFT, 1, 0),
        p0(BTN_A, 1, 0),
        p0(BTN_LEFT, 1, 0), p0(BTN_LEFT, 1, 0), p0(BTN_LEFT, 1, 0), p0(BTN_LEFT, 1, 0),
        p0(BTN_A, 1, 0), p0(BTN_DOWN, 1, 0), p0(BTN_RIGHT, 1, 0), p0(BTN_RIGHT, 1, 0),
        p0(BTN_A, 1, 0), p0(BTN_DOWN, 1, 0), p0(BTN_LEFT, 1, 0), p0(BTN_LEFT, 1, 0),
        p0(BTN_LEFT, 1, 0), p0(BTN_DOWN, 1, 0), p0(BTN_A, 1, 4),
        p0(BTN_A, 1, 0),
        p0(BTN_BACK, 1, 20),
        p0(BTN_A, 100, 10),
        SeqInput { input: BTN_A, hold: 100, delay_after: 20, player: 1 },
        p0(BTN_A, 2, 0), p0(BTN_A, 2, 0)
    ]
}

/// A script and the index of the step that runs next.
pub struct InputSequence {
    sequence: Vec<SeqInput>,
    seq_index: usize,
}

impl InputSequence {
    #[verifier::type_invariant]
    spec fn well_formed(self) -> bool {
        &&& self.seq_index <= self.sequence@.len()
        &&& forall|i: int| 0 <= i < self.sequence@.len() ==> step_fits(#[trigger] self.sequence@[i])
    }

    /// The steps of the script.
    pub closed spec fn steps(&self) -> Seq<SeqInput> {
        self.sequence@
    }

    /// The index of the step that runs next (the length once all have run).
    pub closed spec fn index(&self) -> nat {
        self.seq_index as nat
    }

    /// The start-up script, positioned at its first step.
    pub fn init_game_seq() -> (res: InputSequence)
        ensures
            res.steps() == game_init_steps(),
            res.index() == 0,
    {
        let seq: Vec<SeqInput> = vec![
            SeqInput::new(BTN_A, 5, 0, 0),
            SeqInput::new(BTN_A, 5, 0, 0),
            SeqInput::new(BTN_A, 5, 0, 0),
            SeqInput::new(BTN_A, 5, 0, 180),
            SeqInput::new(BTN_LEFT, 1, 0, 0),
            SeqInput::new(BTN_LEFT, 1, 0, 0),
            SeqInput::new(BTN_LEFT, 1, 0, 0),
            SeqInput::new(BTN_A, 1, 0, 0),
            SeqInput::new(BTN_LEFT, 1, 0, 0),
            SeqInput::new(BTN_A, 1, 0, 30),
            SeqInput::new(BTN_A, 1, 0, 240),
            SeqInput::new(BTN_RIGHT, 1, 0, 0),
            SeqInput::new(BTN_RIGHT, 1, 0, 0),
            SeqInput::new(BTN_DOWN, 1, 0, 0),
            SeqInput::new(BTN_A, 1, 0, 0),
            SeqInput::new(BTN_LEFT, 1, 0, 0),
            SeqInput::new(BTN_LEFT, 1, 0, 0),
            SeqInput::new(BTN_LEFT, 1, 0, 0),
            SeqInput::new(BTN_LEFT, 1, 0, 0),
            SeqInput::new(BTN_LEFT, 1, 0, 0),
            SeqInput::new(BTN_A, 1, 0, 0),
            SeqInput::new(BTN_LEFT, 1, 0, 0),
            SeqInput::new(BTN_LEFT, 1, 0, 0),
            SeqInput::new(BTN_LEFT, 1, 0, 0),
            SeqInput::new(BTN_LEFT, 1, 0, 0),
            SeqInput::new(BTN_A, 1, 0, 0),
            SeqInput::new(BTN_LEFT, 1, 0, 0),
            SeqInput::new(BTN_LEFT, 1, 0, 0),
            SeqInput::new(BTN_LEFT, 1, 0, 0),
            SeqInput::new(BTN_LEFT, 1, 0, 0),
            SeqInput::new(BTN_A, 1, 0, 0),
            SeqInput::new(BTN_DOWN, 1, 0, 0),
            SeqInput::new(BTN_RIGHT, 1, 0, 0),
            SeqInput::new(BTN_RIGHT, 1, 0, 0),
            SeqInput::new(BTN_A, 1, 0, 0),
            SeqInput::new(BTN_DOWN, 1, 0, 0),
            SeqInput::new(BTN_LEFT, 1, 0, 0),
            SeqInput::new(BTN_LEFT, 1, 0, 0),
            SeqInput::new(BTN_LEFT, 1, 0, 0),
            SeqInput::new(BTN_DOWN, 1, 0, 0),
            SeqInput::new(BTN_A, 1, 0, 4),
            SeqInput::new(BTN_A, 1, 0, 0),
            SeqInput::new(BTN_BACK, 1, 0, 20),
            SeqInput::new(BTN_A, 100, 0, 10),
            SeqInput::new(BTN_A, 100, 1, 20),
            SeqInput::new(BTN_A, 2, 0, 0),
            SeqInput::new(BTN_A, 2, 0, 0),
        ];
        assert(seq@ =~= game_init_steps());
        InputSequence { seq_index: 0, sequence: seq }
    }

    /// The step that runs next, if any is left.
    pub fn current(&self) -> (res: Option<SeqInput>)
        ensures
            self.index() < self.steps().len() ==> res == Some(self.steps()[self.index() as int]),
            self.index() >= self.steps().len() ==> res is None,
            self.index() <= self.steps().len(),
            res matches Some(s) ==> step_fits(s),
    {
        proof {
            use_type_invariant(self);
        }
        if self.seq_index < self.sequence.len() {
            Some(self.sequence[self.seq_index])
        } else {
            None
        }
    }

    /// Moves on to the next step.
    pub fn advance(&mut self)
        requires
            old(self).index() < old(self).steps().len(),
        ensures
            final(self).steps() == old(self).steps(),
            final(self).index() == old(self).index() + 1,
        no_unwind
    {
        proof {
            use_type_invariant(&*self);
        }
        let n = self.sequence.len();
        assert(self.seq_index < n);
        self.seq_index = self.seq_index + 1;
    }
}

} // verus!
