//! A fixed ring of per-frame inputs, indexed by frame number modulo its size.

use vstd::prelude::*;

verus! {

/// Number of slots in an input ring.
pub const BUFFER_SIZE: i32 = 64;

/// Number of leading frames that a fresh ring already holds (as empty inputs),
/// so that play can start before any remote input has arrived.
pub const DELAY: i32 = 5;

/// The input recorded for one frame; `frame == -1` marks a slot that holds none.
#[derive(Clone, Copy)]
pub struct GameInput {
    pub frame: i32,
    pub input: u16,
}

impl GameInput {
    /// An empty slot: no frame, no buttons.
    pub fn default() -> (res: GameInput)
        ensures
            res.frame == -1,
            res.input == 0,
    {
        GameInput { frame: -1i32, input: 0u16 }
    }
}

/// The slot that frame `frame` reaches: `frame % BUFFER_SIZE` with Rust's
/// truncating remainder, cast to `usize`. For a negative frame that is not a
/// multiple of the size the cast index lies far past the ring, so no slot is
/// reached.
pub open spec fn ring_slot(frame: int) -> Option<int> {
    if frame >= 0 {
        Some(frame % (BUFFER_SIZE as int))
    } else if (-frame) % (BUFFER_SIZE as int) == 0 {
        Some(0)
    } else {
        None
    }
}

/// Whether `ring` holds the input of `frame`.
pub open spec fn ring_has(ring: Seq<GameInput>, frame: int) -> bool {
    match ring_slot(frame) {
        Some(i) => 0 <= i < ring.len() && ring[i].frame == frame,
        None => false,
    }
}

/// The buttons that `ring` reports for `frame` (0 where no slot is reached).
pub open spec fn ring_input(ring: Seq<GameInput>, frame: int) -> u16 {
    match ring_slot(frame) {
        Some(i) => if 0 <= i < ring.len() { ring[i].input } else { 0 },
        None => 0,
    }
}

/// The contents of a fresh ring: slots `0..DELAY` hold their own frame with no
/// buttons, the rest are empty.
pub open spec fn fresh_ring() -> Seq<GameInput> {
    Seq::new(
        BUFFER_SIZE as nat,
        |i: int| if i < DELAY { GameInput { frame: i as i32, input: 0u16 } } else { GameInput { frame: -1i32, input: 0u16 } },
    )
}

/// A ring of `BUFFER_SIZE` inputs.
pub struct GameInputQueue {
    queue: Vec<GameInput>,
}

impl View for GameInputQueue {
    type V = Seq<GameInput>;

    closed spec fn view(&self) -> Seq<GameInput> {
        self.queue@
    }
}

impl GameInputQueue {
    #[verifier::type_invariant]
    spec fn ring_size(self) -> bool {
        self.queue@.len() == BUFFER_SIZE
    }

    /// A fresh ring (see `fresh_ring`).
    pub fn new() -> (q: GameInputQueue)
        ensures
            q@ == fresh_ring(),
    {
        let mut q: Vec<GameInput> = Vec::new();
        let mut n: i32 = 0;
        while n < BUFFER_SIZE
            invariant
                0 <= n <= BUFFER_SIZE,
                q@.len() == n,
                forall|j: int| 0 <= j < n ==> q@[j] == (GameInput { frame: -1i32, input: 0u16 }),
            decreases BUFFER_SIZE - n,
        {
            q.push(GameInput::default());
            n = n + 1;
        }
        let mut i: i32 = 0;
        while i < DELAY
            invariant
                0 <= i <= DELAY,
                q@.len() == BUFFER_SIZE,
                forall|j: int| 0 <= j < i ==> q@[j] == (GameInput { frame: j as i32, input: 0u16 }),
                forall|j: int| i <= j < BUFFER_SIZE ==> q@[j] == (GameInput { frame: -1i32, input: 0u16 }),
            decreases DELAY - i,
        {
            let idx: usize = i as usize;
            let mut slot = q[idx];
            slot.frame = i;
            q.set(idx, slot);
            i = i + 1;
        }
        assert(q@ =~= fresh_ring());
        GameInputQueue { queue: q }
    }

    /// The slot index that `frame` reaches, as in `ring_slot`.
    fn slot_of(frame: i32) -> (res: Option<usize>)
        ensures
            match ring_slot(frame as int) {
                Some(i) => res == Some(i as usize),
                None => res is None,
            },
    {
        if frame >= 0 {
            Some((frame % BUFFER_SIZE) as usize)
        } else {
            let neg: i64 = -(frame as i64);
            if neg % (BUFFER_SIZE as i64) == 0 {
                Some(0)
            } else {
                None
            }
        }
    }

    /// Whether the ring holds the input of `frame`.
    pub fn has_input(&self, frame: i32) -> (res: bool)
        ensures
            res == ring_has(self@, frame as int),
    {
        proof {
            use_type_invariant(self);
        }
        match Self::slot_of(frame) {
            Some(i) => frame == self.queue[i].frame,
            None => false,
        }
    }

    /// The buttons recorded in the slot that `frame` reaches (0 if none).
    pub fn get_input(&self, frame: i32) -> (res: u16)
        ensures
            res == ring_input(self@, frame as int),
    {
        proof {
            use_type_invariant(self);
        }
        match Self::slot_of(frame) {
            Some(i) => self.queue[i].input,
            None => 0,
        }
    }
}


/// A fresh ring holds exactly the frames `0..DELAY`, and reports no buttons
/// for any frame.
pub proof fn lemma_fresh_ring(frame: int)
    ensures
        ring_has(fresh_ring(), frame) <==> 0 <= frame < DELAY,
        ring_input(fresh_ring(), frame) == 0,
{
    if frame >= 0 {
        assert(0 <= frame % 64 < 64);
        if frame >= DELAY && frame % 64 < DELAY {
            assert(fresh_ring()[frame % 64].frame == frame % 64);
        }
    }
}

/// A slot holds the input of one frame at a time: two frames that reach the
/// same slot cannot both be present.
pub proof fn lemma_one_frame_per_slot(ring: Seq<GameInput>, f: int, g: int)
    requires
        ring_slot(f) == ring_slot(g),
        ring_has(ring, f),
        ring_has(ring, g),
    ensures
        f == g,
{
}

/// For frames from 0 on, frames `BUFFER_SIZE` apart share a slot: they report
/// the same buttons, and at most one of them is present.
pub proof fn lemma_ring_period(ring: Seq<GameInput>, frame: int)
    requires
        frame >= 0,
    ensures
        ring_slot(frame + BUFFER_SIZE) == ring_slot(frame),
        ring_input(ring, frame + BUFFER_SIZE) == ring_input(ring, frame),
        ring_has(ring, frame) ==> !ring_has(ring, frame + BUFFER_SIZE),
{
    assert((frame + 64) % 64 == frame % 64) by (nonlinear_arith)
        requires frame >= 0;
}

} // verus!
