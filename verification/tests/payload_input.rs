use skttmp::init_sequence::{InputSequence, SeqInput, BTN_A, BTN_BACK, BTN_LEFT};
use skttmp::input_handler::{
    remaining_wait, GameInputHandler, PadCommand, WaitStep, MAX_WAIT_TIME,
};
use skttmp::input_queue::{GameInput, GameInputQueue, BUFFER_SIZE, DELAY};

#[test]
fn empty_game_input_has_no_frame() {
    let g = GameInput::default();
    assert_eq!(g.frame, -1);
    assert_eq!(g.input, 0);
}

#[test]
fn fresh_queue_holds_the_delay_frames() {
    let q = GameInputQueue::new();
    for f in 0..DELAY {
        assert!(q.has_input(f));
        assert_eq!(q.get_input(f), 0);
    }
    assert!(!q.has_input(DELAY));
    assert!(!q.has_input(-1));
    assert!(!q.has_input(-BUFFER_SIZE));
    assert!(!q.has_input(BUFFER_SIZE));
    assert!(!q.has_input(i32::MIN));
    assert!(!q.has_input(i32::MAX));
    assert_eq!(q.get_input(-1), 0);
    assert_eq!(q.get_input(i32::MAX), 0);
}

#[test]
fn frames_a_ring_apart_share_a_slot() {
    let q = GameInputQueue::new();
    assert!(q.has_input(3));
    assert!(!q.has_input(3 + BUFFER_SIZE));
    assert_eq!(q.get_input(3), q.get_input(3 + BUFFER_SIZE));
}

#[test]
fn remaining_wait_formula() {
    assert_eq!(remaining_wait(100, 0), 100);
    assert_eq!(remaining_wait(100, 1), 75);
    assert_eq!(remaining_wait(100, 2), 50);
    assert_eq!(remaining_wait(101, 2), 51);
    assert_eq!(remaining_wait(100, 4), 0);
    assert_eq!(remaining_wait(103, 4), 3);
    assert_eq!(remaining_wait(100, 5), 0);
    assert_eq!(remaining_wait(u32::MAX, 3), u32::MAX - 3 * (u32::MAX / 4));
}

#[test]
fn seq_input_new_keeps_its_parts() {
    let s = SeqInput::new(BTN_BACK, 1, 0, 20);
    assert_eq!(s.input, BTN_BACK);
    assert_eq!(s.hold, 1);
    assert_eq!(s.player, 0);
    assert_eq!(s.delay_after, 20);
}

#[test]
fn game_sequence_starts_with_a_held_press() {
    let seq = InputSequence::init_game_seq();
    let first = seq.current().unwrap();
    assert_eq!(first.input, BTN_A);
    assert_eq!(first.hold, 5);
    assert_eq!(first.delay_after, 0);
    assert_eq!(first.player, 0);
}

#[test]
fn game_sequence_walks_through_all_steps() {
    let mut seq = InputSequence::init_game_seq();
    let mut n = 0;
    let mut last = None;
    while let Some(s) = seq.current() {
        if n == 4 {
            assert_eq!(s.input, BTN_LEFT);
        }
        last = Some(s);
        seq.advance();
        n += 1;
    }
    assert_eq!(n, 47);
    let last = last.unwrap();
    assert_eq!((last.input, last.hold, last.delay_after), (BTN_A, 2, 0));
}

#[test]
fn first_step_presses_a_for_five_frames() {
    let mut h = GameInputHandler::default();
    assert_eq!(h.current_frame(), -1);
    for f in 0..5 {
        let call = h.on_hook_call();
        assert_eq!(h.current_frame(), f);
        assert_eq!(call.init_pad, Some(PadCommand { buttons: BTN_A, player: 0 }));
        assert!(!call.sync);
    }
    // The release frame ends the step and restarts the count.
    let call = h.on_hook_call();
    assert_eq!(call.init_pad, Some(PadCommand { buttons: 0, player: 0 }));
    assert!(!call.sync);
    assert_eq!(h.current_frame(), -1);
}

#[test]
fn start_up_script_ends_then_frames_sync() {
    let mut total: u64 = 0;
    let mut seq = InputSequence::init_game_seq();
    while let Some(s) = seq.current() {
        total += s.hold as u64 + s.delay_after as u64 + 1;
        seq.advance();
    }
    let mut h = GameInputHandler::default();
    let mut calls: u64 = 0;
    let mut p2_presses = 0;
    loop {
        let call = h.on_hook_call();
        calls += 1;
        if let Some(cmd) = call.init_pad {
            if cmd.player == 1 && cmd.buttons == BTN_A {
                p2_presses += 1;
            }
        }
        if call.sync {
            assert!(call.init_pad.is_none());
            break;
        }
        assert!(calls <= total + 1);
    }
    assert_eq!(calls, total + 1);
    assert_eq!(p2_presses, 100);
    assert_eq!(h.current_frame(), 0);
    // Once the script is over it never restarts.
    for f in 1..DELAY {
        let call = h.on_hook_call();
        assert!(call.sync);
        assert!(call.init_pad.is_none());
        assert_eq!(h.current_frame(), f);
        assert_eq!(h.wait_step(16, 0), WaitStep::Ready { wait_time: 16 });
        assert_eq!(h.wait_step(16, 3), WaitStep::Ready { wait_time: 4 });
        assert_eq!(
            h.apply_input(),
            (PadCommand { buttons: 0, player: 0 }, PadCommand { buttons: 0, player: 1 })
        );
    }
}

#[test]
fn missing_inputs_are_waited_for_then_given_up() {
    let mut h = GameInputHandler::default();
    loop {
        if h.on_hook_call().sync {
            break;
        }
    }
    for _ in 0..DELAY {
        h.on_hook_call();
    }
    assert_eq!(h.current_frame(), DELAY);
    assert_eq!(h.wait_step(16, 0), WaitStep::Sleep { millis: 4, frame_wait: 1 });
    let mut fw = 0;
    let mut sleeps = 0;
    loop {
        match h.wait_step(16, fw) {
            WaitStep::Sleep { millis, frame_wait } => {
                assert_eq!(millis, 4);
                assert_eq!(frame_wait, fw + 1);
                fw = frame_wait;
                sleeps += 1;
            }
            WaitStep::GiveUp => break,
            WaitStep::Ready { .. } => panic!("inputs cannot be ready"),
        }
    }
    assert_eq!(sleeps, MAX_WAIT_TIME - 1);
}
