//! The runner window's state: connection settings, the key bindings of the
//! four directions, the binding in progress and the log.

use vstd::prelude::*;
use crate::log::{Logs, history_after_add};

verus! {

/// The keys bound to the four directions.
pub struct InputMap<K> {
    pub up: K,
    pub down: K,
    pub left: K,
    pub right: K,
}

impl<K> InputMap<K> {
    /// A key map from its four keys.
    pub fn new(up: K, down: K, left: K, right: K) -> (res: InputMap<K>)
        ensures
            res.up == up,
            res.down == down,
            res.left == left,
            res.right == right,
    {
        InputMap { up, down, left, right }
    }
}

/// The state of the runner window.
pub struct UIState<K> {
    pub proc_name: String,
    pub payload_path: String,
    pub local_player: String,
    pub local_port: String,
    pub remote_addrs: String,
    pub keymap: InputMap<K>,
    pub wait_for_input: bool,
    pub last_bind_action: String,
    pub last_logs: Logs,
}

/// The direction that a binding action names, if it names one.
pub enum Direction {
    Up,
    Down,
    Left,
    Right,
}

/// The direction named by `action`: "UP", "DOWN", "LEFT" or "RIGHT".
pub open spec fn direction_of(action: Seq<char>) -> Option<Direction> {
    if action == "UP"@ {
        Some(Direction::Up)
    } else if action == "DOWN"@ {
        Some(Direction::Down)
    } else if action == "LEFT"@ {
        Some(Direction::Left)
    } else if action == "RIGHT"@ {
        Some(Direction::Right)
    } else {
        None
    }
}

/// The key map with the key of direction `d` replaced by `key`.
pub open spec fn rebind<K>(map: InputMap<K>, d: Option<Direction>, key: K) -> InputMap<K> {
    match d {
        Some(Direction::Up) => InputMap { up: key, ..map },
        Some(Direction::Down) => InputMap { down: key, ..map },
        Some(Direction::Left) => InputMap { left: key, ..map },
        Some(Direction::Right) => InputMap { right: key, ..map },
        None => map,
    }
}

/// Whether two window states hold the same connection settings.
pub open spec fn same_settings<K>(a: UIState<K>, b: UIState<K>) -> bool {
    &&& a.proc_name@ == b.proc_name@
    &&& a.payload_path@ == b.payload_path@
    &&& a.local_player@ == b.local_player@
    &&& a.local_port@ == b.local_port@
    &&& a.remote_addrs@ == b.remote_addrs@
}

/// The log line of a binding.
pub open spec fn binding_note(action: Seq<char>, key_name: Seq<char>) -> Seq<char> {
    action + " has been binded to "@ + key_name
}

impl<K> UIState<K> {
    /// The window's initial state, with key map `keymap`: the game's process
    /// name and the payload's build path filled in, nothing else.
    pub fn new(keymap: InputMap<K>) -> (res: UIState<K>)
        ensures
            res.proc_name@ == "ShovelKnight"@,
            res.payload_path@ == "./../payload/target/debug/payload.dll"@,
            res.local_player@ == Seq::<char>::empty(),
            res.local_port@ == Seq::<char>::empty(),
            res.remote_addrs@ == Seq::<char>::empty(),
            res.keymap == keymap,
            !res.wait_for_input,
            res.last_bind_action@ == Seq::<char>::empty(),
            res.last_logs@ == Seq::<Seq<char>>::empty(),
    {
        UIState {
            local_player: String::new(),
            local_port: String::new(),
            remote_addrs: String::new(),
            proc_name: String::from_str("ShovelKnight"),
            payload_path: String::from_str("./../payload/target/debug/payload.dll"),
            keymap,
            wait_for_input: false,
            last_bind_action: String::new(),
            last_logs: Logs::default(),
        }
    }

    /// Starts binding `action`: the next key pressed is bound to it.
    pub fn request_binding(&mut self, action: &str)
        ensures
            final(self).wait_for_input,
            final(self).last_bind_action@ == action@,
            final(self).keymap == old(self).keymap,
            final(self).last_logs@ == old(self).last_logs@,
            final(self).last_logs.start() == old(self).last_logs.start(),
            same_settings(*final(self), *old(self)),
    {
        self.wait_for_input = true;
        self.last_bind_action = String::from_str(action);
    }

    /// Binds the pressed `key` (printed as `key_name`) to the action being
    /// bound and ends the binding; returns whether the action named a
    /// direction.
    pub fn bind_pressed_key(&mut self, key: K, key_name: &str) -> (res: bool)
        ensures
            res == direction_of(old(self).last_bind_action@) is Some,
            final(self).keymap == rebind(old(self).keymap, direction_of(old(self).last_bind_action@), key),
            !final(self).wait_for_input,
            final(self).last_bind_action@ == old(self).last_bind_action@,
            final(self).last_logs.start() == old(self).last_logs.start(),
            same_settings(*final(self), *old(self)),
            exists|secs: u64|
                final(self).last_logs@ == history_after_add(
                    old(self).last_logs@,
                    secs,
                    binding_note(old(self).last_bind_action@, key_name@),
                ),
    {
        let res = map_key_to_action(key, key_name, self);
        self.wait_for_input = false;
        res
    }

    /// One frame of the binding window: a click on Cancel ends the binding,
    /// and a pressed key (the first one reported, printed as `key_name`) is
    /// bound and ends it too (see `bind_pressed_key`). Returns, when a key was
    /// pressed, whether the action named a direction.
    pub fn binding_step(&mut self, cancel_clicked: bool, first_key: Option<K>, key_name: &str) -> (res:
        Option<bool>)
        ensures
            final(self).last_bind_action@ == old(self).last_bind_action@,
            final(self).last_logs.start() == old(self).last_logs.start(),
            same_settings(*final(self), *old(self)),
            match first_key {
                None => {
                    &&& res is None
                    &&& final(self).wait_for_input == (old(self).wait_for_input && !cancel_clicked)
                    &&& final(self).keymap == old(self).keymap
                    &&& final(self).last_logs@ == old(self).last_logs@
                },
                Some(key) => {
                    &&& res == Some(direction_of(old(self).last_bind_action@) is Some)
                    &&& !final(self).wait_for_input
                    &&& final(self).keymap == rebind(
                        old(self).keymap,
                        direction_of(old(self).last_bind_action@),
                        key,
                    )
                    &&& exists|secs: u64|
                        final(self).last_logs@ == history_after_add(
                            old(self).last_logs@,
                            secs,
                            binding_note(old(self).last_bind_action@, key_name@),
                        )
                },
            },
    {
        if cancel_clicked {
            self.wait_for_input = false;
        }
        match first_key {
            Some(key) => Some(self.bind_pressed_key(key, key_name)),
            None => None,
        }
    }
}

/// Binds `key` (printed as `key_name`) to the direction that the pending
/// action names, and logs the binding; returns whether the action named a
/// direction (otherwise the key map is left as it is).
pub fn map_key_to_action<K>(key: K, key_name: &str, ui_state: &mut UIState<K>) -> (res: bool)
    ensures
        res == direction_of(old(ui_state).last_bind_action@) is Some,
        final(ui_state).keymap == rebind(
            old(ui_state).keymap,
            direction_of(old(ui_state).last_bind_action@),
            key,
        ),
        final(ui_state).wait_for_input == old(ui_state).wait_for_input,
        final(ui_state).last_bind_action@ == old(ui_state).last_bind_action@,
        same_settings(*final(ui_state), *old(ui_state)),
        final(ui_state).last_logs.start() == old(ui_state).last_logs.start(),
        exists|secs: u64|
            final(ui_state).last_logs@ == history_after_add(
                old(ui_state).last_logs@,
                secs,
                binding_note(old(ui_state).last_bind_action@, key_name@),
            ),
{
    let matched = if ui_state.last_bind_action == String::from_str("UP") {
        ui_state.keymap.up = key;
        true
    } else if ui_state.last_bind_action == String::from_str("DOWN") {
        ui_state.keymap.down = key;
        true
    } else if ui_state.last_bind_action == String::from_str("LEFT") {
        ui_state.keymap.left = key;
        true
    } else if ui_state.last_bind_action == String::from_str("RIGHT") {
        ui_state.keymap.right = key;
        true
    } else {
        false
    };
    let mut note = ui_state.last_bind_action.clone();
    note.append(" has been binded to ");
    note.append(key_name);
    let ghost before = ui_state.last_logs@;
    ui_state.last_logs.add(note);
    proof {
        let w = choose|secs: u64| ui_state.last_logs@ == history_after_add(before, secs, note@);
        assert(ui_state.last_logs@ == history_after_add(
            before,
            w,
            binding_note(old(ui_state).last_bind_action@, key_name@),
        ));
    }
    matched
}


/// Binding "UP", "DOWN", "LEFT" or "RIGHT" sets exactly that direction's key
/// and leaves the other three; any other action leaves the key map as it is.
pub proof fn lemma_binding_sets_named_key<K>(map: InputMap<K>, action: Seq<char>, key: K)
    ensures
        action == "UP"@ ==> ({
            let m = rebind(map, direction_of(action), key);
            m.up == key && m.down == map.down && m.left == map.left && m.right == map.right
        }),
        action == "DOWN"@ ==> ({
            let m = rebind(map, direction_of(action), key);
            m.up == map.up && m.down == key && m.left == map.left && m.right == map.right
        }),
        action == "LEFT"@ ==> ({
            let m = rebind(map, direction_of(action), key);
            m.up == map.up && m.down == map.down && m.left == key && m.right == map.right
        }),
        action == "RIGHT"@ ==> ({
            let m = rebind(map, direction_of(action), key);
            m.up == map.up && m.down == map.down && m.left == map.left && m.right == key
        }),
        action != "UP"@ && action != "DOWN"@ && action != "LEFT"@ && action != "RIGHT"@ ==> ({
            let m = rebind(map, direction_of(action), key);
            m.up == map.up && m.down == map.down && m.left == map.left && m.right == map.right
        }),
{
    reveal_strlit("UP");
    reveal_strlit("DOWN");
    reveal_strlit("LEFT");
    reveal_strlit("RIGHT");
    assert("DOWN"@.len() != "UP"@.len());
    assert("LEFT"@.len() != "UP"@.len());
    assert("RIGHT"@.len() != "UP"@.len());
    assert("RIGHT"@.len() != "DOWN"@.len());
    assert("RIGHT"@.len() != "LEFT"@.len());
    assert("LEFT"@[0] != "DOWN"@[0]);
}

} // verus!
