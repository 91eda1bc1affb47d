use skttmp::inject::{injection_failed, process_not_running};
use skttmp::log::{Logs, LOG_SIZE};
use skttmp::module_name::{exe_file_name, module_name_wide};
use skttmp::net::{NetEvent, NetMgr, PeerAddr};
use skttmp::text::{decimal_string, trim};
use skttmp::ui_state::{map_key_to_action, InputMap, UIState};

fn entries(logs: &Logs) -> Vec<String> {
    logs.get_all().iter().cloned().collect()
}

fn message_of(entry: &str) -> &str {
    let (secs, rest) = entry.split_once(" | ").unwrap();
    assert!(!secs.is_empty() && secs.chars().all(|c| c.is_ascii_digit()));
    rest
}

#[test]
fn trim_removes_outer_white_space() {
    assert_eq!(trim("  hello  "), "hello");
    assert_eq!(trim("\t a b \n"), "a b");
    assert_eq!(trim("\u{3000}x\u{a0}"), "x");
    assert_eq!(trim("   "), "");
    assert_eq!(trim(""), "");
    assert_eq!(trim("no-trim"), "no-trim");
}

#[test]
fn decimal_matches_display() {
    for n in [0u64, 7, 10, 42, 1234567890, u64::MAX] {
        assert_eq!(decimal_string(n), n.to_string());
    }
}

#[test]
fn blank_messages_are_not_logged() {
    let mut logs = Logs::default();
    logs.add(String::from("   "));
    logs.add(String::new());
    assert!(logs.get_all().is_empty());
}

#[test]
fn add_stamps_and_trims() {
    let mut logs = Logs::default();
    logs.add_at(12, "  hello ");
    assert_eq!(entries(&logs), vec![String::from("12 | hello")]);
    logs.add(String::from(" world"));
    let all = entries(&logs);
    assert_eq!(all.len(), 2);
    assert_eq!(message_of(&all[0]), "world");
    assert_eq!(all[1], "12 | hello");
}

#[test]
fn log_keeps_newest_entries_first() {
    let mut logs = Logs::default();
    for i in 0..40u64 {
        logs.add_at(i, &format!("msg{}", i));
    }
    let all = entries(&logs);
    assert_eq!(all.len(), LOG_SIZE);
    assert_eq!(all[0], "39 | msg39");
    assert_eq!(all[LOG_SIZE - 1], "8 | msg8");
}

#[test]
fn clear_empties_the_log() {
    let mut logs = Logs::default();
    logs.add(String::from("x"));
    logs.clear();
    assert!(logs.get_all().is_empty());
}

fn v4(a: u8, b: u8, c: u8, d: u8, port: u16) -> PeerAddr {
    PeerAddr::V4 { ip: u32::from_be_bytes([a, b, c, d]), port }
}

#[test]
fn peers_connect_once_and_disconnect() {
    let mut net = NetMgr::new();
    let mut logs = Logs::default();
    let a = v4(10, 0, 0, 1, 5000);
    let b = v4(10, 0, 0, 2, 5000);
    assert_eq!(net.handle_event(NetEvent::Connect(a), "10.0.0.1:5000", &mut logs), None);
    assert_eq!(net.handle_event(NetEvent::Connect(a), "10.0.0.1:5000", &mut logs), None);
    assert_eq!(net.remotes(), &vec![a]);
    assert!(net.contains(a));
    assert!(!net.contains(b));
    assert_eq!(net.handle_event(NetEvent::Connect(b), "10.0.0.2:5000", &mut logs), None);
    assert_eq!(net.remotes(), &vec![a, b]);
    assert_eq!(net.handle_event(NetEvent::Disconnect(a), "10.0.0.1:5000", &mut logs), None);
    assert_eq!(net.remotes(), &vec![b]);
    let all = entries(&logs);
    assert_eq!(all.len(), 4);
    assert_eq!(message_of(&all[0]), "Disconnect from :10.0.0.1:5000");
    assert_eq!(message_of(&all[1]), "Connect from :10.0.0.2:5000");
    assert_eq!(message_of(&all[3]), "Connect from :10.0.0.1:5000");
}

#[test]
fn packets_from_strangers_are_greeted() {
    let mut net = NetMgr::new();
    let mut logs = Logs::default();
    let a = v4(127, 0, 0, 1, 7777);
    let b = PeerAddr::V6 { ip6: 1, port: 7777, flowinfo: 0, scope_id: 0 };
    net.handle_event(NetEvent::Connect(a), "127.0.0.1:7777", &mut logs);
    assert_eq!(net.handle_event(NetEvent::Packet(a), "127.0.0.1:7777", &mut logs), None);
    assert_eq!(net.handle_event(NetEvent::Packet(b), "[::1]:7777", &mut logs), Some(b));
    assert_eq!(entries(&logs).len(), 1);
    assert_eq!(net.remotes(), &vec![a]);
}

#[test]
fn timeouts_and_send_errors_are_logged() {
    let mut net = NetMgr::new();
    let mut logs = Logs::default();
    let a = v4(1, 2, 3, 4, 9);
    assert_eq!(net.handle_event(NetEvent::Timeout(a), "1.2.3.4:9", &mut logs), None);
    NetMgr::report_send_error(&mut logs, "channel closed");
    let all = entries(&logs);
    assert_eq!(message_of(&all[0]), "Send error: channel closed");
    assert_eq!(message_of(&all[1]), "Timeout from :1.2.3.4:9");
    assert!(net.remotes().is_empty());
}

#[test]
fn ui_state_starts_with_game_settings() {
    let ui = UIState::new(InputMap::new('W', 'S', 'A', 'D'));
    assert_eq!(ui.proc_name, "ShovelKnight");
    assert_eq!(ui.payload_path, "./../payload/target/debug/payload.dll");
    assert!(ui.local_player.is_empty());
    assert!(ui.local_port.is_empty());
    assert!(ui.remote_addrs.is_empty());
    assert!(!ui.wait_for_input);
    assert!(ui.last_bind_action.is_empty());
    assert_eq!((ui.keymap.up, ui.keymap.down, ui.keymap.left, ui.keymap.right), ('W', 'S', 'A', 'D'));
    assert!(ui.last_logs.get_all().is_empty());
}

#[test]
fn binding_a_direction_replaces_its_key() {
    let mut ui = UIState::new(InputMap::new('W', 'S', 'A', 'D'));
    ui.request_binding("LEFT");
    assert!(ui.wait_for_input);
    assert_eq!(ui.last_bind_action, "LEFT");
    assert!(ui.bind_pressed_key('J', "J"));
    assert!(!ui.wait_for_input);
    assert_eq!((ui.keymap.up, ui.keymap.down, ui.keymap.left, ui.keymap.right), ('W', 'S', 'J', 'D'));
    assert_eq!(message_of(&entries(&ui.last_logs)[0]), "LEFT has been binded to J");
}

#[test]
fn binding_an_unknown_action_changes_no_key() {
    let mut ui = UIState::new(InputMap::new('W', 'S', 'A', 'D'));
    ui.last_bind_action = String::from("JUMP");
    assert!(!map_key_to_action('K', "K", &mut ui));
    assert_eq!((ui.keymap.up, ui.keymap.down, ui.keymap.left, ui.keymap.right), ('W', 'S', 'A', 'D'));
    assert_eq!(message_of(&entries(&ui.last_logs)[0]), "JUMP has been binded to K");
    ui.last_bind_action = String::from("UP");
    assert!(map_key_to_action('I', "I", &mut ui));
    assert_eq!(ui.keymap.up, 'I');
}

#[test]
fn injection_messages() {
    assert_eq!(process_not_running("ShovelKnight"), "ShovelKnight is not running");
    assert_eq!(injection_failed("access denied"), "Failed to inject payload. err: access denied");
}

#[test]
fn module_name_is_the_wide_file_name() {
    let path = "C:\\Games\\Shovel Knight\\ShovelKnight.exe";
    assert_eq!(exe_file_name(path), "ShovelKnight.exe");
    let mut expected: Vec<u16> = "ShovelKnight.exe\0".encode_utf16().collect();
    expected.push(0);
    assert_eq!(module_name_wide(path), expected);
    assert_eq!(exe_file_name("game.exe"), "game.exe");
    assert_eq!(exe_file_name("C:\\dir\\"), "");
    assert_eq!(module_name_wide("x\\\u{1F600}"), vec![0xD83D, 0xDE00, 0, 0]);
}

#[test]
fn binding_window_cancel_and_idle_frames() {
    let mut ui = UIState::new(InputMap::new('W', 'S', 'A', 'D'));
    ui.request_binding("DOWN");
    assert_eq!(ui.binding_step(false, None, ""), None);
    assert!(ui.wait_for_input);
    assert_eq!(ui.binding_step(true, None, ""), None);
    assert!(!ui.wait_for_input);
    assert_eq!((ui.keymap.up, ui.keymap.down, ui.keymap.left, ui.keymap.right), ('W', 'S', 'A', 'D'));
    assert!(ui.last_logs.get_all().is_empty());
}

#[test]
fn binding_window_binds_the_first_key() {
    let mut ui = UIState::new(InputMap::new('W', 'S', 'A', 'D'));
    ui.request_binding("DOWN");
    assert_eq!(ui.binding_step(true, Some('K'), "K"), Some(true));
    assert!(!ui.wait_for_input);
    assert_eq!(ui.keymap.down, 'K');
    assert_eq!(message_of(&entries(&ui.last_logs)[0]), "DOWN has been binded to K");
    ui.request_binding("JUMP");
    assert_eq!(ui.binding_step(false, Some('L'), "L"), Some(false));
    assert!(!ui.wait_for_input);
    assert_eq!((ui.keymap.up, ui.keymap.down, ui.keymap.left, ui.keymap.right), ('W', 'K', 'A', 'D'));
}

#[test]
fn every_entry_is_a_stamp_and_a_trimmed_message() {
    let mut logs = Logs::default();
    for m in ["  a ", "", "b\t", "   ", "c"] {
        logs.add(String::from(m));
    }
    logs.clear();
    logs.add(String::from(" after clear "));
    for e in entries(&logs) {
        let m = message_of(&e);
        assert!(!m.is_empty());
        assert_eq!(m, m.trim());
    }
    assert_eq!(entries(&logs).len(), 1);
}

#[test]
fn stamps_run_from_newest_to_oldest() {
    let mut logs = Logs::default();
    for (secs, m) in [(0u64, "a"), (3, "b"), (3, "  "), (9, "c"), (120, "d")] {
        logs.add_at(secs, m);
    }
    let stamps: Vec<u64> = entries(&logs)
        .iter()
        .map(|e| e.split_once(" | ").unwrap().0.parse().unwrap())
        .collect();
    assert_eq!(stamps, vec![120, 9, 3, 0]);
}
