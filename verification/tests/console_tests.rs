use glidex::console::{console_step, ConsoleAction, ConsoleEvent};
use glidex::firecracker::{configure_vm, spawn_poll_step, PollDecision};
use glidex::models::{Vm, VmConfig, VmState};

#[test]
fn test_console_step_pty_chunk_logs_before_broadcast() {
    let data = vec![1u8, 2, 3];
    let actions = console_step(ConsoleEvent::PtyChunk(data.clone()));
    assert_eq!(actions.len(), 2);
    match &actions[0] {
        ConsoleAction::AppendToLog(d) => assert_eq!(d, &data),
        other => panic!("expected the log append first, got {:?}", other),
    }
    match &actions[1] {
        ConsoleAction::Broadcast(d) => assert_eq!(d, &data),
        other => panic!("expected the fan-out second, got {:?}", other),
    }
}

#[test]
fn test_console_step_attach_replays_log() {
    let actions = console_step(ConsoleEvent::Attached);
    assert_eq!(actions.len(), 1);
    assert!(matches!(actions[0], ConsoleAction::ReplayLog));
}

#[test]
fn test_console_step_exits_on_eof_and_flag() {
    let on_eof = console_step(ConsoleEvent::PtyEof);
    assert_eq!(on_eof.len(), 1);
    assert!(matches!(on_eof[0], ConsoleAction::Exit));
    let on_flag = console_step(ConsoleEvent::FlagCleared);
    assert_eq!(on_flag.len(), 1);
    assert!(matches!(on_flag[0], ConsoleAction::Exit));
}

#[test]
fn test_console_step_client_input_reaches_pty() {
    let actions = console_step(ConsoleEvent::ClientInput(vec![27u8, 91]));
    assert_eq!(actions.len(), 1);
    match &actions[0] {
        ConsoleAction::WriteToPty(d) => assert_eq!(d, &vec![27u8, 91]),
        other => panic!("expected a PTY write, got {:?}", other),
    }
}

#[test]
fn test_console_step_idle_sleeps() {
    let actions = console_step(ConsoleEvent::Idle);
    assert_eq!(actions.len(), 1);
    assert!(matches!(actions[0], ConsoleAction::Sleep));
}

#[test]
fn test_spawn_poll_step_bounds() {
    // a visible socket wins immediately
    assert_eq!(spawn_poll_step(0, true), PollDecision::Ready);
    assert_eq!(spawn_poll_step(49, true), PollDecision::Ready);
    // fifty polls in all: attempts 0..=48 wait, attempt 49 gives up
    assert_eq!(spawn_poll_step(0, false), PollDecision::Wait);
    assert_eq!(spawn_poll_step(48, false), PollDecision::Wait);
    assert_eq!(spawn_poll_step(49, false), PollDecision::GiveUp);
}

#[test]
fn test_configure_vm_connection_failure() {
    let config = VmConfig {
        vcpu_count: 1,
        mem_size_mib: 128,
        kernel_image_path: "/k".to_string(),
        rootfs_path: "/r".to_string(),
        kernel_args: "console=ttyS0".to_string(),
    };
    let vm = Vm::new("no-such".to_string(), "cfg".to_string(), config);
    assert_eq!(vm.state, VmState::Created);
    // no hypervisor listens on the derived socket: the first step fails
    assert!(configure_vm(&vm).0.is_err());
}
