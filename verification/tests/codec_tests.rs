use glidex::models::{Vm, VmConfig, VmState};
use glidex::record::{encode_vm_string, parse_vm_string};
use glidex::text::{chars_to_string, str_eq, string_to_chars};

fn sample_vm(name: &str, state: VmState) -> Vm {
    let config = VmConfig {
        vcpu_count: 2,
        mem_size_mib: 512,
        kernel_image_path: "/k".to_string(),
        rootfs_path: "/r".to_string(),
        kernel_args: "console=ttyS0".to_string(),
    };
    let mut vm = Vm::new("abc-123".to_string(), name.to_string(), config);
    vm.state = state;
    vm
}

#[test]
fn test_encode_exact_text() {
    let vm = sample_vm("web", VmState::Created);
    let text = encode_vm_string(&vm);
    let expected = "{\"id\":\"abc-123\",\"name\":\"web\",\"state\":\"created\",\"config\":{\"vcpu_count\":2,\"mem_size_mib\":512,\"kernel_image_path\":\"/k\",\"rootfs_path\":\"/r\",\"kernel_args\":\"console=ttyS0\"},\"socket_path\":\"/tmp/firecracker-abc-123.sock\",\"console_socket_path\":\"/tmp/firecracker-abc-123.console.sock\",\"log_path\":\"/tmp/firecracker-abc-123.log\"}";
    assert_eq!(text, expected);
}

#[test]
fn test_round_trip_plain() {
    let vm = sample_vm("web", VmState::Running);
    let text = encode_vm_string(&vm);
    let back = parse_vm_string(&text).unwrap();
    assert_eq!(back.id, vm.id);
    assert_eq!(back.name, vm.name);
    assert_eq!(back.state, VmState::Running);
    assert_eq!(back.config.vcpu_count, 2);
    assert_eq!(back.config.mem_size_mib, 512);
    assert_eq!(back.config.kernel_image_path, "/k");
    assert_eq!(back.config.rootfs_path, "/r");
    assert_eq!(back.config.kernel_args, "console=ttyS0");
    assert_eq!(back.socket_path, vm.socket_path);
    assert_eq!(back.console_socket_path, vm.console_socket_path);
    assert_eq!(back.log_path, vm.log_path);
}

#[test]
fn test_round_trip_with_escapes() {
    let mut vm = sample_vm("odd \"name\" with \\slashes\\", VmState::Paused);
    vm.config.kernel_args = "quote=\" slash=\\".to_string();
    let text = encode_vm_string(&vm);
    let back = parse_vm_string(&text).unwrap();
    assert_eq!(back.name, "odd \"name\" with \\slashes\\");
    assert_eq!(back.config.kernel_args, "quote=\" slash=\\");
    assert_eq!(back.state, VmState::Paused);
}

#[test]
fn test_round_trip_every_state() {
    for state in [VmState::Created, VmState::Running, VmState::Paused, VmState::Stopped] {
        let vm = sample_vm("s", state);
        let back = parse_vm_string(&encode_vm_string(&vm)).unwrap();
        assert_eq!(back.state, state);
    }
}

#[test]
fn test_parse_rejects_garbage() {
    assert!(parse_vm_string("").is_none());
    assert!(parse_vm_string("{}").is_none());
    assert!(parse_vm_string("invalid json").is_none());
    assert!(parse_vm_string("{\"id\":\"x\"}").is_none());
}

#[test]
fn test_parse_rejects_truncated_record() {
    let vm = sample_vm("web", VmState::Created);
    let text = encode_vm_string(&vm);
    let cut = &text[..text.len() - 1];
    assert!(parse_vm_string(cut).is_none());
    // trailing bytes are refused too
    let mut long = text.clone();
    long.push(' ');
    assert!(parse_vm_string(&long).is_none());
}

#[test]
fn test_parse_rejects_out_of_range_numbers() {
    let vm = sample_vm("web", VmState::Created);
    let text = encode_vm_string(&vm);
    let broken = text.replace("\"vcpu_count\":2", "\"vcpu_count\":300");
    assert!(parse_vm_string(&broken).is_none());
}

#[test]
fn test_state_wire_names() {
    assert_eq!(VmState::Created.as_str(), "created");
    assert_eq!(VmState::Running.as_str(), "running");
    assert_eq!(VmState::Paused.as_str(), "paused");
    assert_eq!(VmState::Stopped.as_str(), "stopped");
}

#[test]
fn test_state_display_and_css() {
    assert_eq!(VmState::Created.display(), "Created");
    assert_eq!(VmState::Running.display(), "Running");
    assert_eq!(VmState::Paused.display(), "Paused");
    assert_eq!(VmState::Stopped.display(), "Stopped");
    assert_eq!(VmState::Running.css_class(), "bg-green-500");
    assert_eq!(VmState::Stopped.css_class(), "bg-red-500");
    assert_eq!(VmState::Paused.css_class(), "bg-yellow-500");
    assert_eq!(VmState::Created.css_class(), "bg-blue-500");
}

#[test]
fn test_derived_paths() {
    let vm = sample_vm("p", VmState::Created);
    assert_eq!(vm.socket_path, "/tmp/firecracker-abc-123.sock");
    assert_eq!(vm.console_socket_path, "/tmp/firecracker-abc-123.console.sock");
    assert_eq!(vm.log_path, "/tmp/firecracker-abc-123.log");
}

#[test]
fn test_text_helpers() {
    let chars = string_to_chars("héllo");
    assert_eq!(chars.len(), 5);
    let back = chars_to_string(&chars);
    assert_eq!(back, "héllo");
    assert!(str_eq("abc", "abc"));
    assert!(!str_eq("abc", "abd"));
    assert!(!str_eq("abc", "ab"));
}
