use glidex::api::{error_to_response, health_check};
use glidex::models::{ConsoleInfo, CreateVmRequest, VmConfig, VmResponse, VmState};
use glidex::state::{StartAction, VmManager, VmManagerError};
use tempfile::TempDir;

fn test_config() -> VmConfig {
    VmConfig {
        vcpu_count: 2,
        mem_size_mib: 512,
        kernel_image_path: "/path/to/kernel".to_string(),
        rootfs_path: "/path/to/rootfs.ext4".to_string(),
        kernel_args: "console=ttyS0 reboot=k panic=1 pci=off".to_string(),
    }
}

fn small_config(vcpu: u8, mem: u32) -> VmConfig {
    VmConfig {
        vcpu_count: vcpu,
        mem_size_mib: mem,
        kernel_image_path: "/path/to/kernel".to_string(),
        rootfs_path: "/path/to/rootfs.ext4".to_string(),
        kernel_args: "console=ttyS0 reboot=k panic=1 pci=off".to_string(),
    }
}

fn fresh_manager(dir: &TempDir) -> VmManager {
    let path = dir.path().join("test.db");
    let mut mgr = VmManager::with_db_path(path.to_str().unwrap()).unwrap();
    mgr.initialize().unwrap();
    mgr
}

#[test]
fn test_health_check() {
    let body = health_check();
    assert_eq!(body.status, "ok");
}

#[test]
fn test_list_vms_empty() {
    let dir = TempDir::new().unwrap();
    let mgr = fresh_manager(&dir);
    assert_eq!(mgr.list_vms().len(), 0);
}

#[test]
fn test_create_vm_success() {
    let dir = TempDir::new().unwrap();
    let mut mgr = fresh_manager(&dir);
    let vm = mgr.create_vm("test-vm".to_string(), test_config()).unwrap();
    assert_eq!(vm.name, "test-vm");
    assert_eq!(vm.config.vcpu_count, 2);
    assert_eq!(vm.config.mem_size_mib, 512);
    assert_eq!(vm.state, VmState::Created);
    assert!(!vm.id.is_empty());
    assert_eq!(vm.id.len(), 36);
    let resp = VmResponse::of_vm(&vm);
    assert_eq!(resp.state, VmState::Created);
    assert_eq!(resp.vcpu_count, 2);
    assert_eq!(resp.mem_size_mib, 512);
}

#[test]
fn test_create_vm_with_optional_fields() {
    let req = CreateVmRequest {
        name: "test-vm-full".to_string(),
        vcpu_count: 4,
        mem_size_mib: 1024,
        kernel_image_path: "/path/to/kernel".to_string(),
        rootfs_path: "/path/to/rootfs.ext4".to_string(),
        kernel_args: Some("console=ttyS0 reboot=k panic=1".to_string()),
    };
    let config = req.to_config();
    assert_eq!(config.kernel_args, "console=ttyS0 reboot=k panic=1");
    assert_eq!(config.vcpu_count, 4);
    assert_eq!(config.mem_size_mib, 1024);

    let dir = TempDir::new().unwrap();
    let mut mgr = fresh_manager(&dir);
    let vm = mgr.create_vm("test-vm-full".to_string(), config).unwrap();
    assert_eq!(vm.config.kernel_args, "console=ttyS0 reboot=k panic=1");
}

#[test]
fn test_create_vm_default_kernel_args() {
    let req = CreateVmRequest {
        name: "test-vm".to_string(),
        vcpu_count: 2,
        mem_size_mib: 512,
        kernel_image_path: "/path/to/kernel".to_string(),
        rootfs_path: "/path/to/rootfs.ext4".to_string(),
        kernel_args: None,
    };
    let config = req.to_config();
    assert_eq!(config.kernel_args, glidex::models::DEFAULT_KERNEL_ARGS);
    assert_eq!(config.kernel_args, "console=ttyS0 reboot=k panic=1 pci=off");
}

#[test]
fn test_create_vm_duplicate_name() {
    let dir = TempDir::new().unwrap();
    let mut mgr = fresh_manager(&dir);
    mgr.create_vm("duplicate-vm".to_string(), small_config(1, 256)).unwrap();
    let err = mgr.create_vm("duplicate-vm".to_string(), small_config(1, 256)).unwrap_err();
    assert!(matches!(err, VmManagerError::VmAlreadyExists(_)));
    let (status, body) = error_to_response(&err);
    assert_eq!(status, 409);
    assert_eq!(body.error, "conflict");
}

#[test]
fn test_get_vm_success() {
    let dir = TempDir::new().unwrap();
    let mut mgr = fresh_manager(&dir);
    let created = mgr.create_vm("get-test-vm".to_string(), test_config()).unwrap();
    let got = mgr.get_vm(&created.id).unwrap();
    assert_eq!(got.id, created.id);
    assert_eq!(got.name, "get-test-vm");
    assert_eq!(got.config.vcpu_count, 2);
    assert_eq!(got.config.mem_size_mib, 512);
    assert_eq!(got.config.kernel_image_path, "/path/to/kernel");
    assert_eq!(got.config.rootfs_path, "/path/to/rootfs.ext4");
    assert_eq!(got.state, VmState::Created);
}

#[test]
fn test_get_vm_not_found() {
    let dir = TempDir::new().unwrap();
    let mgr = fresh_manager(&dir);
    let err = mgr.get_vm("nonexistent-id").unwrap_err();
    assert!(matches!(err, VmManagerError::VmNotFound(_)));
    let (status, body) = error_to_response(&err);
    assert_eq!(status, 404);
    assert_eq!(body.error, "not_found");
}

#[test]
fn test_delete_vm_success() {
    let dir = TempDir::new().unwrap();
    let mut mgr = fresh_manager(&dir);
    let vm = mgr.create_vm("delete-test-vm".to_string(), small_config(1, 256)).unwrap();
    mgr.delete_vm(&vm.id).unwrap();
    assert!(mgr.get_vm(&vm.id).is_err());
    assert_eq!(mgr.list_vms().len(), 0);
}

#[test]
fn test_delete_vm_not_found() {
    let dir = TempDir::new().unwrap();
    let mut mgr = fresh_manager(&dir);
    let err = mgr.delete_vm("nonexistent-id").unwrap_err();
    assert!(matches!(err, VmManagerError::VmNotFound(_)));
}

#[test]
fn test_list_vms_after_create() {
    let dir = TempDir::new().unwrap();
    let mut mgr = fresh_manager(&dir);
    mgr.create_vm("vm-1".to_string(), small_config(1, 256)).unwrap();
    mgr.create_vm("vm-2".to_string(), small_config(1, 256)).unwrap();
    let vms = mgr.list_vms();
    assert_eq!(vms.len(), 2);
    let names: Vec<String> = vms.iter().map(|vm| vm.name.clone()).collect();
    assert!(names.contains(&"vm-1".to_string()));
    assert!(names.contains(&"vm-2".to_string()));
}

#[test]
fn test_start_vm_not_found() {
    let dir = TempDir::new().unwrap();
    let mut mgr = fresh_manager(&dir);
    assert!(matches!(
        mgr.plan_start("nonexistent-id"),
        Err(VmManagerError::VmNotFound(_))
    ));
    assert!(matches!(
        mgr.start_vm("nonexistent-id", StartAction::Boot),
        Err(VmManagerError::VmNotFound(_))
    ));
}

#[test]
fn test_stop_vm_not_found() {
    let dir = TempDir::new().unwrap();
    let mut mgr = fresh_manager(&dir);
    assert!(matches!(
        mgr.stop_vm("nonexistent-id"),
        Err(VmManagerError::VmNotFound(_))
    ));
}

#[test]
fn test_pause_vm_not_found() {
    let dir = TempDir::new().unwrap();
    let mut mgr = fresh_manager(&dir);
    assert!(matches!(
        mgr.pause_vm("nonexistent-id"),
        Err(VmManagerError::VmNotFound(_))
    ));
}

#[test]
fn test_stop_vm_invalid_state() {
    let dir = TempDir::new().unwrap();
    let mut mgr = fresh_manager(&dir);
    let vm = mgr.create_vm("stop-test-vm".to_string(), small_config(1, 256)).unwrap();
    let err = mgr.stop_vm(&vm.id).unwrap_err();
    match &err {
        VmManagerError::InvalidState { current, operation } => {
            assert_eq!(*current, VmState::Created);
            assert_eq!(operation, "stop");
        }
        other => panic!("unexpected error: {:?}", other),
    }
    let (status, body) = error_to_response(&err);
    assert_eq!(status, 400);
    assert_eq!(body.error, "invalid_state");
    // the record is untouched, in memory and on disk
    assert_eq!(mgr.get_vm(&vm.id).unwrap().state, VmState::Created);
    drop(mgr);
    let mgr2 = fresh_manager(&dir);
    assert_eq!(mgr2.get_vm(&vm.id).unwrap().state, VmState::Created);
}

#[test]
fn test_pause_vm_invalid_state() {
    let dir = TempDir::new().unwrap();
    let mut mgr = fresh_manager(&dir);
    let vm = mgr.create_vm("pause-test-vm".to_string(), small_config(1, 256)).unwrap();
    let err = mgr.pause_vm(&vm.id).unwrap_err();
    match &err {
        VmManagerError::InvalidState { current, operation } => {
            assert_eq!(*current, VmState::Created);
            assert_eq!(operation, "pause");
        }
        other => panic!("unexpected error: {:?}", other),
    }
    let (status, body) = error_to_response(&err);
    assert_eq!(status, 400);
    assert_eq!(body.error, "invalid_state");
    assert_eq!(mgr.get_vm(&vm.id).unwrap().state, VmState::Created);
}

#[test]
fn test_get_console_info_not_found() {
    let dir = TempDir::new().unwrap();
    let mgr = fresh_manager(&dir);
    assert!(matches!(
        mgr.get_vm("nonexistent-id"),
        Err(VmManagerError::VmNotFound(_))
    ));
}

#[test]
fn test_get_console_info_vm_not_running() {
    let dir = TempDir::new().unwrap();
    let mut mgr = fresh_manager(&dir);
    let vm = mgr.create_vm("console-test-vm".to_string(), small_config(1, 256)).unwrap();
    let info = ConsoleInfo::of_vm(&mgr.get_vm(&vm.id).unwrap());
    assert_eq!(info.vm_id, vm.id);
    assert!(!info.available);
    assert!(!info.console_socket_path.is_empty());
    assert!(!info.log_path.is_empty());
}

#[test]
fn test_vm_persists_across_restart() {
    let dir = TempDir::new().unwrap();
    let vm_id;
    {
        let mut mgr = fresh_manager(&dir);
        let vm = mgr.create_vm("persistent-vm".to_string(), test_config()).unwrap();
        vm_id = vm.id.clone();
    }
    {
        let mgr = fresh_manager(&dir);
        let vms = mgr.list_vms();
        assert_eq!(vms.len(), 1);
        assert_eq!(vms[0].id, vm_id);
        assert_eq!(vms[0].name, "persistent-vm");
        let vm = mgr.get_vm(&vm_id).unwrap();
        assert_eq!(vm.id, vm_id);
        assert_eq!(vm.name, "persistent-vm");
        assert_eq!(vm.config.vcpu_count, 2);
        assert_eq!(vm.config.mem_size_mib, 512);
    }
}

#[test]
fn test_vm_delete_persists() {
    let dir = TempDir::new().unwrap();
    let vm_id;
    {
        let mut mgr = fresh_manager(&dir);
        let vm = mgr.create_vm("delete-persist-vm".to_string(), small_config(1, 256)).unwrap();
        vm_id = vm.id.clone();
        mgr.delete_vm(&vm_id).unwrap();
    }
    {
        let mgr = fresh_manager(&dir);
        assert!(mgr.list_vms().is_empty());
        assert!(matches!(
            mgr.get_vm(&vm_id),
            Err(VmManagerError::VmNotFound(_))
        ));
    }
}

#[test]
fn test_multiple_vms_persist() {
    let dir = TempDir::new().unwrap();
    {
        let mut mgr = fresh_manager(&dir);
        for i in 1..=3u32 {
            mgr.create_vm(format!("multi-vm-{}", i), small_config(i as u8, 256 * i)).unwrap();
        }
    }
    {
        let mgr = fresh_manager(&dir);
        let vms = mgr.list_vms();
        assert_eq!(vms.len(), 3);
        let names: Vec<String> = vms.iter().map(|vm| vm.name.clone()).collect();
        assert!(names.contains(&"multi-vm-1".to_string()));
        assert!(names.contains(&"multi-vm-2".to_string()));
        assert!(names.contains(&"multi-vm-3".to_string()));
    }
}

#[test]
fn test_start_stop_lifecycle() {
    let dir = TempDir::new().unwrap();
    let mut mgr = fresh_manager(&dir);
    let vm = mgr.create_vm("lifecycle-vm".to_string(), small_config(1, 256)).unwrap();

    assert!(matches!(mgr.plan_start(&vm.id), Ok(StartAction::Boot)));
    let running = mgr.start_vm(&vm.id, StartAction::Boot).unwrap();
    assert_eq!(running.state, VmState::Running);

    // start on a running VM is an invalid transition
    assert!(matches!(
        mgr.plan_start(&vm.id),
        Err(VmManagerError::InvalidState { .. })
    ));

    mgr.plan_pause(&vm.id).unwrap();
    let paused = mgr.pause_vm(&vm.id).unwrap();
    assert_eq!(paused.state, VmState::Paused);

    // a paused VM resumes rather than boots
    assert!(matches!(mgr.plan_start(&vm.id), Ok(StartAction::Resume)));
    let resumed = mgr.start_vm(&vm.id, StartAction::Resume).unwrap();
    assert_eq!(resumed.state, VmState::Running);

    let stopped = mgr.stop_vm(&vm.id).unwrap();
    assert_eq!(stopped.state, VmState::Stopped);
    assert_eq!(mgr.get_vm(&vm.id).unwrap().state, VmState::Stopped);
}

#[test]
fn test_running_vm_reconciled_to_stopped_after_restart() {
    let dir = TempDir::new().unwrap();
    let vm_id;
    {
        let mut mgr = fresh_manager(&dir);
        let vm = mgr.create_vm("reconciled-vm".to_string(), small_config(1, 256)).unwrap();
        vm_id = vm.id.clone();
        mgr.start_vm(&vm_id, StartAction::Boot).unwrap();
        assert_eq!(mgr.get_vm(&vm_id).unwrap().state, VmState::Running);
    }
    {
        // the control plane "crashed" while the VM was marked Running
        let mgr = fresh_manager(&dir);
        assert_eq!(mgr.get_vm(&vm_id).unwrap().state, VmState::Stopped);
    }
}

#[test]
fn test_created_and_stopped_states_survive_restart() {
    let dir = TempDir::new().unwrap();
    let created_id;
    let stopped_id;
    {
        let mut mgr = fresh_manager(&dir);
        created_id = mgr.create_vm("stays-created".to_string(), small_config(1, 256)).unwrap().id;
        stopped_id = mgr.create_vm("stays-stopped".to_string(), small_config(1, 256)).unwrap().id;
        mgr.start_vm(&stopped_id, StartAction::Boot).unwrap();
        mgr.stop_vm(&stopped_id).unwrap();
    }
    {
        let mgr = fresh_manager(&dir);
        assert_eq!(mgr.get_vm(&created_id).unwrap().state, VmState::Created);
        assert_eq!(mgr.get_vm(&stopped_id).unwrap().state, VmState::Stopped);
    }
}

#[test]
fn test_delete_while_running() {
    let dir = TempDir::new().unwrap();
    let mut mgr = fresh_manager(&dir);
    let vm = mgr.create_vm("doomed-vm".to_string(), small_config(1, 256)).unwrap();
    mgr.start_vm(&vm.id, StartAction::Boot).unwrap();
    mgr.delete_vm(&vm.id).unwrap();
    assert!(mgr.get_vm(&vm.id).is_err());
    drop(mgr);
    let mgr2 = fresh_manager(&dir);
    assert!(mgr2.list_vms().is_empty());
}

#[test]
fn test_error_messages() {
    let not_found = VmManagerError::VmNotFound("abc".to_string());
    assert_eq!(not_found.message(), "VM not found: abc");
    let exists = VmManagerError::VmAlreadyExists("web".to_string());
    assert_eq!(exists.message(), "VM already exists: web");
    let invalid = VmManagerError::InvalidState {
        current: VmState::Created,
        operation: "stop".to_string(),
    };
    assert_eq!(invalid.message(), "Invalid state Created for operation: stop");
}

#[test]
fn test_initialize_reports_stale_sockets() {
    let dir = TempDir::new().unwrap();
    let sock;
    let csock;
    {
        let mut mgr = fresh_manager(&dir);
        let vm = mgr.create_vm("stale-vm".to_string(), small_config(1, 256)).unwrap();
        sock = vm.socket_path.clone();
        csock = vm.console_socket_path.clone();
        mgr.start_vm(&vm.id, StartAction::Boot).unwrap();
    }
    {
        let path = dir.path().join("test.db");
        let mut mgr = VmManager::with_db_path(path.to_str().unwrap()).unwrap();
        let stale = mgr.initialize().unwrap();
        assert!(stale.contains(&sock));
        assert!(stale.contains(&csock));
    }
}

#[test]
fn test_name_free_after_delete() {
    let dir = TempDir::new().unwrap();
    let mut mgr = fresh_manager(&dir);
    let vm = mgr.create_vm("reuse".to_string(), small_config(1, 256)).unwrap();
    mgr.delete_vm(&vm.id).unwrap();
    let again = mgr.create_vm("reuse".to_string(), small_config(1, 256)).unwrap();
    assert_eq!(again.name, "reuse");
    assert_ne!(again.id, vm.id);
}
