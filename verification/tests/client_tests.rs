use glidex::firecracker::{
    boot_source_body, build_request, machine_config_body, response_is_success, root_drive_body,
    u64_to_string, FirecrackerClient, FirecrackerError,
};
use glidex::persistence::PersistenceError;

#[test]
fn test_u64_to_string() {
    assert_eq!(u64_to_string(0), "0");
    assert_eq!(u64_to_string(7), "7");
    assert_eq!(u64_to_string(512), "512");
    assert_eq!(u64_to_string(18446744073709551615), "18446744073709551615");
}

#[test]
fn test_build_request_exact() {
    let req = build_request("PUT", "/machine-config", "{\"a\":1}");
    let expected = "PUT /machine-config HTTP/1.1\r\nHost: localhost\r\nContent-Type: application/json\r\nContent-Length: 7\r\nConnection: close\r\n\r\n{\"a\":1}";
    assert_eq!(req, expected);
}

#[test]
fn test_build_request_counts_bytes_not_chars() {
    // a two-byte UTF-8 character counts as two body bytes
    let req = build_request("PUT", "/x", "é");
    assert!(req.contains("Content-Length: 2\r\n"));
}

#[test]
fn test_machine_config_body() {
    assert_eq!(
        machine_config_body(2, 512),
        "{\"vcpu_count\":2,\"mem_size_mib\":512}"
    );
}

#[test]
fn test_boot_source_body() {
    assert_eq!(
        boot_source_body("/k", "console=ttyS0"),
        "{\"kernel_image_path\":\"/k\",\"boot_args\":\"console=ttyS0\"}"
    );
    // quotes and backslashes in paths are escaped
    assert_eq!(
        boot_source_body("/weird\"path", "a\\b"),
        "{\"kernel_image_path\":\"/weird\\\"path\",\"boot_args\":\"a\\\\b\"}"
    );
}

#[test]
fn test_root_drive_body() {
    assert_eq!(
        root_drive_body("/r"),
        "{\"drive_id\":\"rootfs\",\"path_on_host\":\"/r\",\"is_root_device\":true,\"is_read_only\":false}"
    );
}

#[test]
fn test_response_is_success() {
    assert!(response_is_success(&b"HTTP/1.1 200 OK\r\n\r\n".to_vec()));
    assert!(response_is_success(&b"HTTP/1.1 204 No Content\r\n\r\n".to_vec()));
    assert!(!response_is_success(&b"HTTP/1.1 400 Bad Request\r\n\r\n".to_vec()));
    assert!(!response_is_success(&b"HTTP/1.1 500 Oops\r\n\r\n".to_vec()));
    assert!(!response_is_success(&b"HTTP/1.1 2".to_vec()));
    assert!(!response_is_success(&b"".to_vec()));
    // a 204 buried later in the text does not make the status line a success
    assert!(!response_is_success(&b"HTTP/1.1 404\r\nX: HTTP/1.1 204\r\n\r\n".to_vec()));
}

#[test]
fn test_send_request_connection_failure() {
    let client = FirecrackerClient::new("/tmp/glidex-test-no-such-socket.sock");
    let err = client.send_request("PUT", "/x", "").unwrap_err();
    assert!(matches!(err, FirecrackerError::SocketConnection(_)));
}

#[test]
fn test_pause_instance_connection_failure() {
    let client = FirecrackerClient::new("/tmp/glidex-test-no-such-socket-2.sock");
    assert!(client.pause_instance().0.is_err());
    assert!(client.resume_instance().0.is_err());
}

#[test]
fn test_firecracker_error_messages() {
    let e = FirecrackerError::SocketConnection("refused".to_string());
    assert_eq!(e.message(), "Failed to connect to Firecracker socket: refused");
    let e = FirecrackerError::ApiRequest("HTTP/1.1 400".to_string());
    assert_eq!(e.message(), "API request failed: HTTP/1.1 400");
    let e = FirecrackerError::ProcessStart("no binary".to_string());
    assert_eq!(e.message(), "Failed to start Firecracker process: no binary");
}

#[test]
fn test_persistence_error_messages() {
    let e = PersistenceError::Storage("disk gone".to_string());
    assert_eq!(e.message(), "Storage error: disk gone");
    let e = PersistenceError::Serialization("bad record".to_string());
    assert_eq!(e.message(), "Serialization error: bad record");
    let e = PersistenceError::VmNotFound("xyz".to_string());
    assert_eq!(e.message(), "VM not found: xyz");
}

#[test]
fn test_error_to_response_server_errors() {
    let (status, body) = glidex::api::error_to_response(&glidex::state::VmManagerError::FirecrackerError(
        FirecrackerError::ApiRequest("x".to_string()),
    ));
    assert_eq!(status, 500);
    assert_eq!(body.error, "firecracker_error");
    let (status, body) = glidex::api::error_to_response(&glidex::state::VmManagerError::PersistenceError(
        PersistenceError::Storage("x".to_string()),
    ));
    assert_eq!(status, 500);
    assert_eq!(body.error, "persistence_error");
}
