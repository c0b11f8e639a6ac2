//! The composed paths of the daemon's HTTP surface.

use nanocl_core::client_paths::{
    process_action_path, process_inspect_path, process_list_path, process_logs_path,
    processes_logs_path, secret_delete_path, secret_inspect_path, secret_root_path,
};

#[test]
fn process_paths() {
    assert_eq!(process_list_path().as_str(), "/processes");
    assert_eq!(process_logs_path("nstore.system.c").as_str(), "/processes/nstore.system.c/logs");
    assert_eq!(
        processes_logs_path("cargo", "nstore").as_str(),
        "/processes/cargo/nstore/logs"
    );
    assert_eq!(
        process_action_path("cargo", "my-cargo", "start").as_str(),
        "/processes/cargo/my-cargo/start"
    );
    assert_eq!(
        process_action_path("cargo", "my-cargo", "restart").as_str(),
        "/processes/cargo/my-cargo/restart"
    );
    assert_eq!(
        process_action_path("cargo", "my-cargo", "stop").as_str(),
        "/processes/cargo/my-cargo/stop"
    );
    assert_eq!(
        process_action_path("cargo", "my-cargo", "kill").as_str(),
        "/processes/cargo/my-cargo/kill"
    );
    assert_eq!(
        process_inspect_path("nstore.system.c").as_str(),
        "/processes/nstore.system.c/inspect"
    );
}

#[test]
fn secret_paths() {
    assert_eq!(secret_root_path().as_str(), "/secrets");
    assert_eq!(secret_inspect_path("my-secret").as_str(), "/secrets/my-secret/inspect");
    assert_eq!(secret_delete_path("my-secret").as_str(), "/secrets/my-secret");
}
