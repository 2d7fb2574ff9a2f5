use purge::gateway::{detect_device, get_device_model, list_packages, DeviceError};
use purge::tool::{adb_path, files_to_write, needs_exec_mode};

#[test]
fn device_ready_line_is_detected() {
    let out = "List of devices attached\nR58M123\tdevice\n\n";
    assert_eq!(detect_device(out), Ok(()));
}

#[test]
fn device_listing_with_crlf_is_detected() {
    let out = "List of devices attached\r\nR58M123\tdevice\r\n";
    assert_eq!(detect_device(out), Ok(()));
}

#[test]
fn no_ready_line_means_no_device() {
    let out = "List of devices attached\nR58M123\tunauthorized\n";
    let r = detect_device(out);
    assert_eq!(r, Err(DeviceError::NoAuthorizedDevice));
    assert_eq!(r.unwrap_err().reason(), "No authorized device found.");
}

#[test]
fn empty_listing_means_no_device() {
    assert_eq!(detect_device(""), Err(DeviceError::NoAuthorizedDevice));
}

#[test]
fn two_ready_devices_are_refused() {
    let out = "List of devices attached\nA1\tdevice\nB2\tdevice\n";
    assert_eq!(detect_device(out), Err(DeviceError::NoAuthorizedDevice));
}

#[test]
fn model_is_trimmed() {
    assert_eq!(get_device_model(true, "  Pixel-7\r\n"), Ok("Pixel-7".to_string()));
}

#[test]
fn blank_model_is_empty_model() {
    assert_eq!(get_device_model(true, " \n\t"), Err(DeviceError::EmptyModel));
    assert_eq!(
        DeviceError::EmptyModel.reason(),
        "Device model name is empty."
    );
}

#[test]
fn failed_model_query_is_invocation_failure() {
    let r = get_device_model(false, "Pixel-7");
    assert_eq!(
        r,
        Err(DeviceError::ToolInvocationFailed(
            "Could not retrieve device model.".to_string()
        ))
    );
}

#[test]
fn package_prefix_is_stripped() {
    let out = "package:com.a\npackage:com.b\n";
    assert_eq!(list_packages(out), vec!["com.a".to_string(), "com.b".to_string()]);
}

#[test]
fn package_lines_keep_order_and_duplicates() {
    let out = "package:com.b\r\npackage:com.a\r\npackage:com.b";
    assert_eq!(
        list_packages(out),
        vec!["com.b".to_string(), "com.a".to_string(), "com.b".to_string()]
    );
}

#[test]
fn line_without_prefix_is_kept_whole() {
    assert_eq!(list_packages("odd line\n"), vec!["odd line".to_string()]);
}

#[test]
fn empty_package_listing_is_empty() {
    assert_eq!(list_packages(""), Vec::<String>::new());
}

#[test]
fn tool_missing_reason_names_the_cause() {
    let e = DeviceError::ToolMissingOrUnwritable("permission denied".to_string());
    assert_eq!(e.reason(), "Failed to prepare ADB: permission denied");
    let m = DeviceError::MalformedOutput("no lines".to_string());
    assert_eq!(m.reason(), "Unexpected output from ADB: no lines");
}

#[test]
fn adb_path_joins_with_separator() {
    assert_eq!(adb_path("/tmp/purge_adb", false), "/tmp/purge_adb/adb");
    assert_eq!(adb_path("/tmp/purge_adb/", false), "/tmp/purge_adb/adb");
    assert_eq!(adb_path("C:\\Temp\\purge_adb", true), "C:\\Temp\\purge_adb\\adb.exe");
    assert_eq!(adb_path("", false), "adb");
}

#[test]
fn only_the_tool_gets_exec_mode_on_unix() {
    assert!(needs_exec_mode("adb", true));
    assert!(!needs_exec_mode("adb", false));
    assert!(!needs_exec_mode("AdbWinApi.dll", true));
}

#[test]
fn extraction_writes_missing_files_once() {
    let present = vec![true, false, false];
    let first = files_to_write(&present);
    assert_eq!(first, vec![1, 2]);
    let mut after = present.clone();
    for i in &first {
        after[*i] = true;
    }
    assert_eq!(files_to_write(&after), Vec::<usize>::new());
}
