use cursor_reset::model::{CursorDeviceInfo, CursorInstallInfo};
use cursor_reset::ops::{get_device_info, plan_reset, reset_device_info, ResetPlan};
use cursor_reset::paths::{get_package_path, Platform};

#[test]
fn inspect_without_store_is_empty() {
    let path = get_package_path(Platform::MacLayout, "/Users/ann", &vec![false, false, false, false]);
    let d = get_device_info(&path, None);
    assert_eq!(d.blocking_kind(), ":::");
}

#[test]
fn inspect_of_unreadable_store_is_empty() {
    assert_eq!(get_device_info("/x/storage.json", None).blocking_kind(), ":::");
    assert_eq!(get_device_info("", Some("{\"telemetry.sqmId\":\"s\"}")).blocking_kind(), ":::");
}

#[test]
fn inspect_reads_found_store() {
    let d = get_device_info("/x/storage.json", Some("{\"telemetry.machineId\": \"abc123\"}"));
    assert_eq!(d.machine_id, "abc123");
    assert_eq!(d.mac_machine_id, "");
}

#[test]
fn reset_without_store_does_nothing() {
    let plan = reset_device_info("", None);
    assert!(matches!(plan, ResetPlan::NotConfigured));
    assert_eq!(plan.identity().blocking_kind(), ":::");
}

#[test]
fn reset_with_store_rewrites_it() {
    let plan = reset_device_info("/x/storage.json", Some("{\"keep\": [1, 2]}"));
    match &plan {
        ResetPlan::Rewrite { info, document } => {
            let v: serde_json::Value = serde_json::from_str(document).unwrap();
            assert_eq!(v["keep"], serde_json::Value::Array(vec![serde_json::Value::from(1), serde_json::Value::from(2)]));
            assert_eq!(v["telemetry.machineId"].as_str().unwrap(), info.machine_id);
            assert_eq!(info.machine_id.len(), 64);
        }
        _ => panic!("expected a rewrite"),
    }
}

#[test]
fn planned_reset_uses_given_identity() {
    let info = CursorDeviceInfo::new("a".to_string(), "b".to_string(), "c".to_string(), "d".to_string());
    let plan = plan_reset("/x/s.json", None, info);
    assert_eq!(plan.identity().blocking_kind(), "a:b:c:d");
}

#[test]
fn model_constructors_keep_fields() {
    let d = CursorDeviceInfo::new("1".to_string(), "2".to_string(), "3".to_string(), "4".to_string());
    assert_eq!(d.clone().reset().blocking_kind(), "1:2:3:4");
    let i = CursorInstallInfo::new("p".to_string(), "l".to_string(), "v".to_string(), "u".to_string());
    assert_eq!(i.install_path, "p");
    assert_eq!(i.install_user, "u");
}

#[test]
fn reset_document_holds_new_identity_and_unrelated_key() {
    let before = "{\"telemetry.macMachineId\": \"X\", \"unrelated.key\": \"Y\"}";
    match reset_device_info("/x/storage.json", Some(before)) {
        ResetPlan::Rewrite { info, document } => {
            let v: serde_json::Value = serde_json::from_str(&document).unwrap();
            let obj = v.as_object().unwrap();
            assert_eq!(obj.len(), 5);
            assert_eq!(obj["unrelated.key"], serde_json::Value::String("Y".to_string()));
            assert_eq!(obj["telemetry.macMachineId"].as_str().unwrap(), info.mac_machine_id);
            assert_ne!(info.mac_machine_id, "X");
            assert_eq!(obj["telemetry.machineId"].as_str().unwrap(), info.machine_id);
            assert_eq!(obj["telemetry.sqmId"].as_str().unwrap(), info.sqm_id);
            assert_eq!(obj["telemetry.devDeviceId"].as_str().unwrap(), info.dev_device_id);
            assert_eq!(document, serde_json::to_string_pretty(obj).unwrap());
        }
        _ => panic!("expected a rewrite"),
    }
}
