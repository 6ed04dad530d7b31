use cursor_reset::model::CursorDeviceInfo;
use cursor_reset::store::{
    device_info_from_entries, merge_identity, read_device_info, reset_document, ConfigEntry,
    FieldValue,
};

fn sample_info() -> CursorDeviceInfo {
    CursorDeviceInfo::new("m".to_string(), "h".to_string(), "{S}".to_string(), "d".to_string())
}

#[test]
fn inspect_reads_the_machine_id_only() {
    let d = read_device_info("{\"telemetry.machineId\": \"abc123\"}");
    assert_eq!(d.machine_id, "abc123");
    assert_eq!(d.mac_machine_id, "");
    assert_eq!(d.sqm_id, "");
    assert_eq!(d.dev_device_id, "");
}

#[test]
fn all_four_fields_are_read() {
    let d = read_device_info(
        "{\"telemetry.macMachineId\":\"a\",\"telemetry.machineId\":\"b\",\"telemetry.sqmId\":\"c\",\"telemetry.devDeviceId\":\"e\",\"other\":1}",
    );
    assert_eq!(d.blocking_kind(), "a:b:c:e");
}

#[test]
fn malformed_or_non_object_reads_empty() {
    assert_eq!(read_device_info("{not json").blocking_kind(), ":::");
    assert_eq!(read_device_info("[1, 2]").blocking_kind(), ":::");
    assert_eq!(read_device_info("").blocking_kind(), ":::");
}

#[test]
fn non_string_identity_values_read_empty() {
    let d = read_device_info("{\"telemetry.machineId\": 5, \"telemetry.sqmId\": \"q\"}");
    assert_eq!(d.machine_id, "");
    assert_eq!(d.sqm_id, "q");
}

#[test]
fn merge_keeps_unrelated_entries() {
    let entries = vec![
        ConfigEntry { key: "telemetry.macMachineId".to_string(), value: FieldValue::Text("old".to_string()) },
        ConfigEntry { key: "unrelated.key".to_string(), value: FieldValue::Other(serde_json::Value::Bool(true)) },
    ];
    let merged = merge_identity(entries, &sample_info());
    assert_eq!(merged.len(), 5);
    assert_eq!(merged[0].key, "unrelated.key");
    assert!(matches!(merged[0].value, FieldValue::Other(serde_json::Value::Bool(true))));
    let d = device_info_from_entries(&merged);
    assert_eq!(d.blocking_kind(), "m:h:{S}:d");
}

#[test]
fn reset_round_trip_keeps_unrelated_key() {
    let before = "{\"telemetry.macMachineId\": \"X\", \"unrelated.key\": \"Y\"}";
    let after = reset_document(Some(before), &sample_info());
    let v: serde_json::Value = serde_json::from_str(&after).unwrap();
    assert_eq!(v["unrelated.key"], serde_json::Value::String("Y".to_string()));
    assert_eq!(v["telemetry.macMachineId"], serde_json::Value::String("m".to_string()));
    assert_eq!(v["telemetry.sqmId"], serde_json::Value::String("{S}".to_string()));
    assert_eq!(v.as_object().unwrap().len(), 5);
    assert_eq!(read_device_info(&after).blocking_kind(), "m:h:{S}:d");
}

#[test]
fn reset_of_unreadable_store_writes_identity_only() {
    let after = reset_document(None, &sample_info());
    let v: serde_json::Value = serde_json::from_str(&after).unwrap();
    assert_eq!(v.as_object().unwrap().len(), 4);
    assert!(after.contains('\n'));
    let broken = reset_document(Some("{oops"), &sample_info());
    assert_eq!(broken, after);
}
