use qingpan::exclusions::PathPart;
use qingpan::quarantine::listing::list_limit;
use qingpan::quarantine::manifest::{
    manifest_fields_closed, manifest_record_id, object_name, safe_export_file_name, validate_manifest, QuarantineManifest,
};
use qingpan::quarantine::types::ErrorKind;
use qingpan::scanner::wechat_roots::{
    wechat_document_setting, wechat_documents_root, xwechat_config_names, xwechat_data_root, xwechat_setting, ConfigEntry,
};

fn parts(names: &[&str]) -> Vec<PathPart> {
    let mut out = vec![PathPart::Prefix("D:".to_string()), PathPart::Root];
    out.extend(names.iter().map(|name| PathPart::Normal(name.to_string())));
    out
}

fn names(parts: &[PathPart]) -> Vec<String> {
    parts
        .iter()
        .filter_map(|part| match part {
            PathPart::Normal(name) => Some(name.clone()),
            _ => None,
        })
        .collect()
}

#[test]
fn classic_client_setting_is_read_from_its_line() {
    let content = "Version:1\r\n\u{feff}MyDocument:  D:\\Chats \r\nOther:x\n";
    assert_eq!(wechat_document_setting(content, content.len()).as_deref(), Some("D:\\Chats"));
    assert_eq!(wechat_document_setting("MyDocument:\nMyDocument:D:\\x", 30), None);
    assert_eq!(wechat_document_setting("Nothing here", 12), None);
    assert_eq!(wechat_document_setting("MyDocument:D:\\x", 65_537), None);
    let long = format!("MyDocument:D:\\{}", "a".repeat(32_767));
    assert_eq!(wechat_document_setting(&long, long.len()), None);
}

#[test]
fn configured_roots_name_the_parent_of_the_data_directory() {
    let root = wechat_documents_root(parts(&["Docs", "wechat files"]), true).unwrap();
    assert_eq!(names(&root), vec!["Docs"]);
    let root = wechat_documents_root(parts(&["Docs"]), true).unwrap();
    assert_eq!(names(&root), vec!["Docs"]);
    assert!(wechat_documents_root(vec![PathPart::Normal("Docs".into())], false).is_none());
    let root = xwechat_data_root(parts(&["Data", "XWeChat_Files"]), true).unwrap();
    assert_eq!(names(&root), vec!["Data"]);
    assert!(xwechat_data_root(parts(&["Data"]), false).is_none());
}

#[test]
fn xwechat_setting_is_trimmed_and_checked() {
    assert_eq!(xwechat_setting("  \u{feff}D:\\Data\r\n").as_deref(), Some("D:\\Data"));
    assert_eq!(xwechat_setting(" \n "), None);
    assert_eq!(xwechat_setting("D:\\Da\0ta"), None);
}

fn entry(name: &str, is_file: bool, link: bool, size: u64) -> ConfigEntry {
    ConfigEntry { name: name.into(), is_file, is_link_or_reparse: link, size }
}

#[test]
fn xwechat_configuration_files_are_filtered_and_ordered() {
    let a = "0123456789abcdef0123456789ABCDEF.ini";
    let b = "00000000000000000000000000000000.INI";
    let ordered = xwechat_config_names(vec![
        entry(a, true, false, 100),
        entry(b, true, false, 4096),
        entry("0123456789abcdef0123456789abcdeg.ini", true, false, 10),
        entry("0123456789abcdef0123456789abcdef.txt", true, false, 10),
        entry("11111111111111111111111111111111.ini", true, false, 4097),
        entry("22222222222222222222222222222222.ini", true, true, 10),
        entry("33333333333333333333333333333333.ini", false, false, 10),
    ]);
    assert_eq!(ordered, vec![b.to_string(), a.to_string()]);
}

fn manifest(record_id: u128) -> QuarantineManifest {
    QuarantineManifest {
        schema_version: 1,
        protocol: "quarantine-preview-v1".into(),
        record_id,
        file_name: "report.txt".into(),
        rule_id: "temp".into(),
        plan_id: "plan-1".into(),
        created_at_ms: 1,
        size_bytes: 2,
        sha256: "a".repeat(64),
        object_name: object_name(record_id),
    }
}

#[test]
fn manifests_must_be_canonical_and_safe() {
    let id = 0x0123_4567_89ab_4def_8123_4567_89ab_cdef_u128;
    assert_eq!(object_name(id), "01234567-89ab-4def-8123-456789abcdef.blob");
    assert!(validate_manifest(&manifest(id), id).is_ok());
    let mismatch = validate_manifest(&manifest(id), id + 1).unwrap_err();
    assert_eq!(mismatch.kind(), ErrorKind::InvalidData);
    assert_eq!(mismatch.message, "quarantine manifest record ID mismatch");
    let mut bad = manifest(id);
    bad.object_name = "other.blob".into();
    assert_eq!(validate_manifest(&bad, id).unwrap_err().message, "quarantine manifest object name is not canonical");
    let mut bad = manifest(id);
    bad.sha256 = "A".repeat(64);
    assert_eq!(validate_manifest(&bad, id).unwrap_err().message, "quarantine manifest SHA-256 is not canonical");
    let mut bad = manifest(id);
    bad.plan_id = String::new();
    assert_eq!(validate_manifest(&bad, id).unwrap_err().message, "quarantine manifest origin is incomplete");
    let mut bad = manifest(id);
    bad.protocol = "v2".into();
    assert_eq!(validate_manifest(&bad, id).unwrap_err().message, "unsupported quarantine manifest protocol");
    let mut bad = manifest(id);
    bad.file_name = "..\\escape.txt".into();
    assert_eq!(validate_manifest(&bad, id).unwrap_err().message, "quarantine manifest file name is unsafe");
}

#[test]
fn export_file_names_refuse_reserved_and_unsafe_forms() {
    for name in ["report.txt", "数据.bin", "COM10.txt", "console", "LPT0"] {
        assert!(safe_export_file_name(&name.to_string()), "{name} should be safe");
    }
    for name in ["", ".", "..", "a.", "a ", "a/b", "a:b", "a\u{7}b", "con", "Nul.txt", "com1", "LPT9.log", "aux.tar.gz"] {
        assert!(!safe_export_file_name(&name.to_string()), "{name:?} should be refused");
    }
    assert!(!safe_export_file_name(&"a".repeat(256)));
    assert!(safe_export_file_name(&"a".repeat(255)));
}

#[test]
fn manifest_files_are_named_by_their_record() {
    let id = 0x0123_4567_89ab_4def_8123_4567_89ab_cdef_u128;
    assert_eq!(manifest_record_id(&"01234567-89ab-4def-8123-456789abcdef.json".to_string()), Some(id));
    assert_eq!(manifest_record_id(&"01234567-89AB-4DEF-8123-456789ABCDEF.json".to_string()), None);
    assert_eq!(manifest_record_id(&"0123456789ab4def8123456789abcdef.json".to_string()), None);
    assert_eq!(manifest_record_id(&"01234567-89ab-4def-8123-456789abcdef.txt".to_string()), None);
    assert_eq!(manifest_record_id(&"notes.json".to_string()), None);
}

#[test]
fn manifest_objects_must_hold_exactly_their_fields() {
    let fields: Vec<String> = [
        "schemaVersion", "protocol", "recordId", "fileName", "ruleId", "planId", "createdAtMs", "sizeBytes", "sha256",
        "objectName",
    ]
    .iter()
    .map(|f| f.to_string())
    .collect();
    assert!(manifest_fields_closed(&fields));
    assert!(!manifest_fields_closed(&fields[..9].to_vec()));
    let mut extra = fields[..9].to_vec();
    extra.push("comment".to_string());
    assert!(!manifest_fields_closed(&extra));
    assert_eq!(list_limit(0), 1);
    assert_eq!(list_limit(20), 20);
    assert_eq!(list_limit(10_000), 500);
}
