use qingpan::apps::{
    command_icon_source, parse_display_icon, parse_uninstall_command, parse_windows_arguments,
    select_visible_uninstaller, Environment, IconSource,
};
use qingpan::base64::{encode_base64, png_data_url, MAX_ICON_DATA_URL_BYTES};
use qingpan::installed::{
    launch_prepared_uninstaller_with_policy, stable_app_id, InstalledAppSnapshot, UninstallRequest,
};
use qingpan::policy::CapabilityPolicy;

const PNG_SIGNATURE: &[u8] = &[0x89, 0x50, 0x4e, 0x47, 0x0d, 0x0a, 0x1a, 0x0a];
const PNG_DATA_URL_PREFIX: &str = "data:image/png;base64,";

#[test]
fn parses_quoted_executable_and_arguments() {
    let parsed = parse_uninstall_command(
        r#""C:\Program Files\Example App\uninstall.exe" /remove "all users""#,
        &Environment::empty(),
    )
    .expect("quoted command should parse");

    assert_eq!(
        parsed.executable,
        r"C:\Program Files\Example App\uninstall.exe"
    );
    assert_eq!(parsed.arguments, ["/remove", "all users"]);
}

#[test]
fn parses_msiexec_product_command() {
    let parsed = parse_uninstall_command(
        r"MsiExec.exe /I{12345678-1234-1234-1234-1234567890AB}",
        &Environment::empty(),
    )
    .expect("MSI command should parse");

    assert_eq!(parsed.executable, "MsiExec.exe");
    assert_eq!(
        parsed.arguments,
        ["/I{12345678-1234-1234-1234-1234567890AB}"]
    );
}

#[test]
fn recovers_unquoted_executable_path_with_spaces() {
    let parsed = parse_uninstall_command(
        r"C:\Program Files\Example App\uninstall.exe --uninstall --scope user",
        &Environment::empty(),
    )
    .expect("unquoted executable should be recovered without shell search");

    assert_eq!(
        parsed.executable,
        r"C:\Program Files\Example App\uninstall.exe"
    );
    assert_eq!(parsed.arguments, ["--uninstall", "--scope", "user"]);
}

#[test]
fn handles_windows_backslashes_before_quote() {
    let parsed = parse_windows_arguments(r#"tool.exe "a\\\"b" "c d""#)
        .expect("escaped quote should parse");

    assert_eq!(parsed, ["tool.exe", "a\\\"b", "c d"]);
}

#[test]
fn rejects_unclosed_quotes() {
    let error = parse_uninstall_command(r#""C:\Program Files\bad.exe /remove"#, &Environment::empty())
        .expect_err("malformed command should be rejected");
    assert!(error.contains("未闭合"));
}

#[test]
fn rejects_unknown_snapshot_id_without_starting_any_process() {
    let snapshot = InstalledAppSnapshot::default();
    let error = snapshot
        .uninstall_request("app_forged")
        .err()
        .expect("unknown IDs must be rejected before platform launch");

    assert_eq!(error, "应用不属于最近一次枚举快照");
}

#[test]
fn production_release_policy_rejects_before_starting_uninstaller() {
    let error = launch_prepared_uninstaller_with_policy(
        UninstallRequest {
            app_id: "app_test".into(),
            command: "must-not-start.exe /uninstall".into(),
        },
        CapabilityPolicy::production_release(),
    )
    .err()
    .expect("production release must reject legacy Win32 uninstall launch");

    assert!(error.contains("发布策略未启用"));
    assert!(error.contains("未启动外部进程"));
}

#[test]
fn app_id_is_stable_and_separates_registry_views() {
    let first = stable_app_id("HKLM", "64", "{PRODUCT-GUID}");
    let same = stable_app_id("HKLM", "64", "{product-guid}");
    let other_view = stable_app_id("HKLM", "32", "{PRODUCT-GUID}");

    assert_eq!(first, same);
    assert_ne!(first, other_view);
    assert!(first.starts_with("app_"));
    assert_eq!(first.len(), 68);
}

#[test]
fn requires_a_normal_visible_uninstall_string() {
    assert_eq!(select_visible_uninstaller(None, false), None);
    assert_eq!(
        select_visible_uninstaller(Some("visible.exe".into()), true),
        None
    );
    assert_eq!(
        select_visible_uninstaller(Some("visible.exe".into()), false),
        Some("visible.exe".into())
    );
}

#[test]
fn parses_display_icon_quotes_commas_and_resource_ids() {
    let quoted = parse_display_icon(
        r#" @"C:\Program Files\Acme, Inc\resources.dll", -42 "#,
        &Environment::empty(),
    )
    .expect("quoted DisplayIcon should parse");
    assert_eq!(
        quoted,
        IconSource {
            path: r"C:\Program Files\Acme, Inc\resources.dll".into(),
            index: -42,
        }
    );

    let unquoted = parse_display_icon(r"C:\Program Files\Acme, Inc\acme.exe,7", &Environment::empty())
        .expect("the last numeric comma suffix is the resource index");
    assert_eq!(
        unquoted,
        IconSource {
            path: r"C:\Program Files\Acme, Inc\acme.exe".into(),
            index: 7,
        }
    );
}

#[test]
fn rejects_malformed_or_indirect_non_file_display_icons() {
    let env = Environment::empty();
    assert!(parse_display_icon(r#""C:\app.exe",not-an-index"#, &env).is_none());
    assert!(parse_display_icon("ms-resource:AppIcon", &env).is_none());
    assert!(parse_display_icon("@{Package?ms-resource://icon}", &env).is_none());
    assert!(parse_display_icon("C:\\app.exe\0,0", &env).is_none());
}

#[test]
fn uninstall_icon_fallback_accepts_only_local_non_interpreter_exe() {
    let env = Environment::empty();
    let source = command_icon_source(r#""C:\Program Files\Example\uninstall.exe" /remove"#, &env)
        .expect("local vendor executable should be usable as a fallback");
    assert_eq!(source.path, r"C:\Program Files\Example\uninstall.exe");
    assert_eq!(source.index, 0);

    assert!(command_icon_source(r"MsiExec.exe /I{PRODUCT}", &env).is_none());
    assert!(
        command_icon_source(r"C:\Windows\System32\rundll32.exe setup.dll,Remove", &env).is_none()
    );
    assert!(command_icon_source(r"C:\Windows\System32\cmd.exe /c remove", &env).is_none());
    assert!(command_icon_source(r"\\server\share\uninstall.exe /remove", &env).is_none());
}

#[test]
fn png_data_url_is_base64_round_trippable_and_bounded() {
    assert_eq!(encode_base64(b""), "");
    assert_eq!(encode_base64(b"f"), "Zg==");
    assert_eq!(encode_base64(b"fo"), "Zm8=");
    assert_eq!(encode_base64(b"foo"), "Zm9v");
    assert_eq!(encode_base64(b"foobar"), "Zm9vYmFy");

    let mut png = PNG_SIGNATURE.to_vec();
    png.extend_from_slice(&[0, 1, 2, 3, 4]);
    let data_url = png_data_url(&png).expect("small PNG should serialize");
    let payload = data_url
        .strip_prefix(PNG_DATA_URL_PREFIX)
        .expect("data URL should use the PNG prefix");
    assert_eq!(payload, "iVBORw0KGgoAAQIDBA==");

    let mut oversized = vec![0_u8; MAX_ICON_DATA_URL_BYTES];
    oversized[..PNG_SIGNATURE.len()].copy_from_slice(PNG_SIGNATURE);
    assert!(png_data_url(&oversized).is_none());
    assert!(png_data_url(b"not a png").is_none());
}
