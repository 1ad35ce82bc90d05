use qingpan::policy::{compiled_build_channel, BuildChannel, CapabilityPolicy, DangerousWriteCapability};

const DANGEROUS_CAPABILITIES: [DangerousWriteCapability; 3] = [
    DangerousWriteCapability::ExperimentalQuarantineSourceRemoval,
    DangerousWriteCapability::PermanentOriginalFileDelete,
    DangerousWriteCapability::LegacyWin32UninstallLaunch,
];

#[test]
fn production_release_denies_every_dangerous_write_capability() {
    let policy = CapabilityPolicy::production_release();

    for capability in DANGEROUS_CAPABILITIES {
        assert!(policy.require(capability).is_err());
    }
}

#[test]
fn debug_and_internal_channels_allow_explicit_preview_capabilities() {
    for build_channel in [BuildChannel::Debug, BuildChannel::Internal] {
        let policy = CapabilityPolicy { build_channel };
        for capability in DANGEROUS_CAPABILITIES {
            assert_eq!(policy.require(capability), Ok(()));
        }
    }
}

#[test]
fn for_channel_keeps_the_channel_it_was_made_for() {
    for build_channel in [BuildChannel::Debug, BuildChannel::Internal, BuildChannel::ProductionRelease] {
        assert_eq!(CapabilityPolicy::for_channel(build_channel).build_channel, build_channel);
    }
}

#[test]
fn production_release_gives_each_capability_its_own_refusal() {
    let policy = CapabilityPolicy::production_release();
    assert_eq!(
        policy.require(DangerousWriteCapability::PermanentOriginalFileDelete),
        Err("当前发布策略未启用原文件永久删除，文件已安全保留".to_string())
    );
    assert_eq!(
        policy.require(DangerousWriteCapability::ExperimentalQuarantineSourceRemoval),
        Err("当前发布构建未启用实验性隔离源文件移除，源文件已安全保留".to_string())
    );
    assert_eq!(
        policy.require(DangerousWriteCapability::LegacyWin32UninstallLaunch),
        Err("当前发布策略未启用旧式 Win32 卸载器，未启动外部进程".to_string())
    );
}

#[test]
fn compiled_policy_matches_the_compile_time_channel() {
    for debug_assertions in [false, true] {
        for internal_write_preview in [false, true] {
            assert_eq!(
                CapabilityPolicy::compiled(debug_assertions, internal_write_preview).build_channel,
                compiled_build_channel(debug_assertions, internal_write_preview)
            );
        }
    }
    assert_eq!(compiled_build_channel(true, true), BuildChannel::Debug);
    assert_eq!(compiled_build_channel(false, true), BuildChannel::Internal);
    assert_eq!(compiled_build_channel(false, false), BuildChannel::ProductionRelease);
}
