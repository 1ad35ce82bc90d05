use vstd::prelude::*;

verus! {

/// Release channel that a build was produced for.
#[derive(Clone, Copy, Debug, PartialEq, Eq, Structural)]
pub enum BuildChannel {
    Debug,
    Internal,
    ProductionRelease,
}

/// Write operations that may destroy or move user data.
#[derive(Clone, Copy, Debug, PartialEq, Eq, Structural)]
pub enum DangerousWriteCapability {
    ExperimentalQuarantineSourceRemoval,
    PermanentOriginalFileDelete,
    LegacyWin32UninstallLaunch,
}

/// Decides which dangerous write capabilities a build may use.
#[derive(Clone, Copy, Debug, PartialEq, Eq, Structural)]
pub struct CapabilityPolicy {
    pub build_channel: BuildChannel,
}

/// The refusal that a production release gives for each capability.
pub open spec fn denial_message(capability: DangerousWriteCapability) -> Seq<char> {
    match capability {
        DangerousWriteCapability::ExperimentalQuarantineSourceRemoval =>
            "当前发布构建未启用实验性隔离源文件移除，源文件已安全保留"@,
        DangerousWriteCapability::PermanentOriginalFileDelete =>
            "当前发布策略未启用原文件永久删除，文件已安全保留"@,
        DangerousWriteCapability::LegacyWin32UninstallLaunch =>
            "当前发布策略未启用旧式 Win32 卸载器，未启动外部进程"@,
    }
}

/// The channel that a build was made for: a build with debug assertions is a
/// debug build; an optimised build is internal when the internal write preview
/// is enabled and a production release otherwise.
pub open spec fn channel_of_build(debug_assertions: bool, internal_write_preview: bool) -> BuildChannel {
    if debug_assertions {
        BuildChannel::Debug
    } else if internal_write_preview {
        BuildChannel::Internal
    } else {
        BuildChannel::ProductionRelease
    }
}

/// The channel of a build from how it was compiled.
pub fn compiled_build_channel(debug_assertions: bool, internal_write_preview: bool) -> (channel: BuildChannel)
    ensures
        channel == channel_of_build(debug_assertions, internal_write_preview),
{
    if debug_assertions {
        BuildChannel::Debug
    } else if internal_write_preview {
        BuildChannel::Internal
    } else {
        BuildChannel::ProductionRelease
    }
}

impl CapabilityPolicy {
    /// The policy of a build compiled with these settings.
    pub fn compiled(debug_assertions: bool, internal_write_preview: bool) -> (policy: Self)
        ensures
            policy.build_channel == channel_of_build(debug_assertions, internal_write_preview),
    {
        CapabilityPolicy { build_channel: compiled_build_channel(debug_assertions, internal_write_preview) }
    }

    /// The policy of a build made for `build_channel`.
    pub fn for_channel(build_channel: BuildChannel) -> (policy: Self)
        ensures
            policy.build_channel == build_channel,
    {
        CapabilityPolicy { build_channel }
    }

    /// The policy of a production release.
    pub fn production_release() -> (policy: Self)
        ensures
            policy.build_channel == BuildChannel::ProductionRelease,
    {
        CapabilityPolicy { build_channel: BuildChannel::ProductionRelease }
    }

    /// Allows every capability outside a production release and refuses every
    /// capability inside one.
    pub fn require(self, capability: DangerousWriteCapability) -> (result: Result<(), String>)
        ensures
            result is Ok <==> self.build_channel != BuildChannel::ProductionRelease,
            result matches Err(message) ==> message@ == denial_message(capability),
    {
        if !matches!(self.build_channel, BuildChannel::ProductionRelease) {
            return Ok(());
        }
        let message = match capability {
            DangerousWriteCapability::ExperimentalQuarantineSourceRemoval => {
                "当前发布构建未启用实验性隔离源文件移除，源文件已安全保留".to_string()
            },
            DangerousWriteCapability::PermanentOriginalFileDelete => {
                "当前发布策略未启用原文件永久删除，文件已安全保留".to_string()
            },
            DangerousWriteCapability::LegacyWin32UninstallLaunch => {
                "当前发布策略未启用旧式 Win32 卸载器，未启动外部进程".to_string()
            },
        };
        Err(message)
    }
}

} // verus!
