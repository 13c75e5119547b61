//! What the plugin does when Godot takes it up and lets it go.

use vstd::prelude::*;
use vstd::string::*;

verus! {

/// The stages in which Godot starts.
#[derive(Clone, Copy, Debug, PartialEq, Eq, Structural)]
pub enum InitStage {
    Core,
    Servers,
    Scene,
    Editor,
}

/// What the plugin does when a stage begins or ends.
#[derive(Clone, Copy, Debug, PartialEq, Eq, Structural)]
pub enum StageAction {
    Nothing,
    /// The project is registered, and with it the loader and the saver of resources from history,
    /// before all others.
    Register,
    /// What was registered is taken back: the loader, the saver, then the project.
    Unregister,
}

/// What the plugin does when a stage begins.
pub fn on_stage_init(level: InitStage) -> (r: StageAction)
    ensures
        r == (if level == InitStage::Scene {
            StageAction::Register
        } else {
            StageAction::Nothing
        }),
{
    if level == InitStage::Scene {
        StageAction::Register
    } else {
        StageAction::Nothing
    }
}

/// What the plugin does when a stage ends.
pub fn on_stage_deinit(level: InitStage) -> (r: StageAction)
    ensures
        r == (if level == InitStage::Scene {
            StageAction::Unregister
        } else {
            StageAction::Nothing
        }),
{
    if level == InitStage::Scene {
        StageAction::Unregister
    } else {
        StageAction::Nothing
    }
}

/// Android's updatable store of certificates, which is there from some version on.
pub const UPDATABLE_CERT_DIR: &'static str = "/apex/com.android.conscrypt/cacerts";

/// Android's store of certificates.
pub const SYSTEM_CERT_DIR: &'static str = "/system/etc/security/cacerts";

/// The directory of certificates to be used on Android: the updatable store where it is there,
/// else the system's; none where another place is configured or neither is there.
pub fn initialize_android_cert_dir(
    dir_configured: bool,
    file_configured: bool,
    updatable_is_dir: bool,
    system_is_dir: bool,
) -> (r: Option<&'static str>)
    ensures
        if dir_configured || file_configured {
            r is None
        } else if updatable_is_dir {
            r matches Some(dir) && dir@ == UPDATABLE_CERT_DIR@
        } else if system_is_dir {
            r matches Some(dir) && dir@ == SYSTEM_CERT_DIR@
        } else {
            r is None
        },
{
    if dir_configured || file_configured {
        return None;
    }
    if updatable_is_dir {
        return Some(UPDATABLE_CERT_DIR);
    }
    if system_is_dir {
        return Some(SYSTEM_CERT_DIR);
    }
    None
}

} // verus!
