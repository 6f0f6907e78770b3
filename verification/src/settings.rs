//! The launcher's persisted settings, as the launch-argument builder reads
//! them.  Loading and saving them is the application shell's job.

use vstd::prelude::*;

verus! {

/// Everything the user can configure about launching the game.
#[derive(Debug, Clone)]
pub struct AppSettings {
    pub manually_specified_install_path: Option<String>,
    pub width: Option<u32>,
    pub height: Option<u32>,
    pub console_enabled: bool,
    pub dxlevel: Option<u32>,
    pub load_workshop_addons: bool,
    pub disable_chromium: bool,
    pub developer_mode: bool,
    pub tools_mode: bool,
    pub custom_launch_options: Option<String>,
    pub linux_proton_path: Option<String>,
    pub linux_steam_root_override: Option<String>,
    pub linux_enable_proton_log: bool,
    pub linux_selected_proton_label: Option<String>,
}

impl Default for AppSettings {
    /// The defaults: console and workshop addons on, everything else off or
    /// unset.
    fn default() -> (s: Self)
        ensures
            s.manually_specified_install_path is None,
            s.width is None,
            s.height is None,
            s.console_enabled,
            s.dxlevel is None,
            s.load_workshop_addons,
            !s.disable_chromium,
            !s.developer_mode,
            !s.tools_mode,
            s.custom_launch_options is None,
            s.linux_proton_path is None,
            s.linux_steam_root_override is None,
            !s.linux_enable_proton_log,
            s.linux_selected_proton_label is None,
    {
        AppSettings {
            manually_specified_install_path: None,
            width: None,
            height: None,
            console_enabled: true,
            dxlevel: None,
            load_workshop_addons: true,
            disable_chromium: false,
            developer_mode: false,
            tools_mode: false,
            custom_launch_options: None,
            linux_proton_path: None,
            linux_steam_root_override: None,
            linux_enable_proton_log: false,
            linux_selected_proton_label: None,
        }
    }
}

} // verus!
