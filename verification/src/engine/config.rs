use vstd::prelude::*;
use super::settings::Settings;

verus! {

/// What the application is started from: its name and its settings.
pub struct Config {
    pub app_name: String,
    pub settings: Settings,
}

impl Default for Config {
    /// The engine's own name and the default settings.
    fn default() -> (config: Self)
        ensures
            config.app_name@ == "Icarus Engine"@,
            config.settings.render_size@ == seq![1920u32, 1080u32],
            config.settings.window_size@ == seq![1920u32, 1080u32],
            config.settings.preferred_device is None,
    {
        Config { app_name: "Icarus Engine".to_owned(), settings: Settings::default() }
    }
}

} // verus!
