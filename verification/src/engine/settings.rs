use vstd::prelude::*;

verus! {

/// What the user may set: the size to render at, the size of the window, and
/// the graphics device to prefer, as its vendor and device numbers.
pub struct Settings {
    pub render_size: [u32; 2],
    pub window_size: [u32; 2],
    pub preferred_device: Option<(u32, u32)>,
}

impl Default for Settings {
    /// Full HD for both sizes and no preferred device.
    fn default() -> (settings: Self)
        ensures
            settings.render_size@ == seq![1920u32, 1080u32],
            settings.window_size@ == seq![1920u32, 1080u32],
            settings.preferred_device is None,
    {
        let settings = Self {
            render_size: [1920, 1080],
            window_size: [1920, 1080],
            preferred_device: None,
        };
        proof {
            assert(settings.render_size@ =~= seq![1920u32, 1080u32]);
            assert(settings.window_size@ =~= seq![1920u32, 1080u32]);
        }
        settings
    }
}

} // verus!
