use vstd::prelude::*;

verus! {

/// Why a graphics device cannot be used.
#[derive(Clone, Debug, PartialEq, Eq)]
pub enum CapabilityError {
    /// The graphics driver reported an error, given here in its own words.
    VulkanError(String),
    /// The device lacks something the engine cannot do without.
    Unsuitable,
}

/// Why the rendering resources could not be set up.
#[derive(Clone, Debug, PartialEq, Eq)]
pub enum ResourceError {
    /// The graphics library could not be loaded.
    LoadingError(String),
    /// The window gave no handle to draw on.
    HandleError(String),
    /// A validation layer that the engine requires is not installed.
    VulkanMissingLayers,
    /// No graphics device can do what the engine needs.
    VulkanNoSuitableDevice,
    /// The graphics driver reported an error, given here in its own words.
    VulkanError(String),
    /// No surface could be made for the window.
    SurfaceCreationError(String),
    /// The graphics pipeline could not be built.
    GraphicsPipelineError(String),
}

/// What a game can fail with while it draws.
#[derive(Clone, Debug, PartialEq, Eq)]
pub enum GameError {
    ResourceError(ResourceError),
}

/// What the application can fail with.
#[derive(Clone, Debug, PartialEq, Eq)]
pub enum AppError {
    /// The window system's event loop failed.
    WindowEventError(String),
    ResourceError(ResourceError),
    GameError(GameError),
    /// A frame was asked for while no device resources exist.
    NoActiveResources,
}

} // verus!
