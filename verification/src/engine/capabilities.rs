use vstd::prelude::*;
use super::error::CapabilityError;

verus! {

/// The kinds of graphics device that a driver tells apart.
#[derive(Clone, Copy, Debug, PartialEq, Eq, Structural)]
pub enum DeviceKind {
    DiscreteGpu,
    IntegratedGpu,
    VirtualGpu,
    Other,
    Cpu,
    /// A kind that the driver reports and the engine does not know.
    Unknown,
}

/// How much the engine prefers a device of the given kind.
pub open spec fn kind_score(kind: DeviceKind) -> u32 {
    match kind {
        DeviceKind::DiscreteGpu => 5,
        DeviceKind::IntegratedGpu => 4,
        DeviceKind::VirtualGpu => 3,
        DeviceKind::Other => 2,
        DeviceKind::Cpu => 1,
        DeviceKind::Unknown => 0,
    }
}

/// The number of swapchain images to ask for: three if the surface allows it,
/// else the nearest count that it allows.
pub open spec fn image_count(min_image_count: u32, max_image_count: Option<u32>) -> u32 {
    let wanted = if min_image_count > 3 {
        min_image_count
    } else {
        3
    };
    let most = match max_image_count {
        Some(most) => most,
        None => u32::MAX,
    };
    if wanted <= most {
        wanted
    } else {
        most
    }
}

/// What a device reports about itself and about a surface, as far as the
/// engine's choice depends on it.
pub struct DeviceReport {
    pub kind: DeviceKind,
    pub min_image_count: u32,
    pub max_image_count: Option<u32>,
    /// The number of image formats that the surface accepts.
    pub surface_formats: usize,
    /// Whether the device offers every required feature.
    pub features_offered: bool,
    /// Whether the device offers every required extension.
    pub extensions_offered: bool,
}

impl DeviceReport {
    /// Whether the engine can run on the device.
    pub open spec fn suitable(self) -> bool {
        self.surface_formats > 0 && self.features_offered && self.extensions_offered
    }
}

/// What the engine will use of a device, and a score to rank devices by.
#[derive(Clone, Copy, Debug, PartialEq, Eq, Structural)]
pub struct Capabilities {
    score: u32,
    swapchain_images: u32,
}

impl View for Capabilities {
    type V = (u32, u32);

    /// The score and the number of swapchain images.
    closed spec fn view(&self) -> (u32, u32) {
        (self.score, self.swapchain_images)
    }
}

impl Capabilities {
    /// Judges a device by what it reports for a surface.
    ///
    /// A device whose surface accepts no image format, or that lacks a
    /// required feature or extension, is unsuitable.
    pub fn for_device_on_surface(report: &DeviceReport) -> (result: Result<Self, CapabilityError>)
        ensures
            report.suitable() ==> (result matches Ok(capabilities) && capabilities@ == (
                kind_score(report.kind),
                image_count(report.min_image_count, report.max_image_count),
            )),
            !report.suitable() ==> result == Err::<Self, CapabilityError>(
                CapabilityError::Unsuitable,
            ),
    {
        let score: u32 = match report.kind {
            DeviceKind::DiscreteGpu => 5,
            DeviceKind::IntegratedGpu => 4,
            DeviceKind::VirtualGpu => 3,
            DeviceKind::Other => 2,
            DeviceKind::Cpu => 1,
            DeviceKind::Unknown => 0,
        };
        let wanted: u32 = if report.min_image_count > 3 {
            report.min_image_count
        } else {
            3
        };
        let most: u32 = match report.max_image_count {
            Some(most) => most,
            None => u32::MAX,
        };
        let swapchain_images: u32 = if wanted <= most {
            wanted
        } else {
            most
        };
        if report.surface_formats == 0 {
            return Err(CapabilityError::Unsuitable);
        }
        if !report.features_offered || !report.extensions_offered {
            return Err(CapabilityError::Unsuitable);
        }
        Ok(Capabilities { score, swapchain_images })
    }

    /// The score to rank the device by.
    pub fn score(&self) -> (score: u32)
        ensures
            score == self@.0,
    {
        self.score
    }

    /// The number of swapchain images to ask for.
    pub fn swapchain_images(&self) -> (count: u32)
        ensures
            count == self@.1,
    {
        self.swapchain_images
    }
}

/// Whether `at` is the place of the device to use: the last of those with the
/// highest score.
pub open spec fn is_best(scores: Seq<u32>, at: int) -> bool {
    &&& 0 <= at < scores.len()
    &&& forall|i: int| 0 <= i < at ==> #[trigger] scores[i] <= scores[at]
    &&& forall|i: int| at < i < scores.len() ==> #[trigger] scores[i] < scores[at]
}

/// Picks the device to use among the suitable ones, given their scores: the
/// one with the highest score, the last of them when several share it. With
/// no device there is nothing to pick.
pub fn select_device(scores: &Vec<u32>) -> (choice: Option<usize>)
    ensures
        scores@.len() == 0 <==> choice is None,
        choice matches Some(at) ==> is_best(scores@, at as int),
{
    if scores.len() == 0 {
        return None;
    }
    let mut best: usize = 0;
    let mut i: usize = 1;
    while i < scores.len()
        invariant
            1 <= i <= scores@.len(),
            best < i,
            forall|h: int| 0 <= h < best ==> #[trigger] scores@[h] <= scores@[best as int],
            forall|h: int| best < h < i ==> #[trigger] scores@[h] < scores@[best as int],
        decreases scores@.len() - i,
    {
        if scores[i] >= scores[best] {
            best = i;
        }
        i += 1;
    }
    Some(best)
}

/// Finds the first queue family that can do what is asked of it, given for
/// each family whether it can.
pub fn first_queue_family(able: &Vec<bool>) -> (family: Option<usize>)
    ensures
        family matches Some(at) ==> at < able@.len() && able@[at as int] && forall|h: int|
            0 <= h < at ==> !#[trigger] able@[h],
        family is None ==> forall|h: int| 0 <= h < able@.len() ==> !#[trigger] able@[h],
{
    let mut i: usize = 0;
    while i < able.len()
        invariant
            i <= able@.len(),
            forall|h: int| 0 <= h < i ==> !#[trigger] able@[h],
        decreases able@.len() - i,
    {
        if able[i] {
            return Some(i);
        }
        i += 1;
    }
    None
}

/// The queue families to create queues for: the one that draws and, where it
/// is another, the one that presents.
pub fn queue_families(graphics: u32, present: u32) -> (families: Vec<u32>)
    ensures
        graphics == present ==> families@ == seq![graphics],
        graphics != present ==> families@ == seq![graphics, present],
{
    let mut families: Vec<u32> = Vec::new();
    families.push(graphics);
    if graphics != present {
        families.push(present);
    }
    proof {
        if graphics == present {
            assert(families@ =~= seq![graphics]);
        } else {
            assert(families@ =~= seq![graphics, present]);
        }
    }
    families
}

} // verus!
