//! Regions of a display, and what is remembered of a display's overlay.
use vstd::prelude::*;

verus! {

/// A way of choosing what to capture.
#[derive(Clone, Copy, Debug, Eq, PartialEq, Structural)]
pub enum CaptureTool {
    FullDisplay,
    Window,
    Region,
}

/// A region, relative to the display it was drawn on.
#[derive(Clone, Copy, Debug, Eq, PartialEq, Structural)]
pub struct CaptureRegion {
    pub x: i32,
    pub y: i32,
    pub width: u32,
    pub height: u32,
}

impl CaptureRegion {
    /// Whether the region holds no pixel.
    pub open spec fn empty(self) -> bool {
        self.width == 0 || self.height == 0
    }

    pub fn is_empty(&self) -> (yes: bool)
        ensures
            yes == self.empty(),
    {
        self.width == 0 || self.height == 0
    }
}

/// The geometry of the display that a region was drawn on.
#[derive(Clone, Copy, Debug, Eq, PartialEq, Structural)]
pub struct CaptureRegionSource {
    pub width: u32,
    pub height: u32,
    pub rotation_degrees: u16,
}

impl CaptureRegionSource {
    /// Whether a display can be turned this way.
    pub open spec fn upright(self) -> bool {
        self.rotation_degrees == 0 || self.rotation_degrees == 90 || self.rotation_degrees == 180
            || self.rotation_degrees == 270
    }

    /// Whether the geometry holds no pixel.
    pub open spec fn empty(self) -> bool {
        self.width == 0 || self.height == 0
    }

    pub fn is_upright(&self) -> (yes: bool)
        ensures
            yes == self.upright(),
    {
        self.rotation_degrees == 0 || self.rotation_degrees == 90 || self.rotation_degrees == 180
            || self.rotation_degrees == 270
    }

    pub fn is_empty(&self) -> (yes: bool)
        ensures
            yes == self.empty(),
    {
        self.width == 0 || self.height == 0
    }
}

/// A region that the user confirmed, with the geometry it was confirmed on.
#[derive(Clone, Copy, Debug, Eq, PartialEq, Structural)]
pub struct ConfirmedRegion {
    pub region: CaptureRegion,
    pub source: CaptureRegionSource,
}

impl ConfirmedRegion {
    /// Whether the region is not empty and lies within the geometry.
    pub open spec fn fits(self) -> bool {
        &&& self.region.x >= 0
        &&& self.region.y >= 0
        &&& !self.region.empty()
        &&& !self.source.empty()
        &&& self.region.x + self.region.width <= self.source.width
        &&& self.region.y + self.region.height <= self.source.height
    }

    pub fn is_fitting(&self) -> (yes: bool)
        ensures
            yes == self.fits(),
    {
        let right: i64 = self.region.x as i64 + self.region.width as i64;
        let bottom: i64 = self.region.y as i64 + self.region.height as i64;
        self.region.x >= 0 && self.region.y >= 0 && !self.region.is_empty()
            && !self.source.is_empty() && right <= self.source.width as i64 && bottom
            <= self.source.height as i64
    }
}

/// A coordinate of the overlay's centre, as the bits of a double-precision number.
#[derive(Clone, Copy, Debug, Eq, PartialEq, Structural)]
pub struct Coordinate {
    pub bits: u64,
}

/// The bits of the double-precision number one.
pub const ONE_BITS: u64 = 0x3ff0_0000_0000_0000;

/// The bits of the double-precision number minus zero.
pub const MINUS_ZERO_BITS: u64 = 0x8000_0000_0000_0000;

impl Coordinate {
    /// Whether the number lies between zero and one. Non-negative numbers are ordered as their
    /// bits are, infinity and the non-numbers come after all finite ones, and minus zero is the
    /// only other number equal to one between zero and one.
    pub open spec fn normalized(self) -> bool {
        self.bits <= ONE_BITS || self.bits == MINUS_ZERO_BITS
    }

    pub fn is_normalized(&self) -> (yes: bool)
        ensures
            yes == self.normalized(),
    {
        self.bits <= ONE_BITS || self.bits == MINUS_ZERO_BITS
    }
}

/// What is remembered of one display's overlay, as the configuration and the state file hold it.
#[derive(Clone, Copy, Debug, Eq, PartialEq, Structural)]
pub struct DisplayUiConfig {
    pub overlay_center_x: Option<Coordinate>,
    pub overlay_center_y: Option<Coordinate>,
    pub overlay_x: Option<i32>,
    pub overlay_y: Option<i32>,
    pub last_capture_tool: Option<CaptureTool>,
    pub last_region: Option<CaptureRegion>,
    pub last_region_source: Option<CaptureRegionSource>,
    pub last_confirmed_region: Option<CaptureRegion>,
    pub last_confirmed_region_source: Option<CaptureRegionSource>,
}

impl DisplayUiConfig {
    /// Nothing remembered.
    pub open spec fn blank() -> DisplayUiConfig {
        DisplayUiConfig {
            overlay_center_x: None,
            overlay_center_y: None,
            overlay_x: None,
            overlay_y: None,
            last_capture_tool: None,
            last_region: None,
            last_region_source: None,
            last_confirmed_region: None,
            last_confirmed_region_source: None,
        }
    }
}

impl Default for DisplayUiConfig {
    fn default() -> (blank: Self)
        ensures
            blank == Self::blank(),
    {
        DisplayUiConfig {
            overlay_center_x: None,
            overlay_center_y: None,
            overlay_x: None,
            overlay_y: None,
            last_capture_tool: None,
            last_region: None,
            last_region_source: None,
            last_confirmed_region: None,
            last_confirmed_region_source: None,
        }
    }
}

/// What is remembered of one display's overlay, as the overlay starts from it.
#[derive(Clone, Copy, Debug, Eq, PartialEq)]
pub struct DisplayUiState {
    /// Normalized toolbar centre within the display work area.
    pub overlay_center: Option<(Coordinate, Coordinate)>,
    /// Monitor-local origin of the toolbar, as earlier builds wrote it.
    pub overlay_position: Option<(i32, i32)>,
    pub tool: Option<CaptureTool>,
    pub region: Option<CaptureRegion>,
    pub region_source: Option<CaptureRegionSource>,
    pub confirmed_region: Option<ConfirmedRegion>,
    /// Per-display regions are monitor-local; the fallback for all displays is desktop-absolute.
    pub region_is_display_local: bool,
}

impl DisplayUiState {
    /// Nothing remembered.
    pub open spec fn blank() -> DisplayUiState {
        DisplayUiState {
            overlay_center: None,
            overlay_position: None,
            tool: None,
            region: None,
            region_source: None,
            confirmed_region: None,
            region_is_display_local: false,
        }
    }
}

impl Default for DisplayUiState {
    fn default() -> (blank: Self)
        ensures
            blank == Self::blank(),
    {
        DisplayUiState {
            overlay_center: None,
            overlay_position: None,
            tool: None,
            region: None,
            region_source: None,
            confirmed_region: None,
            region_is_display_local: false,
        }
    }
}

/// A region and its geometry are empty without a width or without a height, and a geometry is turned
/// by nothing or by quarters.
pub proof fn law_what_regions_and_geometries_are(region: CaptureRegion, source: CaptureRegionSource)
    ensures
        !region.empty() <==> region.width > 0 && region.height > 0,
        !source.empty() <==> source.width > 0 && source.height > 0,
        source.upright() <==> source.rotation_degrees % 90 == 0 && source.rotation_degrees < 360,
{
}

/// A confirmed region fits its geometry exactly where it has an area and every point of it lies on
/// the display.
pub proof fn law_a_region_fits_where_all_of_it_is_on_the_display(confirmed: ConfirmedRegion)
    ensures
        ({
            let (region, source) = (confirmed.region, confirmed.source);
            confirmed.fits() <==> region.width > 0 && region.height > 0 && forall|x: int, y: int|
                #![trigger lies_in(region, x, y)]
                lies_in(region, x, y) ==> 0 <= x < source.width && 0 <= y < source.height
        }),
{
    let (region, source) = (confirmed.region, confirmed.source);
    if region.width > 0 && region.height > 0 && forall|x: int, y: int|
        #![trigger lies_in(region, x, y)]
        lies_in(region, x, y) ==> 0 <= x < source.width && 0 <= y < source.height {
        assert(lies_in(region, region.x as int, region.y as int));
        assert(lies_in(region, region.x + region.width - 1, region.y + region.height - 1));
    }
}

/// Whether a point lies in a region.
pub open spec fn lies_in(region: CaptureRegion, x: int, y: int) -> bool {
    region.x <= x < region.x + region.width && region.y <= y < region.y + region.height
}

/// A coordinate is normalized exactly if its bits are those of a number from zero to one: no more than
/// those of one, or those of a zero with a sign.
pub proof fn law_normalized_coordinates_lie_between_zero_and_one(coordinate: Coordinate)
    ensures
        coordinate.normalized() <==> coordinate.bits <= 0x3ff0_0000_0000_0000 || coordinate.bits
            == 0x8000_0000_0000_0000,
{
}

/// Where nothing is remembered, there is no place, no tool and no region.
pub proof fn law_nothing_remembered_is_nothing()
    ensures
        ({
            let entry = DisplayUiConfig::blank();
            &&& entry.overlay_center_x is None && entry.overlay_center_y is None
            &&& entry.overlay_x is None && entry.overlay_y is None
            &&& entry.last_capture_tool is None
            &&& entry.last_region is None && entry.last_region_source is None
            &&& entry.last_confirmed_region is None && entry.last_confirmed_region_source is None
        }),
        ({
            let state = DisplayUiState::blank();
            &&& state.overlay_center is None && state.overlay_position is None
            &&& state.tool is None
            &&& state.region is None && state.region_source is None
            &&& state.confirmed_region is None && !state.region_is_display_local
        }),
{
}

} // verus!
