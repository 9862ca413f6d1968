//! The vocabulary of a capture: displays, requests, failures and the metadata of a frame.
use vstd::prelude::*;
use vstd::string::*;

use crate::error::AppError;

verus! {

/// The number of a capture within one run of the program.
#[derive(Clone, Copy, Debug, Eq, Hash, Ord, PartialEq, PartialOrd, Structural)]
pub struct CaptureId(pub u64);

/// A rectangle in desktop coordinates.
#[derive(Clone, Copy, Debug, Eq, PartialEq, Structural)]
pub struct Rect {
    pub x: i32,
    pub y: i32,
    pub width: u32,
    pub height: u32,
}

impl Rect {
    /// The first column right of the rectangle.
    pub open spec fn spec_right(self) -> int {
        self.x + self.width
    }

    /// The first row below the rectangle.
    pub open spec fn spec_bottom(self) -> int {
        self.y + self.height
    }

    /// Whether `other` lies within this rectangle.
    pub open spec fn encloses(self, other: Rect) -> bool {
        &&& self.x <= other.x
        &&& self.y <= other.y
        &&& other.spec_right() <= self.spec_right()
        &&& other.spec_bottom() <= self.spec_bottom()
    }

    pub fn right(self) -> (right: i64)
        ensures
            right == self.spec_right(),
    {
        self.x as i64 + self.width as i64
    }

    pub fn bottom(self) -> (bottom: i64)
        ensures
            bottom == self.spec_bottom(),
    {
        self.y as i64 + self.height as i64
    }
}

/// The persistent name of a display, or one of the two names that stand for a choice.
#[derive(Debug, Eq, PartialEq)]
pub struct DisplayId(pub String);

impl View for DisplayId {
    type V = Seq<char>;

    open spec fn view(&self) -> Seq<char> {
        self.0@
    }
}

impl Clone for DisplayId {
    fn clone(&self) -> (copy: Self)
        ensures
            copy == *self,
    {
        DisplayId(self.0.clone())
    }
}

impl DisplayId {
    /// The name that stands for whichever display is the primary one.
    pub fn primary() -> (id: DisplayId)
        ensures
            id@ == "primary"@,
    {
        DisplayId("primary".to_owned())
    }

    /// The name that stands for all displays together.
    pub fn virtual_desktop() -> (id: DisplayId)
        ensures
            id@ == "virtual_desktop"@,
    {
        DisplayId("virtual_desktop".to_owned())
    }

    /// Whether this name stands for the primary display.
    pub fn is_primary_alias(&self) -> (yes: bool)
        ensures
            yes == (self@ == "primary"@),
    {
        self.0 == "primary".to_owned()
    }

    /// Whether this name stands for all displays together.
    pub fn is_virtual_desktop(&self) -> (yes: bool)
        ensures
            yes == (self@ == "virtual_desktop"@),
    {
        self.0 == "virtual_desktop".to_owned()
    }
}

/// What a display reports about itself.
#[derive(Debug, Eq, PartialEq)]
pub struct DisplayInfo {
    pub id: DisplayId,
    pub name: String,
    pub bounds: Rect,
    pub rotation_degrees: u16,
    pub is_primary: bool,
    /// How far the display is scaled, as the bits of a 32-bit float.
    pub scale_factor_bits: u32,
}

/// What is to be captured.
#[derive(Debug, Eq, PartialEq)]
pub enum CaptureSource {
    Display(DisplayId),
    VirtualDesktop,
}

impl Clone for CaptureSource {
    fn clone(&self) -> (copy: Self)
        ensures
            copy == *self,
    {
        match self {
            CaptureSource::Display(id) => CaptureSource::Display(id.clone()),
            CaptureSource::VirtualDesktop => CaptureSource::VirtualDesktop,
        }
    }
}

/// Which frame answers a request.
#[derive(Clone, Copy, Debug, Eq, PartialEq, Structural)]
pub enum CaptureMode {
    /// A frame presented after the request.
    Fresh { timeout_ms: u64 },
    /// The newest frame there is, if it is not older than the limit.
    Latest { max_age_ms: Option<u64> },
}

/// Whether the pointer is drawn into a capture.
#[derive(Clone, Copy, Debug, Eq, PartialEq, Structural)]
pub enum CursorMode {
    Include,
    Exclude,
}

/// Where the timing of a frame comes from.
#[derive(Clone, Copy, Debug, Eq, PartialEq, Structural)]
pub enum TimingProvenance {
    Measured,
    Synthetic,
    Unavailable,
}

/// What is known of a captured frame besides its pixels.
#[derive(Debug, Eq, PartialEq)]
pub struct FrameMetadata {
    pub capture_id: CaptureId,
    pub backend: String,
    pub display_id: DisplayId,
    pub source_rect: Rect,
    pub rotation_degrees: u16,
    pub capture_mode: CaptureMode,
    pub presentation_offset_ns: Option<u64>,
    pub timing_provenance: TimingProvenance,
    pub native_ready_offset_ns: u64,
    pub cpu_ready_offset_ns: Option<u64>,
    pub frame_age_ns: Option<u64>,
    pub frame_generation: Option<u64>,
    pub copy_count: u32,
    pub pool_slot: Option<usize>,
}

impl Clone for FrameMetadata {
    fn clone(&self) -> (copy: Self)
        ensures
            copy == *self,
    {
        FrameMetadata {
            capture_id: self.capture_id,
            backend: self.backend.clone(),
            display_id: self.display_id.clone(),
            source_rect: self.source_rect,
            rotation_degrees: self.rotation_degrees,
            capture_mode: self.capture_mode,
            presentation_offset_ns: self.presentation_offset_ns,
            timing_provenance: self.timing_provenance,
            native_ready_offset_ns: self.native_ready_offset_ns,
            cpu_ready_offset_ns: self.cpu_ready_offset_ns,
            frame_age_ns: self.frame_age_ns,
            frame_generation: self.frame_generation,
            copy_count: self.copy_count,
            pool_slot: self.pool_slot,
        }
    }
}

/// A frame that is asked for.
#[derive(Debug, Eq, PartialEq)]
pub struct CaptureRequest {
    pub id: CaptureId,
    pub source: CaptureSource,
    pub mode: CaptureMode,
    pub cpu_frame: bool,
    pub retain_native_frame: bool,
    pub cursor: CursorMode,
}

/// A captured frame with its pixels.
#[derive(Debug, Eq, PartialEq)]
pub struct CpuFrame {
    pub pixels: Vec<u8>,
    pub width: u32,
    pub height: u32,
    pub stride: usize,
    pub metadata: FrameMetadata,
}

impl CpuFrame {
    /// Whether two frames show the same, and say the same of themselves.
    pub open spec fn is_like(self, other: CpuFrame) -> bool {
        &&& self.pixels@ == other.pixels@
        &&& self.width == other.width
        &&& self.height == other.height
        &&& self.stride == other.stride
        &&& self.metadata == other.metadata
    }
}

impl Clone for CpuFrame {
    fn clone(&self) -> (copy: Self)
        ensures
            copy.is_like(*self),
    {
        let pixels = self.pixels.clone();
        CpuFrame {
            pixels,
            width: self.width,
            height: self.height,
            stride: self.stride,
            metadata: self.metadata.clone(),
        }
    }
}

/// Why a capture failed.
#[derive(Clone, Copy, Debug, Eq, Hash, PartialEq, Structural)]
pub enum CaptureErrorKind {
    Unsupported,
    PermissionDenied,
    SourceUnavailable,
    DesktopUnavailable,
    Timeout,
    AccessLost,
    DeviceRemoved,
    TopologyChanged,
    BufferExhausted,
    WorkersExhausted,
    PointerOutsideDisplays,
    InvalidFrame,
    NativeFailure,
    ShuttingDown,
}

impl CaptureErrorKind {
    /// The name of the kind in reports.
    pub open spec fn name(self) -> Seq<char> {
        match self {
            CaptureErrorKind::Unsupported => "unsupported"@,
            CaptureErrorKind::PermissionDenied => "permission_denied"@,
            CaptureErrorKind::SourceUnavailable => "source_unavailable"@,
            CaptureErrorKind::DesktopUnavailable => "desktop_unavailable"@,
            CaptureErrorKind::Timeout => "timeout"@,
            CaptureErrorKind::AccessLost => "access_lost"@,
            CaptureErrorKind::DeviceRemoved => "device_removed"@,
            CaptureErrorKind::TopologyChanged => "topology_changed"@,
            CaptureErrorKind::BufferExhausted => "buffer_exhausted"@,
            CaptureErrorKind::WorkersExhausted => "workers_exhausted"@,
            CaptureErrorKind::PointerOutsideDisplays => "pointer_outside_displays"@,
            CaptureErrorKind::InvalidFrame => "invalid_frame"@,
            CaptureErrorKind::NativeFailure => "native_failure"@,
            CaptureErrorKind::ShuttingDown => "shutting_down"@,
        }
    }
}

/// A failed capture.
#[derive(Debug, Eq, PartialEq)]
pub struct CaptureError {
    pub kind: CaptureErrorKind,
    pub message: String,
}

/// The metadata that a live preview starts with: the identity and geometry of its source, and
/// nothing measured yet.
pub open spec fn is_preview_of(
    metadata: FrameMetadata,
    capture_id: CaptureId,
    display_id: Seq<char>,
    source_rect: Rect,
    rotation_degrees: u16,
    mode: CaptureMode,
) -> bool {
    &&& metadata.capture_id == capture_id
    &&& metadata.backend@ == "selection-preview"@
    &&& metadata.display_id@ == display_id
    &&& metadata.source_rect == source_rect
    &&& metadata.rotation_degrees == rotation_degrees
    &&& metadata.capture_mode == mode
    &&& metadata.presentation_offset_ns is None
    &&& metadata.timing_provenance == TimingProvenance::Unavailable
    &&& metadata.native_ready_offset_ns == 0
    &&& metadata.cpu_ready_offset_ns is None
    &&& metadata.frame_age_ns is None
    &&& metadata.frame_generation is None
    &&& metadata.copy_count == 0
    &&& metadata.pool_slot is None
}

/// The smallest value that `edge` takes over the displays.
pub open spec fn least(displays: Seq<DisplayInfo>, edge: spec_fn(Rect) -> int) -> int
    recommends
        displays.len() > 0,
    decreases displays.len(),
{
    if displays.len() <= 1 {
        edge(displays[0].bounds)
    } else {
        let before = least(displays.drop_last(), edge);
        if edge(displays.last().bounds) < before {
            edge(displays.last().bounds)
        } else {
            before
        }
    }
}

pub open spec fn left_edge() -> spec_fn(Rect) -> int {
    |r: Rect| r.x as int
}

pub open spec fn top_edge() -> spec_fn(Rect) -> int {
    |r: Rect| r.y as int
}

/// The right edge with its sign turned, so that the least is the rightmost.
pub open spec fn right_edge() -> spec_fn(Rect) -> int {
    |r: Rect| -r.spec_right()
}

/// The bottom edge with its sign turned, so that the least is the lowest.
pub open spec fn bottom_edge() -> spec_fn(Rect) -> int {
    |r: Rect| -r.spec_bottom()
}

/// The width of the smallest rectangle around all displays.
pub open spec fn desktop_width(displays: Seq<DisplayInfo>) -> int {
    -least(displays, right_edge()) - least(displays, left_edge())
}

/// The height of the smallest rectangle around all displays.
pub open spec fn desktop_height(displays: Seq<DisplayInfo>) -> int {
    -least(displays, bottom_edge()) - least(displays, top_edge())
}

/// The first display for which `wanted` holds.
pub open spec fn first_display(
    displays: Seq<DisplayInfo>,
    wanted: spec_fn(DisplayInfo) -> bool,
) -> Option<DisplayInfo>
    decreases displays.len(),
{
    if displays.len() == 0 {
        None
    } else {
        match first_display(displays.drop_last(), wanted) {
            Some(found) => Some(found),
            None => if wanted(displays.last()) {
                Some(displays.last())
            } else {
                None
            },
        }
    }
}

/// The display that a name refers to: for the primary alias the primary display, or the first one
/// where none is marked.
pub open spec fn display_named(displays: Seq<DisplayInfo>, id: Seq<char>) -> Option<DisplayInfo> {
    if id == "primary"@ {
        match first_display(displays, |d: DisplayInfo| d.is_primary) {
            Some(found) => Some(found),
            None => if displays.len() > 0 {
                Some(displays[0])
            } else {
                None
            },
        }
    } else {
        first_display(displays, |d: DisplayInfo| d.id@ == id)
    }
}

/// Every display lies within the rectangle that the least edges span.
pub proof fn lemma_least_bounds(displays: Seq<DisplayInfo>, edge: spec_fn(Rect) -> int, i: int)
    requires
        0 <= i < displays.len(),
    ensures
        least(displays, edge) <= edge(displays[i].bounds),
        exists|j: int|
            0 <= j < displays.len() && least(displays, edge) == edge((#[trigger] displays[j]).bounds),
    decreases displays.len(),
{
    if displays.len() == 1 {
        assert(least(displays, edge) == edge(displays[0].bounds));
    } else {
        let before = displays.drop_last();
        if i < before.len() {
            lemma_least_bounds(before, edge, i);
        } else {
            lemma_least_bounds(before, edge, 0);
        }
        let j = choose|j: int|
            0 <= j < before.len() && least(before, edge) == edge((#[trigger] before[j]).bounds);
        if edge(displays.last().bounds) < least(before, edge) {
            assert(least(displays, edge) == edge(displays[displays.len() - 1].bounds));
        } else {
            assert(least(displays, edge) == edge(displays[j].bounds));
        }
    }
}

/// The position of the display that a name refers to.
fn find_display(displays: &Vec<DisplayInfo>, id: &DisplayId) -> (found: Option<usize>)
    ensures
        match found {
            Some(i) => i < displays@.len() && display_named(displays@, id@) == Some(
                displays@[i as int],
            ),
            None => display_named(displays@, id@) is None,
        },
{
    let primary = id.is_primary_alias();
    let ghost wanted = if id@ == "primary"@ {
        |d: DisplayInfo| d.is_primary
    } else {
        |d: DisplayInfo| d.id@ == id@
    };
    let mut i: usize = 0;
    while i < displays.len()
        invariant
            i <= displays@.len(),
            primary == (id@ == "primary"@),
            wanted == if id@ == "primary"@ {
                |d: DisplayInfo| d.is_primary
            } else {
                |d: DisplayInfo| d.id@ == id@
            },
            first_display(displays@.take(i as int), wanted) is None,
        decreases displays@.len() - i,
    {
        proof {
            assert(displays@.take(i + 1).drop_last() =~= displays@.take(i as int));
        }
        let matches = if primary {
            displays[i].is_primary
        } else {
            displays[i].id.0 == id.0
        };
        if matches {
            proof {
                lemma_first_display_stays(displays@, wanted, i + 1);
            }
            return Some(i);
        }
        i += 1;
    }
    proof {
        assert(displays@.take(displays@.len() as int) =~= displays@);
    }
    if primary && displays.len() > 0 {
        Some(0)
    } else {
        None
    }
}

/// A display found among the first ones is the display found among all.
proof fn lemma_first_display_stays(
    displays: Seq<DisplayInfo>,
    wanted: spec_fn(DisplayInfo) -> bool,
    i: int,
)
    requires
        0 <= i <= displays.len(),
        first_display(displays.take(i), wanted) is Some,
    ensures
        first_display(displays, wanted) == first_display(displays.take(i), wanted),
    decreases displays.len() - i,
{
    if i < displays.len() {
        assert(displays.take(i + 1).drop_last() =~= displays.take(i));
        lemma_first_display_stays(displays, wanted, i + 1);
    } else {
        assert(displays.take(i) =~= displays);
    }
}

/// Why a live preview cannot describe its source.
pub open spec fn preview_fault(source: CaptureSource, displays: Seq<DisplayInfo>) -> Option<Seq<char>> {
    match source {
        CaptureSource::Display(id) => if display_named(displays, id@) is None {
            Some("display "@ + id@ + " disappeared before live selection"@)
        } else {
            None
        },
        CaptureSource::VirtualDesktop => if displays.len() == 0 {
            Some("no attached displays are available for live selection"@)
        } else if desktop_width(displays) > u32::MAX {
            Some("virtual desktop width overflowed"@)
        } else if desktop_height(displays) > u32::MAX {
            Some("virtual desktop height overflowed"@)
        } else {
            None
        },
    }
}

/// Whether `result` is what describing the source of a live preview gives.
pub open spec fn previewed(
    result: Result<FrameMetadata, AppError>,
    capture_id: CaptureId,
    source: CaptureSource,
    displays: Seq<DisplayInfo>,
    mode: CaptureMode,
) -> bool {
    match preview_fault(source, displays) {
        Some(message) => result matches Err(AppError::BackendUnavailable(text)) && text@ == message,
        None => result matches Ok(metadata) && match source {
            CaptureSource::Display(id) => ({
                let display = display_named(displays, id@)->Some_0;
                is_preview_of(
                    metadata,
                    capture_id,
                    display.id@,
                    display.bounds,
                    display.rotation_degrees,
                    mode,
                )
            }),
            CaptureSource::VirtualDesktop => is_preview_of(
                metadata,
                capture_id,
                "virtual_desktop"@,
                (Rect {
                    x: least(displays, left_edge()) as i32,
                    y: least(displays, top_edge()) as i32,
                    width: desktop_width(displays) as u32,
                    height: desktop_height(displays) as u32,
                }),
                0,
                mode,
            ) && metadata.source_rect.x == least(displays, left_edge())
                && metadata.source_rect.y == least(displays, top_edge())
                && metadata.source_rect.spec_right() == -least(displays, right_edge())
                && metadata.source_rect.spec_bottom() == -least(displays, bottom_edge()),
        },
    }
}

/// Describes the source of a live preview before anything has been captured from it.
pub fn preview_metadata(
    capture_id: CaptureId,
    source: &CaptureSource,
    displays: &Vec<DisplayInfo>,
    mode: CaptureMode,
) -> (result: Result<FrameMetadata, AppError>)
    ensures
        previewed(result, capture_id, *source, displays@, mode),
        match preview_fault(*source, displays@) {
            Some(message) => result matches Err(AppError::BackendUnavailable(text)) && text@
                == message,
            None => result matches Ok(metadata) && match *source {
                CaptureSource::Display(id) => ({
                    let display = display_named(displays@, id@)->Some_0;
                    is_preview_of(
                        metadata,
                        capture_id,
                        display.id@,
                        display.bounds,
                        display.rotation_degrees,
                        mode,
                    )
                }),
                CaptureSource::VirtualDesktop => is_preview_of(
                    metadata,
                    capture_id,
                    "virtual_desktop"@,
                    (Rect {
                        x: least(displays@, left_edge()) as i32,
                        y: least(displays@, top_edge()) as i32,
                        width: desktop_width(displays@) as u32,
                        height: desktop_height(displays@) as u32,
                    }),
                    0,
                    mode,
                ) && metadata.source_rect.x == least(displays@, left_edge())
                    && metadata.source_rect.y == least(displays@, top_edge())
                    && metadata.source_rect.spec_right() == -least(displays@, right_edge())
                    && metadata.source_rect.spec_bottom() == -least(displays@, bottom_edge()),
            },
        },
{
    let (display_id, source_rect, rotation_degrees) = match source {
        CaptureSource::Display(requested) => {
            match find_display(displays, requested) {
                Some(i) => {
                    let display = &displays[i];
                    (display.id.clone(), display.bounds, display.rotation_degrees)
                },
                None => {
                    let mut text = "display ".to_owned();
                    text.append(requested.0.as_str());
                    text.append(" disappeared before live selection");
                    return Err(AppError::BackendUnavailable(text));
                },
            }
        },
        CaptureSource::VirtualDesktop => {
            if displays.len() == 0 {
                return Err(
                    AppError::BackendUnavailable(
                        "no attached displays are available for live selection".to_owned(),
                    ),
                );
            }
            let mut left: i64 = displays[0].bounds.x as i64;
            let mut top: i64 = displays[0].bounds.y as i64;
            let mut right: i64 = displays[0].bounds.right();
            let mut bottom: i64 = displays[0].bounds.bottom();
            let mut i: usize = 1;
            while i < displays.len()
                invariant
                    1 <= i <= displays@.len(),
                    left == least(displays@.take(i as int), left_edge()),
                    top == least(displays@.take(i as int), top_edge()),
                    right == -least(displays@.take(i as int), right_edge()),
                    bottom == -least(displays@.take(i as int), bottom_edge()),
                    i32::MIN <= left <= i32::MAX,
                    i32::MIN <= top <= i32::MAX,
                    left <= right <= i32::MAX + u32::MAX,
                    top <= bottom <= i32::MAX + u32::MAX,
                decreases displays@.len() - i,
            {
                let bounds = displays[i].bounds;
                proof {
                    assert(displays@.take(i + 1).drop_last() =~= displays@.take(i as int));
                }
                if (bounds.x as i64) < left {
                    left = bounds.x as i64;
                }
                if (bounds.y as i64) < top {
                    top = bounds.y as i64;
                }
                if bounds.right() > right {
                    right = bounds.right();
                }
                if bounds.bottom() > bottom {
                    bottom = bounds.bottom();
                }
                i += 1;
            }
            proof {
                assert(displays@.take(displays@.len() as int) =~= displays@);
            }
            if right - left > u32::MAX as i64 {
                return Err(
                    AppError::BackendUnavailable("virtual desktop width overflowed".to_owned()),
                );
            }
            if bottom - top > u32::MAX as i64 {
                return Err(
                    AppError::BackendUnavailable("virtual desktop height overflowed".to_owned()),
                );
            }
            let source_rect = Rect {
                x: left as i32,
                y: top as i32,
                width: (right - left) as u32,
                height: (bottom - top) as u32,
            };
            (DisplayId::virtual_desktop(), source_rect, 0)
        },
    };
    Ok(
        FrameMetadata {
            capture_id,
            backend: "selection-preview".to_owned(),
            display_id,
            source_rect,
            rotation_degrees,
            capture_mode: mode,
            presentation_offset_ns: None,
            timing_provenance: TimingProvenance::Unavailable,
            native_ready_offset_ns: 0,
            cpu_ready_offset_ns: None,
            frame_age_ns: None,
            frame_generation: None,
            copy_count: 0,
            pool_slot: None,
        },
    )
}

/// The rectangle of a virtual-desktop preview encloses every display.
pub proof fn law_desktop_preview_encloses_every_display(
    displays: Seq<DisplayInfo>,
    desktop: Rect,
    i: int,
)
    requires
        0 <= i < displays.len(),
        desktop.x == least(displays, left_edge()),
        desktop.y == least(displays, top_edge()),
        desktop.spec_right() == -least(displays, right_edge()),
        desktop.spec_bottom() == -least(displays, bottom_edge()),
    ensures
        desktop.encloses(displays[i].bounds),
{
    lemma_least_bounds(displays, left_edge(), i);
    lemma_least_bounds(displays, top_edge(), i);
    lemma_least_bounds(displays, right_edge(), i);
    lemma_least_bounds(displays, bottom_edge(), i);
}

/// What the first display for which something holds is: it does hold of that one and of none before
/// it.
proof fn lemma_first_display(displays: Seq<DisplayInfo>, wanted: spec_fn(DisplayInfo) -> bool)
    ensures
        match first_display(displays, wanted) {
            Some(found) => exists|i: int|
                0 <= i < displays.len() && #[trigger] displays[i] == found && wanted(displays[i])
                    && forall|j: int| 0 <= j < i ==> !wanted(#[trigger] displays[j]),
            None => forall|i: int| 0 <= i < displays.len() ==> !wanted(#[trigger] displays[i]),
        },
    decreases displays.len(),
{
    if displays.len() > 0 {
        let before = displays.drop_last();
        lemma_first_display(before, wanted);
        match first_display(before, wanted) {
            Some(found) => {
                let i = choose|i: int|
                    0 <= i < before.len() && #[trigger] before[i] == found && wanted(before[i])
                        && forall|j: int| 0 <= j < i ==> !wanted(#[trigger] before[j]);
                assert(displays[i] == found);
                assert forall|j: int| 0 <= j < i implies !wanted(#[trigger] displays[j]) by {
                    assert(before[j] == displays[j]);
                }
            },
            None => {
                assert forall|j: int| 0 <= j < before.len() implies !wanted(
                    #[trigger] displays[j],
                ) by {
                    assert(before[j] == displays[j]);
                }
                assert(displays[displays.len() - 1] == displays.last());
            },
        }
    }
}

/// A preview is of the display that was asked for. By its own name that is the first attached display
/// with this name, and there is no preview exactly where none has it. The preview carries the name,
/// the rectangle and the rotation of that display, and the number and the mode of the capture.
pub proof fn law_a_preview_is_of_the_display_asked_for(
    result: Result<FrameMetadata, AppError>,
    capture_id: CaptureId,
    id: DisplayId,
    displays: Seq<DisplayInfo>,
    mode: CaptureMode,
)
    requires
        previewed(result, capture_id, CaptureSource::Display(id), displays, mode),
        id@ != "primary"@,
    ensures
        result is Ok <==> exists|i: int| 0 <= i < displays.len() && #[trigger] displays[i].id@ == id@,
        result matches Ok(metadata) ==> {
            &&& metadata.display_id@ == id@
            &&& metadata.capture_id == capture_id
            &&& metadata.capture_mode == mode
            &&& exists|i: int|
                0 <= i < displays.len() && #[trigger] displays[i].id@ == id@ && metadata.source_rect
                    == displays[i].bounds && metadata.rotation_degrees
                    == displays[i].rotation_degrees && forall|j: int|
                    0 <= j < i ==> #[trigger] displays[j].id@ != id@
        },
        result matches Err(error) ==> error matches AppError::BackendUnavailable(text) && text@
            == "display "@ + id@ + " disappeared before live selection"@,
{
    let wanted = |d: DisplayInfo| d.id@ == id@;
    lemma_first_display(displays, wanted);
    assert(display_named(displays, id@) == first_display(displays, wanted));
    match first_display(displays, wanted) {
        Some(found) => {
            let i = choose|i: int|
                0 <= i < displays.len() && #[trigger] displays[i] == found && wanted(displays[i])
                    && forall|j: int| 0 <= j < i ==> !wanted(#[trigger] displays[j]);
            assert(displays[i].id@ == id@);
            assert forall|j: int| 0 <= j < i implies #[trigger] displays[j].id@ != id@ by {
                assert(!wanted(displays[j]));
            }
        },
        None => {
            assert forall|i: int| 0 <= i < displays.len() implies #[trigger] displays[i].id@ != id@ by {
                assert(!wanted(displays[i]));
            }
        },
    }
}

/// A preview of the primary display is of the first display that is marked as primary, and of the
/// first one of all where none is. There is one exactly where a display is attached.
pub proof fn law_a_preview_of_the_primary_display(
    result: Result<FrameMetadata, AppError>,
    capture_id: CaptureId,
    id: DisplayId,
    displays: Seq<DisplayInfo>,
    mode: CaptureMode,
)
    requires
        previewed(result, capture_id, CaptureSource::Display(id), displays, mode),
        id@ == "primary"@,
    ensures
        result is Ok <==> displays.len() > 0,
        result matches Ok(metadata) ==> {
            &&& metadata.capture_id == capture_id
            &&& metadata.capture_mode == mode
            &&& exists|i: int|
                0 <= i < displays.len() && metadata.display_id@ == #[trigger] displays[i].id@
                    && metadata.source_rect == displays[i].bounds && metadata.rotation_degrees
                    == displays[i].rotation_degrees && (if displays[i].is_primary {
                    forall|j: int| 0 <= j < i ==> !(#[trigger] displays[j]).is_primary
                } else {
                    i == 0 && forall|j: int|
                        0 <= j < displays.len() ==> !(#[trigger] displays[j]).is_primary
                })
        },
{
    let wanted = |d: DisplayInfo| d.is_primary;
    lemma_first_display(displays, wanted);
    match first_display(displays, wanted) {
        Some(found) => {
            let i = choose|i: int|
                0 <= i < displays.len() && #[trigger] displays[i] == found && wanted(displays[i])
                    && forall|j: int| 0 <= j < i ==> !wanted(#[trigger] displays[j]);
            assert forall|j: int| 0 <= j < i implies !(#[trigger] displays[j]).is_primary by {
                assert(!wanted(displays[j]));
            }
            assert(display_named(displays, id@) == Some(displays[i]));
        },
        None => {
            assert forall|j: int| 0 <= j < displays.len() implies !(
            #[trigger] displays[j]).is_primary by {
                assert(!wanted(displays[j]));
            }
            if displays.len() > 0 {
                assert(display_named(displays, id@) == Some(displays[0]));
            }
        },
    }
}

/// A preview of the whole desktop shows every display, and no more than it takes for that: each of
/// its sides is the side of a display.
pub proof fn law_a_preview_of_the_desktop_is_tight(
    result: Result<FrameMetadata, AppError>,
    capture_id: CaptureId,
    displays: Seq<DisplayInfo>,
    mode: CaptureMode,
)
    requires
        previewed(result, capture_id, CaptureSource::VirtualDesktop, displays, mode),
    ensures
        result is Ok ==> displays.len() > 0,
        result matches Ok(metadata) ==> {
            let desktop = metadata.source_rect;
            &&& metadata.capture_id == capture_id
            &&& metadata.capture_mode == mode
            &&& metadata.display_id@ == "virtual_desktop"@
            &&& metadata.rotation_degrees == 0
            &&& forall|i: int|
                0 <= i < displays.len() ==> {
                    let bounds = #[trigger] displays[i].bounds;
                    &&& desktop.x <= bounds.x
                    &&& desktop.y <= bounds.y
                    &&& bounds.x + bounds.width <= desktop.x + desktop.width
                    &&& bounds.y + bounds.height <= desktop.y + desktop.height
                }
            &&& exists|i: int| 0 <= i < displays.len() && #[trigger] displays[i].bounds.x == desktop.x
            &&& exists|i: int| 0 <= i < displays.len() && #[trigger] displays[i].bounds.y == desktop.y
            &&& exists|i: int|
                0 <= i < displays.len() && #[trigger] displays[i].bounds.x + displays[i].bounds.width
                    == desktop.x + desktop.width
            &&& exists|i: int|
                0 <= i < displays.len() && #[trigger] displays[i].bounds.y
                    + displays[i].bounds.height == desktop.y + desktop.height
        },
        result is Err && displays.len() > 0 ==> exists|i: int, j: int|
            #![trigger displays[i], displays[j]]
            0 <= i < displays.len() && 0 <= j < displays.len() && (displays[i].bounds.x
                + displays[i].bounds.width - displays[j].bounds.x > u32::MAX
                || displays[i].bounds.y + displays[i].bounds.height - displays[j].bounds.y
                > u32::MAX),
{
    if displays.len() > 0 {
        assert forall|i: int| 0 <= i < displays.len() implies {
            let bounds = #[trigger] displays[i].bounds;
            &&& least(displays, left_edge()) <= bounds.x
            &&& least(displays, top_edge()) <= bounds.y
            &&& bounds.x + bounds.width <= -least(displays, right_edge())
            &&& bounds.y + bounds.height <= -least(displays, bottom_edge())
        } by {
            lemma_least_bounds(displays, left_edge(), i);
            lemma_least_bounds(displays, top_edge(), i);
            lemma_least_bounds(displays, right_edge(), i);
            lemma_least_bounds(displays, bottom_edge(), i);
        }
        lemma_least_bounds(displays, left_edge(), 0);
        lemma_least_bounds(displays, top_edge(), 0);
        lemma_least_bounds(displays, right_edge(), 0);
        lemma_least_bounds(displays, bottom_edge(), 0);
        let a = choose|j: int|
            0 <= j < displays.len() && least(displays, left_edge()) == left_edge()(
                (#[trigger] displays[j]).bounds,
            );
        let b = choose|j: int|
            0 <= j < displays.len() && least(displays, top_edge()) == top_edge()(
                (#[trigger] displays[j]).bounds,
            );
        let c = choose|j: int|
            0 <= j < displays.len() && least(displays, right_edge()) == right_edge()(
                (#[trigger] displays[j]).bounds,
            );
        let d = choose|j: int|
            0 <= j < displays.len() && least(displays, bottom_edge()) == bottom_edge()(
                (#[trigger] displays[j]).bounds,
            );
        assert(displays[a].bounds.x == least(displays, left_edge()));
        assert(displays[b].bounds.y == least(displays, top_edge()));
        assert(displays[c].bounds.x + displays[c].bounds.width == -least(displays, right_edge()));
        assert(displays[d].bounds.y + displays[d].bounds.height == -least(
            displays,
            bottom_edge(),
        ));
        if result is Err {
            if desktop_width(displays) > u32::MAX {
                assert(displays[c].bounds.x + displays[c].bounds.width - displays[a].bounds.x
                    > u32::MAX);
            } else {
                assert(displays[d].bounds.y + displays[d].bounds.height - displays[b].bounds.y
                    > u32::MAX);
            }
        }
    }
}

/// A rectangle encloses another that has an area exactly where every point of that one is a point of
/// it.
pub proof fn law_a_rectangle_encloses_what_lies_in_it(outer: Rect, inner: Rect)
    requires
        inner.width > 0,
        inner.height > 0,
    ensures
        outer.encloses(inner) <==> forall|x: int, y: int| #[trigger]
            is_point_of(inner, x, y) ==> is_point_of(outer, x, y),
{
    if forall|x: int, y: int| #[trigger]
        is_point_of(inner, x, y) ==> is_point_of(outer, x, y) {
        assert(is_point_of(inner, inner.x as int, inner.y as int));
        assert(is_point_of(inner, inner.x + inner.width - 1, inner.y + inner.height - 1));
    }
}

/// Whether a point lies in a rectangle.
pub open spec fn is_point_of(rect: Rect, x: int, y: int) -> bool {
    rect.x <= x < rect.x + rect.width && rect.y <= y < rect.y + rect.height
}

/// A preview has the identity and the geometry that it was made for, and nothing is measured in it.
pub proof fn law_nothing_is_measured_in_a_preview(
    metadata: FrameMetadata,
    capture_id: CaptureId,
    display_id: Seq<char>,
    source_rect: Rect,
    rotation_degrees: u16,
    mode: CaptureMode,
)
    requires
        is_preview_of(metadata, capture_id, display_id, source_rect, rotation_degrees, mode),
    ensures
        metadata.capture_id == capture_id,
        metadata.backend@ == "selection-preview"@,
        metadata.display_id@ == display_id,
        metadata.source_rect == source_rect,
        metadata.rotation_degrees == rotation_degrees,
        metadata.capture_mode == mode,
        metadata.presentation_offset_ns is None && metadata.cpu_ready_offset_ns is None
            && metadata.frame_age_ns is None && metadata.frame_generation is None
            && metadata.pool_slot is None,
        metadata.timing_provenance == TimingProvenance::Unavailable,
        metadata.native_ready_offset_ns == 0 && metadata.copy_count == 0,
{
}

/// A preview is described exactly where nothing speaks against it, and otherwise refused with what
/// does.
pub proof fn law_a_preview_is_refused_with_its_reason(
    result: Result<FrameMetadata, AppError>,
    capture_id: CaptureId,
    source: CaptureSource,
    displays: Seq<DisplayInfo>,
    mode: CaptureMode,
)
    requires
        previewed(result, capture_id, source, displays, mode),
    ensures
        result is Ok <==> preview_fault(source, displays) is None,
        preview_fault(source, displays) matches Some(message) ==> result matches Err(error)
            && error.text() == "backend unavailable: "@ + message,
        result matches Ok(metadata) ==> metadata.capture_id == capture_id && metadata.capture_mode
            == mode,
{
}

/// Frames that are alike have the same pixels, the same size and the same to say of themselves.
pub proof fn law_frames_that_are_alike_show_the_same(a: CpuFrame, b: CpuFrame)
    requires
        a.is_like(b),
    ensures
        a.pixels@ == b.pixels@,
        a.width == b.width && a.height == b.height && a.stride == b.stride,
        a.metadata == b.metadata,
        b.is_like(a),
{
}

} // verus!
