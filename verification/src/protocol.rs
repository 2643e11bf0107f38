//! The screen-copy negotiation state machine.
//!
//! One capture call drives a single connection through global enumeration,
//! per-output geometry queries, output selection, frame requests and
//! buffer negotiation, ending when every surviving output's frame is ready
//! or failed. The caller owns the transport: it dispatches protocol events
//! and feeds each one into the handlers here, which mutate only the
//! per-output record the event belongs to; the completion predicates tell
//! the caller when each blocking stage is done.

use vstd::prelude::*;

use crate::capture::PixelFormat;
use crate::capture::Transform;
use crate::error::Error;
use crate::rectangle::Position;
use crate::rectangle::Rectangle;
use crate::rectangle::Size;

verus! {

/// The global protocol objects a capture call binds from the registry.
#[derive(Debug, PartialEq, Eq, Structural, Copy, Clone)]
pub enum GlobalKind {
    /// The screen-copy manager, used to request captures of outputs.
    ScreencopyManager,
    /// The output-geometry manager, used to query logical geometry.
    XdgOutputManager,
    /// The shared-memory allocator factory.
    Shm,
    /// One physical or virtual output.
    Output,
    /// Any other global; ignored.
    Other,
}

/// An event about one output's basic description.
#[derive(Debug)]
pub enum OutputEvent {
    /// The output's transform, from its geometry event.
    Geometry(Transform),
    /// The output's human-readable name.
    Name(String),
    /// The output's integer scale factor.
    Scale(i32),
    /// Any other output event; ignored.
    Other,
}

/// An event about one output's logical geometry.
#[derive(Debug, PartialEq, Eq, Structural, Copy, Clone)]
pub enum XdgOutputEvent {
    /// Top-left corner in compositor space, transform already applied.
    LogicalPosition(i32, i32),
    /// Size in compositor space, transform already applied.
    LogicalSize(i32, i32),
    /// Any other logical-geometry event; ignored.
    Other,
}

/// Everything the state machine tracks for one output, filled in
/// incrementally by events keyed to the output's index.
#[derive(Debug)]
pub struct OutputInfo {
    /// The output's name, once its name event arrives.
    pub name: Option<String>,
    /// Logical position in compositor space, once signalled.
    pub output_logical_position: Option<Position>,
    /// Logical size in compositor space, once signalled.
    pub output_logical_size: Option<Size>,
    /// The output's transform, once signalled.
    pub transform: Option<Transform>,
    /// Integer scale factor; 1 unless signalled otherwise.
    pub scale_factor: i32,
    /// Pixel size of the negotiated frame buffer, once offered.
    pub image_mmap_size: Option<Size>,
    /// Top-left corner of the area being captured, in compositor space.
    pub image_logical_position: Option<Position>,
    /// Size of the area being captured, in compositor space.
    pub image_logical_size: Option<Size>,
    /// The wire format of the negotiated buffer, once validated.
    pub image_pixel_format: Option<PixelFormat>,
    /// Whether the compositor has finished filling the buffer.
    pub image_ready: bool,
    /// Whether the compositor reported failure for this frame.
    pub image_failed: bool,
}

/// A fresh record for an output just announced by the registry.
pub open spec fn spec_blank_output() -> OutputInfo {
    OutputInfo {
        name: None,
        output_logical_position: None,
        output_logical_size: None,
        transform: None,
        scale_factor: 1,
        image_mmap_size: None,
        image_logical_position: None,
        image_logical_size: None,
        image_pixel_format: None,
        image_ready: false,
        image_failed: false,
    }
}

/// The output has received its full geometry description.
pub open spec fn spec_described(o: OutputInfo) -> bool {
    &&& o.output_logical_position is Some
    &&& o.output_logical_size is Some
    &&& o.transform is Some
}

/// The output's logical rectangle, once described.
pub open spec fn spec_output_rect(o: OutputInfo) -> Rectangle {
    Rectangle {
        position: o.output_logical_position->Some_0,
        size: o.output_logical_size->Some_0,
    }
}

/// Whether the output carries exactly the name `n`.
pub open spec fn spec_name_matches(o: OutputInfo, n: Seq<char>) -> bool {
    o.name matches Some(s) && s@ == n
}

/// The outputs of `s` whose name is `n`, in order.
pub open spec fn spec_selected_by_name(s: Seq<OutputInfo>, n: Seq<char>) -> Seq<OutputInfo>
    decreases s.len(),
{
    if s.len() == 0 {
        Seq::empty()
    } else if spec_name_matches(s.last(), n) {
        spec_selected_by_name(s.drop_last(), n).push(s.last())
    } else {
        spec_selected_by_name(s.drop_last(), n)
    }
}

/// The output clipped to the requested region: its capture rectangle
/// becomes the intersection, and outputs the region misses are dropped.
pub open spec fn spec_region_clipped(o: OutputInfo, region: Rectangle) -> Option<OutputInfo> {
    match spec_output_rect(o).spec_intersection(region) {
        Some(r) => Some(
            OutputInfo {
                image_logical_position: Some(r.position),
                image_logical_size: Some(r.size),
                ..o
            },
        ),
        None => None,
    }
}

/// The outputs of `s` that the region touches, clipped to it, in order.
pub open spec fn spec_selected_by_region(s: Seq<OutputInfo>, region: Rectangle) -> Seq<
    OutputInfo,
>
    decreases s.len(),
{
    if s.len() == 0 {
        Seq::empty()
    } else {
        match spec_region_clipped(s.last(), region) {
            Some(o) => spec_selected_by_region(s.drop_last(), region).push(o),
            None => spec_selected_by_region(s.drop_last(), region),
        }
    }
}

/// The per-call connection state: which globals have been bound and the
/// arena of per-output records, indexed by a stable handle assigned at
/// registration time.
#[derive(Debug)]
pub struct State {
    /// Whether the end-of-enumeration signal has arrived.
    pub done: bool,
    /// Whether the screen-copy manager global has been bound.
    pub has_screencopy_manager: bool,
    /// Whether the output-geometry manager global has been bound.
    pub has_xdg_output_manager: bool,
    /// Whether the shared-memory factory global has been bound.
    pub has_shm: bool,
    /// One record per announced output.
    pub output_infos: Vec<OutputInfo>,
}

/// The supported wire pixel formats by their protocol codes: 0 for
/// `Argb8888`, 1 for `Xrgb8888` and the fourcc value for `Xbgr8888`.
pub open spec fn spec_pixel_format_from_wire(code: u32) -> Option<PixelFormat> {
    if code == 0 {
        Some(PixelFormat::Argb8888)
    } else if code == 1 {
        Some(PixelFormat::Xrgb8888)
    } else if code == 0x34324258 {
        Some(PixelFormat::Xbgr8888)
    } else {
        None
    }
}

/// The eight transforms by their protocol codes, 0 through 7.
pub open spec fn spec_transform_from_wire(code: u32) -> Option<Transform> {
    if code == 0 {
        Some(Transform::Normal)
    } else if code == 1 {
        Some(Transform::Rotated90)
    } else if code == 2 {
        Some(Transform::Rotated180)
    } else if code == 3 {
        Some(Transform::Rotated270)
    } else if code == 4 {
        Some(Transform::Flipped)
    } else if code == 5 {
        Some(Transform::Flipped90)
    } else if code == 6 {
        Some(Transform::Flipped180)
    } else if code == 7 {
        Some(Transform::Flipped270)
    } else {
        None
    }
}

/// Decodes a transform code from the wire; a code beyond the eight
/// handled variants is a protocol capability this machine does not have.
pub fn transform_from_wire(code: u32) -> (r: Result<Transform, Error>)
    ensures
        match r {
            Ok(t) => spec_transform_from_wire(code) == Some(t),
            Err(e) => e is UnsupportedTransform && spec_transform_from_wire(code) is None,
        },
{
    match code {
        0 => Ok(Transform::Normal),
        1 => Ok(Transform::Rotated90),
        2 => Ok(Transform::Rotated180),
        3 => Ok(Transform::Rotated270),
        4 => Ok(Transform::Flipped),
        5 => Ok(Transform::Flipped90),
        6 => Ok(Transform::Flipped180),
        7 => Ok(Transform::Flipped270),
        _ => Err(Error::UnsupportedTransform),
    }
}

/// Sorts a registry announcement by interface name into the globals this
/// machine binds; anything else is ignored.
pub fn classify_interface(interface: &String) -> (k: GlobalKind)
    ensures
        k == GlobalKind::ScreencopyManager <==> interface@ == "zwlr_screencopy_manager_v1"@,
        k == GlobalKind::XdgOutputManager <==> interface@ == "zxdg_output_manager_v1"@,
        k == GlobalKind::Shm <==> interface@ == "wl_shm"@,
        k == GlobalKind::Output <==> interface@ == "wl_output"@,
{
    proof {
        reveal_strlit("zwlr_screencopy_manager_v1");
        reveal_strlit("zxdg_output_manager_v1");
        reveal_strlit("wl_shm");
        reveal_strlit("wl_output");
        assert("zwlr_screencopy_manager_v1"@.len() == 26);
        assert("zxdg_output_manager_v1"@.len() == 22);
        assert("wl_shm"@.len() == 6);
        assert("wl_output"@.len() == 9);
    }
    if *interface == "zwlr_screencopy_manager_v1".to_owned() {
        GlobalKind::ScreencopyManager
    } else if *interface == "zxdg_output_manager_v1".to_owned() {
        GlobalKind::XdgOutputManager
    } else if *interface == "wl_shm".to_owned() {
        GlobalKind::Shm
    } else if *interface == "wl_output".to_owned() {
        GlobalKind::Output
    } else {
        GlobalKind::Other
    }
}

impl State {
    /// A state with nothing bound and no outputs, as a capture call
    /// starts.
    pub fn new() -> (r: Self)
        ensures
            !r.done,
            !r.has_screencopy_manager,
            !r.has_xdg_output_manager,
            !r.has_shm,
            r.output_infos@.len() == 0,
    {
        State {
            done: false,
            has_screencopy_manager: false,
            has_xdg_output_manager: false,
            has_shm: false,
            output_infos: Vec::new(),
        }
    }

    /// Records a bound global: a manager sets its flag, an output gets a
    /// fresh record at the next index, anything else changes nothing.
    pub fn register_global(&mut self, kind: GlobalKind)
        ensures
            match kind {
                GlobalKind::ScreencopyManager => *final(self) == (State {
                    has_screencopy_manager: true,
                    ..*old(self)
                }),
                GlobalKind::XdgOutputManager => *final(self) == (State {
                    has_xdg_output_manager: true,
                    ..*old(self)
                }),
                GlobalKind::Shm => *final(self) == (State { has_shm: true, ..*old(self) }),
                GlobalKind::Output => {
                    &&& final(self).output_infos@ == old(self).output_infos@.push(
                        spec_blank_output(),
                    )
                    &&& final(self).done == old(self).done
                    &&& final(self).has_screencopy_manager == old(self).has_screencopy_manager
                    &&& final(self).has_xdg_output_manager == old(self).has_xdg_output_manager
                    &&& final(self).has_shm == old(self).has_shm
                },
                GlobalKind::Other => *final(self) == *old(self),
            },
    {
        match kind {
            GlobalKind::ScreencopyManager => {
                self.has_screencopy_manager = true;
            },
            GlobalKind::XdgOutputManager => {
                self.has_xdg_output_manager = true;
            },
            GlobalKind::Shm => {
                self.has_shm = true;
            },
            GlobalKind::Output => {
                self.output_infos.push(
                    OutputInfo {
                        name: None,
                        output_logical_position: None,
                        output_logical_size: None,
                        transform: None,
                        scale_factor: 1,
                        image_mmap_size: None,
                        image_logical_position: None,
                        image_logical_size: None,
                        image_pixel_format: None,
                        image_ready: false,
                        image_failed: false,
                    },
                );
            },
            GlobalKind::Other => {},
        }
    }

    /// Records the end-of-enumeration signal.
    pub fn handle_enumeration_done(&mut self)
        ensures
            *final(self) == (State { done: true, ..*old(self) }),
    {
        self.done = true;
    }

    /// Applies an output description event to the record at `index`,
    /// leaving every other record and the rest of the state unchanged.
    pub fn handle_output_event(&mut self, index: usize, event: OutputEvent)
        requires
            index < old(self).output_infos@.len(),
        ensures
            final(self).output_infos@.len() == old(self).output_infos@.len(),
            final(self).output_infos@ == old(self).output_infos@.update(
                index as int,
                final(self).output_infos@[index as int],
            ),
            final(self).done == old(self).done,
            final(self).has_screencopy_manager == old(self).has_screencopy_manager,
            final(self).has_xdg_output_manager == old(self).has_xdg_output_manager,
            final(self).has_shm == old(self).has_shm,
            match event {
                OutputEvent::Geometry(t) => final(self).output_infos@[index as int]
                    == (OutputInfo {
                    transform: Some(t),
                    ..old(self).output_infos@[index as int]
                }),
                OutputEvent::Name(n) => final(self).output_infos@[index as int] == (OutputInfo {
                    name: Some(n),
                    ..old(self).output_infos@[index as int]
                }),
                OutputEvent::Scale(f) => final(self).output_infos@[index as int] == (OutputInfo {
                    scale_factor: f,
                    ..old(self).output_infos@[index as int]
                }),
                OutputEvent::Other => final(self).output_infos@[index as int] == old(self).output_infos@[index as int],
            },
    {
        let ghost pre = self.output_infos@;
        match event {
            OutputEvent::Geometry(t) => {
                self.output_infos[index].transform = Some(t);
            },
            OutputEvent::Name(n) => {
                self.output_infos[index].name = Some(n);
            },
            OutputEvent::Scale(f) => {
                self.output_infos[index].scale_factor = f;
            },
            OutputEvent::Other => {},
        }
        proof {
            assert(self.output_infos@ =~= pre.update(
                index as int,
                self.output_infos@[index as int],
            ));
        }
    }

    /// Applies a logical-geometry event to the record at `index`, leaving
    /// every other record and the rest of the state unchanged.
    pub fn handle_xdg_output_event(&mut self, index: usize, event: XdgOutputEvent)
        requires
            index < old(self).output_infos@.len(),
        ensures
            final(self).output_infos@.len() == old(self).output_infos@.len(),
            final(self).output_infos@ == old(self).output_infos@.update(
                index as int,
                final(self).output_infos@[index as int],
            ),
            final(self).done == old(self).done,
            final(self).has_screencopy_manager == old(self).has_screencopy_manager,
            final(self).has_xdg_output_manager == old(self).has_xdg_output_manager,
            final(self).has_shm == old(self).has_shm,
            match event {
                XdgOutputEvent::LogicalPosition(x, y) => final(self).output_infos@[index as int]
                    == (OutputInfo {
                    output_logical_position: Some(Position { x, y }),
                    ..old(self).output_infos@[index as int]
                }),
                XdgOutputEvent::LogicalSize(width, height) => final(self).output_infos@[index as int] == (OutputInfo {
                    output_logical_size: Some(Size { width, height }),
                    ..old(self).output_infos@[index as int]
                }),
                XdgOutputEvent::Other => final(self).output_infos@[index as int] == old(self).output_infos@[index as int],
            },
    {
        let ghost pre = self.output_infos@;
        match event {
            XdgOutputEvent::LogicalPosition(x, y) => {
                self.output_infos[index].output_logical_position = Some(Position { x, y });
            },
            XdgOutputEvent::LogicalSize(width, height) => {
                self.output_infos[index].output_logical_size = Some(Size { width, height });
            },
            XdgOutputEvent::Other => {},
        }
        proof {
            assert(self.output_infos@ =~= pre.update(
                index as int,
                self.output_infos@[index as int],
            ));
        }
    }

    /// Validates a buffer offer for the frame at `index`. A supported
    /// format with workable dimensions records the format and buffer size
    /// and returns the byte length the caller must allocate and expose;
    /// anything else leaves the state untouched and reports the offer as
    /// unsupported, so the caller may ignore the frame or give up.
    pub fn handle_frame_buffer(
        &mut self,
        index: usize,
        format_code: u32,
        width: u32,
        height: u32,
    ) -> (r: Result<u64, Error>)
        requires
            index < old(self).output_infos@.len(),
        ensures
            match r {
                Ok(len) => {
                    &&& spec_pixel_format_from_wire(format_code) is Some
                    &&& 0 < width <= i32::MAX
                    &&& 0 < height <= i32::MAX
                    &&& len == width * height * 4
                    &&& final(self).output_infos@ == old(self).output_infos@.update(
                        index as int,
                        OutputInfo {
                            image_pixel_format: spec_pixel_format_from_wire(format_code),
                            image_mmap_size: Some(
                                Size { width: width as i32, height: height as i32 },
                            ),
                            ..old(self).output_infos@[index as int]
                        },
                    )
                    &&& final(self).done == old(self).done
                    &&& final(self).has_screencopy_manager == old(self).has_screencopy_manager
                    &&& final(self).has_xdg_output_manager == old(self).has_xdg_output_manager
                    &&& final(self).has_shm == old(self).has_shm
                },
                Err(e) => {
                    &&& e is UnsupportedPixelFormat
                    &&& (spec_pixel_format_from_wire(format_code) is None || width == 0 || width
                        > i32::MAX || height == 0 || height > i32::MAX)
                    &&& *final(self) == *old(self)
                },
            },
    {
        let format = if format_code == 0 {
            Some(PixelFormat::Argb8888)
        } else if format_code == 1 {
            Some(PixelFormat::Xrgb8888)
        } else if format_code == 0x34324258 {
            Some(PixelFormat::Xbgr8888)
        } else {
            None
        };
        let format = match format {
            Some(f) => f,
            None => {
                return Err(Error::UnsupportedPixelFormat);
            },
        };
        if width == 0 || width > i32::MAX as u32 || height == 0 || height > i32::MAX as u32 {
            return Err(Error::UnsupportedPixelFormat);
        }
        let ghost pre = self.output_infos@;
        self.output_infos[index].image_pixel_format = Some(format);
        self.output_infos[index].image_mmap_size = Some(
            Size { width: width as i32, height: height as i32 },
        );
        proof {
            assert(self.output_infos@ =~= pre.update(
                index as int,
                OutputInfo {
                    image_pixel_format: spec_pixel_format_from_wire(format_code),
                    image_mmap_size: Some(Size { width: width as i32, height: height as i32 }),
                    ..pre[index as int]
                },
            ));
        }
        proof {
            assert((width as int) * (height as int) * 4 < 0x1_0000_0000_0000_0000int)
                by (nonlinear_arith)
                requires
                    0 < width <= 0x7fff_ffff,
                    0 < height <= 0x7fff_ffff,
            ;
        }
        Ok((width as u64) * (height as u64) * 4)
    }

    /// Marks the frame at `index` as filled and ready.
    pub fn handle_frame_ready(&mut self, index: usize)
        requires
            index < old(self).output_infos@.len(),
        ensures
            final(self).output_infos@ == old(self).output_infos@.update(
                index as int,
                OutputInfo { image_ready: true, ..old(self).output_infos@[index as int] },
            ),
            final(self).done == old(self).done,
            final(self).has_screencopy_manager == old(self).has_screencopy_manager,
            final(self).has_xdg_output_manager == old(self).has_xdg_output_manager,
            final(self).has_shm == old(self).has_shm,
    {
        let ghost pre = self.output_infos@;
        self.output_infos[index].image_ready = true;
        proof {
            assert(self.output_infos@ =~= pre.update(
                index as int,
                OutputInfo { image_ready: true, ..pre[index as int] },
            ));
        }
    }

    /// Records the compositor's failure report for the frame at `index`.
    pub fn handle_frame_failed(&mut self, index: usize)
        requires
            index < old(self).output_infos@.len(),
        ensures
            final(self).output_infos@ == old(self).output_infos@.update(
                index as int,
                OutputInfo { image_failed: true, ..old(self).output_infos@[index as int] },
            ),
            final(self).done == old(self).done,
            final(self).has_screencopy_manager == old(self).has_screencopy_manager,
            final(self).has_xdg_output_manager == old(self).has_xdg_output_manager,
            final(self).has_shm == old(self).has_shm,
    {
        let ghost pre = self.output_infos@;
        self.output_infos[index].image_failed = true;
        proof {
            assert(self.output_infos@ =~= pre.update(
                index as int,
                OutputInfo { image_failed: true, ..pre[index as int] },
            ));
        }
    }

    /// Every required global was announced during enumeration; checked
    /// lazily when first used, as a compositor may lack the extensions.
    pub fn require_protocols(&self) -> (r: Result<(), Error>)
        ensures
            match r {
                Ok(()) => self.has_screencopy_manager && self.has_xdg_output_manager
                    && self.has_shm,
                Err(e) => e is ProtocolUnsupported && !(self.has_screencopy_manager
                    && self.has_xdg_output_manager && self.has_shm),
            },
    {
        if self.has_screencopy_manager && self.has_xdg_output_manager && self.has_shm {
            Ok(())
        } else {
            Err(Error::ProtocolUnsupported)
        }
    }

    /// Whether every output has received position, size and transform;
    /// the geometry stage blocks until this holds.
    pub fn all_outputs_described(&self) -> (r: bool)
        ensures
            r == forall|i: int|
                0 <= i < self.output_infos@.len() ==> #[trigger] spec_described(
                    self.output_infos@[i],
                ),
    {
        let n = self.output_infos.len();
        let mut i: usize = 0;
        while i < n
            invariant
                n == self.output_infos@.len(),
                0 <= i <= n,
                forall|j: int| 0 <= j < i ==> #[trigger] spec_described(self.output_infos@[j]),
            decreases n - i,
        {
            let o = &self.output_infos[i];
            if o.output_logical_position.is_none() || o.output_logical_size.is_none()
                || o.transform.is_none() {
                assert(!spec_described(self.output_infos@[i as int]));
                return false;
            }
            i = i + 1;
        }
        true
    }

    /// Whether every output's frame has been resolved, by readiness or by
    /// a failure report; the wait stage blocks until this holds.
    pub fn all_frames_done(&self) -> (r: bool)
        ensures
            r == forall|i: int|
                0 <= i < self.output_infos@.len() ==> #[trigger] self.output_infos@[i].image_ready
                    || self.output_infos@[i].image_failed,
    {
        let n = self.output_infos.len();
        let mut i: usize = 0;
        while i < n
            invariant
                n == self.output_infos@.len(),
                0 <= i <= n,
                forall|j: int|
                    0 <= j < i ==> #[trigger] self.output_infos@[j].image_ready
                        || self.output_infos@[j].image_failed,
            decreases n - i,
        {
            let o = &self.output_infos[i];
            if !o.image_ready && !o.image_failed {
                assert(!(self.output_infos@[i as int].image_ready
                    || self.output_infos@[i as int].image_failed));
                return false;
            }
            i = i + 1;
        }
        true
    }

    /// Whether any output's copy failed. A failure is surfaced to the
    /// caller as an error for the whole call rather than skipped.
    pub fn frames_result(&self) -> (r: Result<(), Error>)
        ensures
            match r {
                Ok(()) => forall|i: int|
                    0 <= i < self.output_infos@.len()
                        ==> !(#[trigger] self.output_infos@[i].image_failed),
                Err(e) => e is ScreencopyFailed && exists|i: int|
                    0 <= i < self.output_infos@.len()
                        && (#[trigger] self.output_infos@[i].image_failed),
            },
    {
        let n = self.output_infos.len();
        let mut i: usize = 0;
        while i < n
            invariant
                n == self.output_infos@.len(),
                0 <= i <= n,
                forall|j: int| 0 <= j < i ==> !(#[trigger] self.output_infos@[j].image_failed),
            decreases n - i,
        {
            if self.output_infos[i].image_failed {
                assert(self.output_infos@[i as int].image_failed);
                return Err(Error::ScreencopyFailed);
            }
            i = i + 1;
        }
        Ok(())
    }

    /// Selects every output for a whole-desktop capture: each output's
    /// capture rectangle becomes its full logical rectangle.
    pub fn select_all_outputs(&mut self)
        requires
            forall|i: int|
                0 <= i < old(self).output_infos@.len() ==> #[trigger] spec_described(
                    old(self).output_infos@[i],
                ),
        ensures
            final(self).output_infos@.len() == old(self).output_infos@.len(),
            forall|i: int|
                0 <= i < old(self).output_infos@.len() ==> #[trigger] final(self).output_infos@[i] == (OutputInfo {
                    image_logical_position: old(self).output_infos@[i].output_logical_position,
                    image_logical_size: old(self).output_infos@[i].output_logical_size,
                    ..old(self).output_infos@[i]
                }),
            final(self).done == old(self).done,
            final(self).has_screencopy_manager == old(self).has_screencopy_manager,
            final(self).has_xdg_output_manager == old(self).has_xdg_output_manager,
            final(self).has_shm == old(self).has_shm,
    {
        let ghost pre = self.output_infos@;
        let n = self.output_infos.len();
        let mut i: usize = 0;
        while i < n
            invariant
                n == self.output_infos@.len(),
                n == pre.len(),
                0 <= i <= n,
                self.done == old(self).done,
                self.has_screencopy_manager == old(self).has_screencopy_manager,
                self.has_xdg_output_manager == old(self).has_xdg_output_manager,
                self.has_shm == old(self).has_shm,
                pre == old(self).output_infos@,
                forall|j: int|
                    0 <= j < i ==> #[trigger] self.output_infos@[j] == (OutputInfo {
                        image_logical_position: pre[j].output_logical_position,
                        image_logical_size: pre[j].output_logical_size,
                        ..pre[j]
                    }),
                forall|j: int| i <= j < n ==> #[trigger] self.output_infos@[j] == pre[j],
            decreases n - i,
        {
            let p = self.output_infos[i].output_logical_position;
            let s = self.output_infos[i].output_logical_size;
            self.output_infos[i].image_logical_position = p;
            self.output_infos[i].image_logical_size = s;
            i = i + 1;
        }
    }

    /// Keeps exactly the outputs named `name` and aims the capture at the
    /// first one's full extent, from a local origin; with no match the
    /// lookup misses and nothing is kept.
    pub fn select_named_output(&mut self, name: &String) -> (r: Result<(), Error>)
        requires
            forall|i: int|
                0 <= i < old(self).output_infos@.len() ==> (#[trigger] old(self).output_infos@[i]).name is Some,
        ensures
            match r {
                Ok(()) => {
                    let kept = spec_selected_by_name(old(self).output_infos@, name@);
                    &&& kept.len() > 0
                    &&& final(self).output_infos@ == kept.update(
                        0,
                        OutputInfo {
                            image_logical_position: Some(Position { x: 0, y: 0 }),
                            image_logical_size: kept[0].output_logical_size,
                            ..kept[0]
                        },
                    )
                },
                Err(e) => {
                    &&& e matches Error::NoOutput(m) && m@ == name@
                    &&& spec_selected_by_name(old(self).output_infos@, name@).len() == 0
                    &&& final(self).output_infos@.len() == 0
                },
            },
            final(self).done == old(self).done,
            final(self).has_screencopy_manager == old(self).has_screencopy_manager,
            final(self).has_xdg_output_manager == old(self).has_xdg_output_manager,
            final(self).has_shm == old(self).has_shm,
    {
        let ghost pre = self.output_infos@;
        let n = self.output_infos.len();
        let mut kept: Vec<OutputInfo> = Vec::new();
        let mut rest: Vec<OutputInfo> = Vec::new();
        core::mem::swap(&mut rest, &mut self.output_infos);
        let mut i: usize = 0;
        while i < n
            invariant
                n == pre.len(),
                0 <= i <= n,
                rest@ == pre.skip(i as int),
                kept@ == spec_selected_by_name(pre.take(i as int), name@),
            decreases n - i,
        {
            proof {
                assert(pre.skip(i as int)[0] == pre[i as int]);
            }
            let o = rest.remove(0);
            proof {
                assert(rest@ =~= pre.skip(i as int + 1));
            }
            let matches_name = match &o.name {
                Some(s) => *s == *name,
                None => false,
            };
            if matches_name {
                kept.push(o);
            }
            proof {
                assert(pre.take(i as int + 1).drop_last() =~= pre.take(i as int));
                assert(pre.take(i as int + 1).last() == pre[i as int]);
            }
            i = i + 1;
        }
        proof {
            assert(pre.take(n as int) =~= pre);
        }
        if kept.len() == 0 {
            self.output_infos = kept;
            return Err(Error::NoOutput(name.clone()));
        }
        let s = kept[0].output_logical_size;
        kept[0].image_logical_position = Some(Position { x: 0, y: 0 });
        kept[0].image_logical_size = s;
        let ghost keptg = spec_selected_by_name(pre, name@);
        self.output_infos = kept;
        proof {
            assert(self.output_infos@ =~= keptg.update(
                0,
                OutputInfo {
                    image_logical_position: Some(Position { x: 0, y: 0 }),
                    image_logical_size: keptg[0].output_logical_size,
                    ..keptg[0]
                },
            ));
        }
        Ok(())
    }

    /// Clips the requested region against every output: outputs the
    /// region touches are kept with the intersection as their capture
    /// rectangle, the rest are dropped.
    pub fn select_region_outputs(&mut self, region: Rectangle)
        requires
            region.well_formed(),
            forall|i: int|
                0 <= i < old(self).output_infos@.len() ==> #[trigger] spec_described(
                    old(self).output_infos@[i],
                ),
            forall|i: int|
                0 <= i < old(self).output_infos@.len() ==> (#[trigger] spec_output_rect(
                    old(self).output_infos@[i],
                )).well_formed(),
        ensures
            final(self).output_infos@ == spec_selected_by_region(
                old(self).output_infos@,
                region,
            ),
            final(self).done == old(self).done,
            final(self).has_screencopy_manager == old(self).has_screencopy_manager,
            final(self).has_xdg_output_manager == old(self).has_xdg_output_manager,
            final(self).has_shm == old(self).has_shm,
    {
        let ghost pre = self.output_infos@;
        let n = self.output_infos.len();
        let mut kept: Vec<OutputInfo> = Vec::new();
        let mut rest: Vec<OutputInfo> = Vec::new();
        core::mem::swap(&mut rest, &mut self.output_infos);
        let mut i: usize = 0;
        while i < n
            invariant
                n == pre.len(),
                0 <= i <= n,
                rest@ == pre.skip(i as int),
                kept@ == spec_selected_by_region(pre.take(i as int), region),
                region.well_formed(),
                forall|j: int| 0 <= j < n ==> #[trigger] spec_described(pre[j]),
                forall|j: int|
                    0 <= j < n ==> (#[trigger] spec_output_rect(pre[j])).well_formed(),
            decreases n - i,
        {
            proof {
                assert(pre.skip(i as int)[0] == pre[i as int]);
                assert(spec_described(pre[i as int]));
                assert(spec_output_rect(pre[i as int]).well_formed());
            }
            let mut o = rest.remove(0);
            proof {
                assert(rest@ =~= pre.skip(i as int + 1));
            }
            let p = o.output_logical_position.unwrap();
            let s = o.output_logical_size.unwrap();
            match Rectangle::new(p, s).get_intersection(region) {
                Some(r) => {
                    o.image_logical_position = Some(r.position);
                    o.image_logical_size = Some(r.size);
                    kept.push(o);
                },
                None => {},
            }
            proof {
                assert(pre.take(i as int + 1).drop_last() =~= pre.take(i as int));
                assert(pre.take(i as int + 1).last() == pre[i as int]);
            }
            i = i + 1;
        }
        proof {
            assert(pre.take(n as int) =~= pre);
        }
        self.output_infos = kept;
    }
}


/// A name keeps some output exactly when one carries it: the lookup
/// misses precisely on names no output has.
pub proof fn lemma_name_selection_empty(s: Seq<OutputInfo>, n: Seq<char>)
    ensures
        spec_selected_by_name(s, n).len() == 0 <==> (forall|i: int|
            0 <= i < s.len() ==> !spec_name_matches(#[trigger] s[i], n)),
    decreases s.len(),
{
    if s.len() > 0 {
        lemma_name_selection_empty(s.drop_last(), n);
        assert(forall|i: int|
            0 <= i < s.len() - 1 ==> #[trigger] s[i] == s.drop_last()[i]);
    }
}

/// A region keeps some output exactly when it overlaps one: the
/// selection is empty precisely when the region misses every output.
pub proof fn lemma_region_selection_empty(s: Seq<OutputInfo>, region: Rectangle)
    ensures
        spec_selected_by_region(s, region).len() == 0 <==> (forall|i: int|
            0 <= i < s.len() ==> spec_output_rect(#[trigger] s[i]).spec_intersection(region)
                is None),
    decreases s.len(),
{
    if s.len() > 0 {
        lemma_region_selection_empty(s.drop_last(), region);
        assert(forall|i: int|
            0 <= i < s.len() - 1 ==> #[trigger] s[i] == s.drop_last()[i]);
    }
}

/// Translates a capture rectangle from absolute logical coordinates into
/// an output's local coordinate system. For the two plain 90-degree
/// rotations the logical origin has been observed at the buffer's
/// bottom-right rather than its top-left, so the offset is mirrored
/// within the output for those; this correction is empirical and kept as
/// a tested special case.
pub fn local_capture_position(
    transform: Transform,
    output_position: Position,
    output_size: Size,
    image_position: Position,
    image_size: Size,
) -> (r: Position)
    requires
        (Rectangle { position: output_position, size: output_size }).well_formed(),
        (Rectangle { position: output_position, size: output_size }).spec_contains_rect(
            Rectangle { position: image_position, size: image_size },
        ),
        0 < image_size.width,
        0 < image_size.height,
    ensures
        transform == Transform::Rotated90 || transform == Transform::Rotated270 ==> {
            &&& r.x == output_size.width - image_size.width - (image_position.x
                - output_position.x)
            &&& r.y == output_size.height - image_size.height - (image_position.y
                - output_position.y)
        },
        !(transform == Transform::Rotated90 || transform == Transform::Rotated270) ==> {
            &&& r.x == image_position.x - output_position.x
            &&& r.y == image_position.y - output_position.y
        },
{
    let local_x = image_position.x - output_position.x;
    let local_y = image_position.y - output_position.y;
    match transform {
        Transform::Rotated90 | Transform::Rotated270 => Position {
            x: output_size.width - image_size.width - local_x,
            y: output_size.height - image_size.height - local_y,
        },
        _ => Position { x: local_x, y: local_y },
    }
}

} // verus!
