use gazo::capture::PixelFormat;
use gazo::capture::Transform;
use gazo::error::Error;
use gazo::protocol::GlobalKind;
use gazo::protocol::OutputEvent;
use gazo::protocol::State;
use gazo::protocol::XdgOutputEvent;
use gazo::protocol::classify_interface;
use gazo::protocol::local_capture_position;
use gazo::protocol::transform_from_wire;
use gazo::rectangle::Position;
use gazo::rectangle::Rectangle;
use gazo::rectangle::Size;

fn described_state(outputs: &[(&str, i32, i32, i32, i32)]) -> State {
    let mut state = State::new();
    state.register_global(GlobalKind::ScreencopyManager);
    state.register_global(GlobalKind::XdgOutputManager);
    state.register_global(GlobalKind::Shm);
    for (i, (name, x, y, w, h)) in outputs.iter().enumerate() {
        state.register_global(GlobalKind::Output);
        state.handle_output_event(i, OutputEvent::Name(name.to_string()));
        state.handle_output_event(i, OutputEvent::Geometry(Transform::Normal));
        state.handle_xdg_output_event(i, XdgOutputEvent::LogicalPosition(*x, *y));
        state.handle_xdg_output_event(i, XdgOutputEvent::LogicalSize(*w, *h));
    }
    state
}

// a lookup for a name no output carries reports exactly that name
#[test]
fn test_named_output_miss() {
    let mut state = described_state(&[("eDP-1", 0, 0, 500, 500)]);
    match state.select_named_output(&"nonexistent".to_string()) {
        Err(Error::NoOutput(name)) => assert_eq!(name, "nonexistent"),
        _ => panic!("a missing name must report NoOutput"),
    }
    assert_eq!(state.output_infos.len(), 0);
}

// a matching name keeps the output and retargets it to a local origin
#[test]
fn test_named_output_hit() {
    let mut state = described_state(&[("eDP-1", 30, 40, 500, 300), ("DP-2", 600, 0, 100, 100)]);
    state.select_named_output(&"DP-2".to_string()).unwrap();
    assert_eq!(state.output_infos.len(), 1);
    let o = &state.output_infos[0];
    assert_eq!(o.image_logical_position, Some(Position::new(0, 0)));
    assert_eq!(o.image_logical_size, Some(Size::new(100, 100)));
}

// a region entirely outside every output leaves nothing to capture
#[test]
fn test_region_outside_all_outputs() {
    let mut state = described_state(&[("eDP-1", 0, 0, 500, 500)]);
    let region = Rectangle { position: Position::new(1000, 1000), size: Size::new(10, 10) };
    state.select_region_outputs(region);
    assert_eq!(state.output_infos.len(), 0);
    match gazo::composite::captures_to_buffer(Vec::new()) {
        Err(Error::NoCaptures) => {},
        _ => panic!("an empty selection must report NoCaptures"),
    }
}

// a region overlapping one output is clipped to the overlap
#[test]
fn test_region_clips_to_output() {
    let mut state = described_state(&[("eDP-1", 0, 0, 500, 500), ("DP-2", 500, 0, 500, 500)]);
    let region = Rectangle { position: Position::new(400, 100), size: Size::new(50, 50) };
    state.select_region_outputs(region);
    assert_eq!(state.output_infos.len(), 1);
    let o = &state.output_infos[0];
    assert_eq!(o.image_logical_position, Some(Position::new(400, 100)));
    assert_eq!(o.image_logical_size, Some(Size::new(50, 50)));
}

// selecting everything aims each output at its full logical rectangle
#[test]
fn test_select_all_outputs() {
    let mut state = described_state(&[("eDP-1", 0, 0, 500, 500), ("DP-2", 500, 0, 400, 300)]);
    state.select_all_outputs();
    assert_eq!(state.output_infos[0].image_logical_position, Some(Position::new(0, 0)));
    assert_eq!(state.output_infos[0].image_logical_size, Some(Size::new(500, 500)));
    assert_eq!(state.output_infos[1].image_logical_position, Some(Position::new(500, 0)));
    assert_eq!(state.output_infos[1].image_logical_size, Some(Size::new(400, 300)));
}

// only the three supported wire formats are accepted, and only with
// workable dimensions
#[test]
fn test_frame_buffer_validation() {
    let mut state = described_state(&[("eDP-1", 0, 0, 4, 4)]);
    assert_eq!(state.handle_frame_buffer(0, 0, 4, 4).unwrap(), 64);
    assert_eq!(state.output_infos[0].image_pixel_format, Some(PixelFormat::Argb8888));
    assert_eq!(state.output_infos[0].image_mmap_size, Some(Size::new(4, 4)));

    assert_eq!(state.handle_frame_buffer(0, 1, 2, 3).unwrap(), 24);
    assert_eq!(state.output_infos[0].image_pixel_format, Some(PixelFormat::Xrgb8888));

    assert_eq!(state.handle_frame_buffer(0, 0x34324258, 8, 8).unwrap(), 256);
    assert_eq!(state.output_infos[0].image_pixel_format, Some(PixelFormat::Xbgr8888));

    match state.handle_frame_buffer(0, 0x34325258, 4, 4) {
        Err(Error::UnsupportedPixelFormat) => {},
        _ => panic!("an unknown format code must be rejected"),
    }
    match state.handle_frame_buffer(0, 0, 0, 4) {
        Err(Error::UnsupportedPixelFormat) => {},
        _ => panic!("a zero-width buffer must be rejected"),
    }
}

// a frame failure is surfaced for the whole call, never swallowed
#[test]
fn test_frame_failure_surfaces() {
    let mut state = described_state(&[("eDP-1", 0, 0, 4, 4), ("DP-2", 4, 0, 4, 4)]);
    assert!(!state.all_frames_done());
    state.handle_frame_ready(0);
    assert!(!state.all_frames_done());
    state.handle_frame_failed(1);
    assert!(state.all_frames_done());
    match state.frames_result() {
        Err(Error::ScreencopyFailed) => {},
        _ => panic!("a failed frame must surface ScreencopyFailed"),
    }

    state.handle_frame_ready(1);
    state.output_infos[1].image_failed = false;
    state.frames_result().unwrap();
}

// a compositor without the required extensions is reported as such
#[test]
fn test_missing_protocols() {
    let mut state = State::new();
    state.register_global(GlobalKind::Output);
    match state.require_protocols() {
        Err(Error::ProtocolUnsupported) => {},
        _ => panic!("missing globals must report ProtocolUnsupported"),
    }
    state.register_global(GlobalKind::ScreencopyManager);
    state.register_global(GlobalKind::XdgOutputManager);
    state.register_global(GlobalKind::Shm);
    state.require_protocols().unwrap();
}

// geometry is complete only once position, size and transform arrived
#[test]
fn test_geometry_completion() {
    let mut state = State::new();
    state.register_global(GlobalKind::Output);
    assert!(!state.all_outputs_described());
    state.handle_xdg_output_event(0, XdgOutputEvent::LogicalPosition(0, 0));
    state.handle_xdg_output_event(0, XdgOutputEvent::LogicalSize(800, 600));
    assert!(!state.all_outputs_described());
    state.handle_output_event(0, OutputEvent::Geometry(Transform::Rotated270));
    assert!(state.all_outputs_described());
    assert_eq!(state.output_infos[0].scale_factor, 1);
    state.handle_output_event(0, OutputEvent::Scale(2));
    assert_eq!(state.output_infos[0].scale_factor, 2);
}

// registry announcements are sorted by interface name
#[test]
fn test_classify_interface() {
    assert_eq!(
        classify_interface(&"zwlr_screencopy_manager_v1".to_string()),
        GlobalKind::ScreencopyManager
    );
    assert_eq!(
        classify_interface(&"zxdg_output_manager_v1".to_string()),
        GlobalKind::XdgOutputManager
    );
    assert_eq!(classify_interface(&"wl_shm".to_string()), GlobalKind::Shm);
    assert_eq!(classify_interface(&"wl_output".to_string()), GlobalKind::Output);
    assert_eq!(classify_interface(&"wl_seat".to_string()), GlobalKind::Other);
}

// the eight transform codes decode; anything beyond them is refused
#[test]
fn test_transform_from_wire() {
    assert_eq!(transform_from_wire(0).unwrap(), Transform::Normal);
    assert_eq!(transform_from_wire(1).unwrap(), Transform::Rotated90);
    assert_eq!(transform_from_wire(2).unwrap(), Transform::Rotated180);
    assert_eq!(transform_from_wire(3).unwrap(), Transform::Rotated270);
    assert_eq!(transform_from_wire(4).unwrap(), Transform::Flipped);
    assert_eq!(transform_from_wire(5).unwrap(), Transform::Flipped90);
    assert_eq!(transform_from_wire(6).unwrap(), Transform::Flipped180);
    assert_eq!(transform_from_wire(7).unwrap(), Transform::Flipped270);
    match transform_from_wire(8) {
        Err(Error::UnsupportedTransform) => {},
        _ => panic!("a transform code beyond the eight variants must be refused"),
    }
}

// the capture offset is local to the output, mirrored for the two plain
// 90-degree rotations whose logical origin sits at the bottom-right
#[test]
fn test_local_capture_position() {
    let r = local_capture_position(
        Transform::Normal,
        Position::new(100, 50),
        Size::new(800, 600),
        Position::new(130, 70),
        Size::new(10, 20),
    );
    assert_eq!(r, Position::new(30, 20));

    let r = local_capture_position(
        Transform::Rotated270,
        Position::new(100, 50),
        Size::new(800, 600),
        Position::new(130, 70),
        Size::new(10, 20),
    );
    assert_eq!(r, Position::new(800 - 10 - 30, 600 - 20 - 20));

    let r = local_capture_position(
        Transform::Flipped180,
        Position::new(0, 0),
        Size::new(640, 480),
        Position::new(5, 6),
        Size::new(7, 8),
    );
    assert_eq!(r, Position::new(5, 6));
}
