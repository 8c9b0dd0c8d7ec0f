use ruplace::canvas::CANVAS_BYTES;
use ruplace::engine::{Action, Engine, Phase};
use ruplace::select::{Pixel, Progress};
use ruplace::traversal::IDLE_SECONDS;

fn image(width: u32, height: u32, rgba: &[u8]) -> Vec<u8> {
    let mut file = Vec::new();
    {
        let mut encoder = png::Encoder::new(&mut file, width, height);
        encoder.set_color(png::ColorType::Rgba);
        encoder.set_depth(png::BitDepth::Eight);
        let mut writer = encoder.write_header().unwrap();
        writer.write_image_data(rgba).unwrap();
    }
    file
}

fn clear() -> Vec<u8> {
    image(1, 1, &[0, 0, 0, 0])
}

fn red() -> Vec<u8> {
    image(1, 1, &[229, 0, 0, 255])
}

#[test]
fn new_engine_rests_and_starts_at_the_root() {
    let mut engine = Engine::new("root".to_string());
    assert_eq!(engine.phase, Phase::Resting);
    assert_eq!(engine.tree.len(), 1);
    assert_eq!(engine.start(), Action::FetchDescriptor(0));
    assert_eq!(engine.phase, Phase::Descriptor);
    assert_eq!(engine.cycle.seen, vec!["root".to_string()]);
}

#[test]
fn pixel_is_placed_and_the_waiting_time_is_kept() {
    let board = vec![0u8; CANVAS_BYTES];
    let mut engine = Engine::new("root".to_string());
    assert_eq!(engine.start(), Action::FetchDescriptor(0));
    let body = br#"{"x": 7, "y": 9, "image": "i", "fallbacks": ["A"]}"#;
    assert_eq!(engine.on_descriptor(body), Action::FetchImage(0));
    assert_eq!(engine.pending.as_ref().unwrap().image, "i");
    assert_eq!(engine.on_image(&red()), Action::FetchBoard(0));
    assert_eq!(engine.on_board(&board), Action::Place(Pixel { x: 7, y: 9, color: 5 }));
    assert_eq!(engine.progress, Some(Progress { solid: 1, mismatched: 1 }));
    assert_eq!(engine.phase, Phase::Placement);
    assert_eq!(engine.on_placed(br#"{"wait_seconds": 300}"#), Action::Sleep(300));
    assert_eq!(engine.phase, Phase::Resting);
    assert!(engine.cycle.is_idle());
}

#[test]
fn unchanged_descriptor_skips_the_image() {
    let board = vec![0u8; CANVAS_BYTES];
    let mut engine = Engine::new("root".to_string());
    let body = br#"{"x": 7, "y": 9, "image": "i"}"#;
    engine.start();
    assert_eq!(engine.on_descriptor(body), Action::FetchImage(0));
    assert_eq!(engine.on_image(&red()), Action::FetchBoard(0));
    assert_eq!(engine.on_failure(), Action::Sleep(IDLE_SECONDS));
    for _ in 0..3 {
        assert_eq!(engine.start(), Action::FetchDescriptor(0));
        assert_eq!(engine.on_descriptor(body), Action::FetchBoard(0));
        assert_eq!(engine.on_board(&board), Action::Place(Pixel { x: 7, y: 9, color: 5 }));
        assert_eq!(engine.on_placed(b"{}"), Action::Sleep(IDLE_SECONDS));
    }
    engine.start();
    assert_eq!(engine.on_descriptor(br#"{"x": 8, "y": 9, "image": "i"}"#), Action::FetchImage(0));
}

#[test]
fn newer_major_version_stops_the_engine() {
    let mut engine = Engine::new("root".to_string());
    engine.start();
    let body = br#"{"major_version": 2, "x": 7, "y": 9, "image": "i"}"#;
    assert_eq!(engine.on_descriptor(body), Action::Stop);
    assert_eq!(engine.phase, Phase::Stopped);
}

#[test]
fn newer_minor_version_is_noted_and_selection_goes_on() {
    let board = vec![0u8; CANVAS_BYTES];
    let mut engine = Engine::new("root".to_string());
    engine.start();
    let body = br#"{"major_version": 1, "minor_version": 2, "x": 7, "y": 9, "image": "i"}"#;
    assert_eq!(engine.on_descriptor(body), Action::FetchImage(0));
    assert!(engine.advisory);
    assert_eq!(engine.on_image(&red()), Action::FetchBoard(0));
    assert_eq!(engine.on_board(&board), Action::Place(Pixel { x: 7, y: 9, color: 5 }));
}

#[test]
fn malformed_descriptor_ends_the_cycle() {
    let mut engine = Engine::new("root".to_string());
    engine.start();
    assert_eq!(engine.on_descriptor(br#"{"x": 7}"#), Action::Sleep(IDLE_SECONDS));
    assert_eq!(engine.phase, Phase::Resting);
    assert_eq!(engine.tree.len(), 1);
}

#[test]
fn unusable_image_ends_the_cycle_and_keeps_the_node_stale() {
    let mut engine = Engine::new("root".to_string());
    let body = br#"{"x": 7, "y": 9, "image": "i", "fallbacks": ["A"]}"#;
    engine.start();
    assert_eq!(engine.on_descriptor(body), Action::FetchImage(0));
    assert_eq!(engine.on_image(b"junk"), Action::Sleep(IDLE_SECONDS));
    assert_eq!(engine.tree.len(), 1);
    assert!(engine.pending.is_none());
    engine.start();
    assert_eq!(engine.on_descriptor(body), Action::FetchImage(0));
}

#[test]
fn target_off_the_canvas_ends_the_cycle() {
    let board = vec![0u8; CANVAS_BYTES];
    let mut engine = Engine::new("root".to_string());
    engine.start();
    engine.on_descriptor(br#"{"x": 1000, "y": 0, "image": "i"}"#);
    assert_eq!(engine.on_image(&red()), Action::FetchBoard(0));
    assert_eq!(engine.on_board(&board), Action::Sleep(IDLE_SECONDS));
    assert_eq!(engine.progress, None);
}

#[test]
fn exhausted_root_leads_through_its_fallbacks_once_each() {
    let board = vec![0u8; CANVAS_BYTES];
    let mut engine = Engine::new("root".to_string());
    assert_eq!(engine.start(), Action::FetchDescriptor(0));
    let root = br#"{"x": 0, "y": 0, "image": "i", "fallbacks": ["A", "B"]}"#;
    assert_eq!(engine.on_descriptor(root), Action::FetchImage(0));
    assert_eq!(engine.on_image(&clear()), Action::FetchBoard(0));

    let next = engine.on_board(&board);
    assert_eq!(next, Action::FetchDescriptor(1));
    assert_eq!(engine.progress, Some(Progress { solid: 0, mismatched: 0 }));
    assert_eq!(engine.tree.job(1).url, "A");
    let a = br#"{"x": 0, "y": 0, "image": "i", "fallbacks": ["B", "root"]}"#;
    assert_eq!(engine.on_descriptor(a), Action::FetchImage(1));
    assert_eq!(engine.on_image(&clear()), Action::FetchBoard(1));

    let next = engine.on_board(&board);
    assert_eq!(next, Action::FetchDescriptor(2));
    assert_eq!(engine.tree.job(2).url, "B");
    assert!(engine.cycle.is_idle());
    let b = br#"{"x": 0, "y": 0, "image": "i", "fallbacks": ["A"]}"#;
    assert_eq!(engine.on_descriptor(b), Action::FetchImage(2));
    assert_eq!(engine.on_image(&clear()), Action::FetchBoard(2));

    assert_eq!(engine.on_board(&board), Action::Sleep(IDLE_SECONDS));
    assert_eq!(engine.phase, Phase::Resting);
    assert_eq!(
        engine.cycle.seen,
        vec!["root".to_string(), "A".to_string(), "B".to_string()]
    );

    assert_eq!(engine.start(), Action::FetchDescriptor(0));
    assert_eq!(engine.on_descriptor(root), Action::FetchBoard(0));
    assert_eq!(engine.on_board(&board), Action::FetchDescriptor(1));
    assert_eq!(engine.on_descriptor(a), Action::FetchBoard(1));
}

#[test]
fn failure_on_a_fallback_drops_the_rest_of_the_queue() {
    let board = vec![0u8; CANVAS_BYTES];
    let mut engine = Engine::new("root".to_string());
    engine.start();
    engine.on_descriptor(br#"{"x": 0, "y": 0, "image": "i", "fallbacks": ["A", "B"]}"#);
    engine.on_image(&clear());
    assert_eq!(engine.on_board(&board), Action::FetchDescriptor(1));
    assert!(!engine.cycle.is_idle());
    assert_eq!(engine.on_failure(), Action::Sleep(IDLE_SECONDS));
    assert!(engine.cycle.is_idle());
    assert_eq!(engine.tree.job(0).fallbacks, vec![1, 2]);
    assert_eq!(engine.tree.job(0).target_image, vec![16]);
}

#[test]
fn long_waiting_time_is_honoured_as_reported() {
    let board = vec![0u8; CANVAS_BYTES];
    let mut engine = Engine::new("root".to_string());
    engine.start();
    engine.on_descriptor(br#"{"x": 7, "y": 9, "image": "i"}"#);
    engine.on_image(&red());
    engine.on_board(&board);
    assert_eq!(engine.on_placed(br#"{"wait_seconds": 4294967301}"#), Action::Sleep(4294967301));
}

#[test]
fn origin_beyond_the_canvas_is_not_folded_into_it() {
    let board = vec![0u8; CANVAS_BYTES];
    let mut engine = Engine::new("root".to_string());
    engine.start();
    assert_eq!(
        engine.on_descriptor(br#"{"x": 4294967301, "y": 4294967296, "image": "i"}"#),
        Action::FetchImage(0)
    );
    assert_eq!(engine.on_image(&red()), Action::FetchBoard(0));
    assert_eq!(engine.tree.job(0).target.x, 4294967301);
    assert!(!engine.tree.job(0).fits(&board));
    assert_eq!(engine.on_board(&board), Action::Sleep(IDLE_SECONDS));
    assert_eq!(engine.progress, None);
}

#[test]
fn huge_major_version_stops_the_engine() {
    let mut engine = Engine::new("root".to_string());
    engine.start();
    let body = br#"{"major_version": 4294967297, "x": 7, "y": 9, "image": "i"}"#;
    assert_eq!(engine.on_descriptor(body), Action::Stop);
    assert_eq!(engine.phase, Phase::Stopped);
}

#[test]
fn advisory_does_not_outlive_its_descriptor() {
    let mut engine = Engine::new("root".to_string());
    engine.start();
    let body = br#"{"minor_version": 2, "x": 7, "y": 9, "image": "i"}"#;
    assert_eq!(engine.on_descriptor(body), Action::FetchImage(0));
    assert!(engine.advisory);
    assert_eq!(engine.on_failure(), Action::Sleep(IDLE_SECONDS));
    engine.start();
    assert_eq!(engine.on_descriptor(b"{}"), Action::Sleep(IDLE_SECONDS));
    assert!(!engine.advisory);
    engine.start();
    assert_eq!(engine.on_descriptor(body), Action::FetchImage(0));
    assert!(engine.advisory);
    engine.on_failure();
    engine.start();
    assert_eq!(engine.on_descriptor(br#"{"major_version": 2, "x": 7, "y": 9, "image": "i"}"#), Action::Stop);
    assert!(!engine.advisory);
}
