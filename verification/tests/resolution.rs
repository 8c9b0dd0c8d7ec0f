use ruplace::canvas::CANVAS_BYTES;
use ruplace::descriptor::{get_target_json, ResolveError, MAJOR_VERSION, MINOR_VERSION};
use ruplace::image::{
    is_usable, quantize_image, read_reference, PixelLayout, RawImage, FRAME_ROOM,
};
use ruplace::job::{Job, JobTree};
use ruplace::select::{Pick, Pixel, Progress};
use ruplace::traversal::{Outcome, Traversal, IDLE_SECONDS};

fn encode(width: u32, height: u32, color: png::ColorType, data: &[u8]) -> Vec<u8> {
    let mut file = Vec::new();
    {
        let mut encoder = png::Encoder::new(&mut file, width, height);
        encoder.set_color(color);
        encoder.set_depth(png::BitDepth::Eight);
        let mut writer = encoder.write_header().unwrap();
        writer.write_image_data(data).unwrap();
    }
    file
}

fn two_by_two() -> Vec<u8> {
    encode(
        2,
        2,
        png::ColorType::Rgba,
        &[255, 255, 255, 255, 229, 0, 0, 255, 1, 2, 3, 0, 0, 0, 230, 200],
    )
}

fn transparent() -> Vec<u8> {
    encode(1, 1, png::ColorType::Rgba, &[9, 9, 9, 0])
}

#[test]
fn rgba_image_is_decoded_and_quantized() {
    let (width, height, image) = read_reference(&two_by_two()).unwrap();
    assert_eq!((width, height), (2, 2));
    assert_eq!(image, vec![0, 5, 16, 13]);
}

#[test]
fn rgb_image_is_opaque() {
    let file = encode(3, 1, png::ColorType::Rgb, &[34, 34, 34, 0, 0, 0, 2, 190, 1]);
    let (width, height, image) = read_reference(&file).unwrap();
    assert_eq!((width, height), (3, 1));
    assert_eq!(image, vec![3, 3, 10]);
}

#[test]
fn grayscale_image_is_a_format_error() {
    let file = encode(2, 1, png::ColorType::Grayscale, &[0, 255]);
    assert_eq!(read_reference(&file).unwrap_err(), ResolveError::Format);
}

#[test]
fn gray_image_with_alpha_is_a_format_error() {
    let file = encode(1, 1, png::ColorType::GrayscaleAlpha, &[200, 255]);
    assert_eq!(read_reference(&file).unwrap_err(), ResolveError::Format);
}

#[test]
fn paletted_image_is_expanded_to_colors() {
    let mut file = Vec::new();
    {
        let mut encoder = png::Encoder::new(&mut file, 2, 1);
        encoder.set_color(png::ColorType::Indexed);
        encoder.set_depth(png::BitDepth::Eight);
        encoder.set_palette(vec![229, 0, 0, 0, 0, 234]);
        let mut writer = encoder.write_header().unwrap();
        writer.write_image_data(&[1, 0]).unwrap();
    }
    let (width, height, image) = read_reference(&file).unwrap();
    assert_eq!((width, height), (2, 1));
    assert_eq!(image, vec![13, 5]);
}

#[test]
fn bytes_that_are_no_png_are_a_format_error() {
    assert_eq!(read_reference(b"not a png").unwrap_err(), ResolveError::Format);
    assert_eq!(read_reference(&[]).unwrap_err(), ResolveError::Format);
    let mut cut = two_by_two();
    cut.truncate(40);
    assert_eq!(read_reference(&cut).unwrap_err(), ResolveError::Format);
}

#[test]
fn image_larger_than_the_decoding_buffer_is_a_format_error() {
    let file = encode(1001, 1000, png::ColorType::Rgba, &vec![255u8; 1001 * 1000 * 4]);
    assert_eq!(read_reference(&file).unwrap_err(), ResolveError::Format);
}

#[test]
fn image_as_large_as_the_canvas_is_read() {
    let file = encode(1000, 1000, png::ColorType::Rgba, &vec![255u8; 1000 * 1000 * 4]);
    let (width, height, image) = read_reference(&file).unwrap();
    assert_eq!((width, height), (1000, 1000));
    assert_eq!(image.len(), 1000000);
    assert!(image.iter().all(|&v| v == 0));
}

#[test]
fn sixteen_bit_samples_are_reduced_to_eight() {
    let mut file = Vec::new();
    {
        let mut encoder = png::Encoder::new(&mut file, 1, 1);
        encoder.set_color(png::ColorType::Rgb);
        encoder.set_depth(png::BitDepth::Sixteen);
        let mut writer = encoder.write_header().unwrap();
        writer.write_image_data(&[229, 7, 0, 9, 0, 200]).unwrap();
    }
    let (width, height, image) = read_reference(&file).unwrap();
    assert_eq!((width, height), (1, 1));
    assert_eq!(image, vec![5]);
}

#[test]
fn decoding_buffer_holds_a_whole_canvas() {
    assert_eq!(FRAME_ROOM, 1000 * 1000 * 4);
}

#[test]
fn raw_image_needs_one_sample_per_channel() {
    let good = RawImage { width: 2, height: 1, layout: PixelLayout::Rgb, data: vec![0; 6] };
    assert!(is_usable(&good));
    assert_eq!(quantize_image(&good).unwrap(), vec![3, 3]);
    let short = RawImage { width: 2, height: 1, layout: PixelLayout::Rgb, data: vec![0; 5] };
    assert!(!is_usable(&short));
    assert_eq!(quantize_image(&short).unwrap_err(), ResolveError::Format);
    let roomy = RawImage {
        width: 2,
        height: 1,
        layout: PixelLayout::Rgba,
        data: vec![0, 0, 0, 255, 255, 255, 255, 128, 0, 0, 0, 0],
    };
    assert!(is_usable(&roomy));
    assert_eq!(quantize_image(&roomy).unwrap(), vec![3, 0]);
    let tight = RawImage { width: 2, height: 1, layout: PixelLayout::Rgba, data: vec![0; 7] };
    assert!(!is_usable(&tight));
    let gray = RawImage { width: 2, height: 1, layout: PixelLayout::Grayscale, data: vec![0; 2] };
    assert!(!is_usable(&gray));
    let indexed = RawImage { width: 1, height: 1, layout: PixelLayout::Indexed, data: vec![0; 3] };
    assert!(!is_usable(&indexed));
    let empty = RawImage { width: 0, height: 7, layout: PixelLayout::Rgba, data: vec![] };
    assert!(is_usable(&empty));
    assert!(quantize_image(&empty).unwrap().is_empty());
}

#[test]
fn new_job_is_blank() {
    let job = Job::new("source".to_string());
    assert_eq!(job.url, "source");
    assert_eq!(job.target.major_version, MAJOR_VERSION);
    assert_eq!(job.target.minor_version, MINOR_VERSION);
    assert_eq!((job.target.x, job.target.y), (0, 0));
    assert!(job.target.image.is_empty());
    assert!(job.target.fallbacks.is_empty());
    assert_eq!((job.width, job.height), (0, 0));
    assert!(job.target_image.is_empty());
    assert!(job.fallbacks.is_empty());
}

#[test]
fn install_replaces_the_node_and_adds_blank_fallbacks() {
    let mut tree = JobTree::new("root".to_string());
    assert_eq!(tree.len(), 1);
    let body = br#"{"x": 10, "y": 20, "image": "img", "fallbacks": ["A", "B"]}"#;
    let fetched = tree.examine(0, body).unwrap();
    assert!(fetched.stale);
    assert!(!fetched.advisory);
    tree.install(0, fetched.descriptor, &two_by_two()).unwrap();
    assert_eq!(tree.len(), 3);
    let root = tree.job(0);
    assert_eq!(root.url, "root");
    assert_eq!((root.target.x, root.target.y), (10, 20));
    assert_eq!((root.width, root.height), (2, 2));
    assert_eq!(root.target_image, vec![0, 5, 16, 13]);
    assert_eq!(root.fallbacks, vec![1, 2]);
    assert_eq!(tree.job(1).url, "A");
    assert_eq!(tree.job(2).url, "B");
    assert!(tree.job(1).target_image.is_empty());
    assert!(tree.job(1).fallbacks.is_empty());
}

#[test]
fn unchanged_descriptor_needs_no_second_decode() {
    let mut tree = JobTree::new("root".to_string());
    let body = br#"{"x": 10, "y": 20, "image": "img", "fallbacks": ["A"]}"#;
    let first = tree.examine(0, body).unwrap();
    assert!(first.stale);
    tree.install(0, first.descriptor, &two_by_two()).unwrap();
    let second = tree.examine(0, body).unwrap();
    assert!(!second.stale);
    assert!(!tree.is_stale(0, &second.descriptor));
    let third = tree.examine(0, br#"{"x": 11, "y": 20, "image": "img", "fallbacks": ["A"]}"#).unwrap();
    assert!(third.stale);
}

#[test]
fn failed_install_changes_nothing() {
    let mut tree = JobTree::new("root".to_string());
    let body = br#"{"x": 10, "y": 20, "image": "img", "fallbacks": ["A"]}"#;
    let fetched = tree.examine(0, body).unwrap();
    assert_eq!(tree.install(0, fetched.descriptor, b"junk").unwrap_err(), ResolveError::Format);
    assert_eq!(tree.len(), 1);
    assert!(tree.job(0).target.image.is_empty());
    assert!(tree.examine(0, body).unwrap().stale);
}

#[test]
fn newer_major_version_stops_resolution() {
    let tree = JobTree::new("root".to_string());
    let body = format!(r#"{{"major_version": {}, "x": 0, "y": 0, "image": "i"}}"#, MAJOR_VERSION + 1);
    assert_eq!(tree.examine(0, body.as_bytes()).unwrap_err(), ResolveError::VersionIncompatible);
}

#[test]
fn newer_minor_version_resolves_and_selects() {
    let mut tree = JobTree::new("root".to_string());
    let body = format!(
        r#"{{"major_version": {}, "minor_version": {}, "x": 998, "y": 998, "image": "i"}}"#,
        MAJOR_VERSION,
        MINOR_VERSION + 1
    );
    let fetched = tree.examine(0, body.as_bytes()).unwrap();
    assert!(fetched.advisory);
    assert!(fetched.stale);
    tree.install(0, fetched.descriptor, &encode(1, 1, png::ColorType::Rgb, &[229, 0, 0])).unwrap();
    let board = vec![0u8; CANVAS_BYTES];
    let sel = tree.job(0).select(&board).unwrap();
    assert_eq!(sel.progress, Progress { solid: 1, mismatched: 1 });
    assert_eq!(sel.pick, Pick::Paint(Pixel { x: 998, y: 998, color: 5 }));
}

#[test]
fn target_outside_the_canvas_is_not_selected() {
    let mut tree = JobTree::new("root".to_string());
    let fetched = tree.examine(0, br#"{"x": 999, "y": 0, "image": "i"}"#).unwrap();
    tree.install(0, fetched.descriptor, &two_by_two()).unwrap();
    let board = vec![0u8; CANVAS_BYTES];
    assert!(!tree.job(0).fits(&board));
    assert!(tree.job(0).select(&board).is_none());
    let mut tree = JobTree::new("root".to_string());
    let fetched = tree.examine(0, br#"{"x": 998, "y": 998, "image": "i"}"#).unwrap();
    tree.install(0, fetched.descriptor, &two_by_two()).unwrap();
    assert!(tree.job(0).fits(&board));
    assert!(!tree.job(0).fits(&board[..CANVAS_BYTES - 1]));
}

#[test]
fn fallbacks_are_visited_breadth_first_and_once() {
    let board = vec![0u8; CANVAS_BYTES];
    let mut tree = JobTree::new("root".to_string());
    let mut cycle = Traversal::begin(&tree);
    assert!(!cycle.is_idle());

    assert_eq!(cycle.advance(&tree), Some(0));
    let fetched = tree.examine(0, br#"{"x": 0, "y": 0, "image": "i", "fallbacks": ["A", "B"]}"#).unwrap();
    tree.install(0, fetched.descriptor, &transparent()).unwrap();
    assert_eq!(tree.job(0).select(&board).unwrap().pick, Pick::Exhausted);
    assert!(!cycle.settle(&tree, Outcome::Exhausted));
    assert_eq!(cycle.queue, vec![1, 2]);

    let a = cycle.advance(&tree).unwrap();
    assert_eq!(tree.job(a).url, "A");
    let fetched = tree.examine(a, br#"{"x": 0, "y": 0, "image": "i", "fallbacks": ["B", "root", "A"]}"#).unwrap();
    tree.install(a, fetched.descriptor, &transparent()).unwrap();
    assert_eq!(tree.len(), 6);
    assert_eq!(tree.job(a).select(&board).unwrap().pick, Pick::Exhausted);
    cycle.settle(&tree, Outcome::Exhausted);
    assert_eq!(cycle.queue, vec![2]);

    let b = cycle.advance(&tree).unwrap();
    assert_eq!(tree.job(b).url, "B");
    let fetched = tree.examine(b, br#"{"x": 0, "y": 0, "image": "i"}"#).unwrap();
    tree.install(b, fetched.descriptor, &transparent()).unwrap();
    assert!(cycle.settle(&tree, Outcome::Exhausted));
    assert!(cycle.is_idle());
    assert_eq!(cycle.advance(&tree), None);
    assert_eq!(cycle.seen, vec!["root".to_string(), "A".to_string(), "B".to_string()]);
}

#[test]
fn repeated_fallback_is_queued_once() {
    let mut tree = JobTree::new("root".to_string());
    let fetched = tree.examine(0, br#"{"x": 0, "y": 0, "image": "i", "fallbacks": ["A", "A", "root", "B"]}"#).unwrap();
    tree.install(0, fetched.descriptor, &transparent()).unwrap();
    let mut cycle = Traversal::begin(&tree);
    assert_eq!(cycle.advance(&tree), Some(0));
    cycle.settle(&tree, Outcome::Exhausted);
    assert_eq!(cycle.queue, vec![1, 4]);
}

#[test]
fn success_and_failure_end_the_cycle() {
    let mut tree = JobTree::new("root".to_string());
    let fetched = tree.examine(0, br#"{"x": 0, "y": 0, "image": "i", "fallbacks": ["A", "B"]}"#).unwrap();
    tree.install(0, fetched.descriptor, &transparent()).unwrap();
    for outcome in [Outcome::Placed, Outcome::Failed] {
        let mut cycle = Traversal::begin(&tree);
        assert_eq!(cycle.advance(&tree), Some(0));
        cycle.settle(&tree, Outcome::Exhausted);
        assert_eq!(cycle.advance(&tree), Some(1));
        assert!(!cycle.is_idle());
        let rest = cycle.settle(&tree, outcome);
        assert_eq!(rest, outcome == Outcome::Failed);
        assert!(cycle.is_idle());
        assert_eq!(cycle.advance(&tree), None);
    }
    assert_eq!(IDLE_SECONDS, 10);
    let again = Traversal::begin(&tree);
    assert_eq!(again.queue, vec![0]);
    assert!(again.seen.is_empty());
    assert_eq!(tree.job(0).fallbacks, vec![1, 2]);
}

#[test]
fn descriptor_read_alone_matches_examine() {
    let tree = JobTree::new("root".to_string());
    let body = br#"{"x": 3, "y": 4, "image": "i"}"#;
    let alone = get_target_json(body).unwrap();
    let fetched = tree.examine(0, body).unwrap();
    assert!(alone.same_as(&fetched.descriptor));
}

#[test]
fn seen_identities_are_listed_once() {
    let mut tree = JobTree::new("root".to_string());
    let body = br#"{"x": 0, "y": 0, "image": "i", "fallbacks": ["A", "root", "A", "B", "B"]}"#;
    let fetched = tree.examine(0, body).unwrap();
    tree.install(0, fetched.descriptor, &transparent()).unwrap();
    let mut cycle = Traversal::begin(&tree);
    assert_eq!(cycle.advance(&tree), Some(0));
    cycle.settle(&tree, Outcome::Exhausted);
    assert_eq!(cycle.seen, vec!["root".to_string(), "A".to_string(), "B".to_string()]);
    assert_eq!(cycle.queue, vec![1, 4]);
    assert_eq!(cycle.advance(&tree), Some(1));
    assert_eq!(cycle.seen, vec!["root".to_string(), "A".to_string(), "B".to_string()]);
}
