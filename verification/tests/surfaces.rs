//! Frames that are delivered as textures, and frames that are painted.

use std::sync::Arc;

use iced_webview::engines::accelerated::{
    AcceleratedSurface, Admission, DmabufFrame, GenerationSource, DRM_FORMAT_MOD_INVALID,
};
use iced_webview::engines::paint::{blit, PaintBuffer, Rect};
use iced_webview::engines::TextureFormat;

fn frame(width: u32, height: u32) -> DmabufFrame {
    DmabufFrame {
        fd: 3,
        stride: 4 * width,
        offset: 0,
        src_x: 0,
        src_y: 0,
        total_size: 0,
        modifier: 0,
        buffer_width: width,
        buffer_height: height,
        width,
        height,
        format: TextureFormat::Bgra8Unorm,
    }
}

type Surface = AcceleratedSurface<&'static str, (u32, u32, TextureFormat)>;

fn create(_: &&'static str, w: u32, h: u32, f: TextureFormat) -> (u32, u32, TextureFormat) {
    (w, h, f)
}

#[test]
fn generations_are_unique() {
    let mut source = GenerationSource::default();
    let drawn: Vec<u64> = (0..100).map(|_| source.next_generation()).collect();
    assert_eq!(drawn[0], 1);
    for i in 0..drawn.len() {
        for j in 0..i {
            assert_ne!(drawn[i], drawn[j]);
        }
    }
}

#[test]
fn only_sound_frames_are_admitted() {
    let mut source = GenerationSource::default();
    let mut surface = Surface::new();
    assert_eq!(surface.accept_frame(&frame(2, 2)), Admission::NoGpu);
    assert!(!surface.has_gpu());
    surface.attach_gpu("gpu", TextureFormat::Bgra8Unorm, &mut source);
    assert!(surface.has_gpu());
    assert_eq!(surface.accept_frame(&frame(2, 2)), Admission::Admitted);
    assert_eq!(surface.accept_frame(&frame(0, 2)), Admission::Empty);
    assert_eq!(surface.accept_frame(&frame(2, 0)), Admission::Empty);
    let unknown = DmabufFrame {
        modifier: DRM_FORMAT_MOD_INVALID,
        ..frame(2, 2)
    };
    assert_eq!(surface.accept_frame(&unknown), Admission::UnknownLayout);
    assert_eq!(DRM_FORMAT_MOD_INVALID, 0x00ff_ffff_ffff_ffff);
}

#[test]
fn the_first_device_wins_and_a_new_format_drops_the_texture() {
    let mut source = GenerationSource::default();
    let mut surface = Surface::new();
    surface.attach_gpu("first", TextureFormat::Bgra8Unorm, &mut source);
    surface.attach_gpu("second", TextureFormat::Bgra8Unorm, &mut source);
    assert_eq!(surface.device(), Some(&"first"));
    surface.target_for(&frame(2, 2), &mut source, create);
    let (texture, generation) = surface.current().unwrap();
    assert_eq!(texture, &(2, 2, TextureFormat::Bgra8Unorm));
    assert_eq!(generation, 1);
    surface.attach_gpu("third", TextureFormat::Bgra8UnormSrgb, &mut source);
    assert_eq!(surface.device(), Some(&"first"));
    assert!(surface.current().is_none());
    surface.target_for(&frame(2, 2), &mut source, create);
    let (texture, generation) = surface.current().unwrap();
    assert_eq!(texture, &(2, 2, TextureFormat::Bgra8UnormSrgb));
    assert_eq!(generation, 3);
}

#[test]
fn a_texture_is_made_anew_only_where_it_does_not_fit() {
    let mut source = GenerationSource::default();
    let mut a = Surface::new();
    let mut b = Surface::new();
    a.attach_gpu("gpu", TextureFormat::Rgba8Unorm, &mut source);
    b.attach_gpu("gpu", TextureFormat::Rgba8Unorm, &mut source);
    a.target_for(&frame(4, 4), &mut source, create);
    b.target_for(&frame(4, 4), &mut source, create);
    assert_ne!(a.current().unwrap().1, b.current().unwrap().1);
    let before = a.current().unwrap().1;
    a.target_for(&frame(4, 4), &mut source, create);
    assert_eq!(a.current().unwrap().1, before);
    a.target_for(&frame(4, 5), &mut source, create);
    assert_ne!(a.current().unwrap().1, before);
    assert_eq!(a.current().unwrap().0, &(4, 5, TextureFormat::Rgba8Unorm));
}

#[test]
fn copies_are_reported_now_and_then() {
    let mut surface = Surface::new();
    let mut reported = Vec::new();
    for n in 1..=360u64 {
        if let Some(report) = surface.frame_copied(&frame(2, 2), 10) {
            assert_eq!(report.frame, n);
            assert_eq!((report.width, report.height), (2, 2));
            reported.push((n, report.total_nanos, report.window));
        }
    }
    assert_eq!(
        reported,
        vec![
            (1, 10, 1),
            (10, 90, 10),
            (60, 500, 60),
            (120, 600, 120),
            (240, 1200, 120),
            (360, 1200, 120),
        ]
    );
    assert_eq!(surface.frame_count(), 360);
    assert!(surface.frame_copied(&frame(2, 3), 10).is_some());
    assert!(surface.frame_copied(&frame(2, 3), 10).is_none());
}

#[test]
fn a_surface_settles_once() {
    let mut surface = Surface::new();
    assert!(!surface.is_settled());
    surface.settle(false, false);
    assert!(!surface.is_settled());
    surface.settle(false, true);
    assert!(surface.is_settled());
    surface.settle(false, false);
    assert!(surface.is_settled());
}

fn rect(x: i32, y: i32, width: i32, height: i32) -> Rect {
    Rect {
        x,
        y,
        width,
        height,
    }
}

/// The pixels of a frame that are not zero, as coordinates.
fn set_pixels(bytes: &[u8], width: usize) -> Vec<(usize, usize)> {
    let mut set = Vec::new();
    for (i, pixel) in bytes.chunks(4).enumerate() {
        if pixel == [9, 9, 9, 9] {
            set.push((i % width, i / width));
        } else {
            assert_eq!(pixel, [0, 0, 0, 0]);
        }
    }
    set
}

#[test]
fn only_what_changed_is_copied() {
    let source = vec![9u8; 4 * 4 * 3];
    let mut bytes = vec![0u8; 4 * 4 * 3];
    blit(&mut bytes, &source, &[rect(1, 1, 2, 1)], 4, 3);
    assert_eq!(set_pixels(&bytes, 4), vec![(1, 1), (2, 1)]);
    blit(&mut bytes, &source, &[rect(3, 2, 9, 9), rect(0, 0, 1, 1)], 4, 3);
    assert_eq!(
        set_pixels(&bytes, 4),
        vec![(0, 0), (1, 1), (2, 1), (3, 2)]
    );
}

#[test]
fn rectangles_are_kept_inside_the_frame() {
    let source = vec![9u8; 4 * 2 * 2];
    for (outside, copied) in [
        (rect(5, 0, 1, 1), 0),
        (rect(0, 5, 1, 1), 0),
        (rect(-1, 0, 1, 1), 0),
        (rect(0, -1, 1, 1), 0),
        (rect(0, 0, 0, 0), 0),
        (rect(0, 0, -1, 1), 2),
        (rect(0, 0, i32::MAX, i32::MAX), 4),
    ] {
        let mut bytes = vec![0u8; 4 * 2 * 2];
        blit(&mut bytes, &source, &[outside], 2, 2);
        assert_eq!(set_pixels(&bytes, 2).len(), copied, "{outside:?}");
    }
}

#[test]
fn a_buffer_follows_the_frames() {
    let mut buffer = PaintBuffer::new();
    let first: Vec<u8> = (0..16).collect();
    buffer.paint(&first, Some(&[]), 2, 2);
    assert_eq!(*buffer.pixels(), first);
    let shown: Arc<Vec<u8>> = buffer.pixels();
    let mut second = first.clone();
    second[4] = 99;
    buffer.paint(&second, Some(&[rect(1, 0, 1, 1)]), 2, 2);
    assert_eq!(*buffer.pixels(), second);
    assert_eq!(*shown, first);
    let third: Vec<u8> = vec![7; 16];
    buffer.paint(&third, None, 2, 2);
    assert_eq!(*buffer.pixels(), third);
    let smaller: Vec<u8> = vec![1, 2, 3, 4];
    buffer.paint(&smaller, Some(&[]), 1, 1);
    assert_eq!(*buffer.pixels(), smaller);
}

#[test]
fn surfaces_of_one_process_share_no_generation() {
    let mut source = GenerationSource::default();
    let mut a = Surface::new();
    let mut b = Surface::new();
    a.attach_gpu("gpu", TextureFormat::Bgra8Unorm, &mut source);
    b.attach_gpu("gpu", TextureFormat::Bgra8Unorm, &mut source);
    let mut seen: Vec<u64> = Vec::new();
    for (surface, width) in [(&mut a, 2), (&mut b, 2)] {
        for w in [width, width + 1, width] {
            surface.target_for(&frame(w, 2), &mut source, create);
            let generation = surface.current().unwrap().1;
            assert!(!seen.contains(&generation));
            seen.push(generation);
            surface.target_for(&frame(w, 2), &mut source, create);
            assert_eq!(surface.current().unwrap().1, generation);
        }
    }
    assert_eq!(seen, vec![1, 2, 3, 4, 5, 6]);
}
