use rustzx_frame::frame_buffer::{
    FrameBuffer, FrameBufferSource, Pixel, PixelBuffer, SurfaceHandle, ZXBrightness, ZXColor,
};

const HUES: [ZXColor; 8] = [
    ZXColor::Black,
    ZXColor::Blue,
    ZXColor::Red,
    ZXColor::Purple,
    ZXColor::Green,
    ZXColor::Cyan,
    ZXColor::Yellow,
    ZXColor::White,
];

fn canvas(w: usize, h: usize) -> PixelBuffer {
    PixelBuffer::new(w, h, FrameBufferSource::Screen, SurfaceHandle { id: 3 })
}

#[test]
fn new_buffer_is_blank_and_clean() {
    let b = canvas(16, 4);
    assert_eq!(b.source(), FrameBufferSource::Screen);
    assert_eq!(b.context(), SurfaceHandle { id: 3 });
    assert!(b.dirty_rows().is_empty());
    assert_eq!(
        b.pixel(15, 3),
        Pixel { color: ZXColor::Black, brightness: ZXBrightness::Normal }
    );
}

#[test]
fn set_color_writes_one_pixel_and_marks_its_row() {
    let mut b = canvas(16, 4);
    b.set_color(5, 2, ZXColor::Cyan, ZXBrightness::Bright);
    assert_eq!(b.pixel(5, 2), Pixel { color: ZXColor::Cyan, brightness: ZXBrightness::Bright });
    assert_eq!(b.pixel(4, 2), Pixel { color: ZXColor::Black, brightness: ZXBrightness::Normal });
    assert_eq!(b.pixel(5, 1), Pixel { color: ZXColor::Black, brightness: ZXBrightness::Normal });
    assert_eq!(b.dirty_rows(), vec![2]);
}

#[test]
fn set_colors_matches_eight_set_color_calls() {
    let mut run = canvas(16, 4);
    let mut single = canvas(16, 4);
    run.set_colors(8, 1, HUES, ZXBrightness::Bright);
    for (i, c) in HUES.iter().enumerate() {
        single.set_color(8 + i, 1, *c, ZXBrightness::Bright);
    }
    for y in 0..4 {
        for x in 0..16 {
            assert_eq!(run.pixel(x, y), single.pixel(x, y));
        }
    }
    assert_eq!(run.pixel(10, 1), Pixel { color: ZXColor::Red, brightness: ZXBrightness::Bright });
    assert_eq!(run.dirty_rows(), single.dirty_rows());
}

#[test]
fn set_colors_at_right_edge() {
    let mut b = canvas(8, 1);
    b.set_colors(0, 0, HUES, ZXBrightness::Normal);
    assert_eq!(b.pixel(7, 0), Pixel { color: ZXColor::White, brightness: ZXBrightness::Normal });
}

#[test]
fn reset_dirty_regions_clears_all_rows_and_keeps_pixels() {
    let mut b = canvas(16, 4);
    b.set_color(0, 0, ZXColor::Red, ZXBrightness::Normal);
    b.set_colors(0, 3, HUES, ZXBrightness::Bright);
    assert_eq!(b.dirty_rows(), vec![0, 3]);
    b.reset_dirty_regions();
    assert!(b.dirty_rows().is_empty());
    assert_eq!(b.pixel(0, 0), Pixel { color: ZXColor::Red, brightness: ZXBrightness::Normal });
}

#[test]
fn reset_on_fresh_buffer_is_empty() {
    let mut b = PixelBuffer::new(0, 0, FrameBufferSource::Border, SurfaceHandle { id: 0 });
    b.reset_dirty_regions();
    assert!(b.dirty_rows().is_empty());
    assert_eq!(b.source(), FrameBufferSource::Border);
}

#[test]
fn blank_buffer_keeps_source_and_context() {
    let b = PixelBuffer::blank(8, 2, FrameBufferSource::Border, SurfaceHandle { id: 9 });
    assert_eq!(b.source(), FrameBufferSource::Border);
    assert_eq!(b.context(), SurfaceHandle { id: 9 });
    for y in 0..2 {
        for x in 0..8 {
            assert_eq!(
                b.pixel(x, y),
                Pixel { color: ZXColor::Black, brightness: ZXBrightness::Normal }
            );
        }
    }
}
