//! Clipping.

use render_engine::geometry::{
    build_render_clip_scissors, clamp_put_rect, clamp_rect, clamp_rects, clip_rectangle16,
    copy_rects, Extent, Offset, Rect, Rectangle16,
};

fn rect(x: i32, y: i32, width: u32, height: u32) -> Rect {
    Rect {
        offset: Offset { x, y },
        extent: Extent { width, height },
    }
}

#[test]
fn clamp_put_rect_inside_returns_unchanged() {
    let r = clamp_put_rect(
        Offset { x: 2, y: 3 },
        Extent { width: 4, height: 5 },
        Extent { width: 16, height: 16 },
    )
    .unwrap();
    assert_eq!(r.0.offset, Offset { x: 2, y: 3 });
    assert_eq!(r.0.extent, Extent { width: 4, height: 5 });
    assert_eq!(r.1, (0, 0));
}

#[test]
fn clamp_put_rect_partial_clip_records_source_offset() {
    let r = clamp_put_rect(
        Offset { x: -1, y: -2 },
        Extent { width: 4, height: 5 },
        Extent { width: 16, height: 16 },
    )
    .unwrap();
    assert_eq!(r.0.offset, Offset { x: 0, y: 0 });
    assert_eq!(r.0.extent, Extent { width: 3, height: 3 });
    assert_eq!(r.1, (1, 2));
}

#[test]
fn clamp_put_rect_outside_returns_none() {
    let r = clamp_put_rect(
        Offset { x: 100, y: 100 },
        Extent { width: 4, height: 4 },
        Extent { width: 16, height: 16 },
    );
    assert!(r.is_none());
}

#[test]
fn clamp_put_rect_far_left_keeps_the_source_offset() {
    let r = clamp_put_rect(
        Offset { x: i32::MIN, y: 0 },
        Extent { width: u32::MAX, height: 1 },
        Extent { width: 16, height: 16 },
    )
    .unwrap();
    assert_eq!(r.0, rect(0, 0, 16, 1));
    assert_eq!(r.1, (0x8000_0000, 0));
}

#[test]
fn clamp_rect_keeps_what_is_inside() {
    let e = Extent { width: 10, height: 8 };
    assert_eq!(clamp_rect(rect(2, 3, 4, 2), e), rect(2, 3, 4, 2));
    assert_eq!(clamp_rect(rect(-2, -3, 5, 5), e), rect(0, 0, 3, 2));
    assert_eq!(clamp_rect(rect(8, 7, 5, 5), e), rect(8, 7, 2, 1));
    assert_eq!(clamp_rect(rect(20, 20, 5, 5), e), rect(10, 8, 0, 0));
    assert_eq!(clamp_rect(rect(i32::MAX, 0, u32::MAX, 1), e), rect(10, 0, 0, 1));
    let c = clamp_rect(rect(-5, 2, 8, 100), e);
    assert_eq!(clamp_rect(c, e), c);
}

#[test]
fn clamp_rects_drops_empty_ones_in_order() {
    let e = Extent { width: 4, height: 4 };
    let list = vec![rect(0, 0, 2, 2), rect(9, 0, 2, 2), rect(3, 3, 0, 1), rect(3, 3, 5, 5)];
    assert_eq!(clamp_rects(&list, e), vec![rect(0, 0, 2, 2), rect(3, 3, 1, 1)]);
}

#[test]
fn scissors_without_clip_are_the_whole_image() {
    let e = Extent { width: 70000, height: 3 };
    assert_eq!(build_render_clip_scissors(&None, e), vec![rect(0, 0, 70000, 3)]);
}

#[test]
fn scissors_of_a_clip_are_its_visible_parts() {
    let e = Extent { width: 70000, height: 4 };
    let clip = vec![
        Rectangle16 { x: -2, y: -1, width: 5, height: 3 },
        Rectangle16 { x: 0, y: 10, width: 5, height: 3 },
        Rectangle16 { x: 1, y: 1, width: 0, height: 3 },
        Rectangle16 { x: 32767, y: 3, width: 65535, height: 65535 },
    ];
    assert_eq!(
        build_render_clip_scissors(&Some(clip), e),
        vec![rect(0, 0, 3, 2), rect(32767, 3, 70000 - 32767, 1)]
    );
    assert!(build_render_clip_scissors(&Some(Vec::new()), e).is_empty());
}

#[test]
fn clip_rectangle16_outside_is_none() {
    let e = Extent { width: 4, height: 4 };
    assert!(clip_rectangle16(Rectangle16 { x: 4, y: 0, width: 3, height: 3 }, e).is_none());
    assert!(clip_rectangle16(Rectangle16 { x: -3, y: 0, width: 3, height: 3 }, e).is_none());
    assert_eq!(
        clip_rectangle16(Rectangle16 { x: -2, y: 1, width: 3, height: 9 }, e),
        Some(rect(0, 1, 1, 3))
    );
}

#[test]
fn copies_stay_inside_both_images() {
    let src = Extent { width: 4, height: 4 };
    let dst = Extent { width: 8, height: 4 };
    let copy = |r: Rect, x: i32, y: i32| copy_rects(r, src, Offset { x, y }, dst);
    let all = rect(0, 0, 4, 4);
    assert_eq!(copy(all, 6, 0), Some((rect(0, 0, 2, 4), rect(6, 0, 2, 4))));
    assert_eq!(copy(all, 8, 0), None);
    assert_eq!(copy(all, i32::MAX, i32::MIN), None);
    assert_eq!(copy(rect(i32::MIN, 0, u32::MAX, 1), 0, 0), None);
}

#[test]
fn what_is_cut_off_one_side_of_a_copy_is_cut_off_the_other() {
    let src = Extent { width: 4, height: 4 };
    let dst = Extent { width: 8, height: 4 };
    let copy = |r: Rect, x: i32, y: i32| copy_rects(r, src, Offset { x, y }, dst);
    assert_eq!(
        copy(rect(0, 0, 4, 4), -3, -1),
        Some((rect(3, 1, 1, 3), rect(0, 0, 1, 3)))
    );
    assert_eq!(
        copy(rect(-2, 0, 5, 4), 1, 0),
        Some((rect(0, 0, 3, 4), rect(3, 0, 3, 4)))
    );
    assert_eq!(
        copy(rect(-2, 0, 5, 4), -1, 0),
        Some((rect(0, 0, 3, 4), rect(1, 0, 3, 4)))
    );
    assert_eq!(
        copy(rect(-1, 0, 5, 4), -2, 0),
        Some((rect(1, 0, 3, 4), rect(0, 0, 3, 4)))
    );
}
