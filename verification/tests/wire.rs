//! Wire images, uploads and pixels.

use render_engine::error::RenderError;
use render_engine::geometry::Extent;
use render_engine::pixel::{decode_x11_pixel_bgra, decode_x11_pixel_server_alpha};
use render_engine::wire::{pack_from_storage, unpack_to_staging, x11_src_row_stride};

fn extent(width: u32, height: u32) -> Extent {
    Extent { width, height }
}

#[test]
fn decode_pixel_bgra_round_trip() {
    let c = decode_x11_pixel_bgra(0xFF_80_40_20);
    let rgba = [
        f32::from(c.r) / 255.0,
        f32::from(c.g) / 255.0,
        f32::from(c.b) / 255.0,
        f32::from(c.a) / 255.0,
    ];
    assert!((rgba[0] - 128.0 / 255.0).abs() < 1e-3);
    assert!((rgba[1] - 64.0 / 255.0).abs() < 1e-3);
    assert!((rgba[2] - 32.0 / 255.0).abs() < 1e-3);
    assert!((rgba[3] - 255.0 / 255.0).abs() < 1e-3);
}

#[test]
fn server_alpha_is_opaque_below_depth_32() {
    let c = decode_x11_pixel_server_alpha(0x00_12_34_56, 24);
    assert_eq!((c.r, c.g, c.b, c.a), (0x12, 0x34, 0x56, 0xFF));
    let c = decode_x11_pixel_server_alpha(0x00_12_34_56, 8);
    assert_eq!(c.a, 0xFF);
    let c = decode_x11_pixel_server_alpha(0x00_12_34_56, 32);
    assert_eq!((c.r, c.g, c.b, c.a), (0x12, 0x34, 0x56, 0x00));
}

#[test]
fn x11_row_stride_pad_to_32_bits() {
    assert_eq!(x11_src_row_stride(1, 9), 4);
    assert_eq!(x11_src_row_stride(1, 33), 8);
    assert_eq!(x11_src_row_stride(8, 3), 4);
    assert_eq!(x11_src_row_stride(8, 5), 8);
    assert_eq!(x11_src_row_stride(32, 10), 40);
}

#[test]
fn stride_of_other_depths_is_that_of_32() {
    assert_eq!(x11_src_row_stride(24, 10), 40);
    assert_eq!(x11_src_row_stride(15, 10), 40);
    assert_eq!(x11_src_row_stride(1, 0), 0);
}

#[test]
fn depth1_unpack_round_trip() {
    let src = vec![0xAAu8, 0x00, 0x00, 0x00];
    let out = unpack_to_staging(&src, extent(8, 1), 0, 0, 8, 1, 1).unwrap();
    assert_eq!(out, vec![0x00, 0xFF, 0x00, 0xFF, 0x00, 0xFF, 0x00, 0xFF]);
    let packed = pack_from_storage(&out, 8, 1, 1).unwrap();
    assert_eq!(packed.len(), 4);
    assert_eq!(packed[0], 0xAA);
}

#[test]
fn depth32_unpack_is_memcpy() {
    let src: Vec<u8> = vec![
        0x10, 0x20, 0x30, 0xFF, 0x11, 0x21, 0x31, 0xFF, 0x12, 0x22, 0x32, 0xFF, 0x13, 0x23, 0x33,
        0xFF,
    ];
    let out = unpack_to_staging(&src, extent(2, 2), 0, 0, 2, 2, 32).unwrap();
    assert_eq!(out, src);
}

#[test]
fn depth24_unpack_forces_alpha_ff() {
    let src = vec![0x10u8, 0x20, 0x30, 0x55];
    let out = unpack_to_staging(&src, extent(1, 1), 0, 0, 1, 1, 24).unwrap();
    assert_eq!(out, vec![0x10, 0x20, 0x30, 0xFF]);
}

#[test]
fn depth24_pack_carries_alpha_through() {
    let raw = vec![1u8, 2, 3, 4];
    assert_eq!(pack_from_storage(&raw, 1, 1, 24).unwrap(), raw);
}

#[test]
fn depth8_rows_lose_and_gain_their_padding() {
    let src = vec![1u8, 2, 3, 0xEE, 4, 5, 6, 0xEE];
    let out = unpack_to_staging(&src, extent(3, 2), 0, 0, 3, 2, 8).unwrap();
    assert_eq!(out, vec![1, 2, 3, 4, 5, 6]);
    let packed = pack_from_storage(&out, 3, 2, 8).unwrap();
    assert_eq!(packed, vec![1, 2, 3, 0, 4, 5, 6, 0]);
}

#[test]
fn depth1_packs_over_several_units() {
    let mut raw = vec![0u8; 33];
    raw[0] = 0xFF;
    raw[9] = 0xFF;
    raw[32] = 0xFF;
    let packed = pack_from_storage(&raw, 33, 1, 1).unwrap();
    assert_eq!(packed, vec![0x01, 0x02, 0, 0, 0x01, 0, 0, 0]);
    let back = unpack_to_staging(&packed, extent(33, 1), 0, 0, 33, 1, 1).unwrap();
    assert_eq!(back, raw);
}

#[test]
fn part_of_an_image_unpacks_from_its_corner() {
    let mut src: Vec<u8> = Vec::new();
    for i in 0..4u8 * 3 {
        src.extend_from_slice(&[i, i, i, 0xFF]);
    }
    let out = unpack_to_staging(&src, extent(4, 3), 1, 1, 2, 2, 32).unwrap();
    assert_eq!(
        out,
        vec![5, 5, 5, 0xFF, 6, 6, 6, 0xFF, 9, 9, 9, 0xFF, 10, 10, 10, 0xFF]
    );
    let bits = vec![0b0000_0110u8, 0, 0, 0];
    let out = unpack_to_staging(&bits, extent(8, 1), 1, 0, 3, 1, 1).unwrap();
    assert_eq!(out, vec![0xFF, 0xFF, 0x00]);
}

#[test]
fn short_source_is_reported_with_the_length_it_needs() {
    let src = vec![0u8; 15];
    assert_eq!(
        unpack_to_staging(&src, extent(2, 2), 0, 0, 2, 2, 32),
        Err(RenderError::TruncatedSource { expected: 16 })
    );
    assert_eq!(
        unpack_to_staging(&src, extent(2, 2), 0, 0, 2, 2, 15),
        Err(RenderError::TruncatedSource { expected: 16 })
    );
}

#[test]
fn a_short_source_is_reported_whatever_part_is_asked_for() {
    assert_eq!(
        unpack_to_staging(&[0; 4], extent(1, 2), 7, 0, 9, 2, 8),
        Err(RenderError::TruncatedSource { expected: 8 })
    );
}

#[test]
fn unknown_depths_are_reported() {
    let src = vec![0u8; 16];
    assert_eq!(
        unpack_to_staging(&src, extent(2, 2), 0, 0, 2, 2, 15),
        Err(RenderError::UnsupportedDepth(15))
    );
    assert_eq!(
        pack_from_storage(&src, 2, 2, 4),
        Err(RenderError::UnsupportedDepth(4))
    );
}
