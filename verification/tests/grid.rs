use sciimg::center_crop_2d;
use sciimg::crop_2d;
use sciimg::isolate_window_2d;
use sciimg::Mask;
use sciimg::MaskVec;

#[test]
fn test_center_crop_2d() {
    // 4x4 grid, cropped to the centered 2x2 window.
    let src: Vec<u32> = (0..16).collect();
    let out = center_crop_2d(&src, 4, 4, 2, 2);
    assert_eq!(out, vec![5, 6, 9, 10]);
}

#[test]
fn test_center_crop_2d_full() {
    let src: Vec<u32> = (0..6).collect();
    let out = center_crop_2d(&src, 3, 2, 3, 2);
    assert_eq!(out, src);
}

#[test]
fn test_crop_2d() {
    let src: Vec<u32> = (0..12).collect();
    // 4x3 grid, 2x2 window at (1, 1).
    let out = crop_2d(&src, 4, 3, 1, 1, 2, 2);
    assert_eq!(out, vec![5, 6, 9, 10]);
    // 1x1 window at the corner.
    let corner = crop_2d(&src, 4, 3, 3, 2, 1, 1);
    assert_eq!(corner, vec![11]);
}

#[test]
fn test_isolate_window_2d() {
    let src: Vec<u32> = (0..9).collect();
    // Full 3x3 window around the center of a 3x3 grid.
    let full = isolate_window_2d(&src, 3, 3, 3, 1, 1);
    assert_eq!(full, (0..9).collect::<Vec<u32>>());
    // Window around the upper-left corner is clipped.
    let clipped = isolate_window_2d(&src, 3, 3, 3, 0, 0);
    assert_eq!(clipped, vec![0, 1, 3, 4]);
    // Window of size 1 is the cell itself.
    let single = isolate_window_2d(&src, 3, 3, 1, 2, 2);
    assert_eq!(single, vec![8]);
}

#[test]
fn test_crop_2d_empty() {
    let src: Vec<u8> = Vec::new();
    let out = center_crop_2d(&src, 0, 0, 0, 0);
    assert!(out.is_empty());
    let out2 = crop_2d(&src, 0, 0, 0, 0, 0, 0);
    assert!(out2.is_empty());
}

#[test]
fn test_mask_fill_and_get() {
    let m: MaskVec = MaskVec::fill_mask(6, false);
    assert_eq!(m.len(), 6);
    assert!(!m.get_2d(3, 2, 1, 1));

    let n: MaskVec = MaskVec::new_mask(4);
    assert!(n.iter().all(|v| *v));
}

#[test]
fn test_mask_put_and_clear() {
    let mut m: MaskVec = MaskVec::fill_mask(6, false);
    m.put_2d(3, 2, 2, 1, true);
    assert!(m.get_2d(3, 2, 2, 1));
    assert!(!m.get_2d(3, 2, 2, 0));
    m.clear_mask();
    assert!(m.iter().all(|v| *v));
}
