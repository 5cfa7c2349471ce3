use vispeak::icon::{bgra_to_rgba, icon_pixels_to_png_base64};

#[test]
fn pixels_are_reordered() {
    let mut px = vec![1, 2, 3, 0, 4, 5, 6, 0, 9];
    bgra_to_rgba(&mut px);
    // No alpha anywhere: everything becomes opaque; the stray byte stays.
    assert_eq!(px, vec![3, 2, 1, 255, 6, 5, 4, 255, 9]);
    let mut px = vec![1, 2, 3, 7, 4, 5, 6, 0];
    bgra_to_rgba(&mut px);
    assert_eq!(px, vec![3, 2, 1, 7, 6, 5, 4, 0]);
}

#[test]
fn icon_becomes_base64_png() {
    let s = icon_pixels_to_png_base64(1, 1, vec![0, 0, 255, 255]).unwrap();
    // Base64 of the PNG signature.
    assert!(s.starts_with("iVBORw0KGgo"));
    assert_eq!(s.len() % 4, 0);
    // The pixel order matters: a different colour gives a different file.
    let t = icon_pixels_to_png_base64(1, 1, vec![255, 0, 0, 255]).unwrap();
    assert_ne!(s, t);
}

#[test]
fn too_small_buffer_gives_nothing() {
    assert_eq!(icon_pixels_to_png_base64(2, 2, vec![0; 15]), None);
    assert!(icon_pixels_to_png_base64(2, 2, vec![0; 17]).is_some());
}
