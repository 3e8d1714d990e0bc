use ray_tracer::raster::Raster;

#[test]
fn first_pixel_is_top_left() {
    let r = Raster::new(4, 3);
    assert_eq!(r.pixel(0), Some((0, 2)));
    assert_eq!(r.pixel(3), Some((3, 2)));
    assert_eq!(r.pixel(4), Some((0, 1)));
}

#[test]
fn last_pixel_is_bottom_right() {
    let r = Raster::new(4, 3);
    assert_eq!(r.pixel(11), Some((3, 0)));
    assert_eq!(r.pixel(12), None);
}

#[test]
fn pixel_count_is_width_times_height() {
    assert_eq!(Raster::new(1200, 800).pixel_count(), 960_000);
    assert_eq!(Raster::new(0, 5).pixel_count(), 0);
    assert_eq!(Raster::new(u32::MAX, u32::MAX).pixel_count(), 18_446_744_065_119_617_025);
}

#[test]
fn empty_image_has_no_pixels() {
    assert_eq!(Raster::new(0, 7).pixel(0), None);
    assert_eq!(Raster::new(7, 0).pixel(0), None);
    assert_eq!(Raster::new(0, 7).index_of(0, 0), None);
}

#[test]
fn index_of_inverts_pixel() {
    let r = Raster::new(5, 4);
    for k in 0..20u64 {
        let (column, row) = r.pixel(k).unwrap();
        assert_eq!(r.index_of(column, row), Some(k));
    }
}

#[test]
fn index_of_rejects_pixels_outside() {
    let r = Raster::new(5, 4);
    assert_eq!(r.index_of(5, 0), None);
    assert_eq!(r.index_of(0, 4), None);
    assert_eq!(r.index_of(4, 3), Some(4));
    assert_eq!(r.index_of(0, 0), Some(15));
}

#[test]
fn pixels_follow_the_scan_of_rows_from_the_top() {
    let (width, height) = (6u32, 5u32);
    let r = Raster::new(width, height);
    let mut k = 0u64;
    for j in (0..height).rev() {
        for i in 0..width {
            assert_eq!(r.pixel(k), Some((i, j)));
            k += 1;
        }
    }
    assert_eq!(k, r.pixel_count());
}
