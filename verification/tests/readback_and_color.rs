use registration_opencl::color::pack_rgb;
use registration_opencl::dispatch::DispatchError;
use registration_opencl::readback::{check_readback, deinterleave_xyz, flatten_xyz};

#[test]
fn readback_refuses_a_short_buffer() {
    assert_eq!(
        check_readback(8, 3),
        Err(DispatchError::BufferTooSmall { buffer_len: 8, needed: 9, pts_num: 3 })
    );
    assert_eq!(check_readback(9, 3), Ok(9));
    assert_eq!(check_readback(100, 3), Ok(9));
    assert_eq!(check_readback(0, 0), Ok(0));
}

#[test]
fn deinterleave_groups_coordinates_by_point() {
    let flat = vec![1.0f32, 2.0, 3.0, 4.0, 5.0, 6.0];
    assert_eq!(deinterleave_xyz(&flat, 2), vec![(1.0, 2.0, 3.0), (4.0, 5.0, 6.0)]);
    assert_eq!(deinterleave_xyz(&flat, 1), vec![(1.0, 2.0, 3.0)]);
    assert_eq!(deinterleave_xyz(&flat, 0), Vec::<(f32, f32, f32)>::new());
}

#[test]
fn flatten_writes_rows_in_order() {
    let rows = vec![(1i32, 2, 3), (4, 5, 6), (7, 8, 9)];
    assert_eq!(flatten_xyz(&rows), vec![1, 2, 3, 4, 5, 6, 7, 8, 9]);
    assert_eq!(flatten_xyz(&Vec::<(u8, u8, u8)>::new()), Vec::<u8>::new());
}

#[test]
fn flatten_and_deinterleave_undo_each_other() {
    let flat: Vec<f32> = (0..30).map(|k| k as f32 * 0.5).collect();
    let rows = deinterleave_xyz(&flat, 10);
    assert_eq!(flatten_xyz(&rows), flat);
    assert_eq!(deinterleave_xyz(&flatten_xyz(&rows), 10), rows);
}

#[test]
fn pack_rgb_places_channels_in_their_bytes() {
    assert_eq!(pack_rgb(255, 0, 0), 0x00ff_0000);
    assert_eq!(pack_rgb(0, 255, 0), 0x0000_ff00);
    assert_eq!(pack_rgb(0, 0, 255), 0x0000_00ff);
    assert_eq!(pack_rgb(1, 2, 3), 0x0001_0203);
    assert_eq!(pack_rgb(0, 0, 0), 0);
}

#[test]
fn pack_rgb_channels_read_back() {
    for (r, g, b) in [(12u8, 200u8, 7u8), (255, 255, 255), (0, 128, 64)] {
        let p = pack_rgb(r, g, b);
        assert_eq!((p >> 16) as u8, r);
        assert_eq!(((p >> 8) & 0xff) as u8, g);
        assert_eq!((p & 0xff) as u8, b);
    }
}
