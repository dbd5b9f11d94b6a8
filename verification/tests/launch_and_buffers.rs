use registration_opencl::buffers::{current_len, needs_reallocation};
use registration_opencl::launch::{launch_geometry, round_up, LaunchGeometry};

#[test]
fn round_up_keeps_exact_multiples() {
    assert_eq!(round_up(0, 256), 0);
    assert_eq!(round_up(256, 256), 256);
    assert_eq!(round_up(1024, 64), 1024);
    assert_eq!(round_up(7, 1), 7);
}

#[test]
fn round_up_pads_to_next_multiple() {
    assert_eq!(round_up(1, 256), 256);
    assert_eq!(round_up(255, 256), 256);
    assert_eq!(round_up(257, 256), 512);
    assert_eq!(round_up(1000, 64), 1024);
    assert_eq!(round_up(10, 3), 12);
}

#[test]
fn round_up_near_the_top_of_usize() {
    assert_eq!(round_up(usize::MAX - 255, 256), usize::MAX - 255);
    assert_eq!(round_up(usize::MAX - 300, 256), usize::MAX - 255);
    assert_eq!(round_up(usize::MAX, 1), usize::MAX);
}

#[test]
fn round_up_is_idempotent_and_monotone() {
    for x in 0..2000usize {
        let r = round_up(x, 64);
        assert_eq!(round_up(r, 64), r);
        assert!(r % 64 == 0 && r >= x && r < x + 64);
        assert!(round_up(x + 1, 64) >= r);
    }
}

#[test]
fn launch_geometry_covers_all_items() {
    assert_eq!(launch_geometry(1000, 256), LaunchGeometry { global_size: 1024, local_size: 256 });
    assert_eq!(launch_geometry(0, 64), LaunchGeometry { global_size: 0, local_size: 64 });
    assert_eq!(launch_geometry(64, 64), LaunchGeometry { global_size: 64, local_size: 64 });
}

#[test]
fn empty_slot_counts_as_zero_length() {
    assert_eq!(current_len(None), 0);
    assert_eq!(current_len(Some(12)), 12);
}

#[test]
fn reallocation_only_when_too_short() {
    assert!(!needs_reallocation(None, 0));
    assert!(needs_reallocation(None, 1));
    assert!(!needs_reallocation(Some(10), 10));
    assert!(!needs_reallocation(Some(10), 3));
    assert!(needs_reallocation(Some(9), 10));
}

#[test]
fn grown_buffer_is_kept_for_the_same_need() {
    let needed = 1000usize;
    assert!(needs_reallocation(Some(500), needed));
    let grown = ((needed as f32) * 1.2).ceil() as usize;
    assert!(grown > 500 && grown >= needed);
    assert!(!needs_reallocation(Some(grown), needed));
}
