use registration_opencl::dispatch::{
    plan_covariances, plan_gicp, plan_nearest_neighbor, plan_transform, plan_voxel_downsample,
    voxel_valid_count, DispatchError, POINT_LOCAL_SIZE, SYSTEM_LOCAL_SIZE,
};
use registration_opencl::launch::LaunchGeometry;

#[test]
fn voxel_plan_refuses_an_empty_cloud() {
    assert_eq!(plan_voxel_downsample(0, 256), Err(DispatchError::NoInputPoints));
}

#[test]
fn voxel_plan_sizes_table_and_launches() {
    let p = plan_voxel_downsample(1000, 256).unwrap();
    assert_eq!(p.table_size, 2000);
    assert_eq!(p.keys_len, 2000);
    assert_eq!(p.centroids_len, 6000);
    assert_eq!(p.counts_len, 2000);
    assert_eq!(p.remap_len, 2000);
    assert_eq!(p.input_len, 3000);
    assert_eq!(p.output_len, 3000);
    assert_eq!(p.counter_len, 1);
    assert_eq!(p.table_launch, LaunchGeometry { global_size: 2048, local_size: 256 });
    assert_eq!(p.points_launch, LaunchGeometry { global_size: 1024, local_size: 256 });
    assert_eq!(p.table_size_arg, 2000);
    assert_eq!(p.num_points_arg, 1000);
}

#[test]
fn voxel_plan_passes_counts_as_truncated_i32() {
    let n = (1usize << 31) + 5;
    let p = plan_voxel_downsample(n, 256).unwrap();
    assert_eq!(p.num_points_arg, n as i32);
    assert_eq!(p.table_size_arg, (2 * n) as i32);
}

#[test]
fn voxel_count_clamps_negative_reports() {
    assert_eq!(voxel_valid_count(-4), 0);
    assert_eq!(voxel_valid_count(0), 0);
    assert_eq!(voxel_valid_count(812), 812);
}

#[test]
fn transform_plan_sizes_points_and_covariances() {
    let p = plan_transform(10);
    assert_eq!(p.points_len, 30);
    assert_eq!(p.covs_len, 90);
    assert_eq!(p.launch, LaunchGeometry { global_size: 256, local_size: POINT_LOCAL_SIZE });
    assert_eq!(p.num_points_arg, 10);
    let empty = plan_transform(0);
    assert_eq!(empty.points_len, 0);
    assert_eq!(empty.launch.global_size, 0);
}

#[test]
fn covariance_plan_refuses_zero_points() {
    assert_eq!(plan_covariances(0), Err(DispatchError::ZeroPoints));
    let p = plan_covariances(257).unwrap();
    assert_eq!(p.covs_len, 2313);
    assert_eq!(p.launch, LaunchGeometry { global_size: 512, local_size: 256 });
    assert_eq!(p.num_points_arg, 257);
}

#[test]
fn search_plan_refuses_missing_source_points() {
    assert_eq!(plan_nearest_neighbor(0, 5), Err(DispatchError::NoSourcePoints));
    let p = plan_nearest_neighbor(300, 0).unwrap();
    assert_eq!(p.indices_len, 300);
    assert_eq!(p.dists_len, 300);
    assert_eq!(p.launch.global_size, 512);
    assert_eq!(p.num_source_arg, 300);
    assert_eq!(p.num_target_arg, 0);
}

#[test]
fn system_plan_refuses_empty_clouds() {
    assert_eq!(plan_gicp(0, 3), Err(DispatchError::EmptyPointCloud));
    assert_eq!(plan_gicp(3, 0), Err(DispatchError::EmptyPointCloud));
    assert_eq!(plan_gicp(0, 0), Err(DispatchError::EmptyPointCloud));
    let p = plan_gicp(100, 50).unwrap();
    assert_eq!(p.matrix_len, 36);
    assert_eq!(p.vector_len, 6);
    assert_eq!(p.launch, LaunchGeometry { global_size: 128, local_size: SYSTEM_LOCAL_SIZE });
    assert_eq!(p.num_source_arg, 100);
    assert_eq!(p.num_target_arg, 50);
}
