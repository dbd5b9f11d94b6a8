use vstd::prelude::*;

use crate::launch::{launch_geometry, padded_to_multiple, LaunchGeometry};

verus! {

/// Work-group size of the per-point kernels (covariance, search, transform).
pub const POINT_LOCAL_SIZE: usize = 256;

/// Work-group size of the registration (linear system) kernel.
pub const SYSTEM_LOCAL_SIZE: usize = 64;

/// Number of entries of the 6x6 normal matrix read back from the device.
pub const SYSTEM_MATRIX_LEN: usize = 36;

/// Number of entries of the right-hand side read back from the device.
pub const SYSTEM_VECTOR_LEN: usize = 6;

/// Why a kernel dispatch, or a read-back, is refused before any device work.
#[derive(Clone, Copy, Debug, PartialEq, Eq)]
pub enum DispatchError {
    /// Voxel down-sampling of a cloud without points.
    NoInputPoints,
    /// Covariance estimation for a cloud without points.
    ZeroPoints,
    /// Nearest-neighbour search without source points.
    NoSourcePoints,
    /// Registration system with an empty source or target cloud.
    EmptyPointCloud,
    /// Read-back of `pts_num` points from a buffer of `buffer_len` values,
    /// fewer than the `needed` three values per point.
    BufferTooSmall { buffer_len: usize, needed: usize, pts_num: usize },
}

/// Launch sizes of a per-point kernel over `n` points fit in `usize`.
pub open spec fn launch_fits(n: int, local_size: int) -> bool {
    padded_to_multiple(n, local_size) <= usize::MAX
}

/// Buffer lengths, launches and scalar arguments of one voxel down-sampling
/// pass: a hash table of `table_size` slots (keys, 3-value centroids, counts,
/// remap), the input and output point buffers, and the output counter.
#[derive(Clone, Copy, Debug, PartialEq, Eq)]
pub struct VoxelPlan {
    pub table_size: usize,
    pub keys_len: usize,
    pub centroids_len: usize,
    pub counts_len: usize,
    pub remap_len: usize,
    pub input_len: usize,
    pub output_len: usize,
    pub counter_len: usize,
    pub table_launch: LaunchGeometry,
    pub points_launch: LaunchGeometry,
    pub table_size_arg: i32,
    pub num_points_arg: i32,
}

/// Plans voxel down-sampling of `num_points` points with work groups of
/// `local_size`; a cloud without points is refused.
pub fn plan_voxel_downsample(num_points: usize, local_size: usize) -> (r: Result<VoxelPlan, DispatchError>)
    requires
        local_size > 0,
        num_points * 6 <= usize::MAX,
        launch_fits(2 * num_points, local_size as int),
        launch_fits(num_points as int, local_size as int),
    ensures
        num_points == 0 <==> r is Err,
        r matches Err(e) ==> e == DispatchError::NoInputPoints,
        r matches Ok(p) ==> {
            &&& p.table_size == 2 * num_points
            &&& p.keys_len == p.table_size
            &&& p.centroids_len == 3 * p.table_size
            &&& p.counts_len == p.table_size
            &&& p.remap_len == p.table_size
            &&& p.input_len == 3 * num_points
            &&& p.output_len == 3 * num_points
            &&& p.counter_len == 1
            &&& p.table_launch.local_size == local_size
            &&& p.table_launch.global_size == padded_to_multiple(p.table_size as int, local_size as int)
            &&& p.points_launch.local_size == local_size
            &&& p.points_launch.global_size == padded_to_multiple(num_points as int, local_size as int)
            &&& p.table_size_arg == p.table_size as i32
            &&& p.num_points_arg == num_points as i32
        },
{
    if num_points == 0 {
        return Err(DispatchError::NoInputPoints);
    }
    let table_size = num_points * 2;
    Ok(VoxelPlan {
        table_size,
        keys_len: table_size,
        centroids_len: table_size * 3,
        counts_len: table_size,
        remap_len: table_size,
        input_len: num_points * 3,
        output_len: num_points * 3,
        counter_len: 1,
        table_launch: launch_geometry(table_size, local_size),
        points_launch: launch_geometry(num_points, local_size),
        table_size_arg: table_size as i32,
        num_points_arg: num_points as i32,
    })
}

/// The number of voxels the device reported, with a negative count read as none.
pub fn voxel_valid_count(host_count: i32) -> (n: usize)
    ensures
        n == if host_count < 0 { 0 } else { host_count as int },
{
    if host_count < 0 {
        0
    } else {
        host_count as usize
    }
}

/// Buffer lengths, launch and scalar argument of a rigid transform of points
/// and their 3x3 covariances.
#[derive(Clone, Copy, Debug, PartialEq, Eq)]
pub struct TransformPlan {
    pub points_len: usize,
    pub covs_len: usize,
    pub launch: LaunchGeometry,
    pub num_points_arg: i32,
}

/// Plans the transform of `num_points` points and covariances.
pub fn plan_transform(num_points: usize) -> (p: TransformPlan)
    requires
        num_points * 9 <= usize::MAX,
        launch_fits(num_points as int, POINT_LOCAL_SIZE as int),
    ensures
        p.points_len == 3 * num_points,
        p.covs_len == 9 * num_points,
        p.launch.local_size == POINT_LOCAL_SIZE,
        p.launch.global_size == padded_to_multiple(num_points as int, POINT_LOCAL_SIZE as int),
        p.num_points_arg == num_points as i32,
{
    TransformPlan {
        points_len: num_points * 3,
        covs_len: num_points * 9,
        launch: launch_geometry(num_points, POINT_LOCAL_SIZE),
        num_points_arg: num_points as i32,
    }
}

/// Buffer length, launch and scalar argument of a covariance estimation.
#[derive(Clone, Copy, Debug, PartialEq, Eq)]
pub struct CovariancePlan {
    pub covs_len: usize,
    pub launch: LaunchGeometry,
    pub num_points_arg: u32,
}

/// Plans covariance estimation (one 3x3 matrix per point) for `num_points`
/// points; a cloud without points is refused.
pub fn plan_covariances(num_points: usize) -> (r: Result<CovariancePlan, DispatchError>)
    requires
        num_points * 9 <= usize::MAX,
        launch_fits(num_points as int, POINT_LOCAL_SIZE as int),
    ensures
        num_points == 0 <==> r is Err,
        r matches Err(e) ==> e == DispatchError::ZeroPoints,
        r matches Ok(p) ==> {
            &&& p.covs_len == 9 * num_points
            &&& p.launch.local_size == POINT_LOCAL_SIZE
            &&& p.launch.global_size == padded_to_multiple(num_points as int, POINT_LOCAL_SIZE as int)
            &&& p.num_points_arg == num_points as u32
        },
{
    if num_points == 0 {
        return Err(DispatchError::ZeroPoints);
    }
    Ok(CovariancePlan {
        covs_len: num_points * 9,
        launch: launch_geometry(num_points, POINT_LOCAL_SIZE),
        num_points_arg: num_points as u32,
    })
}

/// Buffer lengths, launch and scalar arguments of a nearest-neighbour search:
/// one index and one squared distance per source point.
#[derive(Clone, Copy, Debug, PartialEq, Eq)]
pub struct SearchPlan {
    pub indices_len: usize,
    pub dists_len: usize,
    pub launch: LaunchGeometry,
    pub num_source_arg: u32,
    pub num_target_arg: u32,
}

/// Plans the search for the nearest target point of each of `num_source`
/// source points; a search without source points is refused.
pub fn plan_nearest_neighbor(num_source: usize, num_target: usize) -> (r: Result<SearchPlan, DispatchError>)
    requires
        launch_fits(num_source as int, POINT_LOCAL_SIZE as int),
    ensures
        num_source == 0 <==> r is Err,
        r matches Err(e) ==> e == DispatchError::NoSourcePoints,
        r matches Ok(p) ==> {
            &&& p.indices_len == num_source
            &&& p.dists_len == num_source
            &&& p.launch.local_size == POINT_LOCAL_SIZE
            &&& p.launch.global_size == padded_to_multiple(num_source as int, POINT_LOCAL_SIZE as int)
            &&& p.num_source_arg == num_source as u32
            &&& p.num_target_arg == num_target as u32
        },
{
    if num_source == 0 {
        return Err(DispatchError::NoSourcePoints);
    }
    Ok(SearchPlan {
        indices_len: num_source,
        dists_len: num_source,
        launch: launch_geometry(num_source, POINT_LOCAL_SIZE),
        num_source_arg: num_source as u32,
        num_target_arg: num_target as u32,
    })
}

/// Buffer lengths, launch and scalar arguments of the kernel that accumulates
/// the 6x6 registration system over the source points.
#[derive(Clone, Copy, Debug, PartialEq, Eq)]
pub struct SystemPlan {
    pub matrix_len: usize,
    pub vector_len: usize,
    pub launch: LaunchGeometry,
    pub num_source_arg: i32,
    pub num_target_arg: i32,
}

/// Plans the accumulation of the registration system; it is refused when
/// either cloud is empty.
pub fn plan_gicp(num_source: usize, num_target: usize) -> (r: Result<SystemPlan, DispatchError>)
    requires
        launch_fits(num_source as int, SYSTEM_LOCAL_SIZE as int),
    ensures
        (num_source == 0 || num_target == 0) <==> r is Err,
        r matches Err(e) ==> e == DispatchError::EmptyPointCloud,
        r matches Ok(p) ==> {
            &&& p.matrix_len == 36
            &&& p.vector_len == 6
            &&& p.launch.local_size == SYSTEM_LOCAL_SIZE
            &&& p.launch.global_size == padded_to_multiple(num_source as int, SYSTEM_LOCAL_SIZE as int)
            &&& p.num_source_arg == num_source as i32
            &&& p.num_target_arg == num_target as i32
        },
{
    if num_source == 0 || num_target == 0 {
        return Err(DispatchError::EmptyPointCloud);
    }
    Ok(SystemPlan {
        matrix_len: SYSTEM_MATRIX_LEN,
        vector_len: SYSTEM_VECTOR_LEN,
        launch: launch_geometry(num_source, SYSTEM_LOCAL_SIZE),
        num_source_arg: num_source as i32,
        num_target_arg: num_target as i32,
    })
}

} // verus!
