use vstd::prelude::*;

verus! {

/// Whether the host can hand this effect a GPU frame: only Metal frames of
/// 32-bit float depth are rendered on the GPU.
pub fn gpu_prerender_possible(metal_framework: bool, bit_depth: i16) -> (possible: bool)
    ensures
        possible == (metal_framework && bit_depth == 32),
{
    metal_framework && bit_depth == 32
}

/// The threadgroup width a pipeline allows: its execution width, between 1 and 16.
pub open spec fn group_width(execution_width: u64) -> int {
    if execution_width < 1 {
        1
    } else if execution_width > 16 {
        16
    } else {
        execution_width as int
    }
}

/// The threadgroup height for a given width: as many rows as the pipeline's
/// thread limit (raised to the width) allows, between 1 and 16.
pub open spec fn group_height(execution_width: u64, max_threads: u64) -> int {
    let w = group_width(execution_width);
    let total = if max_threads >= w { max_threads as int } else { w };
    let h = total / w;
    if h < 1 {
        1
    } else if h > 16 {
        16
    } else {
        h
    }
}

/// Threadgroup dimensions (width, height) for a compute pipeline with the
/// given SIMD execution width and per-threadgroup thread limit.
pub fn threads_per_group(thread_execution_width: u64, max_total_threads_per_threadgroup: u64) -> (dims: (u64, u64))
    ensures
        dims.0 == group_width(thread_execution_width),
        dims.1 == group_height(thread_execution_width, max_total_threads_per_threadgroup),
        1 <= dims.0 <= 16,
        1 <= dims.1 <= 16,
        dims.0 * dims.1 <= if max_total_threads_per_threadgroup >= dims.0 {
            max_total_threads_per_threadgroup as int
        } else {
            dims.0 as int
        },
{
    let width = if thread_execution_width < 1 {
        1
    } else if thread_execution_width > 16 {
        16
    } else {
        thread_execution_width
    };
    let max_total = if max_total_threads_per_threadgroup >= width {
        max_total_threads_per_threadgroup
    } else {
        width
    };
    let per_row = max_total / width;
    let height = if per_row < 1 {
        1
    } else if per_row > 16 {
        16
    } else {
        per_row
    };
    proof {
        assert(width * height <= max_total) by (nonlinear_arith)
            requires
                width >= 1,
                max_total >= width,
                per_row == max_total / width,
                height <= per_row || (per_row < 1 && height == 1),
                height >= 1,
        ;
    }
    (width, height)
}

} // verus!
