use cmyk_press::codes::{
    normalize_backend, normalize_conversion_mode, normalize_dot_shape, normalize_edge_mode,
    normalize_halftone_unit, normalize_quality, normalize_sampling, normalize_view,
    public_edge_to_internal, public_quality_to_internal, public_shape_to_internal,
    public_view_to_internal, random_plate_affect, BACKEND_AUTO, BACKEND_CPU, BACKEND_GPU,
    CMYK_DOT_CIRCLE, CMYK_DOT_DIAMOND, CMYK_DOT_LINE, CMYK_DOT_SQUARE, CMYK_EDGE_CLAMP,
    CMYK_EDGE_MIRROR, CMYK_EDGE_TRANSPARENT, CMYK_QUALITY_DRAFT, CMYK_QUALITY_FULL,
    CMYK_VIEW_BLACK, CMYK_VIEW_COMPOSITE, CMYK_VIEW_CYAN, CMYK_VIEW_INK_COVERAGE,
    CMYK_VIEW_MAGENTA, CMYK_VIEW_SPLIT, CMYK_VIEW_YELLOW, CONVERSION_CUSTOM,
    CONVERSION_ILLUSTRATOR, CONVERSION_SIMPLE, DOT_CIRCLE, DOT_DIAMOND, DOT_LINE, DOT_SQUARE,
    EDGE_CLAMP, EDGE_MIRROR, EDGE_TRANSPARENT, HALFTONE_UNIT_LPI, HALFTONE_UNIT_PIXELS,
    QUALITY_DRAFT, QUALITY_FULL, SAMPLING_BILINEAR, SAMPLING_NEAREST, VIEW_BLACK, VIEW_COMPOSITE,
    VIEW_CYAN, VIEW_INK_COVERAGE, VIEW_MAGENTA, VIEW_SPLIT, VIEW_YELLOW,
};
use cmyk_press::gpu::{gpu_prerender_possible, threads_per_group};
use cmyk_press::hash::{hash_u32, registration_hash};
use cmyk_press::tiling::{
    clamped_pixel_index, input_fits_frame, render_thread_count, row_byte_range, row_chunks,
    threads_for_rows, RowChunk,
};

#[test]
fn hash_u32_known_values() {
    assert_eq!(hash_u32(0), 0);
    assert_eq!(hash_u32(1), 1753845952);
    assert_eq!(hash_u32(42), 388445122);
    assert_eq!(hash_u32(43), 1852637032);
    assert_eq!(hash_u32(0xffff_ffff), 1734902346);
    assert_eq!(hash_u32(12345), 2435775735);
}

#[test]
fn hash_u32_distinct_inputs_give_distinct_hashes() {
    let mut seen: Vec<u32> = (0u32..2000).map(hash_u32).collect();
    seen.sort();
    seen.dedup();
    assert_eq!(seen.len(), 2000);
}

#[test]
fn registration_hash_is_deterministic_and_seed_dependent() {
    assert_eq!(registration_hash(42, 1, 0), registration_hash(42, 1, 0));
    assert_eq!(registration_hash(42, 1, 0), 4219959872);
    assert_eq!(registration_hash(42, 1, 1), 3364005697);
    assert_eq!(registration_hash(42, 4, 1), 246358344);
    assert_ne!(registration_hash(42, 1, 0), registration_hash(43, 1, 0));
    assert_ne!(registration_hash(42, 1, 1), registration_hash(43, 1, 1));
    // the plate id enters multiplied by 31
    assert_eq!(registration_hash(0, 1, 0), hash_u32(31));
    assert_eq!(registration_hash(7, 0, 0), hash_u32(7));
}

#[test]
fn normalize_keeps_known_codes_and_defaults_the_rest() {
    for v in [VIEW_COMPOSITE, VIEW_CYAN, VIEW_MAGENTA, VIEW_YELLOW, VIEW_BLACK, VIEW_INK_COVERAGE, VIEW_SPLIT] {
        assert_eq!(normalize_view(v), v);
    }
    assert_eq!(normalize_view(0), VIEW_COMPOSITE);
    assert_eq!(normalize_view(8), VIEW_COMPOSITE);
    assert_eq!(normalize_view(-3), VIEW_COMPOSITE);

    assert_eq!(normalize_halftone_unit(HALFTONE_UNIT_LPI), HALFTONE_UNIT_LPI);
    assert_eq!(normalize_halftone_unit(HALFTONE_UNIT_PIXELS), HALFTONE_UNIT_PIXELS);
    assert_eq!(normalize_halftone_unit(9), HALFTONE_UNIT_PIXELS);

    for v in [DOT_CIRCLE, DOT_SQUARE, DOT_LINE, DOT_DIAMOND] {
        assert_eq!(normalize_dot_shape(v), v);
    }
    assert_eq!(normalize_dot_shape(5), DOT_CIRCLE);
    assert_eq!(normalize_dot_shape(0), DOT_CIRCLE);

    for v in [BACKEND_AUTO, BACKEND_CPU, BACKEND_GPU] {
        assert_eq!(normalize_backend(v), v);
    }
    assert_eq!(normalize_backend(4), BACKEND_AUTO);

    assert_eq!(normalize_quality(QUALITY_DRAFT), QUALITY_DRAFT);
    assert_eq!(normalize_quality(QUALITY_FULL), QUALITY_FULL);
    assert_eq!(normalize_quality(0), QUALITY_FULL);

    assert_eq!(normalize_sampling(SAMPLING_NEAREST), SAMPLING_NEAREST);
    assert_eq!(normalize_sampling(SAMPLING_BILINEAR), SAMPLING_BILINEAR);
    assert_eq!(normalize_sampling(3), SAMPLING_BILINEAR);

    for v in [EDGE_TRANSPARENT, EDGE_CLAMP, EDGE_MIRROR] {
        assert_eq!(normalize_edge_mode(v), v);
    }
    assert_eq!(normalize_edge_mode(4), EDGE_TRANSPARENT);

    for v in [CONVERSION_SIMPLE, CONVERSION_ILLUSTRATOR, CONVERSION_CUSTOM] {
        assert_eq!(normalize_conversion_mode(v), v);
    }
    assert_eq!(normalize_conversion_mode(-1), CONVERSION_SIMPLE);
}

#[test]
fn normalize_is_idempotent_on_samples() {
    for v in -5..12 {
        assert_eq!(normalize_view(normalize_view(v)), normalize_view(v));
        assert_eq!(normalize_dot_shape(normalize_dot_shape(v)), normalize_dot_shape(v));
        assert_eq!(normalize_edge_mode(normalize_edge_mode(v)), normalize_edge_mode(v));
        assert_eq!(normalize_quality(normalize_quality(v)), normalize_quality(v));
    }
}

#[test]
fn public_codes_map_to_renderer_codes() {
    assert_eq!(public_view_to_internal(CMYK_VIEW_COMPOSITE) as i32, VIEW_COMPOSITE);
    assert_eq!(public_view_to_internal(CMYK_VIEW_CYAN) as i32, VIEW_CYAN);
    assert_eq!(public_view_to_internal(CMYK_VIEW_MAGENTA) as i32, VIEW_MAGENTA);
    assert_eq!(public_view_to_internal(CMYK_VIEW_YELLOW) as i32, VIEW_YELLOW);
    assert_eq!(public_view_to_internal(CMYK_VIEW_BLACK) as i32, VIEW_BLACK);
    assert_eq!(public_view_to_internal(CMYK_VIEW_INK_COVERAGE) as i32, VIEW_INK_COVERAGE);
    assert_eq!(public_view_to_internal(CMYK_VIEW_SPLIT) as i32, VIEW_SPLIT);
    assert_eq!(public_view_to_internal(99) as i32, VIEW_COMPOSITE);

    assert_eq!(public_shape_to_internal(CMYK_DOT_CIRCLE) as i32, DOT_CIRCLE);
    assert_eq!(public_shape_to_internal(CMYK_DOT_SQUARE) as i32, DOT_SQUARE);
    assert_eq!(public_shape_to_internal(CMYK_DOT_LINE) as i32, DOT_LINE);
    assert_eq!(public_shape_to_internal(CMYK_DOT_DIAMOND) as i32, DOT_DIAMOND);
    assert_eq!(public_shape_to_internal(4) as i32, DOT_CIRCLE);

    assert_eq!(public_quality_to_internal(CMYK_QUALITY_DRAFT) as i32, QUALITY_DRAFT);
    assert_eq!(public_quality_to_internal(CMYK_QUALITY_FULL) as i32, QUALITY_FULL);
    assert_eq!(public_quality_to_internal(7) as i32, QUALITY_FULL);

    assert_eq!(public_edge_to_internal(CMYK_EDGE_CLAMP) as i32, EDGE_CLAMP);
    assert_eq!(public_edge_to_internal(CMYK_EDGE_TRANSPARENT) as i32, EDGE_TRANSPARENT);
    // the public mirror code is rendered as transparent
    assert_eq!(public_edge_to_internal(CMYK_EDGE_MIRROR) as i32, EDGE_TRANSPARENT);
}

#[test]
fn public_codes_survive_normalization() {
    for v in 0u32..10 {
        let view = public_view_to_internal(v) as i32;
        assert_eq!(normalize_view(view), view);
        let shape = public_shape_to_internal(v) as i32;
        assert_eq!(normalize_dot_shape(shape), shape);
        let quality = public_quality_to_internal(v) as i32;
        assert_eq!(normalize_quality(quality), quality);
        let edge = public_edge_to_internal(v) as i32;
        assert_eq!(normalize_edge_mode(edge), edge);
    }
}

#[test]
fn plate_mask_selects_random_registration_plates() {
    // default public mask: cyan, magenta, yellow; black left alone
    assert_eq!(random_plate_affect(0b0111), [true, true, true, false]);
    assert_eq!(random_plate_affect(0b1010), [false, true, false, true]);
    assert_eq!(random_plate_affect(0), [false; 4]);
    // bits above the four plates are ignored
    assert_eq!(random_plate_affect(0xffff_fff0), [false; 4]);
    assert_eq!(random_plate_affect(0xffff_ffff), [true; 4]);
}

#[test]
fn input_fits_frame_requires_enough_pixels() {
    assert!(input_fits_frame(64, 8, 8));
    assert!(input_fits_frame(65, 8, 8));
    assert!(!input_fits_frame(63, 8, 8));
    assert!(!input_fits_frame(10, 0, 8));
    assert!(!input_fits_frame(10, 8, 0));
    assert!(!input_fits_frame(0, 0, 0));
    // an area past usize::MAX saturates
    assert!(input_fits_frame(usize::MAX, usize::MAX, 2));
    assert!(!input_fits_frame(usize::MAX - 1, usize::MAX, 2));
}

#[test]
fn clamped_pixel_index_clamps_to_the_frame() {
    assert_eq!(clamped_pixel_index(0, 5, 1, 1), None);
    assert_eq!(clamped_pixel_index(5, 0, 1, 1), None);
    assert_eq!(clamped_pixel_index(4, 3, 1, 2), Some(9));
    assert_eq!(clamped_pixel_index(4, 3, 10, 2), Some(11));
    assert_eq!(clamped_pixel_index(4, 3, 1, 10), Some(9));
    assert_eq!(clamped_pixel_index(4, 3, 100, 100), Some(11));
    assert_eq!(clamped_pixel_index(1, 1, 7, 7), Some(0));
}

#[test]
fn thread_count_is_bounded_by_rows_and_cpus() {
    assert_eq!(threads_for_rows(8, 1080), 8);
    assert_eq!(threads_for_rows(8, 3), 3);
    assert_eq!(threads_for_rows(0, 100), 1);
    assert_eq!(threads_for_rows(8, 0), 1);
    assert_eq!(render_thread_count(1), 1);
    assert_eq!(render_thread_count(0), 1);
    let t = render_thread_count(1_000_000);
    assert!(t >= 1 && t <= 1_000_000);
}

fn covered_rows(chunks: &[RowChunk]) -> Vec<usize> {
    chunks.iter().flat_map(|c| c.y_start..c.y_start + c.rows).collect()
}

#[test]
fn row_chunks_partition_the_frame() {
    let chunks = row_chunks(10, 3);
    assert_eq!(
        chunks,
        vec![
            RowChunk { y_start: 0, rows: 4 },
            RowChunk { y_start: 4, rows: 4 },
            RowChunk { y_start: 8, rows: 2 },
        ]
    );
    assert_eq!(row_chunks(0, 4), vec![]);
    assert_eq!(row_chunks(5, 1), vec![RowChunk { y_start: 0, rows: 5 }]);
    // more threads than rows: one row each
    assert_eq!(row_chunks(3, 8).len(), 3);
    // 9 rows over 4 threads: bands of 3, only three bands needed
    assert_eq!(row_chunks(9, 4).len(), 3);
    for (h, t) in [(1080usize, 8usize), (1081, 8), (7, 7), (64, 5), (1, 3), (100, 100)] {
        let chunks = row_chunks(h, t);
        assert!(chunks.len() <= t);
        assert_eq!(covered_rows(&chunks), (0..h).collect::<Vec<_>>());
    }
}

#[test]
fn row_byte_range_skips_rows_past_the_buffer() {
    assert_eq!(row_byte_range(0, 16, 4, 64), Some((0, 16)));
    assert_eq!(row_byte_range(3, 16, 4, 64), Some((48, 64)));
    assert_eq!(row_byte_range(4, 16, 4, 64), None);
    // padded rows: stride larger than the row
    assert_eq!(row_byte_range(2, 20, 4, 64), Some((40, 56)));
    assert_eq!(row_byte_range(3, 20, 4, 64), None);
}

#[test]
fn gpu_prerender_needs_metal_and_float_depth() {
    assert!(gpu_prerender_possible(true, 32));
    assert!(!gpu_prerender_possible(true, 16));
    assert!(!gpu_prerender_possible(false, 32));
    assert!(!gpu_prerender_possible(false, 8));
}

#[test]
fn threads_per_group_fits_pipeline_limits() {
    assert_eq!(threads_per_group(32, 1024), (16, 16));
    assert_eq!(threads_per_group(8, 64), (8, 8));
    assert_eq!(threads_per_group(0, 0), (1, 1));
    assert_eq!(threads_per_group(16, 40), (16, 2));
    assert_eq!(threads_per_group(4, 2), (4, 1));
    assert_eq!(threads_per_group(64, 512), (16, 16));
}
