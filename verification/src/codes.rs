use vstd::prelude::*;

verus! {

/// Number of printing plates: cyan, magenta, yellow, black.
pub const PLATE_COUNT: usize = 4;

// Codes of the public (C ABI) parameter block.
pub const CMYK_PRESET_DEFAULT_DOTS: u32 = 0;
pub const CMYK_VIEW_COMPOSITE: u32 = 0;
pub const CMYK_VIEW_CYAN: u32 = 1;
pub const CMYK_VIEW_MAGENTA: u32 = 2;
pub const CMYK_VIEW_YELLOW: u32 = 3;
pub const CMYK_VIEW_BLACK: u32 = 4;
pub const CMYK_VIEW_INK_COVERAGE: u32 = 5;
pub const CMYK_VIEW_SPLIT: u32 = 6;
pub const CMYK_DOT_CIRCLE: u32 = 0;
pub const CMYK_DOT_SQUARE: u32 = 1;
pub const CMYK_DOT_LINE: u32 = 2;
pub const CMYK_DOT_DIAMOND: u32 = 3;
pub const CMYK_QUALITY_DRAFT: u32 = 0;
pub const CMYK_QUALITY_FULL: u32 = 1;
pub const CMYK_SAMPLING_BILINEAR: u32 = 1;
pub const CMYK_SAMPLING_NEAREST: u32 = 2;
pub const CMYK_EDGE_TRANSPARENT: u32 = 0;
pub const CMYK_EDGE_CLAMP: u32 = 1;
pub const CMYK_EDGE_MIRROR: u32 = 2;

// Codes the renderer works with (the host's popup values, counted from 1).
pub const PRESET_DEFAULT_DOTS: i32 = 1;
pub const VIEW_COMPOSITE: i32 = 1;
pub const VIEW_CYAN: i32 = 2;
pub const VIEW_MAGENTA: i32 = 3;
pub const VIEW_YELLOW: i32 = 4;
pub const VIEW_BLACK: i32 = 5;
pub const VIEW_INK_COVERAGE: i32 = 6;
pub const VIEW_SPLIT: i32 = 7;
pub const HALFTONE_UNIT_PIXELS: i32 = 1;
pub const HALFTONE_UNIT_LPI: i32 = 2;
pub const DOT_CIRCLE: i32 = 1;
pub const DOT_SQUARE: i32 = 2;
pub const DOT_LINE: i32 = 3;
pub const DOT_DIAMOND: i32 = 4;
pub const BACKEND_AUTO: i32 = 1;
pub const BACKEND_CPU: i32 = 2;
pub const BACKEND_GPU: i32 = 3;
pub const QUALITY_DRAFT: i32 = 1;
pub const QUALITY_FULL: i32 = 2;
pub const SAMPLING_BILINEAR: i32 = 1;
pub const SAMPLING_NEAREST: i32 = 2;
pub const EDGE_TRANSPARENT: i32 = 1;
pub const EDGE_CLAMP: i32 = 2;
pub const EDGE_MIRROR: i32 = 3;
pub const CONVERSION_SIMPLE: i32 = 1;
pub const CONVERSION_ILLUSTRATOR: i32 = 2;
pub const CONVERSION_CUSTOM: i32 = 3;

/// The view a renderer code selects: the seven views are kept, anything else
/// falls back to the composite view.
pub open spec fn view_code(value: i32) -> i32 {
    if VIEW_COMPOSITE <= value <= VIEW_SPLIT { value } else { VIEW_COMPOSITE }
}

/// The halftone unit a code selects (lines per inch or, by default, pixels).
pub open spec fn halftone_unit_code(value: i32) -> i32 {
    if value == HALFTONE_UNIT_LPI { value } else { HALFTONE_UNIT_PIXELS }
}

/// The dot shape a code selects (square, line, diamond or, by default, circle).
pub open spec fn dot_shape_code(value: i32) -> i32 {
    if DOT_CIRCLE <= value <= DOT_DIAMOND { value } else { DOT_CIRCLE }
}

/// The rendering backend a code selects (CPU, GPU or, by default, automatic).
pub open spec fn backend_code(value: i32) -> i32 {
    if BACKEND_AUTO <= value <= BACKEND_GPU { value } else { BACKEND_AUTO }
}

/// The quality a code selects (draft or, by default, full).
pub open spec fn quality_code(value: i32) -> i32 {
    if value == QUALITY_DRAFT { value } else { QUALITY_FULL }
}

/// The sampling a code selects (nearest or, by default, bilinear).
pub open spec fn sampling_code(value: i32) -> i32 {
    if value == SAMPLING_NEAREST { value } else { SAMPLING_BILINEAR }
}

/// The edge handling a code selects (clamp, mirror or, by default, transparent).
pub open spec fn edge_mode_code(value: i32) -> i32 {
    if EDGE_TRANSPARENT <= value <= EDGE_MIRROR { value } else { EDGE_TRANSPARENT }
}

/// The ink conversion a code selects (Illustrator, custom or, by default, simple).
pub open spec fn conversion_mode_code(value: i32) -> i32 {
    if CONVERSION_SIMPLE <= value <= CONVERSION_CUSTOM { value } else { CONVERSION_SIMPLE }
}

pub fn normalize_view(value: i32) -> (r: i32)
    ensures
        r == view_code(value),
{
    match value {
        VIEW_CYAN | VIEW_MAGENTA | VIEW_YELLOW | VIEW_BLACK | VIEW_INK_COVERAGE | VIEW_SPLIT => {
            value
        },
        _ => VIEW_COMPOSITE,
    }
}

pub fn normalize_halftone_unit(value: i32) -> (r: i32)
    ensures
        r == halftone_unit_code(value),
{
    match value {
        HALFTONE_UNIT_LPI => value,
        _ => HALFTONE_UNIT_PIXELS,
    }
}

pub fn normalize_dot_shape(value: i32) -> (r: i32)
    ensures
        r == dot_shape_code(value),
{
    match value {
        DOT_SQUARE | DOT_LINE | DOT_DIAMOND => value,
        _ => DOT_CIRCLE,
    }
}

pub fn normalize_backend(value: i32) -> (r: i32)
    ensures
        r == backend_code(value),
{
    match value {
        BACKEND_CPU | BACKEND_GPU => value,
        _ => BACKEND_AUTO,
    }
}

pub fn normalize_quality(value: i32) -> (r: i32)
    ensures
        r == quality_code(value),
{
    match value {
        QUALITY_DRAFT => value,
        _ => QUALITY_FULL,
    }
}

pub fn normalize_sampling(value: i32) -> (r: i32)
    ensures
        r == sampling_code(value),
{
    match value {
        SAMPLING_BILINEAR | SAMPLING_NEAREST => value,
        _ => SAMPLING_BILINEAR,
    }
}

pub fn normalize_edge_mode(value: i32) -> (r: i32)
    ensures
        r == edge_mode_code(value),
{
    match value {
        EDGE_CLAMP | EDGE_MIRROR => value,
        _ => EDGE_TRANSPARENT,
    }
}

pub fn normalize_conversion_mode(value: i32) -> (r: i32)
    ensures
        r == conversion_mode_code(value),
{
    match value {
        CONVERSION_ILLUSTRATOR | CONVERSION_CUSTOM => value,
        _ => CONVERSION_SIMPLE,
    }
}

/// The renderer view code of a public view code: the public codes 0..=6 are
/// the renderer codes 1..=7 shifted by one; unknown codes show the composite.
pub open spec fn public_view_code(value: u32) -> u32 {
    if value <= CMYK_VIEW_SPLIT { (value + 1) as u32 } else { VIEW_COMPOSITE as u32 }
}

/// The renderer dot shape of a public shape code (0..=3 shifted by one,
/// unknown codes give the circle).
pub open spec fn public_shape_code(value: u32) -> u32 {
    if value <= CMYK_DOT_DIAMOND { (value + 1) as u32 } else { DOT_CIRCLE as u32 }
}

/// The renderer quality of a public quality code (draft, anything else full).
pub open spec fn public_quality_code(value: u32) -> u32 {
    if value == CMYK_QUALITY_DRAFT { QUALITY_DRAFT as u32 } else { QUALITY_FULL as u32 }
}

/// The renderer edge mode of a public edge code: clamp, anything else
/// (the public mirror code included) transparent.
pub open spec fn public_edge_code(value: u32) -> u32 {
    if value == CMYK_EDGE_CLAMP { EDGE_CLAMP as u32 } else { EDGE_TRANSPARENT as u32 }
}

pub fn public_view_to_internal(value: u32) -> (r: u32)
    ensures
        r == public_view_code(value),
{
    match value {
        CMYK_VIEW_CYAN => VIEW_CYAN as u32,
        CMYK_VIEW_MAGENTA => VIEW_MAGENTA as u32,
        CMYK_VIEW_YELLOW => VIEW_YELLOW as u32,
        CMYK_VIEW_BLACK => VIEW_BLACK as u32,
        CMYK_VIEW_INK_COVERAGE => VIEW_INK_COVERAGE as u32,
        CMYK_VIEW_SPLIT => VIEW_SPLIT as u32,
        _ => VIEW_COMPOSITE as u32,
    }
}

pub fn public_shape_to_internal(value: u32) -> (r: u32)
    ensures
        r == public_shape_code(value),
{
    match value {
        CMYK_DOT_SQUARE => DOT_SQUARE as u32,
        CMYK_DOT_LINE => DOT_LINE as u32,
        CMYK_DOT_DIAMOND => DOT_DIAMOND as u32,
        _ => DOT_CIRCLE as u32,
    }
}

pub fn public_quality_to_internal(value: u32) -> (r: u32)
    ensures
        r == public_quality_code(value),
{
    match value {
        CMYK_QUALITY_DRAFT => QUALITY_DRAFT as u32,
        _ => QUALITY_FULL as u32,
    }
}

pub fn public_edge_to_internal(value: u32) -> (r: u32)
    ensures
        r == public_edge_code(value),
{
    match value {
        CMYK_EDGE_CLAMP => EDGE_CLAMP as u32,
        _ => EDGE_TRANSPARENT as u32,
    }
}

/// Normalizing a code twice changes nothing, and a code is left as it is
/// exactly when it names a known option.
pub proof fn lemma_normalize_idempotent(value: i32)
    ensures
        view_code(view_code(value)) == view_code(value),
        halftone_unit_code(halftone_unit_code(value)) == halftone_unit_code(value),
        dot_shape_code(dot_shape_code(value)) == dot_shape_code(value),
        backend_code(backend_code(value)) == backend_code(value),
        quality_code(quality_code(value)) == quality_code(value),
        sampling_code(sampling_code(value)) == sampling_code(value),
        edge_mode_code(edge_mode_code(value)) == edge_mode_code(value),
        conversion_mode_code(conversion_mode_code(value)) == conversion_mode_code(value),
        (view_code(value) == value) <==> (VIEW_COMPOSITE <= value <= VIEW_SPLIT),
        (halftone_unit_code(value) == value) <==> (value == HALFTONE_UNIT_PIXELS || value
            == HALFTONE_UNIT_LPI),
        (dot_shape_code(value) == value) <==> (DOT_CIRCLE <= value <= DOT_DIAMOND),
        (backend_code(value) == value) <==> (BACKEND_AUTO <= value <= BACKEND_GPU),
        (quality_code(value) == value) <==> (value == QUALITY_DRAFT || value == QUALITY_FULL),
        (sampling_code(value) == value) <==> (value == SAMPLING_BILINEAR || value
            == SAMPLING_NEAREST),
        (edge_mode_code(value) == value) <==> (EDGE_TRANSPARENT <= value <= EDGE_MIRROR),
        (conversion_mode_code(value) == value) <==> (CONVERSION_SIMPLE <= value
            <= CONVERSION_CUSTOM),
{
}

/// Every public code maps to a renderer code that normalization keeps,
/// and distinct known public views and shapes stay distinct.
pub proof fn lemma_public_codes_map_faithfully(a: u32, b: u32)
    ensures
        view_code(public_view_code(a) as i32) == public_view_code(a) as i32,
        dot_shape_code(public_shape_code(a) as i32) == public_shape_code(a) as i32,
        quality_code(public_quality_code(a) as i32) == public_quality_code(a) as i32,
        edge_mode_code(public_edge_code(a) as i32) == public_edge_code(a) as i32,
        a <= CMYK_VIEW_SPLIT && b <= CMYK_VIEW_SPLIT && a != b ==> public_view_code(a)
            != public_view_code(b),
        a <= CMYK_DOT_DIAMOND && b <= CMYK_DOT_DIAMOND && a != b ==> public_shape_code(a)
            != public_shape_code(b),
{
}

/// Whether plate `plate` (0 = cyan .. 3 = black) is selected in a plate bit mask.
pub open spec fn plate_selected(mask: u32, plate: u32) -> bool {
    (mask & (1u32 << plate)) != 0
}

/// A plate is selected exactly when its own bit of the mask is set, whatever
/// the other bits hold: the mask with only bit `p` set selects plate `p` and
/// no other, and clearing or setting another bit changes nothing for `p`.
pub proof fn lemma_plate_selected_is_own_bit(mask: u32, p: u32, q: u32)
    requires
        p < 32,
        q < 32,
    ensures
        plate_selected(mask, p) <==> ((mask >> p) & 1u32) == 1u32,
        plate_selected(1u32 << p, q) <==> p == q,
        p != q ==> (plate_selected(mask ^ (1u32 << q), p) <==> plate_selected(mask, p)),
{
    assert(((mask & (1u32 << p)) != 0u32) <==> (((mask >> p) & 1u32) == 1u32)) by (bit_vector)
        requires
            p < 32u32,
    ;
    assert((((1u32 << p) & (1u32 << q)) != 0u32) <==> (p == q)) by (bit_vector)
        requires
            p < 32u32,
            q < 32u32,
    ;
    assert(p != q ==> ((((mask ^ (1u32 << q)) & (1u32 << p)) != 0u32) <==> ((mask & (1u32 << p))
        != 0u32))) by (bit_vector)
        requires
            p < 32u32,
            q < 32u32,
    ;
}

/// Which plates the random registration moves, from the public plate bit
/// mask (bit 0 cyan, bit 1 magenta, bit 2 yellow, bit 3 black).
pub fn random_plate_affect(mask: u32) -> (affect: [bool; PLATE_COUNT])
    ensures
        forall|plate: int| 0 <= plate < 4 ==> #[trigger] affect[plate] == plate_selected(mask, plate as u32),
        forall|plate: int|
            0 <= plate < 4 ==> #[trigger] affect[plate] == (((mask >> (plate as u32)) & 1u32)
                == 1u32),
{
    let mut affect = [false; PLATE_COUNT];
    let mut plate: usize = 0;
    while plate < PLATE_COUNT
        invariant
            plate <= PLATE_COUNT,
            forall|p: int| 0 <= p < plate ==> #[trigger] affect[p] == plate_selected(mask, p as u32),
        decreases PLATE_COUNT - plate,
    {
        affect[plate] = (mask & (1u32 << plate as u32)) != 0;
        plate += 1;
    }
    proof {
        assert forall|p: int| 0 <= p < 4 implies #[trigger] affect[p] == (((mask >> (p as u32))
            & 1u32) == 1u32) by {
            lemma_plate_selected_is_own_bit(mask, p as u32, p as u32);
        }
    }
    affect
}

} // verus!
