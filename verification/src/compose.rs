//! Composing the glyph of one syllable from the cells of its three jamo.

use crate::bitmap::{copy_sqr, lemma_stamp_commutes, stamp, GLYPH_BYTES, MAX_CELL_SIZE};
use crate::hangul::{spec_syllable_codepoint, syllable_codepoint, valid_triple};
use crate::sprite::SpriteSheet;
use crate::workspace::{resolve, Workspace};
use vstd::prelude::*;

verus! {

/// The three places of a syllable that a jamo can take.
#[derive(Clone, Copy, Debug, PartialEq, Eq, Structural)]
pub enum JamoSlot {
    Initial,
    Medial,
    Final,
}

/// Left edge of the cell `variant` in a sheet `width` pixels wide.
pub open spec fn cell_x(width: int, size: int, variant: int) -> int {
    (variant % (width / size)) * size
}

/// Top edge of the cell `variant` in a sheet `width` pixels wide.
pub open spec fn cell_y(width: int, size: int, variant: int) -> int {
    (variant / (width / size)) * size
}

/// A glyph with no bit set.
pub open spec fn blank_glyph() -> Seq<u8> {
    Seq::new(GLYPH_BYTES as nat, |k: int| 0u8)
}

/// A slot can be drawn: where it has both a sheet and a variant, the sheet
/// holds the variant's cell.
pub open spec fn slot_ready(sheet: Option<SpriteSheet>, size: u32, variant: Option<u32>) -> bool {
    sheet is Some && variant is Some ==> sheet->0.spec_has_cell(size, variant->0)
}

/// The canvas after a slot was drawn on it. A slot without a sheet or
/// without a variant draws nothing.
pub open spec fn slot_stamp(
    canvas: Seq<u8>,
    sheet: Option<SpriteSheet>,
    size: u32,
    variant: Option<u32>,
) -> Seq<u8> {
    if sheet is Some && variant is Some {
        stamp(
            canvas,
            &sheet->0,
            cell_x(sheet->0.spec_width() as int, size as int, variant->0 as int),
            cell_y(sheet->0.spec_width() as int, size as int, variant->0 as int),
            size as int,
        )
    } else {
        canvas
    }
}

/// Drawing two slots is a bitwise OR of both, whichever comes first.
pub proof fn lemma_slot_stamp_commutes(
    canvas: Seq<u8>,
    a: Option<SpriteSheet>,
    a_size: u32,
    a_variant: Option<u32>,
    b: Option<SpriteSheet>,
    b_size: u32,
    b_variant: Option<u32>,
)
    ensures
        slot_stamp(slot_stamp(canvas, a, a_size, a_variant), b, b_size, b_variant) == slot_stamp(
            slot_stamp(canvas, b, b_size, b_variant),
            a,
            a_size,
            a_variant,
        ),
{
    if a is Some && a_variant is Some && b is Some && b_variant is Some {
        lemma_stamp_commutes(
            canvas,
            &a->0,
            cell_x(a->0.spec_width() as int, a_size as int, a_variant->0 as int),
            cell_y(a->0.spec_width() as int, a_size as int, a_variant->0 as int),
            a_size as int,
            &b->0,
            cell_x(b->0.spec_width() as int, b_size as int, b_variant->0 as int),
            cell_y(b->0.spec_width() as int, b_size as int, b_variant->0 as int),
            b_size as int,
        );
    }
}

/// The glyph of three slots does not depend on the order in which they are
/// drawn: all six orders give the same 32 bytes.
pub proof fn lemma_slot_order_free(
    canvas: Seq<u8>,
    a: Option<SpriteSheet>,
    a_variant: Option<u32>,
    b: Option<SpriteSheet>,
    b_variant: Option<u32>,
    c: Option<SpriteSheet>,
    c_variant: Option<u32>,
    size: u32,
)
    ensures
        ({
            let abc = slot_stamp(
                slot_stamp(slot_stamp(canvas, a, size, a_variant), b, size, b_variant),
                c,
                size,
                c_variant,
            );
            &&& abc == slot_stamp(
                slot_stamp(slot_stamp(canvas, a, size, a_variant), c, size, c_variant),
                b,
                size,
                b_variant,
            )
            &&& abc == slot_stamp(
                slot_stamp(slot_stamp(canvas, b, size, b_variant), a, size, a_variant),
                c,
                size,
                c_variant,
            )
            &&& abc == slot_stamp(
                slot_stamp(slot_stamp(canvas, b, size, b_variant), c, size, c_variant),
                a,
                size,
                a_variant,
            )
            &&& abc == slot_stamp(
                slot_stamp(slot_stamp(canvas, c, size, c_variant), a, size, a_variant),
                b,
                size,
                b_variant,
            )
            &&& abc == slot_stamp(
                slot_stamp(slot_stamp(canvas, c, size, c_variant), b, size, b_variant),
                a,
                size,
                a_variant,
            )
        }),
{
    let on_a = slot_stamp(canvas, a, size, a_variant);
    let on_b = slot_stamp(canvas, b, size, b_variant);
    let on_c = slot_stamp(canvas, c, size, c_variant);
    lemma_slot_stamp_commutes(canvas, a, size, a_variant, b, size, b_variant);
    lemma_slot_stamp_commutes(canvas, a, size, a_variant, c, size, c_variant);
    lemma_slot_stamp_commutes(canvas, b, size, b_variant, c, size, c_variant);
    lemma_slot_stamp_commutes(on_a, b, size, b_variant, c, size, c_variant);
    lemma_slot_stamp_commutes(on_b, a, size, a_variant, c, size, c_variant);
    lemma_slot_stamp_commutes(on_c, a, size, a_variant, b, size, b_variant);
}

/// Stamps the cell `variant` of the sheet on the glyph.
pub fn copy_cell(sheet: &SpriteSheet, size: u32, variant: u32, to: &mut [u8; 32])
    requires
        size <= MAX_CELL_SIZE,
        sheet.spec_has_cell(size, variant),
    ensures
        final(to)@ == slot_stamp(old(to)@, Some(*sheet), size, Some(variant)),
{
    let num_col = sheet.width() / size;
    let row = variant / num_col;
    let col = variant % num_col;
    proof {
        let w = sheet.spec_width() as int;
        let n = num_col as int;
        let s = size as int;
        assert(n * s <= w) by {
            vstd::arithmetic::div_mod::lemma_fundamental_div_mod(w, s);
            vstd::arithmetic::mul::lemma_mul_is_commutative(n, s);
        }
        assert(0 <= col * s && col * s + s <= n * s) by (nonlinear_arith)
            requires
                0 <= col < n,
                0 < s,
        ;
        assert(0 <= row * s && row * s + s == (row + 1) * s) by (nonlinear_arith)
            requires
                0 <= row,
                0 < s,
        ;
    }
    copy_sqr(size, sheet, col * size, row * size, to);
}

/// Draws the variant of the initial jamo `ini` on the glyph, or nothing
/// where that jamo has no sheet.
pub fn copy_ini(workspace: &Workspace, ini: u32, variant: u32, to: &mut [u8; 32])
    requires
        workspace.wf(),
        ini < 19,
        slot_ready(workspace.ini_glyphs@[ini as int], workspace.global_config.size, Some(variant)),
    ensures
        final(to)@ == slot_stamp(
            old(to)@,
            workspace.ini_glyphs@[ini as int],
            workspace.global_config.size,
            Some(variant),
        ),
{
    match &workspace.ini_glyphs[ini as usize] {
        Some(from_img) => copy_cell(from_img, workspace.global_config.size, variant, to),
        None => {},
    }
}

/// Draws the variant of the medial jamo `mid` on the glyph, or nothing
/// where that jamo has no sheet.
pub fn copy_mid(workspace: &Workspace, mid: u32, variant: u32, to: &mut [u8; 32])
    requires
        workspace.wf(),
        mid < 21,
        slot_ready(workspace.mid_glyphs@[mid as int], workspace.global_config.size, Some(variant)),
    ensures
        final(to)@ == slot_stamp(
            old(to)@,
            workspace.mid_glyphs@[mid as int],
            workspace.global_config.size,
            Some(variant),
        ),
{
    match &workspace.mid_glyphs[mid as usize] {
        Some(from_img) => copy_cell(from_img, workspace.global_config.size, variant, to),
        None => {},
    }
}

/// Draws the variant of the final jamo `fin` on the glyph, or nothing
/// where that jamo has no sheet.
pub fn copy_fin(workspace: &Workspace, fin: u32, variant: u32, to: &mut [u8; 32])
    requires
        workspace.wf(),
        fin < 28,
        slot_ready(workspace.fin_glyphs@[fin as int], workspace.global_config.size, Some(variant)),
    ensures
        final(to)@ == slot_stamp(
            old(to)@,
            workspace.fin_glyphs@[fin as int],
            workspace.global_config.size,
            Some(variant),
        ),
{
    match &workspace.fin_glyphs[fin as usize] {
        Some(from_img) => copy_cell(from_img, workspace.global_config.size, variant, to),
        None => {},
    }
}

/// Why a syllable could not be composed.
#[derive(Clone, Copy, Debug, PartialEq, Eq, Structural)]
pub enum ComposeError {
    /// A rule picked the cell `variant` for the jamo `jamo` of the slot
    /// `slot`, and that jamo's sheet does not hold the whole cell.
    CellOutOfSheet { slot: JamoSlot, jamo: u32, variant: u32 },
}

/// What is known of one syllable once it is composed.
pub struct SyllableRecord {
    /// The codepoint of the syllable.
    pub codepoint: u32,
    /// The glyph: 256 bits, row by row, most significant bit first.
    pub bitmap: [u8; 32],
    /// Whether every slot that the syllable needs has a variant.
    pub complete: bool,
    /// The variant picked for the initial jamo.
    pub ini_variant: Option<u32>,
    /// The variant picked for the medial jamo.
    pub mid_variant: Option<u32>,
    /// The variant picked for the final jamo.
    pub fin_variant: Option<u32>,
}

/// The variant of the initial jamo of a syllable.
#[verifier::opaque]
pub open spec fn spec_ini_variant(w: &Workspace, ini: int, mid: int, fin: int) -> Option<u32> {
    resolve(w.ini_configs@[ini].conditions@, ini, mid, fin)
}

/// The variant of the medial jamo of a syllable.
#[verifier::opaque]
pub open spec fn spec_mid_variant(w: &Workspace, ini: int, mid: int, fin: int) -> Option<u32> {
    resolve(w.mid_configs@[mid].conditions@, ini, mid, fin)
}

/// The variant of the final jamo of a syllable.
#[verifier::opaque]
pub open spec fn spec_fin_variant(w: &Workspace, ini: int, mid: int, fin: int) -> Option<u32> {
    resolve(w.fin_configs@[fin].conditions@, ini, mid, fin)
}

/// A syllable is complete when its initial and its medial have a variant
/// and its final has one too unless the syllable has no final.
pub open spec fn spec_complete(
    ini_variant: Option<u32>,
    mid_variant: Option<u32>,
    fin_variant: Option<u32>,
    fin: int,
) -> bool {
    ini_variant is Some && mid_variant is Some && (fin == 0 || fin_variant is Some)
}

/// The slot of a syllable that cannot be drawn, the first of them in the
/// order initial, medial, final; `None` where all three can.
#[verifier::opaque]
pub open spec fn first_unready_slot(w: &Workspace, ini: int, mid: int, fin: int) -> Option<
    JamoSlot,
> {
    let size = w.global_config.size;
    if !slot_ready(w.ini_glyphs@[ini], size, spec_ini_variant(w, ini, mid, fin)) {
        Some(JamoSlot::Initial)
    } else if !slot_ready(w.mid_glyphs@[mid], size, spec_mid_variant(w, ini, mid, fin)) {
        Some(JamoSlot::Medial)
    } else if !slot_ready(w.fin_glyphs@[fin], size, spec_fin_variant(w, ini, mid, fin)) {
        Some(JamoSlot::Final)
    } else {
        None
    }
}

/// The error that names what keeps a syllable from being drawn: the first
/// slot that cannot be drawn, its jamo, and the variant picked for it.
#[verifier::opaque]
pub open spec fn spec_compose_error(w: &Workspace, ini: int, mid: int, fin: int) -> ComposeError {
    match first_unready_slot(w, ini, mid, fin) {
        Some(JamoSlot::Medial) => ComposeError::CellOutOfSheet {
            slot: JamoSlot::Medial,
            jamo: mid as u32,
            variant: spec_mid_variant(w, ini, mid, fin)->0,
        },
        Some(JamoSlot::Final) => ComposeError::CellOutOfSheet {
            slot: JamoSlot::Final,
            jamo: fin as u32,
            variant: spec_fin_variant(w, ini, mid, fin)->0,
        },
        _ => ComposeError::CellOutOfSheet {
            slot: JamoSlot::Initial,
            jamo: ini as u32,
            variant: spec_ini_variant(w, ini, mid, fin)->0,
        },
    }
}

/// The glyph of a syllable: the cells of its initial, its medial and its
/// final stamped on a blank glyph.
#[verifier::opaque]
pub open spec fn spec_glyph(w: &Workspace, ini: int, mid: int, fin: int) -> Seq<u8> {
    let size = w.global_config.size;
    slot_stamp(
        slot_stamp(
            slot_stamp(blank_glyph(), w.ini_glyphs@[ini], size, spec_ini_variant(w, ini, mid, fin)),
            w.mid_glyphs@[mid],
            size,
            spec_mid_variant(w, ini, mid, fin),
        ),
        w.fin_glyphs@[fin],
        size,
        spec_fin_variant(w, ini, mid, fin),
    )
}

impl SyllableRecord {
    /// The record is the one of the syllable `(ini, mid, fin)` in `w`.
    pub open spec fn describes(&self, w: &Workspace, ini: int, mid: int, fin: int) -> bool {
        &&& self.codepoint == spec_syllable_codepoint(ini, mid, fin)
        &&& self.ini_variant == spec_ini_variant(w, ini, mid, fin)
        &&& self.mid_variant == spec_mid_variant(w, ini, mid, fin)
        &&& self.fin_variant == spec_fin_variant(w, ini, mid, fin)
        &&& self.complete == spec_complete(
            self.ini_variant,
            self.mid_variant,
            self.fin_variant,
            fin,
        )
        &&& self.bitmap@ == spec_glyph(w, ini, mid, fin)
    }
}

/// Decides whether a slot can be drawn, and says which cell is missing
/// where it cannot.
fn check_slot(sheet: &Option<SpriteSheet>, size: u32, variant: Option<u32>) -> (missing: Option<u32>)
    ensures
        missing is None <==> slot_ready(*sheet, size, variant),
        missing is Some ==> missing == variant,
{
    match (sheet, variant) {
        (Some(from_img), Some(v)) => if from_img.has_cell(size, v) {
            None
        } else {
            Some(v)
        },
        _ => None,
    }
}

/// Composes one syllable: picks a variant for each of its three jamo, stamps
/// the picked cells on a blank glyph and notes the codepoint and whether the
/// syllable is complete. Fails where a picked cell lies outside its sheet,
/// naming the first such slot.
pub fn compose_syllable(workspace: &Workspace, ini: u32, mid: u32, fin: u32) -> (r: Result<
    SyllableRecord,
    ComposeError,
>)
    requires
        workspace.wf(),
        valid_triple(ini as int, mid as int, fin as int),
    ensures
        r is Ok <==> first_unready_slot(workspace, ini as int, mid as int, fin as int) is None,
        r matches Ok(record) ==> record.describes(workspace, ini as int, mid as int, fin as int),
        r matches Err(e) ==> e == spec_compose_error(workspace, ini as int, mid as int, fin as int),
{
    reveal(spec_ini_variant);
    reveal(spec_mid_variant);
    reveal(spec_fin_variant);
    reveal(first_unready_slot);
    reveal(spec_compose_error);
    reveal(spec_glyph);
    let size = workspace.global_config.size;
    let ini_variant = workspace.find_ini_variant(ini, mid, fin);
    let mid_variant = workspace.find_mid_variant(ini, mid, fin);
    let fin_variant = workspace.find_fin_variant(ini, mid, fin);

    if let Some(variant) = check_slot(&workspace.ini_glyphs[ini as usize], size, ini_variant) {
        return Err(ComposeError::CellOutOfSheet { slot: JamoSlot::Initial, jamo: ini, variant });
    }
    if let Some(variant) = check_slot(&workspace.mid_glyphs[mid as usize], size, mid_variant) {
        return Err(ComposeError::CellOutOfSheet { slot: JamoSlot::Medial, jamo: mid, variant });
    }
    if let Some(variant) = check_slot(&workspace.fin_glyphs[fin as usize], size, fin_variant) {
        return Err(ComposeError::CellOutOfSheet { slot: JamoSlot::Final, jamo: fin, variant });
    }

    let mut to_buf = [0u8;32];
    assert(to_buf@ =~= blank_glyph());
    if let Some(variant) = ini_variant {
        copy_ini(workspace, ini, variant, &mut to_buf);
    }
    if let Some(variant) = mid_variant {
        copy_mid(workspace, mid, variant, &mut to_buf);
    }
    if let Some(variant) = fin_variant {
        copy_fin(workspace, fin, variant, &mut to_buf);
    }

    let codepoint = syllable_codepoint(ini, mid, fin);
    let complete = ini_variant.is_some() && mid_variant.is_some() && (fin == 0
        || fin_variant.is_some());
    Ok(
        SyllableRecord {
            codepoint,
            bitmap: to_buf,
            complete,
            ini_variant,
            mid_variant,
            fin_variant,
        },
    )
}

} // verus!
