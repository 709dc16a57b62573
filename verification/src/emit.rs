//! The output streams: one record per syllable, in the canonical order.
//!
//! Four streams come out of one pass over the syllables and stay in step:
//! the glyph map of all syllables, the glyph map of the complete ones, the
//! manifest of the picked variants, and the list of unresolved slots.

use crate::compose::{
    compose_syllable, first_unready_slot, spec_complete, spec_compose_error, spec_fin_variant,
    spec_glyph, spec_ini_variant, spec_mid_variant, ComposeError, SyllableRecord,
};
use crate::hangul::{
    lemma_codepoint_round_trip, spec_syllable_codepoint, syllable_offset, triple_at, valid_triple, NUM_FIN, NUM_INI, NUM_MID,
};
use crate::text::{hex_bytes, push_char, push_hex_bytes, push_radix, radix_text};
use crate::workspace::{match_str, to_match_str, Workspace};
use vstd::prelude::*;

verus! {

/// One line of a glyph map: the codepoint in at least four upper-case hex
/// digits, a colon, and the 32 bytes of the glyph in hex.
pub open spec fn glyph_line(codepoint: u32, bitmap: Seq<u8>) -> Seq<char> {
    radix_text(codepoint as nat, 16, 4) + seq![':'] + hex_bytes(bitmap)
}

/// A variant in the manifest: its number in decimal, or `null`.
pub open spec fn variant_text(variant: Option<u32>) -> Seq<char> {
    match variant {
        Some(v) => radix_text(v as nat, 10, 1),
        None => seq!['n', 'u', 'l', 'l'],
    }
}

/// One element of the manifest: the three variants of a syllable.
pub open spec fn manifest_entry(
    ini_variant: Option<u32>,
    mid_variant: Option<u32>,
    fin_variant: Option<u32>,
) -> Seq<char> {
    seq!['['] + variant_text(ini_variant) + seq![','] + variant_text(mid_variant) + seq![',']
        + variant_text(fin_variant) + seq![']']
}

/// Formats the glyph-map line of a record, without a line end.
pub fn format_line(record: &SyllableRecord) -> (s: String)
    ensures
        s@ == glyph_line(record.codepoint, record.bitmap@),
{
    let mut s = String::new();
    push_radix(&mut s, record.codepoint, 16, 4);
    push_char(&mut s, ':');
    push_hex_bytes(&mut s, &record.bitmap);
    assert(s@ =~= glyph_line(record.codepoint, record.bitmap@));
    s
}

fn push_variant(s: &mut String, variant: Option<u32>)
    ensures
        final(s)@ == old(s)@ + variant_text(variant),
{
    match variant {
        Some(v) => push_radix(s, v, 10, 1),
        None => {
            s.append("null");
            proof {
                reveal_strlit("null");
                assert(s@ =~= old(s)@ + variant_text(variant));
            }
        },
    }
}

/// Formats the manifest element of a record.
pub fn format_manifest_entry(record: &SyllableRecord) -> (s: String)
    ensures
        s@ == manifest_entry(record.ini_variant, record.mid_variant, record.fin_variant),
{
    let mut s = String::new();
    push_char(&mut s, '[');
    push_variant(&mut s, record.ini_variant);
    push_char(&mut s, ',');
    push_variant(&mut s, record.mid_variant);
    push_char(&mut s, ',');
    push_variant(&mut s, record.fin_variant);
    push_char(&mut s, ']');
    assert(s@ =~= manifest_entry(record.ini_variant, record.mid_variant, record.fin_variant));
    s
}

/// The report that a slot of a syllable has no variant.
pub open spec fn warning_text(slot_name: Seq<char>, ini: int, mid: int, fin: int) -> Seq<char> {
    "couldn't find "@ + slot_name + " variant for "@ + match_str(ini, mid, fin)
}

/// The reports for one syllable: one for the initial and one for the medial
/// where they have no variant, and one for the final where the syllable has
/// a final and it has no variant.
pub open spec fn syllable_warnings(
    ini_variant: Option<u32>,
    mid_variant: Option<u32>,
    fin_variant: Option<u32>,
    ini: int,
    mid: int,
    fin: int,
) -> Seq<Seq<char>> {
    let a: Seq<Seq<char>> = if ini_variant is None {
        seq![warning_text("ini"@, ini, mid, fin)]
    } else {
        Seq::empty()
    };
    let b: Seq<Seq<char>> = if mid_variant is None {
        seq![warning_text("mid"@, ini, mid, fin)]
    } else {
        Seq::empty()
    };
    let c: Seq<Seq<char>> = if fin != 0 && fin_variant is None {
        seq![warning_text("fin"@, ini, mid, fin)]
    } else {
        Seq::empty()
    };
    a + b + c
}

/// The texts of a list of strings.
pub open spec fn texts(list: Seq<String>) -> Seq<Seq<char>> {
    Seq::new(list.len(), |i: int| list[i]@)
}

fn push_warning(list: &mut Vec<String>, slot_name: &str, ini: u32, mid: u32, fin: u32)
    requires
        valid_triple(ini as int, mid as int, fin as int),
    ensures
        texts(final(list)@) == texts(old(list)@).push(
            warning_text(slot_name@, ini as int, mid as int, fin as int),
        ),
{
    let mut s = String::from_str("couldn't find ");
    s.append(slot_name);
    s.append(" variant for ");
    let syllable = to_match_str(ini, mid, fin).unwrap();
    s.append(syllable.as_str());
    assert(s@ =~= warning_text(slot_name@, ini as int, mid as int, fin as int));
    list.push(s);
    assert(texts(list@) =~= texts(old(list)@).push(
        warning_text(slot_name@, ini as int, mid as int, fin as int),
    ));
}

/// Appends the reports for the unresolved slots of a record's syllable.
pub fn push_syllable_warnings(
    list: &mut Vec<String>,
    record: &SyllableRecord,
    ini: u32,
    mid: u32,
    fin: u32,
)
    requires
        valid_triple(ini as int, mid as int, fin as int),
    ensures
        texts(final(list)@) == texts(old(list)@) + syllable_warnings(
            record.ini_variant,
            record.mid_variant,
            record.fin_variant,
            ini as int,
            mid as int,
            fin as int,
        ),
{
    if record.ini_variant.is_none() {
        push_warning(list, "ini", ini, mid, fin);
    }
    if record.mid_variant.is_none() {
        push_warning(list, "mid", ini, mid, fin);
    }
    if fin != 0 && record.fin_variant.is_none() {
        push_warning(list, "fin", ini, mid, fin);
    }
    assert(texts(list@) =~= texts(old(list)@) + syllable_warnings(
        record.ini_variant,
        record.mid_variant,
        record.fin_variant,
        ini as int,
        mid as int,
        fin as int,
    ));
}

/// The syllable at position `q` of the canonical order can be drawn.
pub open spec fn ready_at(w: &Workspace, q: int) -> bool {
    first_unready_slot(w, triple_at(q).0, triple_at(q).1, triple_at(q).2) is None
}

/// The syllable at position `q` of the canonical order is complete.
pub open spec fn complete_at(w: &Workspace, q: int) -> bool {
    let (ini, mid, fin) = triple_at(q);
    spec_complete(
        spec_ini_variant(w, ini, mid, fin),
        spec_mid_variant(w, ini, mid, fin),
        spec_fin_variant(w, ini, mid, fin),
        fin,
    )
}

/// The error that names what keeps the syllable at position `q` from being
/// drawn.
pub open spec fn compose_error_at(w: &Workspace, q: int) -> ComposeError {
    spec_compose_error(w, triple_at(q).0, triple_at(q).1, triple_at(q).2)
}

/// The glyph-map line of the syllable at position `q`, with its line end.
pub open spec fn line_at(w: &Workspace, q: int) -> Seq<char> {
    let (ini, mid, fin) = triple_at(q);
    glyph_line(spec_syllable_codepoint(ini, mid, fin) as u32, spec_glyph(w, ini, mid, fin))
        + seq!['\n']
}

/// The manifest element of the syllable at position `q`, after the comma
/// that parts it from the element before.
pub open spec fn entry_at(w: &Workspace, q: int) -> Seq<char> {
    let (ini, mid, fin) = triple_at(q);
    let comma: Seq<char> = if q == 0 {
        Seq::empty()
    } else {
        seq![',']
    };
    comma + manifest_entry(
        spec_ini_variant(w, ini, mid, fin),
        spec_mid_variant(w, ini, mid, fin),
        spec_fin_variant(w, ini, mid, fin),
    )
}

/// The reports for the syllable at position `q`: none unless the workspace
/// asks for them.
pub open spec fn warnings_at(w: &Workspace, q: int) -> Seq<Seq<char>> {
    let (ini, mid, fin) = triple_at(q);
    if w.global_config.warn_no_match {
        syllable_warnings(
            spec_ini_variant(w, ini, mid, fin),
            spec_mid_variant(w, ini, mid, fin),
            spec_fin_variant(w, ini, mid, fin),
            ini,
            mid,
            fin,
        )
    } else {
        Seq::empty()
    }
}

/// The glyph map of the first `k` syllables.
pub open spec fn all_stream(w: &Workspace, k: int) -> Seq<char>
    decreases k,
{
    if k <= 0 {
        Seq::empty()
    } else {
        all_stream(w, k - 1) + line_at(w, k - 1)
    }
}

/// The glyph map of the complete ones among the first `k` syllables.
pub open spec fn complete_stream(w: &Workspace, k: int) -> Seq<char>
    decreases k,
{
    if k <= 0 {
        Seq::empty()
    } else if complete_at(w, k - 1) {
        complete_stream(w, k - 1) + line_at(w, k - 1)
    } else {
        complete_stream(w, k - 1)
    }
}

/// The manifest elements of the first `k` syllables, with commas between.
pub open spec fn manifest_body(w: &Workspace, k: int) -> Seq<char>
    decreases k,
{
    if k <= 0 {
        Seq::empty()
    } else {
        manifest_body(w, k - 1) + entry_at(w, k - 1)
    }
}

/// The reports for the first `k` syllables.
pub open spec fn warnings_upto(w: &Workspace, k: int) -> Seq<Seq<char>>
    decreases k,
{
    if k <= 0 {
        Seq::empty()
    } else {
        warnings_upto(w, k - 1) + warnings_at(w, k - 1)
    }
}

/// The glyph-map lines of the syllables from position `from` up to, and not
/// including, position `to`.
pub open spec fn lines_between(w: &Workspace, from: int, to: int) -> Seq<char>
    decreases to - from,
{
    if to <= from {
        Seq::empty()
    } else {
        lines_between(w, from, to - 1) + line_at(w, to - 1)
    }
}

/// Where every syllable is complete, the complete-only glyph map is the
/// full glyph map.
pub proof fn lemma_all_complete(w: &Workspace, k: int)
    requires
        forall|p: int| 0 <= p < k ==> complete_at(w, p),
    ensures
        complete_stream(w, k) == all_stream(w, k),
    decreases k,
{
    if k > 0 {
        lemma_all_complete(w, k - 1);
        assert(complete_at(w, k - 1));
    }
}

/// The filter drops a line and touches nothing else: where exactly one
/// syllable, the one at position `q`, is incomplete, the complete-only glyph
/// map is the full glyph map without the line of `q`, every other line as it
/// was and where it was.
pub proof fn lemma_one_incomplete(w: &Workspace, q: int, k: int)
    requires
        0 <= q < k,
        !complete_at(w, q),
        forall|p: int| 0 <= p < k && p != q ==> complete_at(w, p),
    ensures
        all_stream(w, k) == all_stream(w, q) + line_at(w, q) + lines_between(w, q + 1, k),
        complete_stream(w, k) == all_stream(w, q) + lines_between(w, q + 1, k),
    decreases k,
{
    if k == q + 1 {
        lemma_all_complete(w, q);
        assert(lines_between(w, q + 1, k) =~= Seq::<char>::empty());
        assert(all_stream(w, k) =~= all_stream(w, q) + line_at(w, q) + lines_between(w, q + 1, k));
        assert(complete_stream(w, k) =~= all_stream(w, q) + lines_between(w, q + 1, k));
    } else {
        lemma_one_incomplete(w, q, k - 1);
        assert(complete_at(w, k - 1));
        assert(all_stream(w, k) =~= all_stream(w, q) + line_at(w, q) + lines_between(w, q + 1, k));
        assert(complete_stream(w, k) =~= all_stream(w, q) + lines_between(w, q + 1, k));
    }
}

/// What a pass over the syllables yields.
pub struct GlyphStreams {
    /// The glyph map: one line for every syllable.
    pub all: String,
    /// The glyph map of the complete syllables only.
    pub complete_only: String,
    /// The manifest: a JSON array of the variants of every syllable.
    pub manifest: String,
    /// A report for each slot without a variant, where reports were asked for.
    pub warnings: Vec<String>,
}

impl GlyphStreams {
    /// The streams hold exactly the first `k` syllables of `w`; the manifest
    /// is still open at its end.
    pub open spec fn holds(&self, w: &Workspace, k: int) -> bool {
        &&& self.all@ == all_stream(w, k)
        &&& self.complete_only@ == complete_stream(w, k)
        &&& self.manifest@ == seq!['['] + manifest_body(w, k)
        &&& texts(self.warnings@) == warnings_upto(w, k)
    }

    /// The streams hold every syllable of `w`, and the manifest is closed.
    pub open spec fn holds_all(&self, w: &Workspace) -> bool {
        &&& self.all@ == all_stream(w, 11172)
        &&& self.complete_only@ == complete_stream(w, 11172)
        &&& self.manifest@ == seq!['['] + manifest_body(w, 11172) + seq![']']
        &&& texts(self.warnings@) == warnings_upto(w, 11172)
    }

    /// Appends the records of the next syllable: its line to the full glyph
    /// map, the same line to the complete-only glyph map if the syllable is
    /// complete, its element to the manifest, and its reports if the
    /// workspace asks for them.
    pub fn push_record(
        &mut self,
        workspace: &Workspace,
        record: &SyllableRecord,
        ini: u32,
        mid: u32,
        fin: u32,
    )
        requires
            valid_triple(ini as int, mid as int, fin as int),
            record.describes(workspace, ini as int, mid as int, fin as int),
            old(self).holds(workspace, syllable_offset(ini as int, mid as int, fin as int)),
        ensures
            final(self).holds(workspace, syllable_offset(ini as int, mid as int, fin as int) + 1),
    {
        let ghost q = syllable_offset(ini as int, mid as int, fin as int);
        proof {
            lemma_codepoint_round_trip(ini as int, mid as int, fin as int);
        }
        if workspace.global_config.warn_no_match {
            push_syllable_warnings(&mut self.warnings, record, ini, mid, fin);
        }
        assert(texts(self.warnings@) =~= warnings_upto(workspace, q) + warnings_at(workspace, q));
        if ini != 0 || mid != 0 || fin != 0 {
            push_char(&mut self.manifest, ',');
        }
        let entry = format_manifest_entry(record);
        self.manifest.append(entry.as_str());
        assert(self.manifest@ =~= seq!['['] + (manifest_body(workspace, q) + entry_at(workspace, q)));
        let line = format_line(record);
        self.all.append(line.as_str());
        push_char(&mut self.all, '\n');
        assert(self.all@ =~= all_stream(workspace, q) + line_at(workspace, q));
        if record.complete {
            self.complete_only.append(line.as_str());
            push_char(&mut self.complete_only, '\n');
            assert(self.complete_only@ =~= complete_stream(workspace, q) + line_at(workspace, q));
        }
    }
}

/// Composes one syllable and appends its records to the streams. Where the
/// syllable cannot be drawn the streams stay as they were.
pub fn emit_syllable(
    streams: &mut GlyphStreams,
    workspace: &Workspace,
    ini: u32,
    mid: u32,
    fin: u32,
) -> (r: Result<(), ComposeError>)
    requires
        workspace.wf(),
        valid_triple(ini as int, mid as int, fin as int),
        old(streams).holds(workspace, syllable_offset(ini as int, mid as int, fin as int)),
    ensures
        r is Ok <==> ready_at(workspace, syllable_offset(ini as int, mid as int, fin as int)),
        r is Ok ==> final(streams).holds(
            workspace,
            syllable_offset(ini as int, mid as int, fin as int) + 1,
        ),
        r matches Err(e) ==> *final(streams) == *old(streams) && e == compose_error_at(
            workspace,
            syllable_offset(ini as int, mid as int, fin as int),
        ),
{
    proof {
        lemma_codepoint_round_trip(ini as int, mid as int, fin as int);
    }
    match compose_syllable(workspace, ini, mid, fin) {
        Err(e) => Err(e),
        Ok(record) => {
            streams.push_record(workspace, &record, ini, mid, fin);
            Ok(())
        },
    }
}

/// Composes every syllable, in the canonical order (initial outermost,
/// final innermost), and lays the records out as the four streams. Stops at
/// the first syllable that cannot be drawn, with the error that names it.
pub fn emit(workspace: &Workspace) -> (r: Result<GlyphStreams, ComposeError>)
    requires
        workspace.wf(),
    ensures
        r is Ok <==> forall|q: int| 0 <= q < 11172 ==> ready_at(workspace, q),
        r matches Ok(streams) ==> streams.holds_all(workspace),
        r matches Err(e) ==> exists|q: int|
            {
                &&& 0 <= q < 11172
                &&& !ready_at(workspace, q)
                &&& forall|p: int| 0 <= p < q ==> ready_at(workspace, p)
                &&& e == compose_error_at(workspace, q)
            },
{
    let mut streams = GlyphStreams {
        all: String::new(),
        complete_only: String::new(),
        manifest: String::new(),
        warnings: Vec::new(),
    };
    push_char(&mut streams.manifest, '[');
    proof {
        assert(streams.manifest@ =~= seq!['['] + manifest_body(workspace, 0));
        assert(texts(streams.warnings@) =~= warnings_upto(workspace, 0));
    }
    let mut ini: u32 = 0;
    while ini < NUM_INI
        invariant
            workspace.wf(),
            ini <= 19,
            streams.holds(workspace, ini * 588),
            forall|p: int| 0 <= p < ini * 588 ==> ready_at(workspace, p),
        decreases 19 - ini,
    {
        let mut mid: u32 = 0;
        while mid < NUM_MID
            invariant
                workspace.wf(),
                    ini < 19,
                mid <= 21,
                streams.holds(workspace, ini * 588 + mid * 28),
                forall|p: int| 0 <= p < ini * 588 + mid * 28 ==> ready_at(workspace, p),
            decreases 21 - mid,
        {
            let mut fin: u32 = 0;
            while fin < NUM_FIN
                invariant
                    workspace.wf(),
                            ini < 19,
                    mid < 21,
                    fin <= 28,
                    streams.holds(workspace, ini * 588 + mid * 28 + fin),
                    forall|p: int| 0 <= p < ini * 588 + mid * 28 + fin ==> ready_at(workspace, p),
                decreases 28 - fin,
            {
                match emit_syllable(&mut streams, workspace, ini, mid, fin) {
                    Err(e) => {
                        return Err(e);
                    },
                    Ok(()) => {},
                }
                fin = fin + 1;
            }
            mid = mid + 1;
        }
        ini = ini + 1;
    }
    push_char(&mut streams.manifest, ']');
    assert(streams.manifest@ =~= seq!['['] + manifest_body(workspace, 11172) + seq![']']);
    Ok(streams)
}

} // verus!
