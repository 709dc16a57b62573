use jamo_compose::compose::{
    compose_syllable, copy_fin, copy_ini, copy_mid, ComposeError, JamoSlot, SyllableRecord,
};
use jamo_compose::emit::{emit, emit_syllable, format_line, format_manifest_entry, GlyphStreams};
use jamo_compose::sprite::SpriteSheet;
use jamo_compose::workspace::{
    default_out_dir, default_size, default_warn_no_match, sort_configs, Condition, ConditionEntry,
    ConfigError, GlobalConfig, GlyphConfig, Workspace,
};
use std::path::PathBuf;

const BLACK: [u8; 4] = [0, 0, 0, 255];
const WHITE: [u8; 4] = [255, 255, 255, 255];

fn sheet(width: u32, height: u32, fill: [u8; 4], dots: &[(u32, u32)]) -> SpriteSheet {
    let mut pixels = Vec::new();
    for _ in 0..(width * height) {
        pixels.extend_from_slice(&fill);
    }
    for (x, y) in dots {
        let at = ((y * width + x) * 4) as usize;
        pixels[at..at + 4].copy_from_slice(&BLACK);
    }
    SpriteSheet::new(width, height, pixels).unwrap()
}

fn always(variant: Option<u32>) -> GlyphConfig {
    GlyphConfig {
        conditions: vec![ConditionEntry { condition: Condition::Always, priority: 0, variant }],
    }
}

fn no_rules() -> GlyphConfig {
    GlyphConfig { conditions: Vec::new() }
}

fn rules(list: &[(&str, u32)]) -> GlyphConfig {
    let list: Vec<(String, u32)> = list.iter().map(|(p, v)| (p.to_string(), *v)).collect();
    GlyphConfig::from_rules(&list).ok().unwrap()
}

fn table<T>(n: usize, make: impl Fn(usize) -> T) -> Vec<T> {
    (0..n).map(make).collect()
}

fn settings(size: u32, warn_no_match: bool) -> GlobalConfig {
    GlobalConfig { size, warn_no_match, out_dir: "dist".to_string() }
}

/// A workspace in which every jamo of a slot has the same rules and sheet.
fn uniform(
    global: GlobalConfig,
    config: impl Fn(usize) -> GlyphConfig,
    glyph: impl Fn() -> Option<SpriteSheet>,
) -> Workspace {
    Workspace::new(
        PathBuf::from("."),
        global,
        table(19, |i| config(i)),
        table(21, |i| config(i)),
        table(28, |i| config(i)),
        table(19, |_| glyph()),
        table(21, |_| glyph()),
        table(28, |_| glyph()),
    )
    .ok()
    .unwrap()
}

fn line(codepoint: u32, bytes: &[u8; 32]) -> String {
    let mut s = format!("{:04X}:", codepoint);
    for b in bytes {
        s.push_str(&format!("{:02X}", b));
    }
    s
}

#[test]
fn defaults_of_the_settings() {
    assert_eq!(default_size(), 16);
    assert!(!default_warn_no_match());
    assert_eq!(default_out_dir(), "dist");
    let g = GlobalConfig::default();
    assert_eq!(g.size, 16);
    assert!(!g.warn_no_match);
    assert_eq!(g.out_dir, "dist");
}

#[test]
fn workspace_refuses_tables_of_the_wrong_length() {
    let build = |ini: usize, mid: usize, fin: usize, gi: usize, gm: usize, gf: usize| {
        Workspace::new(
            PathBuf::from("."),
            settings(16, false),
            table(ini, |_| no_rules()),
            table(mid, |_| no_rules()),
            table(fin, |_| no_rules()),
            table(gi, |_| None),
            table(gm, |_| None),
            table(gf, |_| None),
        )
    };
    assert!(build(19, 21, 28, 19, 21, 28).is_ok());
    assert!(matches!(build(18, 21, 28, 19, 21, 28), Err(ConfigError::TableSize)));
    assert!(matches!(build(19, 22, 28, 19, 21, 28), Err(ConfigError::TableSize)));
    assert!(matches!(build(19, 21, 0, 19, 21, 28), Err(ConfigError::TableSize)));
    assert!(matches!(build(19, 21, 28, 20, 21, 28), Err(ConfigError::TableSize)));
    assert!(matches!(build(19, 21, 28, 19, 20, 28), Err(ConfigError::TableSize)));
    assert!(matches!(build(19, 21, 28, 19, 21, 27), Err(ConfigError::TableSize)));
}

#[test]
fn workspace_refuses_a_cell_that_does_not_fit_a_glyph() {
    let build = |size: u32, ini: usize| {
        Workspace::new(
            PathBuf::from("."),
            settings(size, false),
            table(ini, |_| no_rules()),
            table(21, |_| no_rules()),
            table(28, |_| no_rules()),
            table(19, |_| None),
            table(21, |_| None),
            table(28, |_| None),
        )
    };
    assert!(matches!(build(0, 19), Err(ConfigError::CellSize)));
    assert!(matches!(build(17, 19), Err(ConfigError::CellSize)));
    assert!(build(1, 19).is_ok());
    assert!(build(16, 19).is_ok());
    // the tables are looked at first
    assert!(matches!(build(0, 18), Err(ConfigError::TableSize)));
}

#[test]
fn workspace_keeps_its_parts_and_sorts_its_rules() {
    let w = Workspace::new(
        PathBuf::from("/some/where"),
        GlobalConfig { size: 8, warn_no_match: true, out_dir: "out".to_string() },
        table(19, |_| rules(&[("...", 0), ("ㄱ..", 1)])),
        table(21, |_| rules(&[("...", 2)])),
        table(28, |i| if i == 0 { no_rules() } else { always(Some(3)) }),
        table(19, |_| None),
        table(21, |i| if i == 1 { Some(sheet(8, 8, WHITE, &[])) } else { None }),
        table(28, |_| None),
    )
    .ok()
    .unwrap();
    assert_eq!(w.path, PathBuf::from("/some/where"));
    assert_eq!(w.global_config.size, 8);
    assert!(w.global_config.warn_no_match);
    assert_eq!(w.global_config.out_dir, "out");
    assert_eq!(w.ini_configs.len(), 19);
    for c in &w.ini_configs {
        let p: Vec<u32> = c.conditions.iter().map(|e| e.priority).collect();
        assert_eq!(p, vec![588, 11172]);
    }
    assert!(w.fin_configs[0].conditions.is_empty());
    assert_eq!(w.fin_configs[5].conditions.len(), 1);
    assert!(w.mid_glyphs[0].is_none());
    assert_eq!(w.mid_glyphs[1].as_ref().unwrap().width(), 8);
}

#[test]
fn tables_are_sorted_place_by_place() {
    let sorted = sort_configs(vec![rules(&[("...", 0), ("ㄱㅏ0", 1)]), no_rules(), always(Some(9))]);
    assert_eq!(sorted.len(), 3);
    let v: Vec<Option<u32>> = sorted[0].conditions.iter().map(|e| e.variant).collect();
    assert_eq!(v, vec![Some(1), Some(0)]);
    assert!(sorted[1].conditions.is_empty());
    assert_eq!(sorted[2].conditions[0].variant, Some(9));
    assert!(sort_configs(Vec::new()).is_empty());
}

#[test]
fn each_slot_is_resolved_by_the_rules_of_its_own_jamo() {
    let w = Workspace::new(
        PathBuf::from("."),
        settings(16, false),
        table(19, |i| always(Some(i as u32))),
        table(21, |i| always(Some(100 + i as u32))),
        table(28, |i| always(Some(200 + i as u32))),
        table(19, |_| None),
        table(21, |_| None),
        table(28, |_| None),
    )
    .ok()
    .unwrap();
    assert_eq!(w.find_ini_variant(3, 4, 5), Some(3));
    assert_eq!(w.find_mid_variant(3, 4, 5), Some(104));
    assert_eq!(w.find_fin_variant(3, 4, 5), Some(205));
    // a triple outside the tables matches no rule
    assert_eq!(w.find_ini_variant(3, 21, 5), None);
    assert_eq!(w.find_mid_variant(19, 4, 5), None);
    assert_eq!(w.find_fin_variant(3, 21, 5), None);
}

#[test]
fn rules_of_a_slot_see_the_whole_syllable() {
    let w = uniform(settings(16, false), |_| rules(&[("...", 0), ("..0", 1), ("ㄱ.0", 2)]), || None);
    assert_eq!(w.find_mid_variant(0, 0, 0), Some(2));
    assert_eq!(w.find_mid_variant(1, 0, 0), Some(1));
    assert_eq!(w.find_mid_variant(0, 0, 1), Some(0));
    assert_eq!(w.find_ini_variant(0, 7, 0), Some(2));
    assert_eq!(w.find_fin_variant(5, 7, 3), Some(0));
}

#[test]
fn black_cell_gives_a_full_glyph() {
    let w = uniform(settings(16, false), |_| always(Some(0)), || Some(sheet(16, 16, BLACK, &[])));
    let r = compose_syllable(&w, 0, 0, 0).ok().unwrap();
    assert_eq!(r.codepoint, 0xAC00);
    assert_eq!(r.bitmap, [0xFF; 32]);
    assert!(r.complete);
    assert_eq!((r.ini_variant, r.mid_variant, r.fin_variant), (Some(0), Some(0), Some(0)));
    let mut expected = String::from("AC00:");
    for _ in 0..32 {
        expected.push_str("FF");
    }
    assert_eq!(format_line(&r), expected);
    assert_eq!(format_manifest_entry(&r), "[0,0,0]");
}

#[test]
fn transparent_cell_gives_an_empty_glyph() {
    let w = uniform(settings(16, false), |_| always(Some(0)), || Some(sheet(16, 16, [0, 0, 0, 100], &[])));
    let r = compose_syllable(&w, 0, 0, 0).ok().unwrap();
    assert_eq!(r.codepoint, 0xAC00);
    assert_eq!(r.bitmap, [0; 32]);
    assert!(r.complete);
    let mut expected = String::from("AC00:");
    for _ in 0..32 {
        expected.push_str("00");
    }
    assert_eq!(format_line(&r), expected);
}

#[test]
fn slots_are_merged_by_or() {
    let w = Workspace::new(
        PathBuf::from("."),
        settings(16, false),
        table(19, |_| always(Some(0))),
        table(21, |_| always(Some(1))),
        table(28, |_| always(Some(2))),
        table(19, |_| Some(sheet(48, 16, WHITE, &[(0, 0), (1, 0)]))),
        table(21, |_| Some(sheet(48, 16, WHITE, &[(16 + 1, 0), (16 + 8, 0)]))),
        table(28, |_| Some(sheet(48, 16, WHITE, &[(32 + 15, 15), (0, 0)]))),
    )
    .ok()
    .unwrap();
    let r = compose_syllable(&w, 2, 3, 4).ok().unwrap();
    let mut expected = [0u8; 32];
    expected[0] = 0xC0;
    expected[1] = 0x80;
    expected[31] = 0x01;
    assert_eq!(r.bitmap, expected);
    assert_eq!(r.codepoint, 0xAC00 + 2 * 588 + 3 * 28 + 4);
    assert_eq!(format_manifest_entry(&r), "[0,1,2]");
}

#[test]
fn slot_without_sheet_or_variant_draws_nothing() {
    let w = Workspace::new(
        PathBuf::from("."),
        settings(16, false),
        table(19, |_| always(Some(0))),
        table(21, |_| always(None)),
        table(28, |_| always(Some(7))),
        table(19, |_| Some(sheet(16, 16, WHITE, &[(0, 0)]))),
        table(21, |_| Some(sheet(16, 16, BLACK, &[]))),
        table(28, |_| None),
    )
    .ok()
    .unwrap();
    let r = compose_syllable(&w, 0, 0, 1).ok().unwrap();
    let mut expected = [0u8; 32];
    expected[0] = 0x80;
    assert_eq!(r.bitmap, expected);
    assert_eq!((r.ini_variant, r.mid_variant, r.fin_variant), (Some(0), None, Some(7)));
    assert!(!r.complete);
    assert_eq!(format_manifest_entry(&r), "[0,null,7]");
}

#[test]
fn complete_needs_initial_and_medial_and_the_final_if_there_is_one() {
    let build = |ini: Option<u32>, mid: Option<u32>, fin: Option<u32>| {
        Workspace::new(
            PathBuf::from("."),
            settings(16, false),
            table(19, |_| always(ini)),
            table(21, |_| always(mid)),
            table(28, |_| always(fin)),
            table(19, |_| None),
            table(21, |_| None),
            table(28, |_| None),
        )
        .ok()
        .unwrap()
    };
    let complete = |w: &Workspace, fin: u32| compose_syllable(w, 1, 1, fin).ok().unwrap().complete;
    let all = build(Some(0), Some(0), Some(0));
    assert!(complete(&all, 0));
    assert!(complete(&all, 5));
    let no_fin = build(Some(0), Some(0), None);
    assert!(complete(&no_fin, 0));
    assert!(!complete(&no_fin, 5));
    let no_mid = build(Some(0), None, Some(0));
    assert!(!complete(&no_mid, 0));
    assert!(!complete(&no_mid, 5));
    let no_ini = build(None, Some(0), Some(0));
    assert!(!complete(&no_ini, 0));
    assert!(!complete(&no_ini, 5));
    let none = build(None, None, None);
    assert!(!complete(&none, 0));
}

#[test]
fn slot_with_zero_rules_leaves_the_syllable_incomplete() {
    let w = Workspace::new(
        PathBuf::from("."),
        settings(16, false),
        table(19, |_| always(Some(0))),
        table(21, |_| always(Some(0))),
        table(28, |_| no_rules()),
        table(19, |_| None),
        table(21, |_| None),
        table(28, |_| None),
    )
    .ok()
    .unwrap();
    for ini in 0..19 {
        for mid in 0..21 {
            for fin in 0..28 {
                assert_eq!(w.find_fin_variant(ini, mid, fin), None);
                let r = compose_syllable(&w, ini, mid, fin).ok().unwrap();
                assert_eq!(r.complete, fin == 0);
            }
        }
    }
    let w = uniform(settings(16, false), |_| no_rules(), || None);
    assert!(!compose_syllable(&w, 0, 0, 0).ok().unwrap().complete);
}

#[test]
fn variant_outside_its_sheet_is_an_error() {
    let w = Workspace::new(
        PathBuf::from("."),
        settings(16, false),
        table(19, |_| always(Some(0))),
        table(21, |i| always(Some(if i == 2 { 1 } else { 0 }))),
        table(28, |i| always(Some(if i == 3 { 9 } else { 0 }))),
        table(19, |_| Some(sheet(16, 16, WHITE, &[]))),
        table(21, |_| Some(sheet(16, 16, WHITE, &[]))),
        table(28, |_| Some(sheet(16, 16, WHITE, &[]))),
    )
    .ok()
    .unwrap();
    assert!(compose_syllable(&w, 0, 0, 0).is_ok());
    assert_eq!(
        compose_syllable(&w, 0, 0, 3).err(),
        Some(ComposeError::CellOutOfSheet { slot: JamoSlot::Final, jamo: 3, variant: 9 })
    );
    assert_eq!(
        compose_syllable(&w, 5, 2, 0).err(),
        Some(ComposeError::CellOutOfSheet { slot: JamoSlot::Medial, jamo: 2, variant: 1 })
    );
    // the first slot that cannot be drawn is named
    assert_eq!(
        compose_syllable(&w, 5, 2, 3).err(),
        Some(ComposeError::CellOutOfSheet { slot: JamoSlot::Medial, jamo: 2, variant: 1 })
    );
    match emit(&w) {
        Err(e) => assert_eq!(e, ComposeError::CellOutOfSheet { slot: JamoSlot::Final, jamo: 3, variant: 9 }),
        Ok(_) => panic!("the pass should have stopped"),
    }
}

#[test]
fn sheet_smaller_than_a_cell_is_an_error() {
    let w = uniform(settings(16, false), |_| always(Some(0)), || Some(sheet(8, 8, BLACK, &[])));
    assert_eq!(
        compose_syllable(&w, 1, 2, 3).err(),
        Some(ComposeError::CellOutOfSheet { slot: JamoSlot::Initial, jamo: 1, variant: 0 })
    );
}

#[test]
fn copy_functions_draw_the_jamo_of_their_slot() {
    let w = Workspace::new(
        PathBuf::from("."),
        settings(16, false),
        table(19, |_| no_rules()),
        table(21, |_| no_rules()),
        table(28, |_| no_rules()),
        table(19, |i| if i == 1 { Some(sheet(32, 16, WHITE, &[(16, 0)])) } else { None }),
        table(21, |i| if i == 2 { Some(sheet(16, 16, WHITE, &[(7, 0)])) } else { None }),
        table(28, |i| if i == 3 { Some(sheet(16, 32, WHITE, &[(0, 17)])) } else { None }),
    )
    .ok()
    .unwrap();
    let mut to = [0u8; 32];
    copy_ini(&w, 0, 5, &mut to);
    copy_mid(&w, 0, 5, &mut to);
    copy_fin(&w, 0, 5, &mut to);
    assert_eq!(to, [0u8; 32]);
    copy_ini(&w, 1, 1, &mut to);
    let mut expected = [0u8; 32];
    expected[0] = 0x80;
    assert_eq!(to, expected);
    copy_mid(&w, 2, 0, &mut to);
    expected[0] = 0x81;
    assert_eq!(to, expected);
    copy_fin(&w, 3, 1, &mut to);
    expected[2] = 0x80;
    assert_eq!(to, expected);
}

#[test]
fn line_and_manifest_formats() {
    let mut bitmap = [0u8; 32];
    bitmap[0] = 0x12;
    bitmap[1] = 0xAB;
    bitmap[31] = 0x0F;
    let r = SyllableRecord {
        codepoint: 0xD7A3,
        bitmap,
        complete: false,
        ini_variant: Some(12),
        mid_variant: None,
        fin_variant: Some(4294967295),
    };
    assert_eq!(format_line(&r), line(0xD7A3, &bitmap));
    assert!(format_line(&r).starts_with("D7A3:12AB0000"));
    assert!(format_line(&r).ends_with("000F"));
    assert_eq!(format_line(&r).len(), 5 + 64);
    assert_eq!(format_manifest_entry(&r), "[12,null,4294967295]");
    let small = SyllableRecord {
        codepoint: 0x41,
        bitmap: [0; 32],
        complete: true,
        ini_variant: None,
        mid_variant: None,
        fin_variant: None,
    };
    assert!(format_line(&small).starts_with("0041:"));
    assert_eq!(format_manifest_entry(&small), "[null,null,null]");
}

#[test]
fn streams_hold_every_syllable_in_order() {
    let w = uniform(settings(16, false), |_| always(Some(0)), || Some(sheet(16, 16, BLACK, &[])));
    let out = emit(&w).ok().unwrap();
    let lines: Vec<&str> = out.all.lines().collect();
    assert_eq!(lines.len(), 11172);
    assert!(out.all.ends_with('\n'));
    assert_eq!(lines[0], line(0xAC00, &[0xFF; 32]));
    assert_eq!(lines[1], line(0xAC01, &[0xFF; 32]));
    assert_eq!(lines[28], line(0xAC00 + 28, &[0xFF; 32]));
    assert_eq!(lines[11171], line(0xD7A3, &[0xFF; 32]));
    for (q, l) in lines.iter().enumerate() {
        assert_eq!(&l[..4], format!("{:04X}", 0xAC00 + q));
    }
    assert_eq!(out.complete_only, out.all);
    assert!(out.warnings.is_empty());
    assert!(out.manifest.starts_with("[[0,0,0],[0,0,0],"));
    assert!(out.manifest.ends_with(",[0,0,0]]"));
    assert_eq!(out.manifest.matches("[0,0,0]").count(), 11172);
    assert_eq!(out.manifest.len(), 2 + 11172 * 7 + 11171);
}

#[test]
fn complete_only_stream_leaves_out_the_incomplete_syllable() {
    // exactly one syllable, (5, 4, 5), has no variant for its initial
    let w = Workspace::new(
        PathBuf::from("."),
        settings(16, true),
        table(19, |_| rules(&[("([^ㄹ]..)|(ㄹ[^ㅓ].)|(ㄹㅓ[^ㄵ])", 0)])),
        table(21, |_| always(Some(0))),
        table(28, |_| always(Some(0))),
        table(19, |_| Some(sheet(16, 16, WHITE, &[(0, 0)]))),
        table(21, |_| Some(sheet(16, 16, WHITE, &[(1, 0)]))),
        table(28, |_| Some(sheet(16, 16, WHITE, &[(2, 0)]))),
    )
    .ok()
    .unwrap();
    assert_eq!(w.ini_configs[0].conditions[0].priority, 11171);
    let out = emit(&w).ok().unwrap();
    let all: Vec<&str> = out.all.lines().collect();
    let complete: Vec<&str> = out.complete_only.lines().collect();
    assert_eq!(all.len(), 11172);
    assert_eq!(complete.len(), 11171);
    let q = 5 * 588 + 4 * 28 + 5;
    let mut without = all.clone();
    let dropped = without.remove(q);
    assert_eq!(complete, without);
    let mut bits = [0u8; 32];
    bits[0] = 0x60;
    assert_eq!(dropped, line(0xAC00 + q as u32, &bits));
    bits[0] = 0xE0;
    assert_eq!(all[q - 1], line(0xAC00 + q as u32 - 1, &bits));
    assert_eq!(out.warnings, vec!["couldn't find ini variant for ㄹㅓㄵ".to_string()]);
    let entries: Vec<&str> = out.manifest[1..out.manifest.len() - 1].split("],").collect();
    assert_eq!(entries.len(), 11172);
    assert_eq!(entries[q], "[null,0,0");
    assert_eq!(entries[q + 1], "[0,0,0");
}

#[test]
fn warnings_name_the_unresolved_slots_when_asked_for() {
    let build = |warn: bool| {
        Workspace::new(
            PathBuf::from("."),
            settings(16, warn),
            table(19, |_| rules(&[("[^ㄱ]..", 0)])),
            table(21, |_| rules(&[(".[^ㅏ].", 0)])),
            table(28, |_| no_rules()),
            table(19, |_| None),
            table(21, |_| None),
            table(28, |_| None),
        )
        .ok()
        .unwrap()
    };
    let out = emit(&build(true)).ok().unwrap();
    // initial giyeok: 588 syllables; medial a: 532; a final without variant: 19 * 21 * 27
    assert_eq!(out.warnings.len(), 588 + 19 * 28 + 19 * 21 * 27);
    assert_eq!(
        &out.warnings[..5],
        &[
            "couldn't find ini variant for ㄱㅏ0".to_string(),
            "couldn't find mid variant for ㄱㅏ0".to_string(),
            "couldn't find ini variant for ㄱㅏㄱ".to_string(),
            "couldn't find mid variant for ㄱㅏㄱ".to_string(),
            "couldn't find fin variant for ㄱㅏㄱ".to_string(),
        ]
    );
    assert_eq!(out.warnings.last().unwrap(), "couldn't find fin variant for ㅎㅣㅎ");
    assert!(out.complete_only.lines().count() == 18 * 20);
    let quiet = emit(&build(false)).ok().unwrap();
    assert!(quiet.warnings.is_empty());
    assert_eq!(quiet.all, out.all);
    assert_eq!(quiet.complete_only, out.complete_only);
    assert_eq!(quiet.manifest, out.manifest);
}

#[test]
fn one_syllable_can_be_added_to_the_streams_at_a_time() {
    let w = uniform(settings(16, false), |_| always(Some(0)), || Some(sheet(16, 16, BLACK, &[])));
    let mut streams = GlyphStreams {
        all: String::new(),
        complete_only: String::new(),
        manifest: String::from("["),
        warnings: Vec::new(),
    };
    assert!(emit_syllable(&mut streams, &w, 0, 0, 0).is_ok());
    assert!(emit_syllable(&mut streams, &w, 0, 0, 1).is_ok());
    assert_eq!(streams.all, format!("{}\n{}\n", line(0xAC00, &[0xFF; 32]), line(0xAC01, &[0xFF; 32])));
    assert_eq!(streams.complete_only, streams.all);
    assert_eq!(streams.manifest, "[[0,0,0],[0,0,0]");
}
