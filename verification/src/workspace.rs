//! Rules, rule lists and variant resolution.

use crate::bitmap::MAX_CELL_SIZE;
use crate::hangul::{
    syllable_offset, valid_triple, FIN_CHARS, INI_CHARS, MID_CHARS, NUM_FIN, NUM_INI, NUM_MID,
};
use crate::pattern::{regex_compiles, regex_error_text, regex_is_match, Pattern};
use crate::sprite::SpriteSheet;
use crate::text::push_char;
use std::path::PathBuf;
use vstd::prelude::*;

verus! {

/// The three-character string that patterns are matched against: the jamo of
/// the initial, of the medial and of the final. "No final" is a character too.
pub open spec fn match_str(ini: int, mid: int, fin: int) -> Seq<char> {
    seq![INI_CHARS@[ini], MID_CHARS@[mid], FIN_CHARS@[fin]]
}

/// Builds the match string of a triple, or `None` when an index lies outside
/// its table.
pub fn to_match_str(ini: u32, mid: u32, fin: u32) -> (r: Option<String>)
    ensures
        r is Some <==> valid_triple(ini as int, mid as int, fin as int),
        r matches Some(s) ==> s@ == match_str(ini as int, mid as int, fin as int),
{
    if ini >= NUM_INI || mid >= NUM_MID || fin >= NUM_FIN {
        return None;
    }
    let mut s = String::new();
    push_char(&mut s, INI_CHARS[ini as usize]);
    push_char(&mut s, MID_CHARS[mid as usize]);
    push_char(&mut s, FIN_CHARS[fin as usize]);
    assert(s@ =~= match_str(ini as int, mid as int, fin as int));
    Some(s)
}

/// Whether `pattern` matches the triple: the triple is valid and the regex
/// engine finds the pattern in its match string.
pub open spec fn pattern_matches(pattern: Seq<char>, ini: int, mid: int, fin: int) -> bool {
    valid_triple(ini, mid, fin) && regex_is_match(pattern, match_str(ini, mid, fin))
}

/// Tests a compiled pattern against a triple. A triple outside the tables
/// matches nothing.
pub fn matches_regex(regex: &Pattern, ini: u32, mid: u32, fin: u32) -> (b: bool)
    ensures
        b == pattern_matches(regex@, ini as int, mid as int, fin as int),
{
    match to_match_str(ini, mid, fin) {
        Some(match_s) => regex.is_match(match_s.as_str()),
        None => false,
    }
}

/// What can be wrong with a configuration.
pub enum ConfigError {
    /// The regex engine refused a rule's pattern. `pattern` is the pattern as
    /// the rule gave it, `reason` the engine's own message.
    BadPattern { pattern: String, reason: String },
    /// A table of a workspace does not have one entry per jamo of its slot.
    TableSize,
    /// The cell size is 0 or more than 16, so a cell does not fit a glyph.
    CellSize,
}

/// A pattern with the anchors that make it match the whole match string.
pub open spec fn anchored(pattern: Seq<char>) -> Seq<char> {
    seq!['^', '('] + pattern + seq![')', '$']
}

/// A rule's pattern is accepted: the regex engine takes it as it was
/// written, and takes it between the anchors too.
pub open spec fn rule_compiles(pattern: Seq<char>) -> bool {
    regex_compiles(pattern) && regex_compiles(anchored(pattern))
}

/// Compiles `pattern` between anchors, so that it has to match the whole
/// match string. The pattern is compiled as it was written first: one that
/// the regex engine refuses on its own is refused, whatever the anchors
/// would make of it. Fails exactly when the engine refuses the pattern as
/// written or between the anchors; the error carries the pattern as it was
/// given.
pub fn compile_anchored(pattern: &str) -> (r: Result<Pattern, ConfigError>)
    ensures
        r is Ok <==> rule_compiles(pattern@),
        r matches Ok(p) ==> p@ == anchored(pattern@),
        r matches Err(e) ==> e matches ConfigError::BadPattern { pattern: given, .. } && given@
            == pattern@,
{
    match Pattern::compile(pattern) {
        Ok(_) => {},
        Err(e) => {
            return Err(
                ConfigError::BadPattern { pattern: pattern.to_owned(), reason: regex_error_text(&e) },
            );
        },
    }
    let mut text = String::from_str("^(");
    text.append(pattern);
    text.append(")$");
    proof {
        reveal_strlit("^(");
        reveal_strlit(")$");
        assert(text@ =~= anchored(pattern@));
    }
    match Pattern::compile(text.as_str()) {
        Ok(p) => Ok(p),
        Err(e) => Err(
            ConfigError::BadPattern { pattern: pattern.to_owned(), reason: regex_error_text(&e) },
        ),
    }
}

/// When a rule applies.
pub enum Condition {
    /// The rule applies to the triples whose match string the pattern matches.
    Regex(Pattern),
    /// The rule applies to every triple.
    Always,
}

impl Condition {
    /// Whether the condition holds of a triple. No condition holds of a triple
    /// outside the tables.
    pub open spec fn spec_matches(&self, ini: int, mid: int, fin: int) -> bool {
        match self {
            Condition::Regex(p) => pattern_matches(p@, ini, mid, fin),
            Condition::Always => valid_triple(ini, mid, fin),
        }
    }

    /// Decides whether the condition holds of the triple.
    pub fn matches(&self, ini: u32, mid: u32, fin: u32) -> (b: bool)
        ensures
            b == self.spec_matches(ini as int, mid as int, fin as int),
    {
        match to_match_str(ini, mid, fin) {
            None => false,
            Some(match_s) => match self {
                Condition::Regex(exp) => exp.is_match(match_s.as_str()),
                Condition::Always => true,
            },
        }
    }

    /// Compiles `pattern`, anchored at both ends, into a condition. Fails
    /// exactly when the regex engine refuses the pattern as written or
    /// between the anchors; the error carries the pattern as it was given.
    pub fn regex(pattern: &str) -> (r: Result<Condition, ConfigError>)
        ensures
            r is Ok <==> rule_compiles(pattern@),
            r matches Ok(c) ==> c matches Condition::Regex(p) && p@ == anchored(pattern@),
            r matches Err(e) ==> e matches ConfigError::BadPattern { pattern: given, .. }
                && given@ == pattern@,
    {
        match compile_anchored(pattern) {
            Ok(p) => Ok(Condition::Regex(p)),
            Err(e) => Err(e),
        }
    }
}

/// The triples that `pattern` matches.
pub open spec fn matching_triples(pattern: Seq<char>) -> Set<(int, int, int)> {
    Set::new(|t: (int, int, int)| pattern_matches(pattern, t.0, t.1, t.2))
}

/// How many of the 19 x 21 x 28 triples `pattern` matches. The fewer, the
/// more specific the pattern.
pub open spec fn specificity(pattern: Seq<char>) -> nat {
    matching_triples(pattern).len()
}

/// The matched triples that come before position `k` of the canonical order.
pub open spec fn matched_below(pattern: Seq<char>, k: int) -> Set<(int, int, int)> {
    Set::new(
        |t: (int, int, int)|
            pattern_matches(pattern, t.0, t.1, t.2) && syllable_offset(t.0, t.1, t.2) < k,
    )
}

proof fn lemma_matched_step(pattern: Seq<char>, ini: int, mid: int, fin: int)
    requires
        valid_triple(ini, mid, fin),
    ensures
        !matched_below(pattern, syllable_offset(ini, mid, fin)).contains((ini, mid, fin)),
        matched_below(pattern, syllable_offset(ini, mid, fin) + 1) == if pattern_matches(
            pattern,
            ini,
            mid,
            fin,
        ) {
            matched_below(pattern, syllable_offset(ini, mid, fin)).insert((ini, mid, fin))
        } else {
            matched_below(pattern, syllable_offset(ini, mid, fin))
        },
{
    let k = syllable_offset(ini, mid, fin);
    let next = matched_below(pattern, k + 1);
    let grown = if pattern_matches(pattern, ini, mid, fin) {
        matched_below(pattern, k).insert((ini, mid, fin))
    } else {
        matched_below(pattern, k)
    };
    assert forall|t: (int, int, int)| next.contains(t) <==> grown.contains(t) by {
        if valid_triple(t.0, t.1, t.2) && syllable_offset(t.0, t.1, t.2) == k {
            assert(t.0 == ini && t.1 == mid && t.2 == fin);
        }
    }
    assert(next =~= grown);
}

/// Counts the triples that the pattern matches, by trying every one.
pub fn count_matches(regex: &Pattern) -> (n: u32)
    ensures
        n == specificity(regex@),
        n <= 11172,
{
    let mut n: u32 = 0;
    let mut ini: u32 = 0;
    assert(matched_below(regex@, 0) =~= Set::empty());
    while ini < NUM_INI
        invariant
            ini <= 19,
            n <= ini * 588,
            matched_below(regex@, ini * 588).finite(),
            n == matched_below(regex@, ini * 588).len(),
        decreases 19 - ini,
    {
        let mut mid: u32 = 0;
        while mid < NUM_MID
            invariant
                ini < 19,
                mid <= 21,
                n <= ini * 588 + mid * 28,
                matched_below(regex@, ini * 588 + mid * 28).finite(),
                n == matched_below(regex@, ini * 588 + mid * 28).len(),
            decreases 21 - mid,
        {
            let mut fin: u32 = 0;
            while fin < NUM_FIN
                invariant
                    ini < 19,
                    mid < 21,
                    fin <= 28,
                    n <= ini * 588 + mid * 28 + fin,
                    matched_below(regex@, ini * 588 + mid * 28 + fin).finite(),
                    n == matched_below(regex@, ini * 588 + mid * 28 + fin).len(),
                decreases 28 - fin,
            {
                proof {
                    lemma_matched_step(regex@, ini as int, mid as int, fin as int);
                }
                if matches_regex(regex, ini, mid, fin) {
                    n = n + 1;
                }
                fin = fin + 1;
            }
            mid = mid + 1;
        }
        ini = ini + 1;
    }
    assert(matched_below(regex@, 11172) =~= matching_triples(regex@));
    n
}

/// One rule of a slot: when it applies, how specific it is, and what it picks.
pub struct ConditionEntry {
    pub condition: Condition,
    /// The number of triples the condition's pattern matches; 0 for `Always`.
    /// Lower comes first.
    pub priority: u32,
    /// The cell of the sprite sheet to draw, or `None` to draw nothing.
    pub variant: Option<u32>,
}

impl ConditionEntry {
    /// The priority is the one that the condition calls for.
    pub open spec fn ranked(&self) -> bool {
        match self.condition {
            Condition::Regex(p) => self.priority == specificity(p@),
            Condition::Always => self.priority == 0,
        }
    }

    /// The entry is what the rule `pattern -> variant` compiles to.
    pub open spec fn compiled_from(&self, pattern: Seq<char>, variant: u32) -> bool {
        &&& self.condition matches Condition::Regex(p) && p@ == anchored(pattern)
        &&& self.priority == specificity(anchored(pattern))
        &&& self.variant == Some(variant)
    }
}

/// Every rule of the list carries the priority that its condition calls for.
pub open spec fn all_ranked(rules: Seq<ConditionEntry>) -> bool {
    forall|i: int| 0 <= i < rules.len() ==> (#[trigger] rules[i]).ranked()
}

/// Priorities never fall from one rule of the list to the next.
pub open spec fn sorted_by_priority(rules: Seq<ConditionEntry>) -> bool {
    forall|i: int, j: int|
        0 <= i < j < rules.len() ==> (#[trigger] rules[i]).priority <= (#[trigger] rules[j]).priority
}

/// Rule `a` of `source` is tried before rule `b`: it is more specific, or as
/// specific and declared earlier.
pub open spec fn comes_before(source: Seq<ConditionEntry>, a: int, b: int) -> bool {
    source[a].priority < source[b].priority || (source[a].priority == source[b].priority && a < b)
}

/// `sorted` holds the rules of `source` in the order in which they are tried,
/// and `perm[i]` is the place in `source` of the rule at place `i` of `sorted`.
pub open spec fn is_stable_sort(
    perm: Seq<int>,
    source: Seq<ConditionEntry>,
    sorted: Seq<ConditionEntry>,
) -> bool {
    &&& perm.len() == source.len()
    &&& sorted.len() == source.len()
    &&& forall|i: int|
        0 <= i < perm.len() ==> 0 <= #[trigger] perm[i] < source.len() && sorted[i] == source[perm[i]]
    &&& forall|i: int, j: int|
        0 <= i < j < perm.len() ==> comes_before(source, #[trigger] perm[i], #[trigger] perm[j])
}

/// Rule `i` is the first of the list whose condition holds of the triple.
pub open spec fn is_first_match(
    rules: Seq<ConditionEntry>,
    i: int,
    ini: int,
    mid: int,
    fin: int,
) -> bool {
    &&& 0 <= i < rules.len()
    &&& rules[i].condition.spec_matches(ini, mid, fin)
    &&& forall|j: int| 0 <= j < i ==> !(#[trigger] rules[j]).condition.spec_matches(ini, mid, fin)
}

/// The variant that a rule list picks for a triple: that of the first rule
/// whose condition holds, and none where no rule's does.
pub open spec fn resolve(rules: Seq<ConditionEntry>, ini: int, mid: int, fin: int) -> Option<u32> {
    if exists|i: int| is_first_match(rules, i, ini, mid, fin) {
        rules[choose|i: int| is_first_match(rules, i, ini, mid, fin)].variant
    } else {
        None
    }
}

/// The first matching rule decides.
pub proof fn lemma_resolve_first_match(
    rules: Seq<ConditionEntry>,
    i: int,
    ini: int,
    mid: int,
    fin: int,
)
    requires
        is_first_match(rules, i, ini, mid, fin),
    ensures
        resolve(rules, ini, mid, fin) == rules[i].variant,
{
    let k = choose|k: int| is_first_match(rules, k, ini, mid, fin);
    assert(is_first_match(rules, k, ini, mid, fin));
    if k < i {
        assert(!rules[k].condition.spec_matches(ini, mid, fin));
    } else if i < k {
        assert(!rules[i].condition.spec_matches(ini, mid, fin));
    }
}

/// Where no rule matches, nothing is picked.
pub proof fn lemma_resolve_no_match(rules: Seq<ConditionEntry>, ini: int, mid: int, fin: int)
    requires
        forall|j: int|
            0 <= j < rules.len() ==> !(#[trigger] rules[j]).condition.spec_matches(ini, mid, fin),
    ensures
        resolve(rules, ini, mid, fin) is None,
{
    if exists|i: int| is_first_match(rules, i, ini, mid, fin) {
        let k = choose|k: int| is_first_match(rules, k, ini, mid, fin);
        assert(rules[k].condition.spec_matches(ini, mid, fin));
    }
}

/// The rule list of one jamo of one slot.
pub struct GlyphConfig {
    pub conditions: Vec<ConditionEntry>,
}

impl Default for GlyphConfig {
    /// The list used where a jamo has no configuration: one rule that always
    /// applies and draws nothing.
    fn default() -> (r: Self)
        ensures
            r.conditions@.len() == 1,
            r.conditions@[0].condition is Always,
            r.conditions@[0].priority == 0,
            r.conditions@[0].variant is None,
    {
        let mut conditions: Vec<ConditionEntry> = Vec::new();
        conditions.push(ConditionEntry { condition: Condition::Always, priority: 0, variant: None });
        Self { conditions }
    }
}

impl GlyphConfig {
    /// Compiles the rules `pattern -> variant` of one jamo, in the order
    /// given, and ranks each by the number of triples its pattern matches.
    /// The list is not yet sorted. The first pattern that the regex engine
    /// refuses, as written or between the anchors, ends the work with an
    /// error that names it: no list is made of the other rules.
    pub fn from_rules(rules: &Vec<(String, u32)>) -> (r: Result<GlyphConfig, ConfigError>)
        ensures
            r is Ok <==> forall|i: int|
                0 <= i < rules@.len() ==> rule_compiles((#[trigger] rules@[i]).0@),
            r matches Ok(config) ==> {
                &&& config.conditions@.len() == rules@.len()
                &&& forall|i: int|
                    0 <= i < rules@.len() ==> (#[trigger] config.conditions@[i]).compiled_from(
                        rules@[i].0@,
                        rules@[i].1,
                    )
            },
            r matches Err(e) ==> exists|k: int|
                {
                    &&& 0 <= k < rules@.len()
                    &&& !rule_compiles((#[trigger] rules@[k]).0@)
                    &&& forall|i: int| 0 <= i < k ==> rule_compiles((#[trigger] rules@[i]).0@)
                    &&& e matches ConfigError::BadPattern { pattern, .. } && pattern@ == rules@[k].0@
                },
    {
        let mut conditions: Vec<ConditionEntry> = Vec::new();
        let mut k: usize = 0;
        while k < rules.len()
            invariant
                k <= rules@.len(),
                conditions@.len() == k,
                forall|i: int| 0 <= i < k ==> rule_compiles((#[trigger] rules@[i]).0@),
                forall|i: int|
                    0 <= i < k ==> (#[trigger] conditions@[i]).compiled_from(
                        rules@[i].0@,
                        rules@[i].1,
                    ),
            decreases rules@.len() - k,
        {
            let variant = rules[k].1;
            match compile_anchored(rules[k].0.as_str()) {
                Err(e) => {
                    return Err(e);
                },
                Ok(regex) => {
                    let priority = count_matches(&regex);
                    conditions.push(
                        ConditionEntry {
                            condition: Condition::Regex(regex),
                            priority,
                            variant: Some(variant),
                        },
                    );
                },
            }
            k = k + 1;
        }
        Ok(GlyphConfig { conditions })
    }

    /// Puts the rules in the order in which they are tried: by rising
    /// priority, and rules of one priority in the order they had.
    pub fn sorted(self) -> (r: GlyphConfig)
        ensures
            exists|perm: Seq<int>| is_stable_sort(perm, self.conditions@, r.conditions@),
    {
        let ghost source = self.conditions@;
        let mut rest = self.conditions;
        let mut out: Vec<ConditionEntry> = Vec::new();
        let ghost mut perm: Seq<int> = Seq::empty();
        while rest.len() > 0
            invariant
                rest@ == source.take(rest@.len() as int),
                rest@.len() <= source.len(),
                perm.len() == out@.len(),
                out@.len() + rest@.len() == source.len(),
                forall|i: int|
                    0 <= i < perm.len() ==> rest@.len() <= #[trigger] perm[i] < source.len()
                        && out@[i] == source[perm[i]],
                forall|i: int, j: int|
                    0 <= i < j < perm.len() ==> comes_before(
                        source,
                        #[trigger] perm[i],
                        #[trigger] perm[j],
                    ),
            decreases rest@.len(),
        {
            let ghost at = rest@.len() - 1;
            let entry = rest.pop().unwrap();
            assert(entry == source[at]);
            assert(rest@ =~= source.take(at));
            let mut pos: usize = 0;
            while pos < out.len() && out[pos].priority < entry.priority
                invariant
                    pos <= out@.len(),
                    perm.len() == out@.len(),
                    0 <= at < source.len(),
                    entry == source[at],
                    forall|i: int|
                        0 <= i < perm.len() ==> at < #[trigger] perm[i] < source.len() && out@[i]
                            == source[perm[i]],
                    forall|i: int| 0 <= i < pos ==> (#[trigger] out@[i]).priority < entry.priority,
                decreases out@.len() - pos,
            {
                pos = pos + 1;
            }
            let ghost before = perm;
            let ghost placed = out@;
            out.insert(pos, entry);
            proof {
                perm = before.insert(pos as int, at);
                assert forall|i: int| 0 <= i < perm.len() implies at <= #[trigger] perm[i]
                    < source.len() && out@[i] == source[perm[i]] by {
                    if i < pos {
                        assert(perm[i] == before[i]);
                    } else if i > pos {
                        assert(perm[i] == before[i - 1]);
                    }
                }
                assert forall|i: int, j: int| 0 <= i < j < perm.len() implies comes_before(
                    source,
                    #[trigger] perm[i],
                    #[trigger] perm[j],
                ) by {
                    let a = if i < pos { i } else { i - 1 };
                    let b = if j < pos { j } else { j - 1 };
                    if i == pos as int {
                        // the new rule against a later one: not less specific, declared earlier
                        assert(perm[j] == before[b]);
                        if pos as int != b {
                            assert(comes_before(source, before[pos as int], before[b]));
                        }
                        assert(placed[pos as int] == source[before[pos as int]]);
                    } else if j == pos as int {
                        // an earlier rule against the new one: strictly more specific
                        assert(perm[i] == before[a]);
                        assert(placed[a] == source[before[a]]);
                    } else {
                        assert(perm[i] == before[a]);
                        assert(perm[j] == before[b]);
                        assert(comes_before(source, before[a], before[b]));
                    }
                }
            }
        }
        let r = GlyphConfig { conditions: out };
        proof {
            assert(rest@.len() == 0);
            assert(is_stable_sort(perm, source, r.conditions@));
        }
        r
    }

    /// Finds the variant for a triple: the rules are tried in the order of
    /// the list and the first whose condition holds decides.
    pub fn find_variant(&self, ini: u32, mid: u32, fin: u32) -> (r: Option<u32>)
        ensures
            r == resolve(self.conditions@, ini as int, mid as int, fin as int),
    {
        let mut i: usize = 0;
        while i < self.conditions.len()
            invariant
                i <= self.conditions.len(),
                forall|j: int|
                    0 <= j < i ==> !(#[trigger] self.conditions@[j]).condition.spec_matches(
                        ini as int,
                        mid as int,
                        fin as int,
                    ),
            decreases self.conditions.len() - i,
        {
            if self.conditions[i].condition.matches(ini, mid, fin) {
                proof {
                    lemma_resolve_first_match(
                        self.conditions@,
                        i as int,
                        ini as int,
                        mid as int,
                        fin as int,
                    );
                }
                return self.conditions[i].variant;
            }
            i = i + 1;
        }
        proof {
            lemma_resolve_no_match(self.conditions@, ini as int, mid as int, fin as int);
        }
        None
    }
}

/// `std::path::PathBuf`. The library carries a path along and never looks
/// inside it.
#[verifier::external_type_specification]
#[verifier::external_body]
pub struct ExPathBuf(PathBuf);

/// Settings that hold for the whole workspace.
pub struct GlobalConfig {
    /// Side of a cell of the sprite sheets, in pixels.
    pub size: u32,
    /// Whether to report the slots for which no rule picked a variant.
    pub warn_no_match: bool,
    /// Directory that the output goes to, relative to the workspace.
    pub out_dir: String,
}

/// Cell size used where the configuration names none.
pub fn default_size() -> (r: u32)
    ensures
        r == 16,
{
    16
}

/// Unresolved slots are not reported unless the configuration asks for it.
pub fn default_warn_no_match() -> (r: bool)
    ensures
        !r,
{
    false
}

/// Output directory used where the configuration names none.
pub fn default_out_dir() -> (r: String)
    ensures
        r@ == "dist"@,
{
    "dist".to_owned()
}

impl Default for GlobalConfig {
    fn default() -> (r: Self)
        ensures
            r.size == 16,
            !r.warn_no_match,
            r.out_dir@ == "dist"@,
    {
        Self {
            size: default_size(),
            warn_no_match: default_warn_no_match(),
            out_dir: default_out_dir(),
        }
    }
}

/// `sorted` holds the rules of `source` in the order in which they are tried.
pub open spec fn is_sorted_config(source: GlyphConfig, sorted: GlyphConfig) -> bool {
    exists|perm: Seq<int>| is_stable_sort(perm, source.conditions@, sorted.conditions@)
}

/// `sorted` holds, place by place, the rule lists of `source`, each in the
/// order in which its rules are tried.
pub open spec fn are_sorted_configs(source: Seq<GlyphConfig>, sorted: Seq<GlyphConfig>) -> bool {
    &&& sorted.len() == source.len()
    &&& forall|i: int| 0 <= i < source.len() ==> is_sorted_config(source[i], #[trigger] sorted[i])
}

/// Sorts every rule list of a table.
pub fn sort_configs(configs: Vec<GlyphConfig>) -> (sorted: Vec<GlyphConfig>)
    ensures
        are_sorted_configs(configs@, sorted@),
{
    let ghost source = configs@;
    let mut rest = configs;
    let mut sorted: Vec<GlyphConfig> = Vec::new();
    while rest.len() > 0
        invariant
            sorted@.len() + rest@.len() == source.len(),
            rest@ == source.skip(sorted@.len() as int),
            forall|i: int| 0 <= i < sorted@.len() ==> is_sorted_config(source[i], #[trigger] sorted@[i]),
        decreases rest@.len(),
    {
        let ghost k = sorted@.len() as int;
        let config = rest.remove(0);
        assert(config == source[k]);
        assert(rest@ =~= source.skip(k + 1));
        let done = config.sorted();
        sorted.push(done);
    }
    sorted
}

/// Everything that the composition of the syllables reads: the settings, and
/// for every jamo of every slot its rule list and, where one was drawn, its
/// sprite sheet.
pub struct Workspace {
    pub path: PathBuf,
    pub global_config: GlobalConfig,
    pub ini_configs: Vec<GlyphConfig>,
    pub mid_configs: Vec<GlyphConfig>,
    pub fin_configs: Vec<GlyphConfig>,
    pub ini_glyphs: Vec<Option<SpriteSheet>>,
    pub mid_glyphs: Vec<Option<SpriteSheet>>,
    pub fin_glyphs: Vec<Option<SpriteSheet>>,
}

impl Workspace {
    /// Every table has one entry per jamo of its slot, and a cell fits a glyph.
    pub open spec fn wf(&self) -> bool {
        &&& self.ini_configs@.len() == 19
        &&& self.mid_configs@.len() == 21
        &&& self.fin_configs@.len() == 28
        &&& self.ini_glyphs@.len() == 19
        &&& self.mid_glyphs@.len() == 21
        &&& self.fin_glyphs@.len() == 28
        &&& 1 <= self.global_config.size <= MAX_CELL_SIZE
    }

    /// Puts a workspace together from its parts, sorting every rule list into
    /// the order in which its rules are tried. Tables of the wrong length and
    /// a cell size outside 1..=16 are refused.
    pub fn new(
        path: PathBuf,
        global_config: GlobalConfig,
        ini_configs: Vec<GlyphConfig>,
        mid_configs: Vec<GlyphConfig>,
        fin_configs: Vec<GlyphConfig>,
        ini_glyphs: Vec<Option<SpriteSheet>>,
        mid_glyphs: Vec<Option<SpriteSheet>>,
        fin_glyphs: Vec<Option<SpriteSheet>>,
    ) -> (r: Result<Workspace, ConfigError>)
        ensures
            ({
                let tables = ini_configs@.len() == 19 && mid_configs@.len() == 21 && fin_configs@.len()
                    == 28 && ini_glyphs@.len() == 19 && mid_glyphs@.len() == 21 && fin_glyphs@.len()
                    == 28;
                let cell = 1 <= global_config.size <= MAX_CELL_SIZE;
                &&& r is Ok <==> tables && cell
                &&& r matches Err(e) ==> if !tables {
                    e is TableSize
                } else {
                    e is CellSize
                }
            }),
            r matches Ok(w) ==> {
                &&& w.wf()
                &&& w.path == path
                &&& w.global_config == global_config
                &&& are_sorted_configs(ini_configs@, w.ini_configs@)
                &&& are_sorted_configs(mid_configs@, w.mid_configs@)
                &&& are_sorted_configs(fin_configs@, w.fin_configs@)
                &&& w.ini_glyphs == ini_glyphs
                &&& w.mid_glyphs == mid_glyphs
                &&& w.fin_glyphs == fin_glyphs
            },
    {
        if ini_configs.len() != 19 || mid_configs.len() != 21 || fin_configs.len() != 28
            || ini_glyphs.len() != 19 || mid_glyphs.len() != 21 || fin_glyphs.len() != 28 {
            return Err(ConfigError::TableSize);
        }
        if global_config.size < 1 || global_config.size > MAX_CELL_SIZE {
            return Err(ConfigError::CellSize);
        }
        let ini_configs = sort_configs(ini_configs);
        let mid_configs = sort_configs(mid_configs);
        let fin_configs = sort_configs(fin_configs);
        Ok(
            Workspace {
                path,
                global_config,
                ini_configs,
                mid_configs,
                fin_configs,
                ini_glyphs,
                mid_glyphs,
                fin_glyphs,
            },
        )
    }

    /// Decides whether the workspace is well formed.
    pub fn is_well_formed(&self) -> (b: bool)
        ensures
            b == self.wf(),
    {
        self.ini_configs.len() == 19 && self.mid_configs.len() == 21 && self.fin_configs.len() == 28
            && self.ini_glyphs.len() == 19 && self.mid_glyphs.len() == 21 && self.fin_glyphs.len()
            == 28 && 1 <= self.global_config.size && self.global_config.size <= MAX_CELL_SIZE
    }

    /// The variant of the initial jamo `ini` in the syllable `(ini, mid, fin)`.
    pub fn find_ini_variant(&self, ini: u32, mid: u32, fin: u32) -> (r: Option<u32>)
        requires
            self.wf(),
            ini < 19,
        ensures
            r == resolve(self.ini_configs@[ini as int].conditions@, ini as int, mid as int, fin as int),
    {
        self.ini_configs[ini as usize].find_variant(ini, mid, fin)
    }

    /// The variant of the medial jamo `mid` in the syllable `(ini, mid, fin)`.
    pub fn find_mid_variant(&self, ini: u32, mid: u32, fin: u32) -> (r: Option<u32>)
        requires
            self.wf(),
            mid < 21,
        ensures
            r == resolve(self.mid_configs@[mid as int].conditions@, ini as int, mid as int, fin as int),
    {
        self.mid_configs[mid as usize].find_variant(ini, mid, fin)
    }

    /// The variant of the final jamo `fin` in the syllable `(ini, mid, fin)`.
    pub fn find_fin_variant(&self, ini: u32, mid: u32, fin: u32) -> (r: Option<u32>)
        requires
            self.wf(),
            fin < 28,
        ensures
            r == resolve(self.fin_configs@[fin as int].conditions@, ini as int, mid as int, fin as int),
    {
        self.fin_configs[fin as usize].find_variant(ini, mid, fin)
    }
}

} // verus!
