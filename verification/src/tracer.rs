//! The obfuscation engine: compiled rules applied in severity order, one
//! substitution event per match, and per-rule running statistics.

use vstd::prelude::*;
use vstd::utf8::encode_utf8;
use std::collections::HashMap;
use crate::config::ObfuscationMethod;
use crate::config::RuleV;
use crate::config::TraceRule;
use crate::config::TraceSeverity;
use crate::config::severity_label;
use crate::config::severity_label_string;
use crate::config::severity_rank;
use crate::matcher::Matcher;
use crate::matcher::match_spans;
use crate::matcher::now_nanos;
use crate::matcher::pattern_accepted;
use crate::render::append_hex16;
use crate::render::append_hex8;
use crate::render::hex_chars;
use crate::text::byte_len;
use crate::text::char_index_of;
use crate::text::char_offset;
use crate::text::chars_vec;
use crate::text::is_prefix_boundary;
use crate::text::lemma_byte_len_strict_mono;

verus! {

broadcast use vstd::std_specs::hash::group_hash_axioms;

/// Ghost model of one compiled rule: the effective pattern it matches with,
/// and how its matches are replaced.
#[verifier::ext_equal]
pub struct RuleModel {
    pub name: Seq<char>,
    pub pattern: Seq<char>,
    pub method: ObfuscationMethod,
    pub preserve_chars: Option<usize>,
    pub replacement: Option<Seq<char>>,
    pub severity: TraceSeverity,
}

/// The pattern a rule is compiled with: as written when the rule asks for
/// case sensitivity, prefixed with the case-insensitivity flag otherwise.
pub open spec fn effective_pattern(r: RuleV) -> Seq<char> {
    if r.case_sensitive == Some(true) {
        r.pattern
    } else {
        "(?i)"@ + r.pattern
    }
}

/// The model a declarative rule compiles to.
pub open spec fn compiled_model(r: RuleV) -> RuleModel {
    RuleModel {
        name: r.name,
        pattern: effective_pattern(r),
        method: r.method,
        preserve_chars: r.preserve_chars,
        replacement: r.replacement,
        severity: r.severity,
    }
}

/// The placeholder written over hidden characters.
pub open spec fn placeholder_char() -> char {
    '\u{2588}'
}

/// `c` repeated `n` times.
pub open spec fn repeat_char(c: char, n: nat) -> Seq<char> {
    Seq::new(n, |i: int| c)
}

/// The phantom transform: all placeholders when the value is no longer than
/// twice the preserved count, otherwise the first and last `k` characters
/// kept verbatim around a placeholder run.
pub open spec fn phantom_chars(v: Seq<char>, k: nat) -> Seq<char> {
    if v.len() <= 2 * k {
        repeat_char(placeholder_char(), v.len())
    } else {
        v.take(k as int) + repeat_char(placeholder_char(), (v.len() - 2 * k) as nat) + v.skip(
            (v.len() - k) as int,
        )
    }
}

/// The hash a value is identified by: FNV-1a over its UTF-8 bytes.
pub open spec fn value_hash(v: Seq<char>) -> u32 {
    crate::fnv1a(encode_utf8(v))
}

/// The mirror transform: a constant prefix and the value's hash in eight
/// uppercase hex digits.
pub open spec fn mirror_chars(v: Seq<char>) -> Seq<char> {
    "PHANTOM_"@ + hex_chars(value_hash(v) as int, 8)
}

/// The token minted for a value hash.
pub open spec fn token_of_hash(h: u32) -> Seq<char> {
    "PHANTOM_TOKEN_"@ + hex_chars(h as int, 8)
}

/// The tokenize transform: the token minted for the value's hash.
pub open spec fn token_chars(v: Seq<char>) -> Seq<char> {
    token_of_hash(value_hash(v))
}

/// The mask transform: the configured replacement, or the stock sentinel.
pub open spec fn mask_chars(replacement: Option<Seq<char>>) -> Seq<char> {
    match replacement {
        Some(r) => r,
        None => "[PHANTOMED]"@,
    }
}

/// What a matched value is replaced with, by method.
pub open spec fn transform_chars(
    method: ObfuscationMethod,
    preserve_chars: Option<usize>,
    replacement: Option<Seq<char>>,
    v: Seq<char>,
) -> Seq<char> {
    match method {
        ObfuscationMethod::Phantom => phantom_chars(
            v,
            (match preserve_chars {
                Some(k) => k,
                None => 0usize,
            }) as nat,
        ),
        ObfuscationMethod::Vanish => Seq::<char>::empty(),
        ObfuscationMethod::Mirror => mirror_chars(v),
        ObfuscationMethod::Mask => mask_chars(replacement),
        ObfuscationMethod::Tokenize => token_chars(v),
    }
}

/// What a rule replaces a matched value with.
pub open spec fn rule_transform(m: RuleModel, v: Seq<char>) -> Seq<char> {
    transform_chars(m.method, m.preserve_chars, m.replacement, v)
}

/// The byte spans a rule's matcher finds in `text`.
pub open spec fn rule_spans(m: RuleModel, text: Seq<char>) -> Seq<(int, int)> {
    match_spans(m.pattern, text)
}

/// The text left after replacing the spans from index `j` on, `prev` being
/// the character index up to which output has been emitted.
pub open spec fn splice_from(
    m: RuleModel,
    text: Seq<char>,
    spans: Seq<(int, int)>,
    j: int,
    prev: int,
) -> Seq<char>
    decreases spans.len() - j,
{
    if j < 0 || j >= spans.len() {
        text.skip(prev)
    } else {
        let cs = char_index_of(text, spans[j].0);
        let ce = char_index_of(text, spans[j].1);
        text.subrange(prev, cs) + rule_transform(m, text.subrange(cs, ce)) + splice_from(
            m,
            text,
            spans,
            j + 1,
            ce,
        )
    }
}

/// One pass of a single rule over `text`.
pub open spec fn pass_output(m: RuleModel, text: Seq<char>) -> Seq<char> {
    splice_from(m, text, rule_spans(m, text), 0, 0)
}

/// Ghost model of one substitution event, before its identifier is drawn.
#[verifier::ext_equal]
pub struct EventModel {
    pub rule_name: Seq<char>,
    pub severity: TraceSeverity,
    pub original: Seq<char>,
    pub phantom: Seq<char>,
    pub span: (int, int),
}

/// The event recorded for the `j`-th match of a rule's pass.
pub open spec fn event_at(m: RuleModel, text: Seq<char>, j: int) -> EventModel {
    let sp = rule_spans(m, text)[j];
    let cs = char_index_of(text, sp.0);
    let ce = char_index_of(text, sp.1);
    EventModel {
        rule_name: m.name,
        severity: m.severity,
        original: text.subrange(cs, ce),
        phantom: rule_transform(m, text.subrange(cs, ce)),
        span: sp,
    }
}

/// The events of one rule's pass, in match order.
pub open spec fn pass_events(m: RuleModel, text: Seq<char>) -> Seq<EventModel> {
    Seq::new(rule_spans(m, text).len(), |j: int| event_at(m, text, j))
}

/// The indices `0 .. n`, in order.
pub open spec fn index_seq(n: nat) -> Seq<int> {
    Seq::new(n, |i: int| i)
}

/// Whether a rule index has severity rank `r`.
pub open spec fn rank_pred(rules: Seq<RuleModel>, r: int) -> spec_fn(int) -> bool {
    |t: int| severity_rank(rules[t].severity) == r
}

/// The order rules are applied in: by severity rank, declaration order
/// within a rank.
pub open spec fn sorted_order(rules: Seq<RuleModel>) -> Seq<int> {
    let idx = index_seq(rules.len());
    idx.filter(rank_pred(rules, 0)) + idx.filter(rank_pred(rules, 1)) + idx.filter(
        rank_pred(rules, 2),
    ) + idx.filter(rank_pred(rules, 3))
}

/// The application order restricted to the severity ranks below `r`.
pub open spec fn order_prefix(rules: Seq<RuleModel>, r: int) -> Seq<int>
    decreases r,
{
    if r <= 0 {
        Seq::<int>::empty()
    } else {
        order_prefix(rules, r - 1) + index_seq(rules.len()).filter(rank_pred(rules, r - 1))
    }
}

/// The text after the passes from position `k` of the order on.
pub open spec fn multi_pass(
    rules: Seq<RuleModel>,
    order: Seq<int>,
    k: int,
    text: Seq<char>,
) -> Seq<char>
    decreases order.len() - k,
{
    if k < 0 || k >= order.len() {
        text
    } else {
        multi_pass(rules, order, k + 1, pass_output(rules[order[k]], text))
    }
}

/// The events of the passes from position `k` of the order on, concatenated
/// in application order.
pub open spec fn multi_events(
    rules: Seq<RuleModel>,
    order: Seq<int>,
    k: int,
    text: Seq<char>,
) -> Seq<EventModel>
    decreases order.len() - k,
{
    if k < 0 || k >= order.len() {
        Seq::<EventModel>::empty()
    } else {
        pass_events(rules[order[k]], text) + multi_events(
            rules,
            order,
            k + 1,
            pass_output(rules[order[k]], text),
        )
    }
}

/// Addition on `u64` that sticks at the maximum instead of overflowing.
pub open spec fn sat_add64(a: u64, b: u64) -> u64 {
    if a + b > u64::MAX {
        u64::MAX
    } else {
        (a + b) as u64
    }
}

/// Whether a rule's pass changed the text.
pub open spec fn pass_changed(m: RuleModel, text: Seq<char>) -> bool {
    pass_output(m, text) != text
}

/// The characters a pass removed, clamped at zero for expanding methods.
pub open spec fn pass_delta(m: RuleModel, text: Seq<char>) -> u64 {
    if pass_output(m, text).len() < text.len() {
        (text.len() - pass_output(m, text).len()) as u64
    } else {
        0u64
    }
}

/// One pass's effect on a rule's counter pair (substitution passes,
/// characters removed).
pub open spec fn counters_step(c: (u64, u64), m: RuleModel, text: Seq<char>) -> (u64, u64) {
    if pass_changed(m, text) {
        (sat_add64(c.0, 1), sat_add64(c.1, pass_delta(m, text)))
    } else {
        c
    }
}

/// All rules' counter pairs after the passes from position `k` on.
pub open spec fn counters_after(
    rules: Seq<RuleModel>,
    order: Seq<int>,
    k: int,
    text: Seq<char>,
    cs: Seq<(u64, u64)>,
) -> Seq<(u64, u64)>
    decreases order.len() - k,
{
    if k < 0 || k >= order.len() {
        cs
    } else {
        counters_after(
            rules,
            order,
            k + 1,
            pass_output(rules[order[k]], text),
            cs.update(order[k], counters_step(cs[order[k]], rules[order[k]], text)),
        )
    }
}

/// Filtering keeps every element within the bounds the source obeyed.
proof fn lemma_filter_in_range(s: Seq<int>, pred: spec_fn(int) -> bool, lo: int, hi: int)
    requires
        forall|i: int| 0 <= i < s.len() ==> lo <= #[trigger] s[i] < hi,
    ensures
        forall|j: int| 0 <= j < s.filter(pred).len() ==> lo <= #[trigger] s.filter(pred)[j] < hi,
    decreases s.len(),
{
    reveal(Seq::filter);
    if s.len() > 0 {
        assert(forall|i: int|
            0 <= i < s.drop_last().len() ==> lo <= #[trigger] s.drop_last()[i] < hi);
        lemma_filter_in_range(s.drop_last(), pred, lo, hi);
        assert forall|j: int| 0 <= j < s.filter(pred).len() implies lo <= #[trigger] s.filter(
            pred,
        )[j] < hi by {
            if j < s.drop_last().filter(pred).len() {
                assert(s.filter(pred)[j] == s.drop_last().filter(pred)[j]);
            } else {
                assert(s.filter(pred)[j] == s.last());
            }
        }
    }
}

/// Every position in the application order names a rule.
pub proof fn lemma_sorted_order_bounds(rules: Seq<RuleModel>)
    ensures
        forall|t: int|
            0 <= t < sorted_order(rules).len() ==> 0 <= #[trigger] sorted_order(rules)[t]
                < rules.len(),
{
    let idx = index_seq(rules.len());
    assert(forall|i: int| 0 <= i < idx.len() ==> 0 <= #[trigger] idx[i] < rules.len());
    lemma_filter_in_range(idx, rank_pred(rules, 0), 0, rules.len() as int);
    lemma_filter_in_range(idx, rank_pred(rules, 1), 0, rules.len() as int);
    lemma_filter_in_range(idx, rank_pred(rules, 2), 0, rules.len() as int);
    lemma_filter_in_range(idx, rank_pred(rules, 3), 0, rules.len() as int);
    assert forall|t: int| 0 <= t < sorted_order(rules).len() implies 0 <= #[trigger] sorted_order(
        rules,
    )[t] < rules.len() by {
        let f0 = idx.filter(rank_pred(rules, 0));
        let f1 = idx.filter(rank_pred(rules, 1));
        let f2 = idx.filter(rank_pred(rules, 2));
        let f3 = idx.filter(rank_pred(rules, 3));
        assert(sorted_order(rules) == f0 + f1 + f2 + f3);
        if t < f0.len() {
            assert(sorted_order(rules)[t] == f0[t]);
        } else if t < f0.len() + f1.len() {
            assert(sorted_order(rules)[t] == f1[t - f0.len()]);
        } else if t < f0.len() + f1.len() + f2.len() {
            assert(sorted_order(rules)[t] == f2[t - f0.len() - f1.len()]);
        } else {
            assert(sorted_order(rules)[t] == f3[t - f0.len() - f1.len() - f2.len()]);
        }
    }
}

/// Applying passes never changes how many counter pairs there are.
pub proof fn lemma_counters_after_len(
    rules: Seq<RuleModel>,
    order: Seq<int>,
    k: int,
    text: Seq<char>,
    cs: Seq<(u64, u64)>,
)
    requires
        forall|t: int| k <= t < order.len() ==> 0 <= #[trigger] order[t] < cs.len(),
    ensures
        counters_after(rules, order, k, text, cs).len() == cs.len(),
    decreases order.len() - k,
{
    if 0 <= k < order.len() {
        lemma_counters_after_len(
            rules,
            order,
            k + 1,
            pass_output(rules[order[k]], text),
            cs.update(order[k], counters_step(cs[order[k]], rules[order[k]], text)),
        );
    }
}

/// Whether rule `i`'s pass, somewhere in the passes from position `k` on,
/// changed the text.
pub open spec fn rule_touched(
    rules: Seq<RuleModel>,
    order: Seq<int>,
    k: int,
    text: Seq<char>,
    i: int,
) -> bool
    decreases order.len() - k,
{
    if k < 0 || k >= order.len() {
        false
    } else {
        (order[k] == i && pass_changed(rules[order[k]], text)) || rule_touched(
            rules,
            order,
            k + 1,
            pass_output(rules[order[k]], text),
            i,
        )
    }
}

/// The bookkeeping relation of the engine's main loop: a rule changed the
/// text somewhere in the whole run exactly when it is already marked in
/// `touched` or its pass is still to come from position `k` on.
pub open spec fn touched_matches(
    rules: Seq<RuleModel>,
    order: Seq<int>,
    k: int,
    cur: Seq<char>,
    text: Seq<char>,
    touched: Seq<bool>,
) -> bool {
    forall|i: int|
        #![trigger touched[i]]
        #![trigger rule_touched(rules, order, 0, text, i)]
        0 <= i < rules.len() ==> rule_touched(rules, order, 0, text, i) == (touched[i]
            || rule_touched(rules, order, k, cur, i))
}

/// One pass keeps the bookkeeping relation: marking the rule that ran when
/// its pass changed the text accounts exactly for the step from `k` to
/// `k + 1`.
#[verifier::rlimit(30)]
proof fn lemma_touched_step(
    rules: Seq<RuleModel>,
    order: Seq<int>,
    k: int,
    cur: Seq<char>,
    text: Seq<char>,
    old_touched: Seq<bool>,
    new_touched: Seq<bool>,
    ri: int,
    changed: bool,
)
    requires
        0 <= k < order.len(),
        order[k] == ri,
        0 <= ri < rules.len(),
        changed == pass_changed(rules[ri], cur),
        touched_matches(rules, order, k, cur, text, old_touched),
        old_touched.len() == rules.len(),
        new_touched == if changed {
            old_touched.update(ri, true)
        } else {
            old_touched
        },
    ensures
        touched_matches(rules, order, k + 1, pass_output(rules[ri], cur), text, new_touched),
{
    assert forall|i: int| 0 <= i < rules.len() implies rule_touched(rules, order, 0, text, i) == (
    #[trigger] new_touched[i] || rule_touched(
        rules,
        order,
        k + 1,
        pass_output(rules[ri], cur),
        i,
    )) by {
        assert(touched_matches(rules, order, k, cur, text, old_touched));
        assert(rule_touched(rules, order, 0, text, i) == (old_touched[i] || rule_touched(
            rules,
            order,
            k,
            cur,
            i,
        )));
        assert(rule_touched(rules, order, k, cur, i) == ((order[k] == i && pass_changed(
            rules[ri],
            cur,
        )) || rule_touched(rules, order, k + 1, pass_output(rules[ri], cur), i)));
        if changed {
            if i == ri {
                assert(new_touched[i]);
            } else {
                assert(new_touched[i] == old_touched[i]);
            }
        }
    }
}

/// Counted triggered rules never exceed the prefix length.
pub proof fn lemma_count_triggered_bound(ss: Seq<StatsV>, n: int)
    ensures
        0 <= count_triggered(ss, n) <= (if n >= 0 {
            n
        } else {
            0
        }),
    decreases n,
{
    if n > 0 {
        lemma_count_triggered_bound(ss, n - 1);
    }
}

/// A trace identifier: a constant prefix and a 64-bit reading in sixteen
/// uppercase hex digits.
pub open spec fn trace_id_chars(t: u64) -> Seq<char> {
    "TRACE_"@ + hex_chars(t as int, 16)
}

/// Whether `s` has the shape of a trace identifier.
pub open spec fn is_trace_id(s: Seq<char>) -> bool {
    exists|t: u64| s == trace_id_chars(t)
}

/// Per-rule running statistics.
#[derive(Debug)]
pub struct TraceStats {
    /// Passes of this rule that changed the text, not individual matches.
    pub phantoms_created: u64,
    /// Net characters removed by this rule's passes, clamped at zero for
    /// passes where the replacement expanded the text.
    pub characters_traced: u64,
    /// The rule's severity label, the aggregation key for reports.
    pub severity_level: String,
    /// Wall-clock nanoseconds of the first pass that changed the text.
    pub first_trace: Option<u64>,
    /// Wall-clock nanoseconds of the latest pass that changed the text.
    pub last_trace: Option<u64>,
}

/// Ghost view of [`TraceStats`].
#[verifier::ext_equal]
pub struct StatsV {
    pub phantoms_created: u64,
    pub characters_traced: u64,
    pub severity_level: Seq<char>,
    pub first_trace: Option<u64>,
    pub last_trace: Option<u64>,
}

impl View for TraceStats {
    type V = StatsV;

    open spec fn view(&self) -> StatsV {
        StatsV {
            phantoms_created: self.phantoms_created,
            characters_traced: self.characters_traced,
            severity_level: self.severity_level@,
            first_trace: self.first_trace,
            last_trace: self.last_trace,
        }
    }
}

impl Clone for TraceStats {
    /// A copy with the same contents.
    fn clone(&self) -> (c: Self)
        ensures
            c@ == self@,
    {
        TraceStats {
            phantoms_created: self.phantoms_created,
            characters_traced: self.characters_traced,
            severity_level: self.severity_level.clone(),
            first_trace: self.first_trace,
            last_trace: self.last_trace,
        }
    }
}

/// One substitution, recorded for audit.
#[derive(Debug)]
pub struct PhantomEvent {
    pub rule_name: String,
    pub severity: TraceSeverity,
    pub original_value: String,
    pub phantom_value: String,
    /// Half-open byte span of the match, within the text as it stood when
    /// this rule's pass ran (earlier passes may already have reshaped it).
    pub position: (usize, usize),
    /// Fresh identifier, unique up to clock resolution.
    pub trace_id: String,
}

/// Ghost view of a [`PhantomEvent`].
#[verifier::ext_equal]
pub struct EventV {
    pub rule_name: Seq<char>,
    pub severity: TraceSeverity,
    pub original_value: Seq<char>,
    pub phantom_value: Seq<char>,
    pub position: (int, int),
    pub trace_id: Seq<char>,
}

impl View for PhantomEvent {
    type V = EventV;

    open spec fn view(&self) -> EventV {
        EventV {
            rule_name: self.rule_name@,
            severity: self.severity,
            original_value: self.original_value@,
            phantom_value: self.phantom_value@,
            position: (self.position.0 as int, self.position.1 as int),
            trace_id: self.trace_id@,
        }
    }
}

impl Clone for PhantomEvent {
    /// A copy with the same contents.
    fn clone(&self) -> (c: Self)
        ensures
            c@ == self@,
    {
        PhantomEvent {
            rule_name: self.rule_name.clone(),
            severity: self.severity,
            original_value: self.original_value.clone(),
            phantom_value: self.phantom_value.clone(),
            position: self.position,
            trace_id: self.trace_id.clone(),
        }
    }
}

/// Whether a recorded event carries exactly the data of its model, plus a
/// well-formed identifier.
pub open spec fn event_matches(e: EventV, m: EventModel) -> bool {
    &&& e.rule_name == m.rule_name
    &&& e.severity == m.severity
    &&& e.original_value == m.original
    &&& e.phantom_value == m.phantom
    &&& e.position == m.span
    &&& is_trace_id(e.trace_id)
}

/// Whether a recorded event sequence carries exactly its models.
pub open spec fn events_match(es: Seq<EventV>, ms: Seq<EventModel>) -> bool {
    es.len() == ms.len() && forall|j: int| 0 <= j < es.len() ==> event_matches(es[j], ms[j])
}

/// Matching event sequences concatenate.
pub proof fn lemma_events_match_concat(
    e1: Seq<PhantomEvent>,
    e2: Seq<PhantomEvent>,
    m1: Seq<EventModel>,
    m2: Seq<EventModel>,
)
    requires
        events_match(e1.map_values(|e: PhantomEvent| e@), m1),
        events_match(e2.map_values(|e: PhantomEvent| e@), m2),
    ensures
        events_match((e1 + e2).map_values(|e: PhantomEvent| e@), m1 + m2),
{
    let f = |e: PhantomEvent| e@;
    assert((e1 + e2).map_values(f) =~= e1.map_values(f) + e2.map_values(f));
    assert forall|j: int| 0 <= j < (e1 + e2).len() implies event_matches(
        (e1 + e2).map_values(f)[j],
        (m1 + m2)[j],
    ) by {
        if j < e1.len() {
            assert((e1 + e2).map_values(f)[j] == e1.map_values(f)[j]);
            assert((m1 + m2)[j] == m1[j]);
        } else {
            assert((e1 + e2).map_values(f)[j] == e2.map_values(f)[j - e1.len()]);
            assert((m1 + m2)[j] == m2[j - m1.len()]);
        }
    }
}

/// Why a rule set could not be compiled.
#[derive(Debug)]
pub enum CompileError {
    /// A rule's pattern is not a valid regular expression; the message is
    /// the matcher's own.
    InvalidPattern { rule_name: String, message: String },
    /// Two rules share a name.
    DuplicateRuleName { rule_name: String },
}

/// The rules before index `j` compile and have pairwise distinct names.
pub open spec fn prefix_ok(rs: Seq<RuleV>, j: int) -> bool {
    &&& forall|i: int| 0 <= i < j ==> pattern_accepted(effective_pattern(#[trigger] rs[i]))
    &&& forall|a: int, b: int| 0 <= a < b < j ==> rs[a].name != rs[b].name
}

/// One compiled rule.
struct CompiledTraceRule {
    name: String,
    matcher: Matcher,
    method: ObfuscationMethod,
    preserve_chars: Option<usize>,
    replacement: Option<String>,
    severity: TraceSeverity,
}

impl CompiledTraceRule {
    /// The ghost model of this rule.
    pub closed spec fn model(&self) -> RuleModel {
        RuleModel {
            name: self.name@,
            pattern: self.matcher.pattern_view(),
            method: self.method,
            preserve_chars: self.preserve_chars,
            replacement: match self.replacement {
                Some(ref s) => Some(s@),
                None => None,
            },
            severity: self.severity,
        }
    }
}

/// The engine: compiled rules, their running statistics, and the token
/// memory that keeps `Tokenize` consistent within this instance's lifetime.
pub struct PhantomTracer {
    compiled_rules: Vec<CompiledTraceRule>,
    trace_stats: Vec<TraceStats>,
    phantom_tokens: HashMap<u32, String>,
}

impl PhantomTracer {
    /// The models of the compiled rules, in declaration order.
    pub closed spec fn rules_model(&self) -> Seq<RuleModel> {
        self.compiled_rules@.map_values(|r: CompiledTraceRule| r.model())
    }

    /// The per-rule statistics, in declaration order.
    pub closed spec fn stats_view(&self) -> Seq<StatsV> {
        self.trace_stats@.map_values(|s: TraceStats| s@)
    }

    /// The token memory holds only tokens minted for their own hash.
    pub closed spec fn tokens_wf(&self) -> bool {
        forall|h: u32|
            self.phantom_tokens@.contains_key(h) ==> (#[trigger] self.phantom_tokens@[h])@
                == token_of_hash(h)
    }

    /// The token memory is empty.
    pub closed spec fn no_tokens(&self) -> bool {
        self.phantom_tokens@.is_empty()
    }

    /// Internal consistency: one statistics entry per rule, carrying the
    /// rule's severity label, and a well-formed token memory.
    pub closed spec fn wf(&self) -> bool {
        &&& self.trace_stats@.len() == self.compiled_rules@.len()
        &&& forall|i: int|
            0 <= i < self.compiled_rules@.len() ==> (#[trigger] self.stats_view()[i]).severity_level
                == severity_label(self.rules_model()[i].severity)
        &&& self.tokens_wf()
    }

    /// A well-formed engine keeps one statistics entry per rule.
    pub proof fn lemma_stats_len(&self)
        requires
            self.wf(),
        ensures
            self.stats_view().len() == self.rules_model().len(),
    {
    }

    /// Compiles a rule set.  Construction is all-or-nothing: the first rule
    /// with a duplicated name or an invalid pattern aborts it.
    pub fn new(rules: &Vec<TraceRule>) -> (r: Result<PhantomTracer, CompileError>)
        ensures
            ({
                let rs = rules@.map_values(|t: TraceRule| t@);
                &&& (r is Ok <==> prefix_ok(rs, rs.len() as int))
                &&& (r matches Ok(t) ==> {
                    &&& t.wf()
                    &&& t.rules_model() == rs.map_values(|v: RuleV| compiled_model(v))
                    &&& t.stats_view().len() == rs.len()
                    &&& (forall|i: int|
                        0 <= i < rs.len() ==> #[trigger] t.stats_view()[i] == (StatsV {
                            phantoms_created: 0u64,
                            characters_traced: 0u64,
                            severity_level: severity_label(rs[i].severity),
                            first_trace: None,
                            last_trace: None,
                        }))
                    &&& t.no_tokens()
                })
                &&& (r matches Err(e) ==> exists|j: int|
                    0 <= j < rs.len() && #[trigger] prefix_ok(rs, j) && (match e {
                        CompileError::DuplicateRuleName { rule_name } => rule_name@ == rs[j].name
                            && (exists|a: int| 0 <= a < j && (#[trigger] rs[a]).name == rs[j].name),
                        CompileError::InvalidPattern { rule_name, message } => rule_name@
                            == rs[j].name && !pattern_accepted(effective_pattern(rs[j])) && (
                        forall|a: int| 0 <= a < j ==> (#[trigger] rs[a]).name != rs[j].name),
                    }))
            }),
    {
        let ghost rs = rules@.map_values(|t: TraceRule| t@);
        let mut compiled: Vec<CompiledTraceRule> = Vec::new();
        let mut stats: Vec<TraceStats> = Vec::new();
        let n = rules.len();
        let mut j: usize = 0;
        while j < n
            invariant
                n == rules@.len(),
                rs == rules@.map_values(|t: TraceRule| t@),
                0 <= j <= n,
                compiled@.len() == j,
                stats@.len() == j,
                prefix_ok(rs, j as int),
                forall|i: int|
                    0 <= i < j ==> (#[trigger] compiled@[i]).model() == compiled_model(rs[i]),
                forall|i: int|
                    0 <= i < j ==> (#[trigger] stats@[i])@ == (StatsV {
                        phantoms_created: 0u64,
                        characters_traced: 0u64,
                        severity_level: severity_label(rs[i].severity),
                        first_trace: None,
                        last_trace: None,
                    }),
            decreases n - j,
        {
            let rule = &rules[j];
            let mut a: usize = 0;
            while a < compiled.len()
                invariant
                    0 <= a <= compiled@.len(),
                    compiled@.len() == j,
                    j < n == rules@.len(),
                    rs == rules@.map_values(|t: TraceRule| t@),
                    rule == &rules[j as int],
                    prefix_ok(rs, j as int),
                    forall|i: int|
                        0 <= i < j ==> (#[trigger] compiled@[i]).model() == compiled_model(rs[i]),
                    forall|i: int| 0 <= i < a ==> (#[trigger] rs[i]).name != rs[j as int].name,
                decreases compiled@.len() - a,
            {
                if compiled[a].name == rule.name {
                    proof {
                        assert(rs[j as int] == rules@[j as int]@);
                        assert(compiled@[a as int].model() == compiled_model(rs[a as int]));
                        assert(rs[a as int].name == rs[j as int].name);
                        assert(prefix_ok(rs, j as int));
                        assert(!prefix_ok(rs, rs.len() as int));
                    }
                    return Err(
                        CompileError::DuplicateRuleName { rule_name: rule.name.clone() },
                    );
                }
                a = a + 1;
            }
            let eff: String = match rule.case_sensitive {
                Some(true) => rule.pattern.clone(),
                _ => {
                    let mut p = String::from_str("(?i)");
                    p.append(rule.pattern.as_str());
                    p
                },
            };
            proof {
                assert(eff@ == effective_pattern(rs[j as int]));
            }
            match Matcher::compile(&eff) {
                Err(message) => {
                    proof {
                        assert(rs[j as int] == rules@[j as int]@);
                        assert(!pattern_accepted(effective_pattern(rs[j as int])));
                        assert(prefix_ok(rs, j as int));
                        assert(!prefix_ok(rs, rs.len() as int));
                    }
                    return Err(
                        CompileError::InvalidPattern { rule_name: rule.name.clone(), message },
                    );
                },
                Ok(matcher) => {
                    compiled.push(
                        CompiledTraceRule {
                            name: rule.name.clone(),
                            matcher,
                            method: rule.method,
                            preserve_chars: rule.preserve_chars,
                            replacement: match &rule.replacement {
                                Some(s) => Some(s.clone()),
                                None => None,
                            },
                            severity: rule.severity,
                        },
                    );
                    stats.push(
                        TraceStats {
                            phantoms_created: 0,
                            characters_traced: 0,
                            severity_level: severity_label_string(&rule.severity),
                            first_trace: None,
                            last_trace: None,
                        },
                    );
                },
            }
            j = j + 1;
        }
        let t = PhantomTracer {
            compiled_rules: compiled,
            trace_stats: stats,
            phantom_tokens: HashMap::new(),
        };
        proof {
            assert(t.rules_model() =~= rs.map_values(|v: RuleV| compiled_model(v)));
            assert(t.phantom_tokens@.is_empty());
        }
        Ok(t)
    }

    /// Zeroes every rule's counters, keeping its severity label, and clears
    /// the token memory.  The compiled rules are untouched.
    pub fn reset_traces(&mut self)
        requires
            old(self).wf(),
        ensures
            final(self).wf(),
            final(self).rules_model() == old(self).rules_model(),
            final(self).stats_view().len() == old(self).stats_view().len(),
            forall|i: int|
                0 <= i < final(self).stats_view().len() ==> #[trigger] final(self).stats_view()[i]
                    == (StatsV {
                    phantoms_created: 0u64,
                    characters_traced: 0u64,
                    severity_level: old(self).stats_view()[i].severity_level,
                    first_trace: None,
                    last_trace: None,
                }),
            final(self).no_tokens(),
    {
        let n = self.trace_stats.len();
        let mut i: usize = 0;
        while i < n
            invariant
                n == self.trace_stats@.len(),
                0 <= i <= n,
                self.compiled_rules == old(self).compiled_rules,
                self.phantom_tokens == old(self).phantom_tokens,
                self.trace_stats@.len() == old(self).trace_stats@.len(),
                forall|k: int|
                    i <= k < n ==> #[trigger] self.trace_stats@[k]@ == old(self).stats_view()[k],
                forall|k: int|
                    0 <= k < i ==> #[trigger] self.trace_stats@[k]@ == (StatsV {
                        phantoms_created: 0u64,
                        characters_traced: 0u64,
                        severity_level: old(self).stats_view()[k].severity_level,
                        first_trace: None,
                        last_trace: None,
                    }),
            decreases n - i,
        {
            let label = self.trace_stats[i].severity_level.clone();
            proof {
                assert(self.trace_stats@[i as int]@ == old(self).stats_view()[i as int]);
                assert(label@ == old(self).stats_view()[i as int].severity_level);
            }
            self.trace_stats[i] = TraceStats {
                phantoms_created: 0,
                characters_traced: 0,
                severity_level: label,
                first_trace: None,
                last_trace: None,
            };
            proof {
                assert(self.trace_stats@[i as int]@ =~= (StatsV {
                    phantoms_created: 0u64,
                    characters_traced: 0u64,
                    severity_level: old(self).stats_view()[i as int].severity_level,
                    first_trace: None,
                    last_trace: None,
                }));
            }
            i = i + 1;
        }
        self.phantom_tokens.clear();
    }

    /// The application order: indices of the compiled rules, severest rank
    /// first, declaration order within a rank.
    #[verifier::loop_isolation(false)]
    fn sorted_indices(&self) -> (order: Vec<usize>)
        ensures
            order@.map_values(|u: usize| u as int) == sorted_order(self.rules_model()),
            forall|k: int|
                0 <= k < order@.len() ==> (#[trigger] order@[k]) < self.compiled_rules@.len(),
    {
        let ghost rules = self.rules_model();
        let ghost idx = index_seq(rules.len());
        let n = self.compiled_rules.len();
        let mut order: Vec<usize> = Vec::new();
        let ghost mut acc: Seq<int> = Seq::<int>::empty();
        let mut r: usize = 0;
        while r < 4
            invariant
                0 <= r <= 4,
                order@.map_values(|u: usize| u as int) == acc,
                forall|k: int| 0 <= k < order@.len() ==> (#[trigger] order@[k]) < n,
                acc =~= order_prefix(rules, r as int),
            decreases 4 - r,
        {
            let mut i: usize = 0;
            let ghost sweep_base = acc;
            while i < n
                invariant
                    0 <= i <= n,
                    order@.map_values(|u: usize| u as int) == acc,
                    forall|k: int| 0 <= k < order@.len() ==> (#[trigger] order@[k]) < n,
                    acc =~= sweep_base + idx.take(i as int).filter(rank_pred(rules, r as int)),
                decreases n - i,
            {
                let rk: usize = match self.compiled_rules[i].severity {
                    TraceSeverity::Critical => 0,
                    TraceSeverity::High => 1,
                    TraceSeverity::Medium => 2,
                    TraceSeverity::Low => 3,
                };
                proof {
                    reveal(Seq::filter);
                    assert(self.compiled_rules@[i as int].model() == rules[i as int]);
                    assert(rk as int == severity_rank(rules[i as int].severity));
                    assert(idx.take(i as int + 1).drop_last() =~= idx.take(i as int));
                    assert(idx.take(i as int + 1).last() == i as int);
                }
                if rk == r {
                    order.push(i);
                    proof {
                        acc = acc.push(i as int);
                        assert(order@.map_values(|u: usize| u as int) =~= acc);
                        assert(acc =~= sweep_base + idx.take(i as int + 1).filter(
                            rank_pred(rules, r as int),
                        ));
                    }
                } else {
                    proof {
                        assert(idx.take(i as int + 1).filter(rank_pred(rules, r as int))
                            =~= idx.take(i as int).filter(rank_pred(rules, r as int)));
                    }
                }
                i = i + 1;
            }
            proof {
                assert(idx.take(n as int) =~= idx);
                assert(acc =~= order_prefix(rules, r as int + 1));
            }
            r = r + 1;
        }
        proof {
            reveal_with_fuel(order_prefix, 5);
            assert(order_prefix(rules, 4) =~= sorted_order(rules));
        }
        order
    }

    /// One rule's pass: finds the matches in `current`, builds the new text
    /// with each match replaced, and records one event per match.
    #[verifier::loop_isolation(false)]
    #[verifier::spinoff_prover]
    fn apply_pass(&mut self, ri: usize, current: &String, events: &mut Vec<PhantomEvent>) -> (out:
        String)
        requires
            old(self).tokens_wf(),
            ri < old(self).compiled_rules@.len(),
        ensures
            final(self).tokens_wf(),
            final(self).compiled_rules == old(self).compiled_rules,
            final(self).trace_stats == old(self).trace_stats,
            out@ == pass_output(old(self).rules_model()[ri as int], current@),
            final(events)@.len() == old(events)@.len() + pass_events(
                old(self).rules_model()[ri as int],
                current@,
            ).len(),
            forall|t: int|
                0 <= t < old(events)@.len() ==> final(events)@[t] == old(events)@[t],
            forall|t: int|
                0 <= t < pass_events(old(self).rules_model()[ri as int], current@).len()
                    ==> event_matches(
                    final(events)@[old(events)@.len() + t]@,
                    pass_events(old(self).rules_model()[ri as int], current@)[t],
                ),
    {
        let ghost m = old(self).rules_model()[ri as int];
        let ghost textS = current@;
        let chars = chars_vec(current.as_str());
        let bspans = self.compiled_rules[ri].matcher.find_spans(current.as_str());
        let rname = self.compiled_rules[ri].name.clone();
        let method = self.compiled_rules[ri].method;
        let preserve = self.compiled_rules[ri].preserve_chars;
        let replacement: Option<String> = match &self.compiled_rules[ri].replacement {
            Some(s) => Some(s.clone()),
            None => None,
        };
        let severity = self.compiled_rules[ri].severity;
        let ghost spansS = rule_spans(m, textS);
        proof {
            assert(self.compiled_rules@[ri as int].model() == m);
            assert(bspans@.map_values(|p: (usize, usize)| (p.0 as int, p.1 as int)) == spansS);
            assert(rname@ == m.name);
            assert(method == m.method);
            assert(preserve == m.preserve_chars);
            assert((match replacement {
                Some(ref s) => Some(s@),
                None => None,
            }) == m.replacement);
            assert(severity == m.severity);
        }
        let ghost evs = pass_events(m, textS);
        let n = current.as_str().unicode_len();
        let mut out = String::new();
        let mut prev: usize = 0;
        let mut j: usize = 0;
        let nspans = bspans.len();
        while j < nspans
            invariant
                0 <= j <= nspans,
                self.tokens_wf(),
                self.compiled_rules == old(self).compiled_rules,
                self.trace_stats == old(self).trace_stats,
                prev <= chars@.len(),
                j > 0 ==> byte_len(textS.take(prev as int)) == spansS[j - 1].1 && prev as int
                    == char_index_of(textS, spansS[j - 1].1),
                j == 0 ==> prev == 0,
                splice_from(m, textS, spansS, 0, 0) == out@ + splice_from(
                    m,
                    textS,
                    spansS,
                    j as int,
                    prev as int,
                ),
                events@.len() == old(events)@.len() + j,
                forall|t: int| 0 <= t < old(events)@.len() ==> events@[t] == old(events)@[t],
                forall|t: int|
                    0 <= t < j ==> event_matches(
                        #[trigger] events@[old(events)@.len() + t]@,
                        evs[t],
                    ),
            decreases nspans - j,
        {
            let pair = bspans[j];
            let bs = pair.0;
            let be = pair.1;
            proof {
                assert(spansS[j as int] == (bs as int, be as int));
                assert(is_prefix_boundary(textS, bs as int));
                assert(is_prefix_boundary(textS, be as int));
            }
            let cs = char_offset(&chars, bs);
            let ce = char_offset(&chars, be);
            proof {
                if ce < cs {
                    lemma_byte_len_strict_mono(textS, ce as int, cs as int);
                }
                if j > 0 && cs < prev {
                    lemma_byte_len_strict_mono(textS, cs as int, prev as int);
                }
                assert(prev <= cs <= ce <= chars@.len());
            }
            out.append(current.as_str().substring_char(prev, cs));
            let ghost out_before = out@;
            let val = current.as_str().substring_char(cs, ce);
            let rep = self.apply_obfuscation(val, &method, preserve, &replacement);
            let id = generate_trace_id();
            events.push(
                PhantomEvent {
                    rule_name: rname.clone(),
                    severity,
                    original_value: val.to_owned(),
                    phantom_value: rep.clone(),
                    position: (bs, be),
                    trace_id: id,
                },
            );
            out.append(rep.as_str());
            proof {
                assert(char_index_of(textS, spansS[j as int].0) == cs as int);
                assert(char_index_of(textS, spansS[j as int].1) == ce as int);
                assert(val@ == textS.subrange(cs as int, ce as int));
                assert(rep@ == rule_transform(m, textS.subrange(cs as int, ce as int)));
                assert(splice_from(m, textS, spansS, j as int, prev as int) == textS.subrange(
                    prev as int,
                    cs as int,
                ) + rule_transform(m, textS.subrange(cs as int, ce as int)) + splice_from(
                    m,
                    textS,
                    spansS,
                    j as int + 1,
                    ce as int,
                ));
                assert(out@ =~= out_before + rule_transform(
                    m,
                    textS.subrange(cs as int, ce as int),
                ));
                assert(splice_from(m, textS, spansS, 0, 0) =~= out@ + splice_from(
                    m,
                    textS,
                    spansS,
                    j as int + 1,
                    ce as int,
                ));
                assert(evs[j as int] == event_at(m, textS, j as int));
                assert(event_matches(events@[old(events)@.len() + j]@, evs[j as int]));
            }
            prev = ce;
            j = j + 1;
        }
        out.append(current.as_str().substring_char(prev, n));
        proof {
            assert(splice_from(m, textS, spansS, nspans as int, prev as int) == textS.skip(
                prev as int,
            ));
            assert(textS.subrange(prev as int, n as int) =~= textS.skip(prev as int));
            assert(out@ =~= pass_output(m, textS));
        }
        out
    }

    /// Applies every rule to `text`, severest first, and returns the
    /// transformed text with one event per substitution, in application
    /// order.  Statistics are bumped once per pass that changed the text.
    #[verifier::loop_isolation(false)]
    #[verifier::rlimit(60)]
    #[verifier::spinoff_prover]
    pub fn trace_and_phantom(&mut self, text: &str) -> (r: (String, Vec<PhantomEvent>))
        requires
            old(self).wf(),
        ensures
            final(self).wf(),
            final(self).rules_model() == old(self).rules_model(),
            final(self).stats_view().len() == old(self).stats_view().len(),
            r.0@ == multi_pass(
                old(self).rules_model(),
                sorted_order(old(self).rules_model()),
                0,
                text@,
            ),
            events_match(
                r.1@.map_values(|e: PhantomEvent| e@),
                multi_events(
                    old(self).rules_model(),
                    sorted_order(old(self).rules_model()),
                    0,
                    text@,
                ),
            ),
            ({
                let rules = old(self).rules_model();
                let order = sorted_order(rules);
                let cs0 = old(self).stats_view().map_values(
                    |s: StatsV| (s.phantoms_created, s.characters_traced),
                );
                let csn = counters_after(rules, order, 0, text@, cs0);
                forall|i: int|
                    0 <= i < old(self).stats_view().len() ==> {
                        let so = old(self).stats_view()[i];
                        let sn = #[trigger] final(self).stats_view()[i];
                        &&& sn.severity_level == so.severity_level
                        &&& (sn.phantoms_created, sn.characters_traced) == csn[i]
                        &&& (rule_touched(rules, order, 0, text@, i) ==> sn.first_trace is Some
                            && sn.last_trace is Some && (so.first_trace is Some ==> sn.first_trace
                            == so.first_trace))
                        &&& (!rule_touched(rules, order, 0, text@, i) ==> sn.first_trace
                            == so.first_trace && sn.last_trace == so.last_trace)
                    }
            }),
    {
        let ghost rules = old(self).rules_model();
        let ghost order_s = sorted_order(rules);
        let ghost cs0 = old(self).stats_view().map_values(
            |s: StatsV| (s.phantoms_created, s.characters_traced),
        );
        let order = self.sorted_indices();
        let mut current: String = text.to_owned();
        let mut events: Vec<PhantomEvent> = Vec::new();
        let ghost mut done_events: Seq<EventModel> = Seq::<EventModel>::empty();
        let ghost mut touched: Seq<bool> = Seq::new(rules.len(), |i: int| false);
        let nord = order.len();
        let mut k: usize = 0;
        while k < nord
            invariant
                0 <= k <= nord,
                self.compiled_rules == old(self).compiled_rules,
                self.tokens_wf(),
                self.trace_stats@.len() == old(self).trace_stats@.len(),
                multi_pass(rules, order_s, 0, text@) == multi_pass(
                    rules,
                    order_s,
                    k as int,
                    current@,
                ),
                multi_events(rules, order_s, 0, text@) == done_events + multi_events(
                    rules,
                    order_s,
                    k as int,
                    current@,
                ),
                events_match(events@.map_values(|e: PhantomEvent| e@), done_events),
                counters_after(rules, order_s, 0, text@, cs0) == counters_after(
                    rules,
                    order_s,
                    k as int,
                    current@,
                    self.stats_view().map_values(
                        |s: StatsV| (s.phantoms_created, s.characters_traced),
                    ),
                ),
                touched.len() == rules.len(),
                touched_matches(rules, order_s, k as int, current@, text@, touched),
                forall|i: int|
                    0 <= i < rules.len() ==> (#[trigger] self.stats_view()[i]).severity_level
                        == old(self).stats_view()[i].severity_level,
                forall|i: int|
                    0 <= i < rules.len() ==> #[trigger] touched[i] ==> {
                        let so = old(self).stats_view()[i];
                        let sn = self.stats_view()[i];
                        sn.first_trace is Some && sn.last_trace is Some && (so.first_trace is Some
                            ==> sn.first_trace == so.first_trace)
                    },
                forall|i: int|
                    0 <= i < rules.len() ==> !(#[trigger] touched[i]) ==> {
                        let so = old(self).stats_view()[i];
                        let sn = self.stats_view()[i];
                        sn.first_trace == so.first_trace && sn.last_trace == so.last_trace
                    },
            decreases nord - k,
        {
            let ri = order[k];
            let ghost m = rules[order_s[k as int]];
            proof {
                assert(order_s[k as int] == ri as int);
                assert(self.compiled_rules@[ri as int].model() == m);
                assert(self.rules_model() =~= rules);
            }
            let ghost text_before = current@;
            let ghost stats_before = self.stats_view();
            let new_text = self.apply_pass(ri, &current, &mut events);
            proof {
                assert(new_text@ == pass_output(m, text_before));
                done_events = done_events + pass_events(m, text_before);
                assert(multi_events(rules, order_s, k as int, text_before) == pass_events(
                    m,
                    text_before,
                ) + multi_events(rules, order_s, k as int + 1, new_text@));
                assert(events_match(events@.map_values(|e: PhantomEvent| e@), done_events));
            }
            let changed = !(new_text == current);
            let ghost old_touched = touched;
            proof {
                assert(changed == pass_changed(m, text_before));
            }
            if changed {
                let nc = current.as_str().unicode_len();
                let nn = new_text.as_str().unicode_len();
                let delta: u64 = if nn < nc {
                    (nc - nn) as u64
                } else {
                    0
                };
                proof {
                    assert(delta == pass_delta(m, text_before));
                }
                let now = now_nanos();
                let pc = self.trace_stats[ri].phantoms_created;
                let ct = self.trace_stats[ri].characters_traced;
                let label = self.trace_stats[ri].severity_level.clone();
                let new_first = match self.trace_stats[ri].first_trace {
                    Some(t) => Some(t),
                    None => Some(now),
                };
                self.trace_stats[ri] = TraceStats {
                    phantoms_created: pc.saturating_add(1),
                    characters_traced: ct.saturating_add(delta),
                    severity_level: label,
                    first_trace: new_first,
                    last_trace: Some(now),
                };
                proof {
                    touched = touched.update(ri as int, true);
                    assert(self.stats_view()[ri as int].first_trace is Some);
                    assert(self.stats_view()[ri as int].last_trace is Some);
                    if old_touched[ri as int] {
                        assert(stats_before[ri as int].first_trace is Some);
                        assert(old(self).stats_view()[ri as int].first_trace is Some
                            ==> stats_before[ri as int].first_trace == old(
                            self,
                        ).stats_view()[ri as int].first_trace);
                    } else {
                        assert(stats_before[ri as int].first_trace == old(
                            self,
                        ).stats_view()[ri as int].first_trace);
                    }
                    assert(old(self).stats_view()[ri as int].first_trace is Some
                        ==> self.stats_view()[ri as int].first_trace == old(
                        self,
                    ).stats_view()[ri as int].first_trace);
                    assert(self.stats_view() =~= stats_before.update(
                        ri as int,
                        self.stats_view()[ri as int],
                    ));
                    assert(self.stats_view().map_values(
                        |s: StatsV| (s.phantoms_created, s.characters_traced),
                    ) =~= stats_before.map_values(
                        |s: StatsV| (s.phantoms_created, s.characters_traced),
                    ).update(
                        ri as int,
                        counters_step(
                            stats_before.map_values(
                                |s: StatsV| (s.phantoms_created, s.characters_traced),
                            )[ri as int],
                            m,
                            text_before,
                        ),
                    ));
                }
            } else {
                proof {
                    let cur_cs = self.stats_view().map_values(
                        |s: StatsV| (s.phantoms_created, s.characters_traced),
                    );
                    assert(cur_cs.update(ri as int, counters_step(cur_cs[ri as int], m, text_before))
                        =~= cur_cs);
                }
            }
            proof {
                assert(pass_output(rules[order_s[k as int]], text_before) == new_text@);
                lemma_touched_step(
                    rules,
                    order_s,
                    k as int,
                    text_before,
                    text@,
                    old_touched,
                    touched,
                    ri as int,
                    changed,
                );
            }
            let ghost knext: int = k as int + 1;
            let ghost ntv = new_text@;
            proof {
                assert(touched_matches(rules, order_s, knext, ntv, text@, touched));
            }
            current = new_text;
            k = k + 1;
            proof {
                assert(k as int == knext);
                assert(current@ == ntv);
                assert(touched_matches(rules, order_s, k as int, current@, text@, touched));
            }
        }
        proof {
            assert(multi_pass(rules, order_s, nord as int, current@) == current@);
            assert(multi_events(rules, order_s, nord as int, current@)
                =~= Seq::<EventModel>::empty());
            assert(multi_events(rules, order_s, 0, text@) =~= done_events);
            assert(counters_after(
                rules,
                order_s,
                nord as int,
                current@,
                self.stats_view().map_values(
                    |s: StatsV| (s.phantoms_created, s.characters_traced),
                ),
            ) == self.stats_view().map_values(
                |s: StatsV| (s.phantoms_created, s.characters_traced),
            ));
            let csn = counters_after(rules, order_s, 0, text@, cs0);
            assert forall|i: int| 0 <= i < old(self).stats_view().len() implies {
                let so = old(self).stats_view()[i];
                let sn = #[trigger] self.stats_view()[i];
                &&& sn.severity_level == so.severity_level
                &&& (sn.phantoms_created, sn.characters_traced) == csn[i]
                &&& (rule_touched(rules, order_s, 0, text@, i) ==> sn.first_trace is Some
                    && sn.last_trace is Some && (so.first_trace is Some ==> sn.first_trace
                    == so.first_trace))
                &&& (!rule_touched(rules, order_s, 0, text@, i) ==> sn.first_trace
                    == so.first_trace && sn.last_trace == so.last_trace)
            } by {
                assert(!rule_touched(rules, order_s, nord as int, current@, i));
                assert(rule_touched(rules, order_s, 0, text@, i) == (touched[i] || rule_touched(
                    rules,
                    order_s,
                    nord as int,
                    current@,
                    i,
                )));
                assert(self.stats_view().map_values(
                    |s: StatsV| (s.phantoms_created, s.characters_traced),
                )[i] == (self.stats_view()[i].phantoms_created,
                self.stats_view()[i].characters_traced));
                assert(touched[i] ==> {
                    let so = old(self).stats_view()[i];
                    let sn = self.stats_view()[i];
                    sn.first_trace is Some && sn.last_trace is Some && (so.first_trace is Some
                        ==> sn.first_trace == so.first_trace)
                });
            }
        }
        (current, events)
    }

    /// Computes the replacement for one matched value.  For `Tokenize`, the
    /// first occurrence of a value mints its token and stores it; later
    /// occurrences reuse the stored token.
    fn apply_obfuscation(
        &mut self,
        value: &str,
        method: &ObfuscationMethod,
        preserve_chars: Option<usize>,
        replacement: &Option<String>,
    ) -> (r: String)
        requires
            old(self).tokens_wf(),
        ensures
            final(self).tokens_wf(),
            final(self).compiled_rules == old(self).compiled_rules,
            final(self).trace_stats == old(self).trace_stats,
            r@ == transform_chars(
                *method,
                preserve_chars,
                match *replacement {
                    Some(ref s) => Some(s@),
                    None => None,
                },
                value@,
            ),
    {
        match method {
            ObfuscationMethod::Phantom => {
                let k = match preserve_chars {
                    Some(k) => k,
                    None => 0,
                };
                phantom_string(value, k)
            },
            ObfuscationMethod::Vanish => String::new(),
            ObfuscationMethod::Mirror => {
                let mut s = String::from_str("PHANTOM_");
                append_hex8(&mut s, phantom_hash(value));
                s
            },
            ObfuscationMethod::Mask => {
                match replacement {
                    Some(s) => s.clone(),
                    None => String::from_str("[PHANTOMED]"),
                }
            },
            ObfuscationMethod::Tokenize => {
                let h = phantom_hash(value);
                let cached: Option<String> = match self.phantom_tokens.get(&h) {
                    Some(tok) => Some(tok.clone()),
                    None => None,
                };
                match cached {
                    Some(tok) => tok,
                    None => {
                        let mut s = String::from_str("PHANTOM_TOKEN_");
                        append_hex8(&mut s, h);
                        self.phantom_tokens.insert(h, s.clone());
                        s
                    },
                }
            },
        }
    }
}

/// Substitution passes summed over a statistics prefix, saturating.
pub open spec fn sum_phantoms(ss: Seq<StatsV>, n: int) -> u64
    decreases n,
{
    if n <= 0 {
        0u64
    } else {
        sat_add64(sum_phantoms(ss, n - 1), ss[n - 1].phantoms_created)
    }
}

/// Characters removed summed over a statistics prefix, saturating.
pub open spec fn sum_characters(ss: Seq<StatsV>, n: int) -> u64
    decreases n,
{
    if n <= 0 {
        0u64
    } else {
        sat_add64(sum_characters(ss, n - 1), ss[n - 1].characters_traced)
    }
}

/// How many rules in a statistics prefix have at least one substitution
/// pass.
pub open spec fn count_triggered(ss: Seq<StatsV>, n: int) -> int
    decreases n,
{
    if n <= 0 {
        0
    } else {
        count_triggered(ss, n - 1) + if ss[n - 1].phantoms_created > 0 {
            1int
        } else {
            0int
        }
    }
}

/// Whether any rule reports under this severity label.
pub open spec fn label_present(ss: Seq<StatsV>, label: Seq<char>) -> bool {
    exists|i: int| 0 <= i < ss.len() && (#[trigger] ss[i]).severity_level == label
}

/// Substitution passes summed over the rules with this severity label.
pub open spec fn label_sum(ss: Seq<StatsV>, label: Seq<char>, n: int) -> u64
    decreases n,
{
    if n <= 0 {
        0u64
    } else if ss[n - 1].severity_level == label {
        sat_add64(label_sum(ss, label, n - 1), ss[n - 1].phantoms_created)
    } else {
        label_sum(ss, label, n - 1)
    }
}

/// The breakdown entry for one severity: its label and summed count when
/// any rule reports under it, nothing otherwise.
pub open spec fn maybe_entry(ss: Seq<StatsV>, sev: TraceSeverity) -> Seq<(Seq<char>, u64)> {
    if label_present(ss, severity_label(sev)) {
        seq![(severity_label(sev), label_sum(ss, severity_label(sev), ss.len() as int))]
    } else {
        Seq::<(Seq<char>, u64)>::empty()
    }
}

/// The severity breakdown: one entry per severity label that appears among
/// the rules, severest first.
pub open spec fn breakdown_v(ss: Seq<StatsV>) -> Seq<(Seq<char>, u64)> {
    maybe_entry(ss, TraceSeverity::Critical) + maybe_entry(ss, TraceSeverity::High) + maybe_entry(
        ss,
        TraceSeverity::Medium,
    ) + maybe_entry(ss, TraceSeverity::Low)
}

/// Point-in-time aggregate snapshot of the engine's statistics.
#[derive(Debug)]
pub struct TraceReport {
    pub total_phantoms_created: u64,
    pub total_characters_traced: u64,
    pub rules_triggered: usize,
    pub severity_breakdown: Vec<(String, u64)>,
    pub detailed_stats: Vec<(String, TraceStats)>,
    pub generation_time: u64,
}

/// Presence of a severity label among the statistics, and the summed
/// substitution passes under it.
fn scan_label(stats: &Vec<TraceStats>, label: &String) -> (r: (bool, u64))
    ensures
        r.0 == label_present(stats@.map_values(|s: TraceStats| s@), label@),
        r.1 == label_sum(
            stats@.map_values(|s: TraceStats| s@),
            label@,
            stats@.len() as int,
        ),
{
    let ghost ss = stats@.map_values(|s: TraceStats| s@);
    let n = stats.len();
    let mut found = false;
    let mut total: u64 = 0;
    let mut i: usize = 0;
    while i < n
        invariant
            n == stats@.len(),
            ss == stats@.map_values(|s: TraceStats| s@),
            0 <= i <= n,
            found == exists|t: int| 0 <= t < i && (#[trigger] ss[t]).severity_level == label@,
            total == label_sum(ss, label@, i as int),
        decreases n - i,
    {
        proof {
            assert(ss[i as int] == stats@[i as int]@);
        }
        if stats[i].severity_level.eq(label) {
            found = true;
            total = total.saturating_add(stats[i].phantoms_created);
            proof {
                assert(ss[i as int].severity_level == label@);
            }
        } else {
            proof {
                assert(ss[i as int].severity_level != label@);
            }
        }
        i = i + 1;
    }
    (found, total)
}

impl PhantomTracer {
    /// A read-only snapshot: totals, triggered-rule count, the severity
    /// breakdown, and every rule's statistics under its name.
    pub fn get_trace_report(&self) -> (rep: TraceReport)
        requires
            self.wf(),
        ensures
            rep.total_phantoms_created == sum_phantoms(
                self.stats_view(),
                self.stats_view().len() as int,
            ),
            rep.total_characters_traced == sum_characters(
                self.stats_view(),
                self.stats_view().len() as int,
            ),
            rep.rules_triggered == count_triggered(
                self.stats_view(),
                self.stats_view().len() as int,
            ),
            rep.detailed_stats@.len() == self.stats_view().len(),
            forall|i: int|
                0 <= i < self.stats_view().len() ==> (#[trigger] rep.detailed_stats@[i]).0@
                    == self.rules_model()[i].name && rep.detailed_stats@[i].1@
                    == self.stats_view()[i],
            rep.severity_breakdown@.map_values(|p: (String, u64)| (p.0@, p.1)) == breakdown_v(
                self.stats_view(),
            ),
    {
        let ghost ss = self.stats_view();
        let n = self.trace_stats.len();
        let mut total_phantoms: u64 = 0;
        let mut total_characters: u64 = 0;
        let mut triggered: usize = 0;
        let mut detailed: Vec<(String, TraceStats)> = Vec::new();
        let mut i: usize = 0;
        while i < n
            invariant
                n == self.trace_stats@.len(),
                n == self.compiled_rules@.len(),
                ss == self.stats_view(),
                0 <= i <= n,
                total_phantoms == sum_phantoms(ss, i as int),
                total_characters == sum_characters(ss, i as int),
                triggered as int == count_triggered(ss, i as int),
                detailed@.len() == i,
                forall|t: int|
                    0 <= t < i ==> (#[trigger] detailed@[t]).0@ == self.rules_model()[t].name
                        && detailed@[t].1@ == ss[t],
            decreases n - i,
        {
            proof {
                assert(ss[i as int] == self.trace_stats@[i as int]@);
                assert(self.compiled_rules@[i as int].model() == self.rules_model()[i as int]);
                lemma_count_triggered_bound(ss, i as int);
            }
            total_phantoms = total_phantoms.saturating_add(self.trace_stats[i].phantoms_created);
            total_characters = total_characters.saturating_add(
                self.trace_stats[i].characters_traced,
            );
            if self.trace_stats[i].phantoms_created > 0 {
                triggered = triggered + 1;
            }
            detailed.push((self.compiled_rules[i].name.clone(), self.trace_stats[i].clone()));
            i = i + 1;
        }
        let mut breakdown: Vec<(String, u64)> = Vec::new();
        let crit = severity_label_string(&TraceSeverity::Critical);
        let r = scan_label(&self.trace_stats, &crit);
        if r.0 {
            breakdown.push((crit, r.1));
        }
        let high = severity_label_string(&TraceSeverity::High);
        let r = scan_label(&self.trace_stats, &high);
        if r.0 {
            breakdown.push((high, r.1));
        }
        let med = severity_label_string(&TraceSeverity::Medium);
        let r = scan_label(&self.trace_stats, &med);
        if r.0 {
            breakdown.push((med, r.1));
        }
        let low = severity_label_string(&TraceSeverity::Low);
        let r = scan_label(&self.trace_stats, &low);
        if r.0 {
            breakdown.push((low, r.1));
        }
        proof {
            assert(breakdown@.map_values(|p: (String, u64)| (p.0@, p.1)) =~= breakdown_v(ss));
        }
        TraceReport {
            total_phantoms_created: total_phantoms,
            total_characters_traced: total_characters,
            rules_triggered: triggered,
            severity_breakdown: breakdown,
            detailed_stats: detailed,
            generation_time: now_nanos(),
        }
    }
}

/// The phantom transform on one value: all placeholders when the value has
/// no more than `2 * preserve` characters, otherwise the first and last
/// `preserve` characters kept around a placeholder run.
pub fn phantom_string(input: &str, preserve: usize) -> (r: String)
    ensures
        r@ == phantom_chars(input@, preserve as nat),
{
    let n = input.unicode_len();
    let mut out = String::new();
    if n <= preserve || n - preserve <= preserve {
        append_placeholders(&mut out, n);
        proof {
            assert(out@ =~= phantom_chars(input@, preserve as nat));
        }
    } else {
        out.append(input.substring_char(0, preserve));
        append_placeholders(&mut out, n - preserve - preserve);
        out.append(input.substring_char(n - preserve, n));
        proof {
            assert(input@.subrange(0, preserve as int) =~= input@.take(preserve as int));
            assert(input@.subrange(n as int - preserve as int, n as int) =~= input@.skip(
                n as int - preserve as int,
            ));
            assert(out@ =~= phantom_chars(input@, preserve as nat));
        }
    }
    out
}

/// Appends `m` placeholder characters.
pub(crate) fn append_placeholders(out: &mut String, m: usize)
    ensures
        final(out)@ == old(out)@ + repeat_char(placeholder_char(), m as nat),
{
    let ghost base = out@;
    let mut c: usize = 0;
    proof {
        assert(out@ =~= base + repeat_char(placeholder_char(), 0));
    }
    while c < m
        invariant
            0 <= c <= m,
            out@ == base + repeat_char(placeholder_char(), c as nat),
        decreases m - c,
    {
        out.append("\u{2588}");
        proof {
            reveal_strlit("\u{2588}");
            assert("\u{2588}"@ =~= seq![placeholder_char()]);
            assert(out@ =~= base + repeat_char(placeholder_char(), (c + 1) as nat));
        }
        c = c + 1;
    }
}

/// The hash a value is identified by: FNV-1a over its UTF-8 bytes.
pub fn phantom_hash(input: &str) -> (r: u32)
    ensures
        r == value_hash(input@),
{
    crate::simple_hash(input)
}

/// A fresh trace identifier: a wall-clock reading in nanoseconds rendered
/// as sixteen hex digits behind a constant prefix.
pub fn generate_trace_id() -> (r: String)
    ensures
        is_trace_id(r@),
{
    let t = now_nanos();
    let mut s = String::from_str("TRACE_");
    append_hex16(&mut s, t);
    proof {
        assert(s@ == trace_id_chars(t));
    }
    s
}

} // verus!
