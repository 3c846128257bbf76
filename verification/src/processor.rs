//! The processing pipeline: drives the engine line by line over a text
//! blob, assembles per-call results, and accumulates session counters.

use vstd::prelude::*;

use crate::config::ConfigV;
use crate::config::PhantomTraceConfig;
use crate::config::RuleV;
use crate::config::TraceRule;
use crate::config::severity_label;
use crate::config::severity_label_string;
use crate::matcher::now_nanos;
use crate::text::chars_vec;
use crate::text::join_lines;
use crate::text::lemma_join_push;
use crate::text::line_spans;
use crate::text::std_lines;
use crate::tracer::CompileError;
use crate::tracer::EventModel;
use crate::tracer::PhantomEvent;
use crate::tracer::PhantomTracer;
use crate::tracer::RuleModel;
use crate::tracer::StatsV;
use crate::tracer::TraceReport;
use crate::tracer::breakdown_v;
use crate::tracer::compiled_model;
use crate::tracer::count_triggered;
use crate::tracer::counters_after;
use crate::tracer::events_match;
use crate::tracer::multi_events;
use crate::tracer::multi_pass;
use crate::tracer::prefix_ok;
use crate::tracer::sat_add64;
use crate::tracer::sorted_order;
use crate::tracer::sum_characters;
use crate::tracer::sum_phantoms;

verus! {

/// What one pass of the whole rule set makes of a single line.
pub open spec fn line_output(rules: Seq<RuleModel>, line: Seq<char>) -> Seq<char> {
    multi_pass(rules, sorted_order(rules), 0, line)
}

/// The events one line's processing emits.
pub open spec fn line_events(rules: Seq<RuleModel>, line: Seq<char>) -> Seq<EventModel> {
    multi_events(rules, sorted_order(rules), 0, line)
}

/// Every line's output, in order.
pub open spec fn pipeline_outputs(rules: Seq<RuleModel>, lines: Seq<Seq<char>>) -> Seq<Seq<char>> {
    lines.map_values(|l: Seq<char>| line_output(rules, l))
}

/// The events of the first `n` lines, concatenated in line order.
pub open spec fn pipeline_events(
    rules: Seq<RuleModel>,
    lines: Seq<Seq<char>>,
    n: int,
) -> Seq<EventModel>
    decreases n,
{
    if n <= 0 {
        Seq::<EventModel>::empty()
    } else {
        pipeline_events(rules, lines, n - 1) + line_events(rules, lines[n - 1])
    }
}

/// How many of the first `n` lines emitted at least one event.
pub open spec fn count_phantomed(rules: Seq<RuleModel>, lines: Seq<Seq<char>>, n: int) -> int
    decreases n,
{
    if n <= 0 {
        0
    } else {
        count_phantomed(rules, lines, n - 1) + if line_events(rules, lines[n - 1]).len() > 0 {
            1int
        } else {
            0int
        }
    }
}

/// All rules' counter pairs after processing the first `n` lines.
pub open spec fn counters_after_lines(
    rules: Seq<RuleModel>,
    lines: Seq<Seq<char>>,
    n: int,
    cs: Seq<(u64, u64)>,
) -> Seq<(u64, u64)>
    decreases n,
{
    if n <= 0 {
        cs
    } else {
        counters_after(
            rules,
            sorted_order(rules),
            0,
            lines[n - 1],
            counters_after_lines(rules, lines, n - 1, cs),
        )
    }
}

/// How many of the first `n` events carry this severity.
pub open spec fn severity_event_count(
    evs: Seq<crate::tracer::EventV>,
    sev: crate::config::TraceSeverity,
    n: int,
) -> int
    decreases n,
{
    if n <= 0 {
        0
    } else {
        severity_event_count(evs, sev, n - 1) + if evs[n - 1].severity == sev {
            1int
        } else {
            0int
        }
    }
}

/// The trace-map entry for one severity: its label and event count when
/// any event carries it, nothing otherwise.
pub open spec fn severity_map_entry(
    evs: Seq<crate::tracer::EventV>,
    sev: crate::config::TraceSeverity,
) -> Seq<(Seq<char>, u64)> {
    if severity_event_count(evs, sev, evs.len() as int) > 0 {
        seq![(severity_label(sev), severity_event_count(evs, sev, evs.len() as int) as u64)]
    } else {
        Seq::<(Seq<char>, u64)>::empty()
    }
}

/// Per-severity event totals: one entry per severity that occurs among the
/// events, severest first.
pub open spec fn severity_map_v(evs: Seq<crate::tracer::EventV>) -> Seq<(Seq<char>, u64)> {
    severity_map_entry(evs, crate::config::TraceSeverity::Critical) + severity_map_entry(
        evs,
        crate::config::TraceSeverity::High,
    ) + severity_map_entry(evs, crate::config::TraceSeverity::Medium) + severity_map_entry(
        evs,
        crate::config::TraceSeverity::Low,
    )
}

fn count_severity(events: &Vec<PhantomEvent>, sev: crate::config::TraceSeverity) -> (r: u64)
    ensures
        r as int == severity_event_count(
            events@.map_values(|e: PhantomEvent| e@),
            sev,
            events@.len() as int,
        ),
{
    let ghost evs = events@.map_values(|e: PhantomEvent| e@);
    let n = events.len();
    let mut r: u64 = 0;
    let mut i: usize = 0;
    while i < n
        invariant
            n == events@.len(),
            evs == events@.map_values(|e: PhantomEvent| e@),
            0 <= i <= n,
            r as int == severity_event_count(evs, sev, i as int),
            r <= i as u64,
        decreases n - i,
    {
        proof {
            assert(evs[i as int] == events@[i as int]@);
        }
        let matches_sev = match (events[i].severity, sev) {
            (crate::config::TraceSeverity::Critical, crate::config::TraceSeverity::Critical) => true,
            (crate::config::TraceSeverity::High, crate::config::TraceSeverity::High) => true,
            (crate::config::TraceSeverity::Medium, crate::config::TraceSeverity::Medium) => true,
            (crate::config::TraceSeverity::Low, crate::config::TraceSeverity::Low) => true,
            _ => false,
        };
        if matches_sev {
            r = r + 1;
        }
        i = i + 1;
    }
    r
}

/// Counts the recorded events under each severity label, severest first,
/// leaving out severities with no events: the per-severity half of a
/// processing trace map.
pub fn count_events_by_severity(events: &Vec<PhantomEvent>) -> (r: Vec<(String, u64)>)
    ensures
        r@.map_values(|p: (String, u64)| (p.0@, p.1)) == severity_map_v(
            events@.map_values(|e: PhantomEvent| e@),
        ),
{
    let ghost evs = events@.map_values(|e: PhantomEvent| e@);
    let mut r: Vec<(String, u64)> = Vec::new();
    let c = count_severity(events, crate::config::TraceSeverity::Critical);
    if c > 0 {
        r.push((severity_label_string(&crate::config::TraceSeverity::Critical), c));
    }
    let h = count_severity(events, crate::config::TraceSeverity::High);
    if h > 0 {
        r.push((severity_label_string(&crate::config::TraceSeverity::High), h));
    }
    let m = count_severity(events, crate::config::TraceSeverity::Medium);
    if m > 0 {
        r.push((severity_label_string(&crate::config::TraceSeverity::Medium), m));
    }
    let l = count_severity(events, crate::config::TraceSeverity::Low);
    if l > 0 {
        r.push((severity_label_string(&crate::config::TraceSeverity::Low), l));
    }
    proof {
        assert(r@.map_values(|p: (String, u64)| (p.0@, p.1)) =~= severity_map_v(evs));
    }
    r
}

/// How many of the first `n` events this rule produced.
pub open spec fn rule_event_count(evs: Seq<crate::tracer::EventV>, name: Seq<char>, n: int) -> int
    decreases n,
{
    if n <= 0 {
        0
    } else {
        rule_event_count(evs, name, n - 1) + if evs[n - 1].rule_name == name {
            1int
        } else {
            0int
        }
    }
}

/// The rule names among the first `n` events, in first-occurrence order.
pub open spec fn distinct_rule_names(evs: Seq<crate::tracer::EventV>, n: int) -> Seq<Seq<char>>
    decreases n,
{
    if n <= 0 {
        Seq::<Seq<char>>::empty()
    } else {
        let prev = distinct_rule_names(evs, n - 1);
        if prev.contains(evs[n - 1].rule_name) {
            prev
        } else {
            prev.push(evs[n - 1].rule_name)
        }
    }
}

/// The first-occurrence name list never repeats a name.
proof fn lemma_distinct_names_distinct(evs: Seq<crate::tracer::EventV>, n: int)
    ensures
        forall|a: int, b: int|
            0 <= a < b < distinct_rule_names(evs, n).len() ==> #[trigger] distinct_rule_names(
                evs,
                n,
            )[a] != #[trigger] distinct_rule_names(evs, n)[b],
    decreases n,
{
    if n > 0 {
        lemma_distinct_names_distinct(evs, n - 1);
        let prev = distinct_rule_names(evs, n - 1);
        if !prev.contains(evs[n - 1].rule_name) {
            assert forall|a: int, b: int|
                0 <= a < b < distinct_rule_names(evs, n).len() implies #[trigger] distinct_rule_names(
                evs,
                n,
            )[a] != #[trigger] distinct_rule_names(evs, n)[b] by {
                if b == prev.len() {
                    assert(distinct_rule_names(evs, n)[a] == prev[a]);
                    if prev[a] == evs[n - 1].rule_name {
                        assert(prev.contains(evs[n - 1].rule_name));
                    }
                } else {
                    assert(distinct_rule_names(evs, n)[a] == prev[a]);
                    assert(distinct_rule_names(evs, n)[b] == prev[b]);
                }
            }
        }
    }
}

/// A name that has not yet occurred has a zero count.
proof fn lemma_unseen_name_count(evs: Seq<crate::tracer::EventV>, name: Seq<char>, n: int)
    requires
        !distinct_rule_names(evs, n).contains(name),
    ensures
        rule_event_count(evs, name, n) == 0,
    decreases n,
{
    if n > 0 {
        let prev = distinct_rule_names(evs, n - 1);
        assert forall|x: Seq<char>| prev.contains(x) implies distinct_rule_names(
            evs,
            n,
        ).contains(x) by {
            let k = choose|k: int| 0 <= k < prev.len() && prev[k] == x;
            if prev.contains(evs[n - 1].rule_name) {
                assert(distinct_rule_names(evs, n)[k] == x);
            } else {
                assert(distinct_rule_names(evs, n)[k] == x);
            }
        }
        assert(!prev.contains(name));
        lemma_unseen_name_count(evs, name, n - 1);
        if prev.contains(evs[n - 1].rule_name) {
            assert(distinct_rule_names(evs, n).contains(evs[n - 1].rule_name));
        } else {
            assert(distinct_rule_names(evs, n)[prev.len() as int] == evs[n - 1].rule_name);
            assert(distinct_rule_names(evs, n).contains(evs[n - 1].rule_name));
        }
        assert(name != evs[n - 1].rule_name);
    }
}

/// Counts the recorded events under each rule name, in first-occurrence
/// order: the per-rule half of a processing trace map.
#[verifier::loop_isolation(false)]
pub fn count_events_by_rule(events: &Vec<PhantomEvent>) -> (r: Vec<(String, u64)>)
    ensures
        ({
            let evs = events@.map_values(|e: PhantomEvent| e@);
            let names = distinct_rule_names(evs, evs.len() as int);
            &&& r@.len() == names.len()
            &&& forall|j: int|
                0 <= j < r@.len() ==> (#[trigger] r@[j]).0@ == names[j] && r@[j].1 as int
                    == rule_event_count(evs, names[j], evs.len() as int)
        }),
{
    let ghost evs = events@.map_values(|e: PhantomEvent| e@);
    let n = events.len();
    let mut r: Vec<(String, u64)> = Vec::new();
    let mut i: usize = 0;
    while i < n
        invariant
            0 <= i <= n,
            r@.len() == distinct_rule_names(evs, i as int).len(),
            forall|j: int|
                0 <= j < r@.len() ==> (#[trigger] r@[j]).0@ == distinct_rule_names(evs, i as int)[j]
                    && r@[j].1 as int == rule_event_count(
                    evs,
                    distinct_rule_names(evs, i as int)[j],
                    i as int,
                ) && r@[j].1 <= i as u64,
        decreases n - i,
    {
        proof {
            assert(evs[i as int] == events@[i as int]@);
            lemma_distinct_names_distinct(evs, i as int);
        }
        let name = events[i].rule_name.clone();
        let mut found: Option<usize> = None;
        let mut a: usize = 0;
        while a < r.len()
            invariant
                0 <= a <= r@.len(),
                found is None ==> forall|t: int| 0 <= t < a ==> (#[trigger] r@[t]).0@ != name@,
                found matches Some(j) ==> j < r@.len() && r@[j as int].0@ == name@,
            decreases r@.len() - a,
        {
            if r[a].0.eq(&name) {
                found = Some(a);
                break ;
            }
            a = a + 1;
        }
        let ghost prev = distinct_rule_names(evs, i as int);
        match found {
            Some(j) => {
                proof {
                    assert(prev[j as int] == name@);
                    assert(prev.contains(evs[i as int].rule_name));
                    assert(distinct_rule_names(evs, i as int + 1) == prev);
                }
                let ghost r_before = r@;
                let key = r[j].0.clone();
                let cur = r[j].1;
                r[j] = (key, cur + 1);
                proof {
                    assert(name@ == evs[i as int].rule_name);
                    assert forall|t: int|
                        0 <= t < r@.len() implies (#[trigger] r@[t]).0@ == distinct_rule_names(
                        evs,
                        i as int + 1,
                    )[t] && r@[t].1 as int == rule_event_count(
                        evs,
                        distinct_rule_names(evs, i as int + 1)[t],
                        i as int + 1,
                    ) && r@[t].1 <= (i + 1) as u64 by {
                        assert(distinct_rule_names(evs, i as int + 1)[t] == prev[t]);
                        if t == j as int {
                            assert(r@[t].0@ == prev[t]);
                            assert(rule_event_count(evs, prev[t], i as int + 1)
                                == rule_event_count(evs, prev[t], i as int) + 1);
                            assert(r_before[t].1 as int == rule_event_count(
                                evs,
                                prev[t],
                                i as int,
                            ));
                        } else {
                            assert(r@[t] == r_before[t]);
                            assert(r_before[t].0@ == prev[t]);
                            assert(prev[t] != prev[j as int]);
                            assert(rule_event_count(evs, prev[t], i as int + 1)
                                == rule_event_count(evs, prev[t], i as int));
                        }
                    }
                }
            },
            None => {
                proof {
                    assert forall|t: int|
                        0 <= t < prev.len() implies prev[t] != evs[i as int].rule_name by {
                        assert(r@[t].0@ != name@);
                    }
                    assert(!prev.contains(evs[i as int].rule_name));
                    assert(distinct_rule_names(evs, i as int + 1) == prev.push(
                        evs[i as int].rule_name,
                    ));
                }
                let ghost r_before = r@;
                let ghost new_name = name@;
                r.push((name, 1));
                proof {
                    assert(new_name == evs[i as int].rule_name);
                    lemma_unseen_name_count(evs, new_name, i as int);
                    assert forall|t: int|
                        0 <= t < r@.len() implies (#[trigger] r@[t]).0@ == distinct_rule_names(
                        evs,
                        i as int + 1,
                    )[t] && r@[t].1 as int == rule_event_count(
                        evs,
                        distinct_rule_names(evs, i as int + 1)[t],
                        i as int + 1,
                    ) && r@[t].1 <= (i + 1) as u64 by {
                        if t < r@.len() - 1 {
                            assert(r@[t] == r_before[t]);
                            assert(r_before[t].0@ == prev[t]);
                            assert(distinct_rule_names(evs, i as int + 1)[t] == prev[t]);
                            if prev[t] == evs[i as int].rule_name {
                                assert(prev.contains(evs[i as int].rule_name));
                            }
                            assert(rule_event_count(evs, prev[t], i as int + 1)
                                == rule_event_count(evs, prev[t], i as int));
                        } else {
                            assert(r@[t].0@ == new_name);
                            assert(distinct_rule_names(evs, i as int + 1)[t] == new_name);
                            assert(rule_event_count(evs, new_name, i as int + 1)
                                == rule_event_count(evs, new_name, i as int) + 1);
                        }
                    }
                }
            },
        }
        i = i + 1;
    }
    r
}

/// Session counters that persist across calls until a reset.
#[derive(Clone, Copy, Debug, PartialEq, Eq, Structural)]
pub struct ProcessingStats {
    pub lines_processed: u64,
    pub lines_phantomed: u64,
    pub total_phantom_events: u64,
    pub processing_time_nanos: u64,
    pub start_time: Option<u64>,
}

/// The outcome of one processing call.
#[derive(Debug)]
pub struct ProcessingResult {
    pub phantomed_text: String,
    pub phantom_events: Vec<PhantomEvent>,
    pub lines_processed: usize,
    pub lines_phantomed: usize,
    pub processing_time_nanos: u64,
}

/// Session counters together with a trace report, for output writers.
#[derive(Debug)]
pub struct ProcessingStatsOutput {
    pub lines_processed: u64,
    pub lines_phantomed: u64,
    pub total_phantom_events: u64,
    pub processing_time_ms: u64,
    pub trace_report: TraceReport,
}

/// One processing session: a configuration, the engine compiled from its
/// rules, and running session counters.
pub struct PhantomTraceProcessor {
    config: PhantomTraceConfig,
    tracer: PhantomTracer,
    processing_stats: ProcessingStats,
}

impl PhantomTraceProcessor {
    /// The models of the compiled rules.
    pub closed spec fn rules_model(&self) -> Seq<RuleModel> {
        self.tracer.rules_model()
    }

    /// The engine's per-rule statistics.
    pub closed spec fn tracer_stats_view(&self) -> Seq<StatsV> {
        self.tracer.stats_view()
    }

    /// The configuration this session was built from.
    pub closed spec fn config_view(&self) -> ConfigV {
        self.config@
    }

    /// The session counters.
    pub closed spec fn stats(&self) -> ProcessingStats {
        self.processing_stats
    }

    /// Internal consistency of the session.
    pub closed spec fn wf(&self) -> bool {
        self.tracer.wf()
    }

    /// Compiles a session from a configuration.  Fails exactly as the
    /// engine's compiler does: on the first duplicated rule name or invalid
    /// pattern.
    pub fn new(config: PhantomTraceConfig) -> (r: Result<PhantomTraceProcessor, CompileError>)
        ensures
            ({
                let rs = config.tracing.rules@.map_values(|t: TraceRule| t@);
                &&& (r is Ok <==> prefix_ok(rs, rs.len() as int))
                &&& (r matches Ok(p) ==> {
                    &&& p.wf()
                    &&& p.rules_model() == rs.map_values(|v: RuleV| compiled_model(v))
                    &&& p.config_view() == config@
                    &&& p.stats() == (ProcessingStats {
                        lines_processed: 0u64,
                        lines_phantomed: 0u64,
                        total_phantom_events: 0u64,
                        processing_time_nanos: 0u64,
                        start_time: None,
                    })
                    &&& p.tracer_stats_view().len() == rs.len()
                    &&& (forall|i: int|
                        0 <= i < rs.len() ==> #[trigger] p.tracer_stats_view()[i] == (StatsV {
                            phantoms_created: 0u64,
                            characters_traced: 0u64,
                            severity_level: severity_label(rs[i].severity),
                            first_trace: None,
                            last_trace: None,
                        }))
                })
                &&& (r matches Err(e) ==> exists|j: int|
                    0 <= j < rs.len() && #[trigger] prefix_ok(rs, j) && (match e {
                        CompileError::DuplicateRuleName { rule_name } => rule_name@ == rs[j].name
                            && (exists|a: int| 0 <= a < j && (#[trigger] rs[a]).name == rs[j].name),
                        CompileError::InvalidPattern { rule_name, message } => rule_name@
                            == rs[j].name && !crate::matcher::pattern_accepted(
                            crate::tracer::effective_pattern(rs[j]),
                        ) && (forall|a: int| 0 <= a < j ==> (#[trigger] rs[a]).name != rs[j].name),
                    }))
            }),
    {
        let tracer = match PhantomTracer::new(&config.tracing.rules) {
            Ok(t) => t,
            Err(e) => {
                return Err(e);
            },
        };
        Ok(
            PhantomTraceProcessor {
                config,
                tracer,
                processing_stats: ProcessingStats {
                    lines_processed: 0,
                    lines_phantomed: 0,
                    total_phantom_events: 0,
                    processing_time_nanos: 0,
                    start_time: None,
                },
            },
        )
    }

    /// The configuration this session runs with.
    pub fn config(&self) -> (c: &PhantomTraceConfig)
        ensures
            c@ == self.config_view(),
    {
        &self.config
    }

    /// Splits the input into lines, runs the engine on each line
    /// independently, joins the transformed lines with newlines, and
    /// accumulates the session counters.
    #[verifier::loop_isolation(false)]
    #[verifier::rlimit(60)]
    #[verifier::spinoff_prover]
    pub fn phantom_text(&mut self, input: &str) -> (r: ProcessingResult)
        requires
            old(self).wf(),
        ensures
            final(self).wf(),
            final(self).rules_model() == old(self).rules_model(),
            final(self).config_view() == old(self).config_view(),
            ({
                let rules = old(self).rules_model();
                let lines = std_lines(input@);
                &&& r.phantomed_text@ == join_lines(pipeline_outputs(rules, lines))
                &&& events_match(
                    r.phantom_events@.map_values(|e: PhantomEvent| e@),
                    pipeline_events(rules, lines, lines.len() as int),
                )
                &&& r.lines_processed == lines.len()
                &&& r.lines_phantomed == count_phantomed(rules, lines, lines.len() as int)
                &&& final(self).stats().lines_processed == sat_add64(
                    old(self).stats().lines_processed,
                    lines.len() as u64,
                )
                &&& final(self).stats().lines_phantomed == sat_add64(
                    old(self).stats().lines_phantomed,
                    count_phantomed(rules, lines, lines.len() as int) as u64,
                )
                &&& final(self).stats().total_phantom_events == sat_add64(
                    old(self).stats().total_phantom_events,
                    pipeline_events(rules, lines, lines.len() as int).len() as u64,
                )
                &&& final(self).stats().processing_time_nanos >= old(
                    self,
                ).stats().processing_time_nanos
                &&& final(self).stats().start_time is Some
                &&& (old(self).stats().start_time is Some ==> final(self).stats().start_time == old(
                    self,
                ).stats().start_time)
                &&& final(self).tracer_stats_view().len() == old(self).tracer_stats_view().len()
                &&& ({
                    let cs0 = old(self).tracer_stats_view().map_values(
                        |s: StatsV| (s.phantoms_created, s.characters_traced),
                    );
                    let csn = counters_after_lines(rules, lines, lines.len() as int, cs0);
                    let fs = *final(self);
                    forall|i: int|
                        0 <= i < old(self).tracer_stats_view().len() ==> {
                            let so = old(self).tracer_stats_view()[i];
                            let sn = #[trigger] fs.tracer_stats_view()[i];
                            &&& sn.severity_level == so.severity_level
                            &&& (sn.phantoms_created, sn.characters_traced) == csn[i]
                            &&& (so.first_trace is Some ==> sn.first_trace == so.first_trace)
                            &&& (so.last_trace is Some ==> sn.last_trace is Some)
                        }
                })
            }),
    {
        let ghost rules = old(self).rules_model();
        let ghost lines = std_lines(input@);
        let ghost cs0 = old(self).tracer_stats_view().map_values(
            |s: StatsV| (s.phantoms_created, s.characters_traced),
        );
        let start = now_nanos();
        if self.processing_stats.start_time.is_none() {
            self.processing_stats.start_time = Some(start);
        }
        let chars = chars_vec(input);
        let spans = line_spans(&chars);
        let nl = spans.len();
        let mut out = String::new();
        let mut events: Vec<PhantomEvent> = Vec::new();
        let ghost mut done_events: Seq<EventModel> = Seq::<EventModel>::empty();
        let mut lines_ph: usize = 0;
        let mut li: usize = 0;
        while li < nl
            invariant
                0 <= li <= nl,
                self.wf(),
                self.tracer.rules_model() == rules,
                self.config == old(self).config,
                self.processing_stats.lines_processed == old(
                    self,
                ).processing_stats.lines_processed,
                self.processing_stats.lines_phantomed == old(
                    self,
                ).processing_stats.lines_phantomed,
                self.processing_stats.total_phantom_events == old(
                    self,
                ).processing_stats.total_phantom_events,
                self.processing_stats.processing_time_nanos == old(
                    self,
                ).processing_stats.processing_time_nanos,
                self.processing_stats.start_time is Some,
                old(self).processing_stats.start_time is Some ==> self.processing_stats.start_time
                    == old(self).processing_stats.start_time,
                out@ == join_lines(pipeline_outputs(rules, lines.take(li as int))),
                done_events == pipeline_events(rules, lines, li as int),
                events_match(events@.map_values(|e: PhantomEvent| e@), done_events),
                lines_ph as int == count_phantomed(rules, lines, li as int),
                lines_ph <= li,
                self.tracer.stats_view().len() == old(self).tracer_stats_view().len(),
                self.tracer.stats_view().map_values(
                    |s: StatsV| (s.phantoms_created, s.characters_traced),
                ) == counters_after_lines(rules, lines, li as int, cs0),
                forall|i: int|
                    0 <= i < old(self).tracer_stats_view().len() ==> {
                        let so = old(self).tracer_stats_view()[i];
                        let sn = #[trigger] self.tracer.stats_view()[i];
                        &&& sn.severity_level == so.severity_level
                        &&& (so.first_trace is Some ==> sn.first_trace == so.first_trace)
                        &&& (so.last_trace is Some ==> sn.last_trace is Some)
                    },
            decreases nl - li,
        {
            let span = spans[li];
            let line = input.substring_char(span.0, span.1);
            proof {
                assert(line@ == lines[li as int]);
            }
            let ghost stats_pre = self.tracer.stats_view();
            let res = self.tracer.trace_and_phantom(line);
            let new_line = res.0;
            let mut evs = res.1;
            proof {
                assert(new_line@ == line_output(rules, lines[li as int]));
                assert(evs@.map_values(|e: PhantomEvent| e@).len() == line_events(
                    rules,
                    lines[li as int],
                ).len());
            }
            if evs.len() > 0 {
                lines_ph = lines_ph + 1;
            }
            let ghost evs_snapshot = evs@;
            let ghost events_snapshot = events@;
            events.append(&mut evs);
            proof {
                assert(events@ =~= events_snapshot + evs_snapshot);
                crate::tracer::lemma_events_match_concat(
                    events_snapshot,
                    evs_snapshot,
                    done_events,
                    line_events(rules, lines[li as int]),
                );
                done_events = done_events + line_events(rules, lines[li as int]);
                assert(events_match(events@.map_values(|e: PhantomEvent| e@), done_events));
            }
            if li == 0 {
                out.append(new_line.as_str());
                proof {
                    assert(pipeline_outputs(rules, lines.take(1)) =~= seq![
                        line_output(rules, lines[0]),
                    ]);
                    assert(out@ =~= join_lines(pipeline_outputs(rules, lines.take(1))));
                }
            } else {
                out.append("\n");
                out.append(new_line.as_str());
                proof {
                    reveal_strlit("\n");
                    assert("\n"@ =~= seq!['\n']);
                    lemma_join_push(
                        pipeline_outputs(rules, lines.take(li as int)),
                        line_output(rules, lines[li as int]),
                    );
                    assert(pipeline_outputs(rules, lines.take(li as int + 1)) =~= pipeline_outputs(
                        rules,
                        lines.take(li as int),
                    ).push(line_output(rules, lines[li as int])));
                    assert(out@ =~= join_lines(pipeline_outputs(rules, lines.take(li as int + 1))));
                }
            }
            proof {
                let f = |s: StatsV| (s.phantoms_created, s.characters_traced);
                let cs_pre = stats_pre.map_values(f);
                let cs_line = counters_after(rules, sorted_order(rules), 0, lines[li as int], cs_pre);
                assert(cs_pre == counters_after_lines(rules, lines, li as int, cs0));
                self.tracer.lemma_stats_len();
                assert(cs_pre.len() == rules.len());
                crate::tracer::lemma_sorted_order_bounds(rules);
                crate::tracer::lemma_counters_after_len(
                    rules,
                    sorted_order(rules),
                    0,
                    lines[li as int],
                    cs_pre,
                );
                assert forall|i: int| 0 <= i < stats_pre.len() implies self.tracer.stats_view(
                ).map_values(f)[i] == cs_line[i] by {
                    assert((self.tracer.stats_view()[i].phantoms_created,
                    self.tracer.stats_view()[i].characters_traced) == cs_line[i]);
                }
                assert(self.tracer.stats_view().map_values(f) =~= counters_after(
                    rules,
                    sorted_order(rules),
                    0,
                    lines[li as int],
                    counters_after_lines(rules, lines, li as int, cs0),
                ));
            }
            li = li + 1;
        }
        proof {
            assert(lines.take(nl as int) =~= lines);
        }
        let elapsed = now_nanos().saturating_sub(start);
        self.processing_stats.lines_processed = self.processing_stats.lines_processed
            .saturating_add(nl as u64);
        self.processing_stats.lines_phantomed = self.processing_stats.lines_phantomed
            .saturating_add(lines_ph as u64);
        self.processing_stats.total_phantom_events =
            self.processing_stats.total_phantom_events.saturating_add(events.len() as u64);
        self.processing_stats.processing_time_nanos =
            self.processing_stats.processing_time_nanos.saturating_add(elapsed);
        proof {
            assert(events@.map_values(|e: PhantomEvent| e@).len() == pipeline_events(
                rules,
                lines,
                lines.len() as int,
            ).len());
        }
        ProcessingResult {
            phantomed_text: out,
            phantom_events: events,
            lines_processed: nl,
            lines_phantomed: lines_ph,
            processing_time_nanos: elapsed,
        }
    }

    /// The engine's aggregate report, with the same exact contents as the
    /// engine itself reports.
    pub fn get_trace_report(&self) -> (rep: TraceReport)
        requires
            self.wf(),
        ensures
            rep.total_phantoms_created == sum_phantoms(
                self.tracer_stats_view(),
                self.tracer_stats_view().len() as int,
            ),
            rep.total_characters_traced == sum_characters(
                self.tracer_stats_view(),
                self.tracer_stats_view().len() as int,
            ),
            rep.rules_triggered == count_triggered(
                self.tracer_stats_view(),
                self.tracer_stats_view().len() as int,
            ),
            rep.detailed_stats@.len() == self.tracer_stats_view().len(),
            forall|i: int|
                0 <= i < self.tracer_stats_view().len() ==> (#[trigger] rep.detailed_stats@[i]).0@
                    == self.rules_model()[i].name && rep.detailed_stats@[i].1@
                    == self.tracer_stats_view()[i],
            rep.severity_breakdown@.map_values(|p: (String, u64)| (p.0@, p.1)) == breakdown_v(
                self.tracer_stats_view(),
            ),
    {
        self.tracer.get_trace_report()
    }

    /// The session counters and a fresh report.
    pub fn get_processing_stats(&self) -> (r: ProcessingStatsOutput)
        requires
            self.wf(),
        ensures
            r.lines_processed == self.stats().lines_processed,
            r.lines_phantomed == self.stats().lines_phantomed,
            r.total_phantom_events == self.stats().total_phantom_events,
            r.processing_time_ms == self.stats().processing_time_nanos / 1000000,
            r.trace_report.total_phantoms_created == sum_phantoms(
                self.tracer_stats_view(),
                self.tracer_stats_view().len() as int,
            ),
            r.trace_report.rules_triggered == count_triggered(
                self.tracer_stats_view(),
                self.tracer_stats_view().len() as int,
            ),
    {
        ProcessingStatsOutput {
            lines_processed: self.processing_stats.lines_processed,
            lines_phantomed: self.processing_stats.lines_phantomed,
            total_phantom_events: self.processing_stats.total_phantom_events,
            processing_time_ms: self.processing_stats.processing_time_nanos / 1000000,
            trace_report: self.get_trace_report(),
        }
    }

    /// Clears the session counters and the engine's statistics and token
    /// memory; the compiled rules are kept.
    pub fn reset_stats(&mut self)
        requires
            old(self).wf(),
        ensures
            final(self).wf(),
            final(self).rules_model() == old(self).rules_model(),
            final(self).config_view() == old(self).config_view(),
            final(self).stats() == (ProcessingStats {
                lines_processed: 0u64,
                lines_phantomed: 0u64,
                total_phantom_events: 0u64,
                processing_time_nanos: 0u64,
                start_time: None,
            }),
            final(self).tracer_stats_view().len() == old(self).tracer_stats_view().len(),
            ({
                let fs = *final(self);
                forall|i: int|
                    0 <= i < fs.tracer_stats_view().len() ==> #[trigger] fs.tracer_stats_view()[i]
                        == (StatsV {
                        phantoms_created: 0u64,
                        characters_traced: 0u64,
                        severity_level: old(self).tracer_stats_view()[i].severity_level,
                        first_trace: None,
                        last_trace: None,
                    })
            }),
    {
        self.processing_stats = ProcessingStats {
            lines_processed: 0,
            lines_phantomed: 0,
            total_phantom_events: 0,
            processing_time_nanos: 0,
            start_time: None,
        };
        self.tracer.reset_traces();
    }
}

} // verus!
