//! Decisions behind the command-line shell: which operation mode to run,
//! how flag overrides change a configuration, and which preset a name
//! selects.  The shell itself only collects flags and hands them in as
//! plain values.

use vstd::prelude::*;
use crate::config::ConfigV;
use crate::config::OutputFormat;
use crate::config::PhantomTraceConfig;
use crate::config::PerformanceTuning;
use crate::config::PreprocessingMode;
use crate::config::ProcessingConfig;
use crate::config::SplunkV;
use crate::config::TraceRule;
use crate::config::elk_preset_v;
use crate::config::high_performance_preset_v;
use crate::config::default_config_v;
use crate::config::splunk_preset_v;
use crate::matcher::Matcher;
use crate::matcher::pattern_accepted;
use crate::text::chars_vec;
use crate::text::str_eq;

verus! {

/// The digits of a decimal literal, one optional leading plus sign
/// allowed.
pub open spec fn digits_part(s: Seq<char>) -> Seq<char> {
    if s.len() > 0 && s[0] == '+' {
        s.drop_first()
    } else {
        s
    }
}

/// A nonempty run of decimal digits.
pub open spec fn all_digits(s: Seq<char>) -> bool {
    s.len() >= 1 && forall|i: int| 0 <= i < s.len() ==> 48 <= (#[trigger] s[i]) as u32 <= 57
}

/// The value of the first `n` digits, most significant first.
pub open spec fn dec_val(s: Seq<char>, n: int) -> int
    decreases n,
{
    if n <= 0 {
        0
    } else {
        dec_val(s, n - 1) * 10 + ((s[n - 1] as u32) - 48)
    }
}

/// A digit prefix's value is never negative.
proof fn lemma_dec_val_nonneg(s: Seq<char>, n: int)
    requires
        0 <= n <= s.len(),
        all_digits(s),
    ensures
        dec_val(s, n) >= 0,
    decreases n,
{
    if n > 0 {
        lemma_dec_val_nonneg(s, n - 1);
        assert(dec_val(s, n - 1) * 10 >= 0) by (nonlinear_arith)
            requires
                dec_val(s, n - 1) >= 0,
        ;
    }
}

/// Digit prefixes never decrease in value.
proof fn lemma_dec_val_mono(s: Seq<char>, m: int, n: int)
    requires
        0 <= m <= n <= s.len(),
        all_digits(s),
    ensures
        0 <= dec_val(s, m) <= dec_val(s, n),
    decreases n - m,
{
    lemma_dec_val_nonneg(s, m);
    if m < n {
        lemma_dec_val_mono(s, m, n - 1);
        assert(dec_val(s, n - 1) * 10 >= dec_val(s, n - 1)) by (nonlinear_arith)
            requires
                dec_val(s, n - 1) >= 0,
        ;
    }
}

/// The port a string selects: its decimal value when it is a plain decimal
/// port number, the given default otherwise.
pub open spec fn port_or_default(s: Seq<char>, d: u16) -> u16 {
    let p = digits_part(s);
    if all_digits(p) && dec_val(p, p.len() as int) <= 65535 {
        dec_val(p, p.len() as int) as u16
    } else {
        d
    }
}

/// Parses a decimal port number, one optional leading plus sign allowed.
#[verifier::loop_isolation(false)]
pub fn parse_port(s: &str) -> (r: Option<u16>)
    ensures
        r is Some <==> (all_digits(digits_part(s@)) && dec_val(
            digits_part(s@),
            digits_part(s@).len() as int,
        ) <= 65535),
        r matches Some(p) ==> p as int == dec_val(digits_part(s@), digits_part(s@).len() as int),
{
    let ghost d = digits_part(s@);
    let chars = chars_vec(s);
    let n = chars.len();
    let start: usize = if n > 0 && chars[0] == '+' {
        1
    } else {
        0
    };
    proof {
        assert(d.len() == n - start);
        assert(forall|j: int| 0 <= j < d.len() ==> d[j] == chars@[start + j]);
    }
    if n == start {
        proof {
            assert(!all_digits(d));
        }
        return None;
    }
    let mut acc: u32 = 0;
    let mut i: usize = start;
    while i < n
        invariant
            n == chars@.len(),
            d == digits_part(chars@),
            d.len() == n - start,
            forall|j: int| 0 <= j < d.len() ==> d[j] == chars@[start + j],
            start <= i <= n,
            forall|j: int| 0 <= j < i as int - start as int ==> 48 <= (#[trigger] d[j]) as u32 <= 57,
            acc as int == dec_val(d, i as int - start as int),
            acc <= 65535,
        decreases n - i,
    {
        let c = chars[i];
        let u = c as u32;
        if u < 48 || u > 57 {
            proof {
                assert(d[i as int - start as int] == chars@[i as int]);
                assert(!all_digits(d));
            }
            return None;
        }
        let next: u32 = acc * 10 + (u - 48);
        if next > 65535 {
            proof {
                assert(next as int == dec_val(d, i as int + 1 - start as int));
                if all_digits(d) {
                    lemma_dec_val_mono(d, i as int + 1 - start as int, d.len() as int);
                }
            }
            return None;
        }
        acc = next;
        i = i + 1;
    }
    proof {
        assert(all_digits(d));
        assert(acc as int == dec_val(d, d.len() as int));
    }
    Some(acc as u16)
}

/// The ways the surrounding process can run the engine.
#[derive(Debug)]
pub enum OperationMode {
    /// Read lines from standard input, write transformed lines out.
    StreamProcessor,
    /// Serve transformed lines over a network port.
    TcpServer(u16),
    /// Follow a growing log file.
    FileMonitor(String),
    /// Process one input file into one output file.
    BatchProcessor,
    /// Answer health probes on a port.
    HealthServer(u16),
}

/// Picks the operation mode from the command-line flags, in the shell's
/// precedence order: stream, then server, then monitor, then health
/// server, with batch processing as the default.
pub fn determine_operation_mode(
    stream: bool,
    tcp_server: Option<&String>,
    monitor: Option<&String>,
    health_server: Option<&String>,
) -> (r: OperationMode)
    ensures
        stream ==> r is StreamProcessor,
        !stream && tcp_server is Some ==> (r matches OperationMode::TcpServer(p) && p
            == port_or_default(tcp_server->Some_0@, 5140)),
        !stream && tcp_server is None && monitor is Some ==> (r matches OperationMode::FileMonitor(
            f,
        ) && f@ == monitor->Some_0@),
        !stream && tcp_server is None && monitor is None && health_server is Some ==> (r matches
            OperationMode::HealthServer(p) && p == port_or_default(health_server->Some_0@, 8080)),
        !stream && tcp_server is None && monitor is None && health_server is None ==> r
            is BatchProcessor,
{
    if stream {
        OperationMode::StreamProcessor
    } else if let Some(port_str) = tcp_server {
        let port = match parse_port(port_str.as_str()) {
            Some(p) => p,
            None => 5140,
        };
        OperationMode::TcpServer(port)
    } else if let Some(file_path) = monitor {
        OperationMode::FileMonitor(file_path.clone())
    } else if let Some(port_str) = health_server {
        let port = match parse_port(port_str.as_str()) {
            Some(p) => p,
            None => 8080,
        };
        OperationMode::HealthServer(port)
    } else {
        OperationMode::BatchProcessor
    }
}

/// The output format a flag value names; anything unrecognized means plain
/// text.
pub open spec fn output_format_of(s: Seq<char>) -> OutputFormat {
    if s == "json"@ {
        OutputFormat::Json
    } else if s == "csv"@ {
        OutputFormat::Csv
    } else if s == "trace-report"@ {
        OutputFormat::TraceReport
    } else {
        OutputFormat::Text
    }
}

/// Parses an output format flag.
pub fn parse_output_format(s: &str) -> (r: OutputFormat)
    ensures
        r == output_format_of(s@),
{
    if str_eq(s, "json") {
        OutputFormat::Json
    } else if str_eq(s, "csv") {
        OutputFormat::Csv
    } else if str_eq(s, "trace-report") {
        OutputFormat::TraceReport
    } else {
        OutputFormat::Text
    }
}

/// Applies the command-line overrides to a configuration: the format flag
/// first, then Splunk mode, performance mode, and the report and event
/// switches.
#[verifier::rlimit(100)]
pub fn apply_cli_overrides(
    config: &mut PhantomTraceConfig,
    format: Option<&String>,
    splunk_mode: bool,
    performance_mode: bool,
    trace_report: bool,
    log_phantoms: bool,
    create_trace_map: bool,
)
    ensures
        final(config)@.tracing == old(config)@.tracing,
        final(config)@.monitoring == old(config)@.monitoring,
        final(config)@.processing == (ProcessingConfig {
            performance_mode: old(config)@.processing.performance_mode || performance_mode,
            ..old(config)@.processing
        }),
        final(config)@.output.format == (if splunk_mode {
            OutputFormat::Json
        } else {
            match format {
                Some(f) => output_format_of(f@),
                None => old(config)@.output.format,
            }
        }),
        final(config)@.output.include_trace_report == (if trace_report {
            true
        } else if splunk_mode {
            false
        } else {
            old(config)@.output.include_trace_report
        }),
        final(config)@.output.log_phantom_events == (old(config)@.output.log_phantom_events
            || log_phantoms),
        final(config)@.output.create_trace_map == (old(config)@.output.create_trace_map
            || create_trace_map),
        final(config)@.preprocessing.mode == (if splunk_mode {
            PreprocessingMode::StreamProcessor
        } else {
            old(config)@.preprocessing.mode
        }),
        final(config)@.preprocessing.splunk_integration == (SplunkV {
            enabled: old(config)@.preprocessing.splunk_integration.enabled || splunk_mode,
            ..old(config)@.preprocessing.splunk_integration
        }),
        final(config)@.preprocessing.elk_integration == old(config)@.preprocessing.elk_integration,
        final(config)@.preprocessing.realtime_processing == old(
            config,
        )@.preprocessing.realtime_processing,
        final(config)@.preprocessing.tcp_server_port == old(config)@.preprocessing.tcp_server_port,
        final(config)@.preprocessing.file_monitoring == old(
            config,
        )@.preprocessing.file_monitoring,
        final(config)@.preprocessing.performance_tuning == (PerformanceTuning {
            enable_batching: old(config)@.preprocessing.performance_tuning.enable_batching
                || performance_mode,
            async_processing: old(config)@.preprocessing.performance_tuning.async_processing
                || performance_mode,
            ..old(config)@.preprocessing.performance_tuning
        }),
{
    let flag_format = match format {
        Some(f) => parse_output_format(f.as_str()),
        None => config.output.format,
    };
    config.output.format = if splunk_mode {
        OutputFormat::Json
    } else {
        flag_format
    };
    config.output.include_trace_report = if trace_report {
        true
    } else if splunk_mode {
        false
    } else {
        config.output.include_trace_report
    };
    config.output.log_phantom_events = config.output.log_phantom_events || log_phantoms;
    config.output.create_trace_map = config.output.create_trace_map || create_trace_map;
    config.processing.performance_mode = config.processing.performance_mode || performance_mode;
    if splunk_mode {
        config.preprocessing.splunk_integration.enabled = true;
        config.preprocessing.mode = PreprocessingMode::StreamProcessor;
    }
    config.preprocessing.performance_tuning.enable_batching =
        config.preprocessing.performance_tuning.enable_batching || performance_mode;
    config.preprocessing.performance_tuning.async_processing =
        config.preprocessing.performance_tuning.async_processing || performance_mode;
    proof {
        assert(config@.tracing =~= old(config)@.tracing);
        assert(config@.preprocessing.splunk_integration =~= (SplunkV {
            enabled: old(config)@.preprocessing.splunk_integration.enabled || splunk_mode,
            ..old(config)@.preprocessing.splunk_integration
        }));
    }
}

/// The configuration a preset name selects; an unknown name means the
/// stock configuration.
pub open spec fn preset_v(name: Seq<char>) -> ConfigV {
    if name == "splunk"@ {
        splunk_preset_v()
    } else if name == "elk"@ {
        elk_preset_v()
    } else if name == "high-performance"@ {
        high_performance_preset_v()
    } else {
        default_config_v()
    }
}

/// The configuration a preset name selects.
pub fn config_for_preset(name: &str) -> (c: PhantomTraceConfig)
    ensures
        c@ == preset_v(name@),
{
    if str_eq(name, "splunk") {
        PhantomTraceConfig::splunk_preset()
    } else if str_eq(name, "elk") {
        PhantomTraceConfig::elk_preset()
    } else if str_eq(name, "high-performance") {
        PhantomTraceConfig::high_performance_preset()
    } else {
        PhantomTraceConfig::default()
    }
}

/// The first rule, if any, whose raw pattern the matcher does not accept:
/// the health check validates patterns exactly as written.
pub fn validate_rule_patterns(rules: &Vec<TraceRule>) -> (r: Option<String>)
    ensures
        r is None <==> (forall|i: int|
            0 <= i < rules@.len() ==> pattern_accepted((#[trigger] rules@[i])@.pattern)),
        r matches Some(name) ==> exists|j: int|
            0 <= j < rules@.len() && name@ == (#[trigger] rules@[j])@.name && !pattern_accepted(
                rules@[j]@.pattern,
            ) && (forall|a: int| 0 <= a < j ==> pattern_accepted((#[trigger] rules@[a])@.pattern)),
{
    let n = rules.len();
    let mut i: usize = 0;
    while i < n
        invariant
            n == rules@.len(),
            0 <= i <= n,
            forall|a: int| 0 <= a < i ==> pattern_accepted((#[trigger] rules@[a])@.pattern),
        decreases n - i,
    {
        match Matcher::compile(&rules[i].pattern) {
            Ok(_) => {},
            Err(_) => {
                return Some(rules[i].name.clone());
            },
        }
        i = i + 1;
    }
    None
}

} // verus!
