//! Declarative configuration: rule definitions, severities, obfuscation
//! methods, and the engine-wide settings with their presets.
//!
//! Every structure that carries text has a ghost view (`@`) over character
//! sequences, so that defaults and presets can be pinned down exactly in
//! contracts.

use vstd::prelude::*;

verus! {

/// How a matched substring is obscured.
#[derive(Clone, Copy, Debug, PartialEq, Eq, Structural)]
pub enum ObfuscationMethod {
    /// Replace with placeholder characters, keeping a configured number of
    /// characters at each end.
    Phantom,
    /// Remove entirely.
    Vanish,
    /// Replace with a hash-derived token.
    Mirror,
    /// Replace with a configured literal string.
    Mask,
    /// Replace with a session-consistent, traceable token.
    Tokenize,
}

/// Priority tier controlling rule application order and reporting bucket.
#[derive(Clone, Copy, Debug, PartialEq, Eq, Structural)]
pub enum TraceSeverity {
    /// PCI data (card numbers, credentials).
    Critical,
    /// PII data (SSNs, emails).
    High,
    /// Sensitive data (IP addresses, phone numbers).
    Medium,
    /// Other identifiable data.
    Low,
}

/// Application priority of a severity: lower ranks are applied first.
pub open spec fn severity_rank(s: TraceSeverity) -> int {
    match s {
        TraceSeverity::Critical => 0,
        TraceSeverity::High => 1,
        TraceSeverity::Medium => 2,
        TraceSeverity::Low => 3,
    }
}

/// The label under which a severity is reported.
pub open spec fn severity_label(s: TraceSeverity) -> Seq<char> {
    match s {
        TraceSeverity::Critical => "Critical"@,
        TraceSeverity::High => "High"@,
        TraceSeverity::Medium => "Medium"@,
        TraceSeverity::Low => "Low"@,
    }
}

/// The label under which a severity is reported.
pub fn severity_label_string(s: &TraceSeverity) -> (r: String)
    ensures
        r@ == severity_label(*s),
{
    match s {
        TraceSeverity::Critical => "Critical".to_owned(),
        TraceSeverity::High => "High".to_owned(),
        TraceSeverity::Medium => "Medium".to_owned(),
        TraceSeverity::Low => "Low".to_owned(),
    }
}

/// One declarative rule: what to find and how to obscure it.
#[derive(Debug)]
pub struct TraceRule {
    pub name: String,
    pub pattern: String,
    pub method: ObfuscationMethod,
    pub preserve_chars: Option<usize>,
    pub replacement: Option<String>,
    pub severity: TraceSeverity,
    pub case_sensitive: Option<bool>,
}

/// Ghost view of a [`TraceRule`].
#[verifier::ext_equal]
pub struct RuleV {
    pub name: Seq<char>,
    pub pattern: Seq<char>,
    pub method: ObfuscationMethod,
    pub preserve_chars: Option<usize>,
    pub replacement: Option<Seq<char>>,
    pub severity: TraceSeverity,
    pub case_sensitive: Option<bool>,
}

impl View for TraceRule {
    type V = RuleV;

    open spec fn view(&self) -> RuleV {
        RuleV {
            name: self.name@,
            pattern: self.pattern@,
            method: self.method,
            preserve_chars: self.preserve_chars,
            replacement: match self.replacement {
                Some(ref s) => Some(s@),
                None => None,
            },
            severity: self.severity,
            case_sensitive: self.case_sensitive,
        }
    }
}

/// A user-defined pattern kept alongside the rule set.
#[derive(Debug)]
pub struct CustomPattern {
    pub name: String,
    pub regex: String,
    pub description: String,
    pub category: String,
}

/// Ghost view of a [`CustomPattern`].
#[verifier::ext_equal]
pub struct CustomPatternV {
    pub name: Seq<char>,
    pub regex: Seq<char>,
    pub description: Seq<char>,
    pub category: Seq<char>,
}

impl View for CustomPattern {
    type V = CustomPatternV;

    open spec fn view(&self) -> CustomPatternV {
        CustomPatternV {
            name: self.name@,
            regex: self.regex@,
            description: self.description@,
            category: self.category@,
        }
    }
}

/// The rule set and matching defaults.
#[derive(Debug)]
pub struct TracingConfig {
    pub enabled: bool,
    pub rules: Vec<TraceRule>,
    pub custom_patterns: Vec<CustomPattern>,
    pub case_sensitive: bool,
}

/// Ghost view of a [`TracingConfig`].
#[verifier::ext_equal]
pub struct TracingV {
    pub enabled: bool,
    pub rules: Seq<RuleV>,
    pub custom_patterns: Seq<CustomPatternV>,
    pub case_sensitive: bool,
}

impl View for TracingConfig {
    type V = TracingV;

    open spec fn view(&self) -> TracingV {
        TracingV {
            enabled: self.enabled,
            rules: self.rules@.map_values(|r: TraceRule| r@),
            custom_patterns: self.custom_patterns@.map_values(|p: CustomPattern| p@),
            case_sensitive: self.case_sensitive,
        }
    }
}

/// Batching and scanning knobs.
#[derive(Clone, Copy, Debug, PartialEq, Eq, Structural)]
pub struct ProcessingConfig {
    pub batch_size: usize,
    pub preserve_structure: bool,
    pub trace_overlaps: bool,
    pub performance_mode: bool,
}

/// Serialization formats an output writer may be asked for.
#[derive(Clone, Copy, Debug, PartialEq, Eq, Structural)]
pub enum OutputFormat {
    Text,
    Json,
    Csv,
    TraceReport,
}

/// What the output writer should produce.
#[derive(Clone, Copy, Debug, PartialEq, Eq, Structural)]
pub struct OutputConfig {
    pub format: OutputFormat,
    pub include_trace_report: bool,
    pub log_phantom_events: bool,
    pub create_trace_map: bool,
}

/// How the surrounding process feeds text in.
#[derive(Clone, Copy, Debug, PartialEq, Eq, Structural)]
pub enum PreprocessingMode {
    /// Traditional file processing.
    Standalone,
    /// Real-time stream processing.
    StreamProcessor,
    /// Network server for log agents.
    TcpServer,
    /// Monitor log files for changes.
    FileMonitor,
}

/// Splunk-facing integration settings.
#[derive(Debug)]
pub struct SplunkConfig {
    pub enabled: bool,
    pub preserve_timestamp: bool,
    pub preserve_source: bool,
    pub add_phantom_metadata: bool,
    pub phantom_sourcetype: String,
    pub index: Option<String>,
    pub host_field: Option<String>,
}

/// Ghost view of a [`SplunkConfig`].
#[verifier::ext_equal]
pub struct SplunkV {
    pub enabled: bool,
    pub preserve_timestamp: bool,
    pub preserve_source: bool,
    pub add_phantom_metadata: bool,
    pub phantom_sourcetype: Seq<char>,
    pub index: Option<Seq<char>>,
    pub host_field: Option<Seq<char>>,
}

impl View for SplunkConfig {
    type V = SplunkV;

    open spec fn view(&self) -> SplunkV {
        SplunkV {
            enabled: self.enabled,
            preserve_timestamp: self.preserve_timestamp,
            preserve_source: self.preserve_source,
            add_phantom_metadata: self.add_phantom_metadata,
            phantom_sourcetype: self.phantom_sourcetype@,
            index: match self.index {
                Some(ref s) => Some(s@),
                None => None,
            },
            host_field: match self.host_field {
                Some(ref s) => Some(s@),
                None => None,
            },
        }
    }
}

/// ELK-facing integration settings.
#[derive(Debug)]
pub struct ElkConfig {
    pub enabled: bool,
    pub add_phantom_fields: bool,
    pub phantom_index_pattern: String,
    pub preserve_original_timestamp: bool,
    pub add_processing_metadata: bool,
}

/// Ghost view of an [`ElkConfig`].
#[verifier::ext_equal]
pub struct ElkV {
    pub enabled: bool,
    pub add_phantom_fields: bool,
    pub phantom_index_pattern: Seq<char>,
    pub preserve_original_timestamp: bool,
    pub add_processing_metadata: bool,
}

impl View for ElkConfig {
    type V = ElkV;

    open spec fn view(&self) -> ElkV {
        ElkV {
            enabled: self.enabled,
            add_phantom_fields: self.add_phantom_fields,
            phantom_index_pattern: self.phantom_index_pattern@,
            preserve_original_timestamp: self.preserve_original_timestamp,
            add_processing_metadata: self.add_processing_metadata,
        }
    }
}

/// Throughput tuning knobs.
#[derive(Clone, Copy, Debug, PartialEq, Eq, Structural)]
pub struct PerformanceTuning {
    pub thread_pool_size: usize,
    pub buffer_size: usize,
    pub flush_interval_ms: u64,
    pub enable_batching: bool,
    pub async_processing: bool,
    pub memory_limit_mb: usize,
}

/// Metrics and health checking.
#[derive(Clone, Copy, Debug, PartialEq, Eq, Structural)]
pub struct MonitoringConfig {
    pub metrics_enabled: bool,
    pub metrics_interval_secs: u64,
    pub health_check_enabled: bool,
    pub audit_logging: bool,
}

/// Log-pipeline integration settings.
#[derive(Debug)]
pub struct PreprocessingConfig {
    pub mode: PreprocessingMode,
    pub realtime_processing: bool,
    pub tcp_server_port: Option<u16>,
    pub file_monitoring: bool,
    pub splunk_integration: SplunkConfig,
    pub elk_integration: ElkConfig,
    pub performance_tuning: PerformanceTuning,
}

/// Ghost view of a [`PreprocessingConfig`].
#[verifier::ext_equal]
pub struct PreprocessingV {
    pub mode: PreprocessingMode,
    pub realtime_processing: bool,
    pub tcp_server_port: Option<u16>,
    pub file_monitoring: bool,
    pub splunk_integration: SplunkV,
    pub elk_integration: ElkV,
    pub performance_tuning: PerformanceTuning,
}

impl View for PreprocessingConfig {
    type V = PreprocessingV;

    open spec fn view(&self) -> PreprocessingV {
        PreprocessingV {
            mode: self.mode,
            realtime_processing: self.realtime_processing,
            tcp_server_port: self.tcp_server_port,
            file_monitoring: self.file_monitoring,
            splunk_integration: self.splunk_integration@,
            elk_integration: self.elk_integration@,
            performance_tuning: self.performance_tuning,
        }
    }
}

/// The whole engine configuration.
#[derive(Debug)]
pub struct PhantomTraceConfig {
    pub tracing: TracingConfig,
    pub processing: ProcessingConfig,
    pub output: OutputConfig,
    pub preprocessing: PreprocessingConfig,
    pub monitoring: MonitoringConfig,
}

/// Ghost view of a [`PhantomTraceConfig`].
#[verifier::ext_equal]
pub struct ConfigV {
    pub tracing: TracingV,
    pub processing: ProcessingConfig,
    pub output: OutputConfig,
    pub preprocessing: PreprocessingV,
    pub monitoring: MonitoringConfig,
}

impl View for PhantomTraceConfig {
    type V = ConfigV;

    open spec fn view(&self) -> ConfigV {
        ConfigV {
            tracing: self.tracing@,
            processing: self.processing,
            output: self.output,
            preprocessing: self.preprocessing@,
            monitoring: self.monitoring,
        }
    }
}

/// The stock rule set, as ghost views.
pub open spec fn default_rules_v() -> Seq<RuleV> {
    seq![
        RuleV {
            name: "credit_card"@,
            pattern: "\\b(?:\\d{4}[-\\s]?){3}\\d{4}\\b"@,
            method: ObfuscationMethod::Phantom,
            preserve_chars: Some(4usize),
            replacement: None,
            severity: TraceSeverity::Critical,
            case_sensitive: None,
        },
        RuleV {
            name: "ssn"@,
            pattern: "\\b\\d{3}-\\d{2}-\\d{4}\\b"@,
            method: ObfuscationMethod::Mirror,
            preserve_chars: None,
            replacement: None,
            severity: TraceSeverity::High,
            case_sensitive: None,
        },
        RuleV {
            name: "email"@,
            pattern: "\\b[A-Za-z0-9._%+-]+@[A-Za-z0-9.-]+\\.[A-Z|a-z]{2,}\\b"@,
            method: ObfuscationMethod::Phantom,
            preserve_chars: Some(3usize),
            replacement: None,
            severity: TraceSeverity::High,
            case_sensitive: None,
        },
        RuleV {
            name: "phone"@,
            pattern: "\\b(?:\\+1[-.\\s]?)?(?:\\([0-9]{3}\\)|[0-9]{3})[-.\\s]?[0-9]{3}[-.\\s]?[0-9]{4}\\b"@,
            method: ObfuscationMethod::Phantom,
            preserve_chars: Some(4usize),
            replacement: None,
            severity: TraceSeverity::Medium,
            case_sensitive: None,
        },
        RuleV {
            name: "ip_address"@,
            pattern: "\\b(?:[0-9]{1,3}\\.){3}[0-9]{1,3}\\b"@,
            method: ObfuscationMethod::Mask,
            preserve_chars: None,
            replacement: Some("XXX.XXX.XXX.XXX"@),
            severity: TraceSeverity::Medium,
            case_sensitive: None,
        },
        RuleV {
            name: "api_key"@,
            pattern: "\\b[Aa][Pp][Ii][_-]?[Kk][Ee][Yy][:\\s=]+[\\w\\-]{20,}\\b"@,
            method: ObfuscationMethod::Mask,
            preserve_chars: None,
            replacement: Some("[API_KEY_PHANTOMED]"@),
            severity: TraceSeverity::Critical,
            case_sensitive: None,
        },
        RuleV {
            name: "aws_access_key"@,
            pattern: "\\bAKIA[0-9A-Z]{16}\\b"@,
            method: ObfuscationMethod::Mask,
            preserve_chars: None,
            replacement: Some("[AWS_KEY_PHANTOMED]"@),
            severity: TraceSeverity::Critical,
            case_sensitive: None,
        },
        RuleV {
            name: "password"@,
            pattern: "\\b[Pp][Aa][Ss][Ss][Ww][Oo][Rr][Dd][:\\s=]+\\S+"@,
            method: ObfuscationMethod::Mask,
            preserve_chars: None,
            replacement: Some("[PASSWORD_PHANTOMED]"@),
            severity: TraceSeverity::Critical,
            case_sensitive: None,
        },
    ]
}

/// The stock rule set: card numbers, SSNs, emails, phone numbers, IP
/// addresses, API keys, AWS access keys and passwords.
pub fn default_trace_rules() -> (r: Vec<TraceRule>)
    ensures
        r@.map_values(|t: TraceRule| t@) == default_rules_v(),
{
    let mut r: Vec<TraceRule> = Vec::new();
    r.push(
        TraceRule {
            name: "credit_card".to_owned(),
            pattern: "\\b(?:\\d{4}[-\\s]?){3}\\d{4}\\b".to_owned(),
            method: ObfuscationMethod::Phantom,
            preserve_chars: Some(4),
            replacement: None,
            severity: TraceSeverity::Critical,
            case_sensitive: None,
        },
    );
    r.push(
        TraceRule {
            name: "ssn".to_owned(),
            pattern: "\\b\\d{3}-\\d{2}-\\d{4}\\b".to_owned(),
            method: ObfuscationMethod::Mirror,
            preserve_chars: None,
            replacement: None,
            severity: TraceSeverity::High,
            case_sensitive: None,
        },
    );
    r.push(
        TraceRule {
            name: "email".to_owned(),
            pattern: "\\b[A-Za-z0-9._%+-]+@[A-Za-z0-9.-]+\\.[A-Z|a-z]{2,}\\b".to_owned(),
            method: ObfuscationMethod::Phantom,
            preserve_chars: Some(3),
            replacement: None,
            severity: TraceSeverity::High,
            case_sensitive: None,
        },
    );
    r.push(
        TraceRule {
            name: "phone".to_owned(),
            pattern: "\\b(?:\\+1[-.\\s]?)?(?:\\([0-9]{3}\\)|[0-9]{3})[-.\\s]?[0-9]{3}[-.\\s]?[0-9]{4}\\b".to_owned(),
            method: ObfuscationMethod::Phantom,
            preserve_chars: Some(4),
            replacement: None,
            severity: TraceSeverity::Medium,
            case_sensitive: None,
        },
    );
    r.push(
        TraceRule {
            name: "ip_address".to_owned(),
            pattern: "\\b(?:[0-9]{1,3}\\.){3}[0-9]{1,3}\\b".to_owned(),
            method: ObfuscationMethod::Mask,
            preserve_chars: None,
            replacement: Some("XXX.XXX.XXX.XXX".to_owned()),
            severity: TraceSeverity::Medium,
            case_sensitive: None,
        },
    );
    r.push(
        TraceRule {
            name: "api_key".to_owned(),
            pattern: "\\b[Aa][Pp][Ii][_-]?[Kk][Ee][Yy][:\\s=]+[\\w\\-]{20,}\\b".to_owned(),
            method: ObfuscationMethod::Mask,
            preserve_chars: None,
            replacement: Some("[API_KEY_PHANTOMED]".to_owned()),
            severity: TraceSeverity::Critical,
            case_sensitive: None,
        },
    );
    r.push(
        TraceRule {
            name: "aws_access_key".to_owned(),
            pattern: "\\bAKIA[0-9A-Z]{16}\\b".to_owned(),
            method: ObfuscationMethod::Mask,
            preserve_chars: None,
            replacement: Some("[AWS_KEY_PHANTOMED]".to_owned()),
            severity: TraceSeverity::Critical,
            case_sensitive: None,
        },
    );
    r.push(
        TraceRule {
            name: "password".to_owned(),
            pattern: "\\b[Pp][Aa][Ss][Ss][Ww][Oo][Rr][Dd][:\\s=]+\\S+".to_owned(),
            method: ObfuscationMethod::Mask,
            preserve_chars: None,
            replacement: Some("[PASSWORD_PHANTOMED]".to_owned()),
            severity: TraceSeverity::Critical,
            case_sensitive: None,
        },
    );
    proof {
        assert(r@.map_values(|t: TraceRule| t@) =~~= default_rules_v());
    }
    r
}

/// Stock Splunk integration settings.
pub open spec fn default_splunk_v() -> SplunkV {
    SplunkV {
        enabled: false,
        preserve_timestamp: true,
        preserve_source: true,
        add_phantom_metadata: true,
        phantom_sourcetype: "phantomed_logs"@,
        index: Some("phantom"@),
        host_field: Some("phantom_host"@),
    }
}

/// Stock ELK integration settings.
pub open spec fn default_elk_v() -> ElkV {
    ElkV {
        enabled: false,
        add_phantom_fields: true,
        phantom_index_pattern: "phantomed-logs-*"@,
        preserve_original_timestamp: true,
        add_processing_metadata: true,
    }
}

/// Stock performance tuning.
pub open spec fn default_perf_v() -> PerformanceTuning {
    PerformanceTuning {
        thread_pool_size: 4usize,
        buffer_size: 10000usize,
        flush_interval_ms: 100u64,
        enable_batching: true,
        async_processing: false,
        memory_limit_mb: 512usize,
    }
}

/// Stock preprocessing settings.
pub open spec fn default_preprocessing_v() -> PreprocessingV {
    PreprocessingV {
        mode: PreprocessingMode::Standalone,
        realtime_processing: false,
        tcp_server_port: Some(5140u16),
        file_monitoring: false,
        splunk_integration: default_splunk_v(),
        elk_integration: default_elk_v(),
        performance_tuning: default_perf_v(),
    }
}

/// Stock monitoring settings.
pub open spec fn default_monitoring_v() -> MonitoringConfig {
    MonitoringConfig {
        metrics_enabled: false,
        metrics_interval_secs: 60u64,
        health_check_enabled: true,
        audit_logging: false,
    }
}

/// Stock processing settings.
pub open spec fn default_processing_v() -> ProcessingConfig {
    ProcessingConfig {
        batch_size: 1000usize,
        preserve_structure: true,
        trace_overlaps: true,
        performance_mode: false,
    }
}

/// Stock output settings.
pub open spec fn default_output_v() -> OutputConfig {
    OutputConfig {
        format: OutputFormat::Text,
        include_trace_report: true,
        log_phantom_events: false,
        create_trace_map: false,
    }
}

/// Stock tracing settings: the stock rules, case-insensitive.
pub open spec fn default_tracing_v() -> TracingV {
    TracingV {
        enabled: true,
        rules: default_rules_v(),
        custom_patterns: Seq::<CustomPatternV>::empty(),
        case_sensitive: false,
    }
}

/// The whole stock configuration.
pub open spec fn default_config_v() -> ConfigV {
    ConfigV {
        tracing: default_tracing_v(),
        processing: default_processing_v(),
        output: default_output_v(),
        preprocessing: default_preprocessing_v(),
        monitoring: default_monitoring_v(),
    }
}

impl Default for PreprocessingConfig {
    /// The stock preprocessing settings.
    fn default() -> (c: Self)
        ensures
            c@ == default_preprocessing_v(),
    {
        let c = PreprocessingConfig {
            mode: PreprocessingMode::Standalone,
            realtime_processing: false,
            tcp_server_port: Some(5140),
            file_monitoring: false,
            splunk_integration: SplunkConfig {
                enabled: false,
                preserve_timestamp: true,
                preserve_source: true,
                add_phantom_metadata: true,
                phantom_sourcetype: "phantomed_logs".to_owned(),
                index: Some("phantom".to_owned()),
                host_field: Some("phantom_host".to_owned()),
            },
            elk_integration: ElkConfig {
                enabled: false,
                add_phantom_fields: true,
                phantom_index_pattern: "phantomed-logs-*".to_owned(),
                preserve_original_timestamp: true,
                add_processing_metadata: true,
            },
            performance_tuning: PerformanceTuning {
                thread_pool_size: 4,
                buffer_size: 10000,
                flush_interval_ms: 100,
                enable_batching: true,
                async_processing: false,
                memory_limit_mb: 512,
            },
        };
        proof {
            assert(c@ =~~= default_preprocessing_v());
        }
        c
    }
}

impl Default for MonitoringConfig {
    /// The stock monitoring settings.
    fn default() -> (c: Self)
        ensures
            c == default_monitoring_v(),
    {
        MonitoringConfig {
            metrics_enabled: false,
            metrics_interval_secs: 60,
            health_check_enabled: true,
            audit_logging: false,
        }
    }
}

impl Default for PhantomTraceConfig {
    /// The stock configuration: the stock rules, plain-text output, no
    /// integrations switched on.
    fn default() -> (c: Self)
        ensures
            c@ == default_config_v(),
    {
        let c = PhantomTraceConfig {
            tracing: TracingConfig {
                enabled: true,
                rules: default_trace_rules(),
                custom_patterns: Vec::new(),
                case_sensitive: false,
            },
            processing: ProcessingConfig {
                batch_size: 1000,
                preserve_structure: true,
                trace_overlaps: true,
                performance_mode: false,
            },
            output: OutputConfig {
                format: OutputFormat::Text,
                include_trace_report: true,
                log_phantom_events: false,
                create_trace_map: false,
            },
            preprocessing: PreprocessingConfig::default(),
            monitoring: MonitoringConfig::default(),
        };
        proof {
            assert(c@ =~~= default_config_v());
        }
        c
    }
}

/// The Splunk preset: stream processing with Splunk integration and JSON
/// output.
pub open spec fn splunk_preset_v() -> ConfigV {
    ConfigV {
        tracing: default_tracing_v(),
        processing: default_processing_v(),
        output: OutputConfig {
            format: OutputFormat::Json,
            include_trace_report: false,
            log_phantom_events: false,
            create_trace_map: false,
        },
        preprocessing: PreprocessingV {
            mode: PreprocessingMode::StreamProcessor,
            realtime_processing: true,
            tcp_server_port: Some(5140u16),
            file_monitoring: false,
            splunk_integration: SplunkV {
                enabled: true,
                preserve_timestamp: true,
                preserve_source: true,
                add_phantom_metadata: true,
                phantom_sourcetype: "phantomed_logs"@,
                index: Some("phantom"@),
                host_field: Some("phantom_host"@),
            },
            elk_integration: default_elk_v(),
            performance_tuning: default_perf_v(),
        },
        monitoring: default_monitoring_v(),
    }
}

/// The ELK preset: stream processing with ELK integration and JSON output.
pub open spec fn elk_preset_v() -> ConfigV {
    ConfigV {
        tracing: default_tracing_v(),
        processing: default_processing_v(),
        output: OutputConfig {
            format: OutputFormat::Json,
            include_trace_report: false,
            log_phantom_events: false,
            create_trace_map: false,
        },
        preprocessing: PreprocessingV {
            mode: PreprocessingMode::StreamProcessor,
            realtime_processing: true,
            tcp_server_port: Some(5140u16),
            file_monitoring: false,
            splunk_integration: default_splunk_v(),
            elk_integration: ElkV {
                enabled: true,
                add_phantom_fields: true,
                phantom_index_pattern: "phantomed-logs-*"@,
                preserve_original_timestamp: true,
                add_processing_metadata: true,
            },
            performance_tuning: default_perf_v(),
        },
        monitoring: default_monitoring_v(),
    }
}

/// The high-performance preset: bigger batches, more worker threads.
pub open spec fn high_performance_preset_v() -> ConfigV {
    ConfigV {
        tracing: default_tracing_v(),
        processing: ProcessingConfig {
            batch_size: 5000usize,
            preserve_structure: true,
            trace_overlaps: true,
            performance_mode: true,
        },
        output: default_output_v(),
        preprocessing: PreprocessingV {
            mode: PreprocessingMode::Standalone,
            realtime_processing: false,
            tcp_server_port: Some(5140u16),
            file_monitoring: false,
            splunk_integration: default_splunk_v(),
            elk_integration: default_elk_v(),
            performance_tuning: PerformanceTuning {
                thread_pool_size: 8usize,
                buffer_size: 10000usize,
                flush_interval_ms: 100u64,
                enable_batching: true,
                async_processing: true,
                memory_limit_mb: 512usize,
            },
        },
        monitoring: default_monitoring_v(),
    }
}

/// The two extra rules that the strict PCI preset adds.
pub open spec fn strict_pci_extra_rules_v() -> Seq<RuleV> {
    seq![
        RuleV {
            name: "cvv"@,
            pattern: "\\b[Cc][Vv][Vv]?[:\\s=]*\\d{3,4}\\b"@,
            method: ObfuscationMethod::Vanish,
            preserve_chars: None,
            replacement: None,
            severity: TraceSeverity::Critical,
            case_sensitive: None,
        },
        RuleV {
            name: "bank_account"@,
            pattern: "\\b\\d{8,17}\\b"@,
            method: ObfuscationMethod::Mirror,
            preserve_chars: None,
            replacement: None,
            severity: TraceSeverity::Critical,
            case_sensitive: None,
        },
    ]
}

/// The strict PCI preset: auditing switched on and two extra rules for card
/// verification values and bank account numbers.
pub open spec fn strict_pci_preset_v() -> ConfigV {
    ConfigV {
        tracing: TracingV {
            enabled: true,
            rules: default_rules_v() + strict_pci_extra_rules_v(),
            custom_patterns: Seq::<CustomPatternV>::empty(),
            case_sensitive: false,
        },
        processing: default_processing_v(),
        output: OutputConfig {
            format: OutputFormat::Text,
            include_trace_report: true,
            log_phantom_events: true,
            create_trace_map: true,
        },
        preprocessing: default_preprocessing_v(),
        monitoring: MonitoringConfig {
            metrics_enabled: true,
            metrics_interval_secs: 60u64,
            health_check_enabled: true,
            audit_logging: true,
        },
    }
}

impl PhantomTraceConfig {
    /// The rules of a given severity, in declaration order.
    pub fn get_rules_by_severity(&self, severity: TraceSeverity) -> (r: Vec<TraceRule>)
        ensures
            r@.map_values(|t: TraceRule| t@) == self.tracing.rules@.map_values(
                |t: TraceRule| t@,
            ).filter(|v: RuleV| v.severity == severity),
    {
        let mut r: Vec<TraceRule> = Vec::new();
        let n = self.tracing.rules.len();
        let mut i: usize = 0;
        proof {
            reveal(Seq::filter);
            assert(self.tracing.rules@.take(0) =~= Seq::<TraceRule>::empty());
            assert(self.tracing.rules@.take(0).map_values(|t: TraceRule| t@).filter(
                |v: RuleV| v.severity == severity,
            ) =~= Seq::<RuleV>::empty());
        }
        while i < n
            invariant
                n == self.tracing.rules@.len(),
                0 <= i <= n,
                r@.map_values(|t: TraceRule| t@) == self.tracing.rules@.take(i as int).map_values(
                    |t: TraceRule| t@,
                ).filter(|v: RuleV| v.severity == severity),
            decreases n - i,
        {
            let ghost pre = self.tracing.rules@.take(i as int).map_values(|t: TraceRule| t@);
            let ghost post = self.tracing.rules@.take(i as int + 1).map_values(|t: TraceRule| t@);
            proof {
                reveal(Seq::filter);
                assert(self.tracing.rules@.take(i as int + 1).drop_last() =~= self.tracing.rules@
                    .take(i as int));
                assert(post.drop_last() =~= pre);
                assert(post.last() == self.tracing.rules@[i as int]@);
            }
            let rule = &self.tracing.rules[i];
            if matches!(rule.severity, TraceSeverity::Critical) && matches!(
                severity,
                TraceSeverity::Critical,
            ) || matches!(rule.severity, TraceSeverity::High) && matches!(
                severity,
                TraceSeverity::High,
            ) || matches!(rule.severity, TraceSeverity::Medium) && matches!(
                severity,
                TraceSeverity::Medium,
            ) || matches!(rule.severity, TraceSeverity::Low) && matches!(
                severity,
                TraceSeverity::Low,
            ) {
                r.push(rule.clone());
                proof {
                    assert(r@.map_values(|t: TraceRule| t@) =~= post.filter(
                        |v: RuleV| v.severity == severity,
                    ));
                }
            } else {
                proof {
                    assert(r@.map_values(|t: TraceRule| t@) =~= post.filter(
                        |v: RuleV| v.severity == severity,
                    ));
                }
            }
            i = i + 1;
        }
        proof {
            assert(self.tracing.rules@.take(n as int) =~= self.tracing.rules@);
        }
        r
    }

    /// The Splunk preset.
    pub fn splunk_preset() -> (c: Self)
        ensures
            c@ == splunk_preset_v(),
    {
        let mut config = PhantomTraceConfig::default();
        config.preprocessing.mode = PreprocessingMode::StreamProcessor;
        config.preprocessing.splunk_integration.enabled = true;
        config.output.format = OutputFormat::Json;
        config.output.include_trace_report = false;
        config.preprocessing.realtime_processing = true;
        proof {
            assert(config@ =~~= splunk_preset_v());
        }
        config
    }

    /// The ELK preset.
    pub fn elk_preset() -> (c: Self)
        ensures
            c@ == elk_preset_v(),
    {
        let mut config = PhantomTraceConfig::default();
        config.preprocessing.mode = PreprocessingMode::StreamProcessor;
        config.preprocessing.elk_integration.enabled = true;
        config.output.format = OutputFormat::Json;
        config.output.include_trace_report = false;
        config.preprocessing.realtime_processing = true;
        proof {
            assert(config@ =~~= elk_preset_v());
        }
        config
    }

    /// The high-performance preset.
    pub fn high_performance_preset() -> (c: Self)
        ensures
            c@ == high_performance_preset_v(),
    {
        let mut config = PhantomTraceConfig::default();
        config.processing.performance_mode = true;
        config.processing.batch_size = 5000;
        config.preprocessing.performance_tuning.enable_batching = true;
        config.preprocessing.performance_tuning.async_processing = true;
        config.preprocessing.performance_tuning.thread_pool_size = 8;
        proof {
            assert(config@ =~~= high_performance_preset_v());
        }
        config
    }

    /// The strict PCI preset.
    pub fn strict_pci_preset() -> (c: Self)
        ensures
            c@ == strict_pci_preset_v(),
    {
        let mut config = PhantomTraceConfig::default();
        config.processing.performance_mode = false;
        config.output.log_phantom_events = true;
        config.output.create_trace_map = true;
        config.monitoring.audit_logging = true;
        config.monitoring.metrics_enabled = true;
        config.tracing.rules.push(
            TraceRule {
                name: "cvv".to_owned(),
                pattern: "\\b[Cc][Vv][Vv]?[:\\s=]*\\d{3,4}\\b".to_owned(),
                method: ObfuscationMethod::Vanish,
                preserve_chars: None,
                replacement: None,
                severity: TraceSeverity::Critical,
                case_sensitive: None,
            },
        );
        config.tracing.rules.push(
            TraceRule {
                name: "bank_account".to_owned(),
                pattern: "\\b\\d{8,17}\\b".to_owned(),
                method: ObfuscationMethod::Mirror,
                preserve_chars: None,
                replacement: None,
                severity: TraceSeverity::Critical,
                case_sensitive: None,
            },
        );
        proof {
            assert(config@ =~~= strict_pci_preset_v());
        }
        config
    }
}

impl Clone for TraceRule {
    /// A copy with the same contents.
    fn clone(&self) -> (c: Self)
        ensures
            c@ == self@,
    {
        TraceRule {
            name: self.name.clone(),
            pattern: self.pattern.clone(),
            method: self.method,
            preserve_chars: self.preserve_chars,
            replacement: match &self.replacement {
                Some(s) => Some(s.clone()),
                None => None,
            },
            severity: self.severity,
            case_sensitive: self.case_sensitive,
        }
    }
}

impl Clone for CustomPattern {
    /// A copy with the same contents.
    fn clone(&self) -> (c: Self)
        ensures
            c@ == self@,
    {
        CustomPattern {
            name: self.name.clone(),
            regex: self.regex.clone(),
            description: self.description.clone(),
            category: self.category.clone(),
        }
    }
}

impl Clone for TracingConfig {
    /// A copy with the same contents.
    fn clone(&self) -> (c: Self)
        ensures
            c@ == self@,
    {
        let mut rules: Vec<TraceRule> = Vec::new();
        let mut i: usize = 0;
        while i < self.rules.len()
            invariant
                0 <= i <= self.rules@.len(),
                rules@.len() == i,
                forall|k: int| 0 <= k < i ==> (#[trigger] rules@[k])@ == self.rules@[k]@,
            decreases self.rules@.len() - i,
        {
            rules.push(self.rules[i].clone());
            i = i + 1;
        }
        let mut custom_patterns: Vec<CustomPattern> = Vec::new();
        let mut j: usize = 0;
        while j < self.custom_patterns.len()
            invariant
                0 <= j <= self.custom_patterns@.len(),
                custom_patterns@.len() == j,
                forall|k: int|
                    0 <= k < j ==> (#[trigger] custom_patterns@[k])@ == self.custom_patterns@[k]@,
            decreases self.custom_patterns@.len() - j,
        {
            custom_patterns.push(self.custom_patterns[j].clone());
            j = j + 1;
        }
        let c = TracingConfig {
            enabled: self.enabled,
            rules,
            custom_patterns,
            case_sensitive: self.case_sensitive,
        };
        proof {
            assert(c@.rules =~= self@.rules);
            assert(c@.custom_patterns =~= self@.custom_patterns);
            assert(c@ =~~= self@);
        }
        c
    }
}

impl Clone for SplunkConfig {
    /// A copy with the same contents.
    fn clone(&self) -> (c: Self)
        ensures
            c@ == self@,
    {
        let c = SplunkConfig {
            enabled: self.enabled,
            preserve_timestamp: self.preserve_timestamp,
            preserve_source: self.preserve_source,
            add_phantom_metadata: self.add_phantom_metadata,
            phantom_sourcetype: self.phantom_sourcetype.clone(),
            index: match &self.index {
                Some(s) => Some(s.clone()),
                None => None,
            },
            host_field: match &self.host_field {
                Some(s) => Some(s.clone()),
                None => None,
            },
        };
        proof {
            assert(c@ =~= self@);
        }
        c
    }
}

impl Clone for ElkConfig {
    /// A copy with the same contents.
    fn clone(&self) -> (c: Self)
        ensures
            c@ == self@,
    {
        let c = ElkConfig {
            enabled: self.enabled,
            add_phantom_fields: self.add_phantom_fields,
            phantom_index_pattern: self.phantom_index_pattern.clone(),
            preserve_original_timestamp: self.preserve_original_timestamp,
            add_processing_metadata: self.add_processing_metadata,
        };
        proof {
            assert(c@ =~= self@);
        }
        c
    }
}

impl Clone for PreprocessingConfig {
    /// A copy with the same contents.
    fn clone(&self) -> (c: Self)
        ensures
            c@ == self@,
    {
        let c = PreprocessingConfig {
            mode: self.mode,
            realtime_processing: self.realtime_processing,
            tcp_server_port: self.tcp_server_port,
            file_monitoring: self.file_monitoring,
            splunk_integration: self.splunk_integration.clone(),
            elk_integration: self.elk_integration.clone(),
            performance_tuning: self.performance_tuning,
        };
        proof {
            assert(c@ =~= self@);
        }
        c
    }
}

impl Clone for PhantomTraceConfig {
    /// A copy with the same contents.
    fn clone(&self) -> (c: Self)
        ensures
            c@ == self@,
    {
        let c = PhantomTraceConfig {
            tracing: self.tracing.clone(),
            processing: self.processing,
            output: self.output,
            preprocessing: self.preprocessing.clone(),
            monitoring: self.monitoring,
        };
        proof {
            assert(c@ =~~= self@);
        }
        c
    }
}

/// Checks that a configuration can drive a session: at least one rule, and a
/// positive worker pool.  Returns the first complaint, if any.
pub fn validate_configuration(config: &PhantomTraceConfig) -> (r: Result<(), String>)
    ensures
        r is Ok <==> (config.tracing.rules@.len() > 0
            && config.preprocessing.performance_tuning.thread_pool_size > 0),
        config.tracing.rules@.len() == 0 ==> (r matches Err(m) && m@
            == "No tracing rules configured"@),
        config.tracing.rules@.len() > 0 && config.preprocessing.performance_tuning.thread_pool_size
            == 0 ==> (r matches Err(m) && m@ == "Thread pool size must be greater than 0"@),
{
    if config.tracing.rules.len() == 0 {
        Err("No tracing rules configured".to_owned())
    } else if config.preprocessing.performance_tuning.thread_pool_size == 0 {
        Err("Thread pool size must be greater than 0".to_owned())
    } else {
        Ok(())
    }
}

} // verus!
