use phantomtrace::OutputFormat;
use phantomtrace::PhantomTraceConfig;
use phantomtrace::config::PreprocessingMode;
use phantomtrace::TraceSeverity;
use phantomtrace::cli::OperationMode;
use phantomtrace::cli::apply_cli_overrides;
use phantomtrace::cli::config_for_preset;
use phantomtrace::cli::determine_operation_mode;
use phantomtrace::cli::parse_output_format;
use phantomtrace::cli::parse_port;
use phantomtrace::cli::validate_rule_patterns;
use phantomtrace::config::default_trace_rules;
use phantomtrace::config::validate_configuration;

#[test]
fn test_default_rules() {
    let rules = default_trace_rules();
    assert_eq!(rules.len(), 8);
    assert_eq!(rules[0].name, "credit_card");
    assert!(matches!(rules[0].severity, TraceSeverity::Critical));
    assert_eq!(rules[0].preserve_chars, Some(4));
    assert_eq!(rules[1].name, "ssn");
    assert!(matches!(rules[1].severity, TraceSeverity::High));
    assert_eq!(rules[4].replacement.as_deref(), Some("XXX.XXX.XXX.XXX"));
}

#[test]
fn test_default_config() {
    let config = PhantomTraceConfig::default();
    assert!(config.tracing.enabled);
    assert!(!config.tracing.case_sensitive);
    assert_eq!(config.tracing.rules.len(), 8);
    assert_eq!(config.processing.batch_size, 1000);
    assert!(matches!(config.output.format, OutputFormat::Text));
    assert_eq!(config.preprocessing.tcp_server_port, Some(5140));
    assert_eq!(config.monitoring.metrics_interval_secs, 60);
}

#[test]
fn test_presets() {
    let splunk = PhantomTraceConfig::splunk_preset();
    assert!(matches!(splunk.preprocessing.mode, PreprocessingMode::StreamProcessor));
    assert!(splunk.preprocessing.splunk_integration.enabled);
    assert!(matches!(splunk.output.format, OutputFormat::Json));
    assert!(!splunk.output.include_trace_report);
    assert!(splunk.preprocessing.realtime_processing);

    let elk = PhantomTraceConfig::elk_preset();
    assert!(elk.preprocessing.elk_integration.enabled);
    assert!(matches!(elk.output.format, OutputFormat::Json));

    let fast = PhantomTraceConfig::high_performance_preset();
    assert!(fast.processing.performance_mode);
    assert_eq!(fast.processing.batch_size, 5000);
    assert_eq!(fast.preprocessing.performance_tuning.thread_pool_size, 8);

    let strict = PhantomTraceConfig::strict_pci_preset();
    assert_eq!(strict.tracing.rules.len(), 10);
    assert_eq!(strict.tracing.rules[8].name, "cvv");
    assert_eq!(strict.tracing.rules[9].name, "bank_account");
    assert!(strict.monitoring.audit_logging);
    assert!(strict.output.create_trace_map);
}

#[test]
fn test_get_rules_by_severity() {
    let config = PhantomTraceConfig::default();
    let critical = config.get_rules_by_severity(TraceSeverity::Critical);
    assert_eq!(critical.len(), 4);
    assert_eq!(critical[0].name, "credit_card");
    let medium = config.get_rules_by_severity(TraceSeverity::Medium);
    assert_eq!(medium.len(), 2);
    let low = config.get_rules_by_severity(TraceSeverity::Low);
    assert_eq!(low.len(), 0);
}

#[test]
fn test_validate_configuration() {
    let good = PhantomTraceConfig::default();
    assert!(validate_configuration(&good).is_ok());

    let mut no_rules = PhantomTraceConfig::default();
    no_rules.tracing.rules.clear();
    assert_eq!(validate_configuration(&no_rules).unwrap_err(), "No tracing rules configured");

    let mut no_threads = PhantomTraceConfig::default();
    no_threads.preprocessing.performance_tuning.thread_pool_size = 0;
    assert_eq!(
        validate_configuration(&no_threads).unwrap_err(),
        "Thread pool size must be greater than 0"
    );
}

#[test]
fn test_parse_port() {
    assert_eq!(parse_port("8080"), Some(8080));
    assert_eq!(parse_port("+80"), Some(80));
    assert_eq!(parse_port("0"), Some(0));
    assert_eq!(parse_port("65535"), Some(65535));
    assert_eq!(parse_port("65536"), None);
    assert_eq!(parse_port("999999999999"), None);
    assert_eq!(parse_port(""), None);
    assert_eq!(parse_port("+"), None);
    assert_eq!(parse_port("80a"), None);
    assert_eq!(parse_port("-1"), None);
}

#[test]
fn test_determine_operation_mode() {
    assert!(matches!(
        determine_operation_mode(true, None, None, None),
        OperationMode::StreamProcessor
    ));
    let port = String::from("6000");
    match determine_operation_mode(false, Some(&port), None, None) {
        OperationMode::TcpServer(p) => assert_eq!(p, 6000),
        other => panic!("unexpected mode: {:?}", other),
    }
    let bad_port = String::from("not-a-port");
    match determine_operation_mode(false, Some(&bad_port), None, None) {
        OperationMode::TcpServer(p) => assert_eq!(p, 5140),
        other => panic!("unexpected mode: {:?}", other),
    }
    let file = String::from("app.log");
    match determine_operation_mode(false, None, Some(&file), None) {
        OperationMode::FileMonitor(f) => assert_eq!(f, "app.log"),
        other => panic!("unexpected mode: {:?}", other),
    }
    let health = String::from("9999");
    match determine_operation_mode(false, None, None, Some(&health)) {
        OperationMode::HealthServer(p) => assert_eq!(p, 9999),
        other => panic!("unexpected mode: {:?}", other),
    }
    assert!(matches!(
        determine_operation_mode(false, None, None, None),
        OperationMode::BatchProcessor
    ));
}

#[test]
fn test_parse_output_format() {
    assert!(matches!(parse_output_format("json"), OutputFormat::Json));
    assert!(matches!(parse_output_format("csv"), OutputFormat::Csv));
    assert!(matches!(parse_output_format("trace-report"), OutputFormat::TraceReport));
    assert!(matches!(parse_output_format("text"), OutputFormat::Text));
    assert!(matches!(parse_output_format("anything"), OutputFormat::Text));
}

#[test]
fn test_apply_cli_overrides() {
    let mut config = PhantomTraceConfig::default();
    let fmt = String::from("csv");
    apply_cli_overrides(&mut config, Some(&fmt), false, false, false, false, false);
    assert!(matches!(config.output.format, OutputFormat::Csv));

    let mut splunk = PhantomTraceConfig::default();
    apply_cli_overrides(&mut splunk, None, true, false, false, false, false);
    assert!(matches!(splunk.output.format, OutputFormat::Json));
    assert!(splunk.preprocessing.splunk_integration.enabled);
    assert!(matches!(splunk.preprocessing.mode, PreprocessingMode::StreamProcessor));
    assert!(!splunk.output.include_trace_report);

    let mut flags = PhantomTraceConfig::default();
    apply_cli_overrides(&mut flags, None, false, true, true, true, true);
    assert!(flags.processing.performance_mode);
    assert!(flags.preprocessing.performance_tuning.enable_batching);
    assert!(flags.preprocessing.performance_tuning.async_processing);
    assert!(flags.output.include_trace_report);
    assert!(flags.output.log_phantom_events);
    assert!(flags.output.create_trace_map);
}

#[test]
fn test_config_for_preset() {
    let splunk = config_for_preset("splunk");
    assert!(splunk.preprocessing.splunk_integration.enabled);
    let elk = config_for_preset("elk");
    assert!(elk.preprocessing.elk_integration.enabled);
    let fast = config_for_preset("high-performance");
    assert!(fast.processing.performance_mode);
    let plain = config_for_preset("default");
    assert!(!plain.processing.performance_mode);
    assert!(matches!(plain.output.format, OutputFormat::Text));
}

#[test]
fn test_validate_rule_patterns() {
    let good = default_trace_rules();
    assert!(validate_rule_patterns(&good).is_none());

    let mut bad = default_trace_rules();
    bad[3].pattern = String::from("([unclosed");
    assert_eq!(validate_rule_patterns(&bad).as_deref(), Some("phone"));
}

#[test]
fn test_clone_keeps_contents() {
    let config = PhantomTraceConfig::default();
    let copy = config.clone();
    assert_eq!(copy.tracing.rules.len(), config.tracing.rules.len());
    assert_eq!(copy.tracing.rules[0].name, config.tracing.rules[0].name);
    assert_eq!(copy.processing.batch_size, config.processing.batch_size);
    assert_eq!(
        copy.preprocessing.splunk_integration.phantom_sourcetype,
        config.preprocessing.splunk_integration.phantom_sourcetype
    );
}
