use phantomtrace::ObfuscationMethod;
use phantomtrace::PhantomTraceConfig;
use phantomtrace::PhantomTraceProcessor;
use phantomtrace::PhantomTracer;
use phantomtrace::TraceRule;
use phantomtrace::TraceSeverity;
use phantomtrace::phantom_text;
use phantomtrace::phantom_value;
use phantomtrace::simple_hash;
use phantomtrace::tracer::generate_trace_id;
use phantomtrace::tracer::phantom_hash;
use phantomtrace::tracer::phantom_string;

fn rule(
    name: &str,
    pattern: &str,
    method: ObfuscationMethod,
    preserve: Option<usize>,
    replacement: Option<&str>,
    severity: TraceSeverity,
) -> TraceRule {
    TraceRule {
        name: name.to_string(),
        pattern: pattern.to_string(),
        method,
        preserve_chars: preserve,
        replacement: replacement.map(|s| s.to_string()),
        severity,
        case_sensitive: None,
    }
}

#[test]
fn test_phantom_credit_card() {
    let input = "Payment with card: 4532 1234 5678 9012";
    let result = phantom_text(input).unwrap();

    assert!(!result.contains("4532 1234 5678 9012"));
    assert!(result.contains("█") || result.contains("PHANTOM"));
}

#[test]
fn test_phantom_email() {
    let input = "Contact: user@example.com for support";
    let result = phantom_text(input).unwrap();

    assert!(!result.contains("user@example.com"));
    assert!(result.contains("█") || result.contains("@"));
}

#[test]
fn test_phantom_ssn() {
    let input = "SSN: 123-45-6789";
    let result = phantom_text(input).unwrap();

    assert!(!result.contains("123-45-6789"));
    assert!(result.contains("PHANTOM_"));
}

#[test]
fn test_multiple_phantoms() {
    let input = "User: john@test.com, Card: 4111111111111111, SSN: 555-44-3333";
    let result = phantom_text(input).unwrap();

    assert!(!result.contains("john@test.com"));
    assert!(!result.contains("4111111111111111"));
    assert!(!result.contains("555-44-3333"));
}

#[test]
fn test_phantom_value_direct() {
    assert_eq!(phantom_value("test", ObfuscationMethod::Vanish), "");
    assert_eq!(phantom_value("test", ObfuscationMethod::Mask), "[PHANTOMED]");
    assert!(phantom_value("test", ObfuscationMethod::Phantom).contains("█"));
}

#[test]
fn test_no_match_is_identity() {
    let config = PhantomTraceConfig::default();
    let mut processor = PhantomTraceProcessor::new(config).unwrap();
    let input = "nothing sensitive here, just words";
    let result = processor.phantom_text(input);
    assert_eq!(result.phantomed_text, input);
    assert_eq!(result.phantom_events.len(), 0);
    assert_eq!(result.lines_processed, 1);
    assert_eq!(result.lines_phantomed, 0);
}

#[test]
fn test_vanish_leaves_no_trace() {
    let rules = vec![rule(
        "secret",
        "secret-[0-9]+",
        ObfuscationMethod::Vanish,
        None,
        None,
        TraceSeverity::Critical,
    )];
    let mut tracer = PhantomTracer::new(&rules).unwrap();
    let (out, events) = tracer.trace_and_phantom("before secret-123 after");
    assert_eq!(out, "before  after");
    assert_eq!(events.len(), 1);
    assert_eq!(events[0].original_value, "secret-123");
    assert_eq!(events[0].phantom_value, "");
}

#[test]
fn test_tokenize_consistent_across_calls() {
    let rules = vec![rule(
        "word",
        "secret",
        ObfuscationMethod::Tokenize,
        None,
        None,
        TraceSeverity::High,
    )];
    let mut tracer = PhantomTracer::new(&rules).unwrap();
    let (out1, ev1) = tracer.trace_and_phantom("a secret here");
    let (out2, ev2) = tracer.trace_and_phantom("another secret there");
    assert_eq!(ev1.len(), 1);
    assert_eq!(ev2.len(), 1);
    assert_eq!(ev1[0].phantom_value, ev2[0].phantom_value);
    assert_eq!(ev1[0].phantom_value, "PHANTOM_TOKEN_667C6911");
    assert!(out1.contains("PHANTOM_TOKEN_667C6911"));
    assert!(out2.contains("PHANTOM_TOKEN_667C6911"));
}

#[test]
fn test_mirror_and_tokenize_distinct() {
    let mirror = phantom_value("test", ObfuscationMethod::Mirror);
    let token = phantom_value("test", ObfuscationMethod::Tokenize);
    assert_eq!(mirror, "PHANTOM_AFD071E5");
    assert_eq!(token, "PHANTOM_TOKEN_AFD071E5");
    assert_ne!(mirror, token);
}

#[test]
fn test_hash_is_fnv1a() {
    assert_eq!(simple_hash("test"), 0xAFD071E5);
    assert_eq!(phantom_hash("123-45-6789"), 0x49E2CCEC);
    assert_eq!(simple_hash(""), 2166136261);
}

#[test]
fn test_phantom_string_boundaries() {
    // length exactly 2k: everything becomes a placeholder
    assert_eq!(phantom_string("abcd", 2), "████");
    // length 2k + 1: first and last k kept, one placeholder between
    assert_eq!(phantom_string("abcde", 2), "ab█de");
    // longer value
    assert_eq!(phantom_string("1234567890", 2), "12██████90");
    // zero preserved characters
    assert_eq!(phantom_string("abc", 0), "███");
}

#[test]
fn test_phantom_string_multibyte() {
    // preserved ends fall on character boundaries, not byte boundaries
    assert_eq!(phantom_string("ééééé", 2), "éé█éé");
    assert_eq!(phantom_string("日本語です", 1), "日███す");
}

#[test]
fn test_severity_order_wins_on_overlap() {
    let rules = vec![
        rule(
            "low_whole",
            "[0-9]{3}-[0-9]{2}-[0-9]{4}",
            ObfuscationMethod::Mask,
            None,
            Some("[LOW]"),
            TraceSeverity::Low,
        ),
        rule(
            "crit_prefix",
            "[0-9]{3}-[0-9]{2}",
            ObfuscationMethod::Vanish,
            None,
            None,
            TraceSeverity::Critical,
        ),
    ];
    let mut tracer = PhantomTracer::new(&rules).unwrap();
    let (out, events) = tracer.trace_and_phantom("123-45-6789");
    // the critical rule runs first and removes the prefix the low rule needed
    assert_eq!(out, "-6789");
    assert_eq!(events.len(), 1);
    assert_eq!(events[0].rule_name, "crit_prefix");
    assert!(!out.contains("[LOW]"));
}

#[test]
fn test_ssn_scenario() {
    let config = PhantomTraceConfig::default();
    let mut processor = PhantomTraceProcessor::new(config).unwrap();
    let result = processor.phantom_text("SSN: 123-45-6789");
    assert!(!result.phantomed_text.contains("123-45-6789"));
    assert_ne!(result.phantomed_text, "SSN: 123-45-6789");
    assert!(result.phantomed_text.contains("PHANTOM_"));
    assert_eq!(result.phantom_events.len(), 1);
    assert_eq!(result.phantom_events[0].rule_name, "ssn");
    assert!(matches!(result.phantom_events[0].severity, TraceSeverity::High));
    // byte span of the match within the line
    assert_eq!(result.phantom_events[0].position, (5, 16));
}

#[test]
fn test_card_and_email_scenario() {
    let config = PhantomTraceConfig::default();
    let mut processor = PhantomTraceProcessor::new(config).unwrap();
    let result = processor.phantom_text("Card 4111-1111-1111-1111 and email a@b.com");
    assert_eq!(result.phantom_events.len(), 2);
    assert!(matches!(result.phantom_events[0].severity, TraceSeverity::Critical));
    assert_eq!(result.phantom_events[0].rule_name, "credit_card");
    assert!(matches!(result.phantom_events[1].severity, TraceSeverity::High));
    assert_eq!(result.phantom_events[1].rule_name, "email");
    assert!(!result.phantomed_text.contains("4111-1111-1111-1111"));
    assert!(!result.phantomed_text.contains("a@b.com"));
}

#[test]
fn test_cumulative_line_counts() {
    let config = PhantomTraceConfig::default();
    let mut processor = PhantomTraceProcessor::new(config).unwrap();
    processor.phantom_text("a\nb\nc\nd\ne");
    processor.phantom_text("x\ny\nz");
    let stats = processor.get_processing_stats();
    assert_eq!(stats.lines_processed, 8);
}

#[test]
fn test_reset_clears_counters_keeps_rules() {
    let config = PhantomTraceConfig::default();
    let mut processor = PhantomTraceProcessor::new(config).unwrap();
    let first = processor.phantom_text("SSN: 123-45-6789");
    assert_eq!(first.phantom_events.len(), 1);
    assert!(processor.get_trace_report().total_phantoms_created > 0);
    processor.reset_stats();
    let report = processor.get_trace_report();
    assert_eq!(report.total_phantoms_created, 0);
    assert_eq!(report.total_characters_traced, 0);
    assert_eq!(report.rules_triggered, 0);
    let stats = processor.get_processing_stats();
    assert_eq!(stats.lines_processed, 0);
    // the compiled rules are still there and still match
    let again = processor.phantom_text("SSN: 123-45-6789");
    assert_eq!(again.phantom_events.len(), 1);
}

#[test]
fn test_trace_report_contents() {
    let config = PhantomTraceConfig::default();
    let mut processor = PhantomTraceProcessor::new(config).unwrap();
    processor.phantom_text("SSN: 123-45-6789");
    let report = processor.get_trace_report();
    assert_eq!(report.total_phantoms_created, 1);
    assert_eq!(report.rules_triggered, 1);
    assert_eq!(report.detailed_stats.len(), 8);
    let ssn_entry = report.detailed_stats.iter().find(|e| e.0 == "ssn").unwrap();
    assert_eq!(ssn_entry.1.phantoms_created, 1);
    assert_eq!(ssn_entry.1.severity_level, "High");
    assert!(ssn_entry.1.first_trace.is_some());
    let high = report.severity_breakdown.iter().find(|e| e.0 == "High").unwrap();
    assert_eq!(high.1, 1);
}

#[test]
fn test_invalid_pattern_is_rejected() {
    let mut config = PhantomTraceConfig::default();
    config.tracing.rules.push(rule(
        "broken",
        "foo(bar",
        ObfuscationMethod::Vanish,
        None,
        None,
        TraceSeverity::Low,
    ));
    let err = match PhantomTraceProcessor::new(config) {
        Ok(_) => panic!("expected a compile error"),
        Err(e) => e,
    };
    match err {
        phantomtrace::CompileError::InvalidPattern { rule_name, message } => {
            assert_eq!(rule_name, "broken");
            assert!(!message.is_empty());
        },
        other => panic!("unexpected error: {:?}", other),
    }
}

#[test]
fn test_duplicate_rule_name_is_rejected() {
    let rules = vec![
        rule("dup", "a", ObfuscationMethod::Vanish, None, None, TraceSeverity::Low),
        rule("dup", "b", ObfuscationMethod::Vanish, None, None, TraceSeverity::Low),
    ];
    let err = match PhantomTracer::new(&rules) {
        Ok(_) => panic!("expected a compile error"),
        Err(e) => e,
    };
    match err {
        phantomtrace::CompileError::DuplicateRuleName { rule_name } => {
            assert_eq!(rule_name, "dup");
        },
        other => panic!("unexpected error: {:?}", other),
    }
}

#[test]
fn test_trace_id_shape() {
    let id = generate_trace_id();
    assert!(id.starts_with("TRACE_"));
    assert_eq!(id.len(), 22);
    assert!(id[6..].chars().all(|c| c.is_ascii_hexdigit()));
}

#[test]
fn test_case_insensitive_by_default() {
    let rules = vec![rule(
        "word",
        "secret",
        ObfuscationMethod::Mask,
        None,
        Some("[HIDDEN]"),
        TraceSeverity::Low,
    )];
    let mut tracer = PhantomTracer::new(&rules).unwrap();
    let (out, events) = tracer.trace_and_phantom("a SECRET and a Secret");
    assert_eq!(out, "a [HIDDEN] and a [HIDDEN]");
    assert_eq!(events.len(), 2);
}

#[test]
fn test_case_sensitive_when_asked() {
    let mut r = rule(
        "word",
        "secret",
        ObfuscationMethod::Mask,
        None,
        Some("[HIDDEN]"),
        TraceSeverity::Low,
    );
    r.case_sensitive = Some(true);
    let mut tracer = PhantomTracer::new(&vec![r]).unwrap();
    let (out, events) = tracer.trace_and_phantom("a SECRET and a secret");
    assert_eq!(out, "a SECRET and a [HIDDEN]");
    assert_eq!(events.len(), 1);
}

#[test]
fn test_expanding_method_clamps_characters_traced() {
    // mirror expands a short value; the per-rule character counter clamps at zero
    let rules = vec![rule(
        "short",
        "ab",
        ObfuscationMethod::Mirror,
        None,
        None,
        TraceSeverity::Low,
    )];
    let mut tracer = PhantomTracer::new(&rules).unwrap();
    let (out, events) = tracer.trace_and_phantom("ab");
    assert_eq!(events.len(), 1);
    assert_eq!(out.len(), 16);
    let report = tracer.get_trace_report();
    assert_eq!(report.total_phantoms_created, 1);
    assert_eq!(report.total_characters_traced, 0);
}

#[test]
fn test_line_splitting_semantics() {
    let mut config = PhantomTraceConfig::default();
    config.tracing.rules.clear();
    let mut processor = PhantomTraceProcessor::new(config).unwrap();
    // a carriage return before a newline is stripped; a trailing newline
    // ends the last line rather than opening an empty one
    let r = processor.phantom_text("a\r\nb\n");
    assert_eq!(r.phantomed_text, "a\nb");
    assert_eq!(r.lines_processed, 2);
    let r = processor.phantom_text("\n");
    assert_eq!(r.phantomed_text, "");
    assert_eq!(r.lines_processed, 1);
    let r = processor.phantom_text("a\n\nb");
    assert_eq!(r.phantomed_text, "a\n\nb");
    assert_eq!(r.lines_processed, 3);
}

#[test]
fn test_empty_input_and_empty_rules() {
    let mut config = PhantomTraceConfig::default();
    config.tracing.rules.clear();
    let mut processor = PhantomTraceProcessor::new(config).unwrap();
    let result = processor.phantom_text("");
    assert_eq!(result.phantomed_text, "");
    assert_eq!(result.lines_processed, 0);
    assert_eq!(result.phantom_events.len(), 0);
    let with_lines = processor.phantom_text("line one\nline two");
    assert_eq!(with_lines.phantomed_text, "line one\nline two");
    assert_eq!(with_lines.lines_processed, 2);
}
