//! PhantomTrace: detection and obfuscation of sensitive substrings (PCI/PII
//! patterns such as card numbers, SSNs, emails, credentials) in log text.
//!
//! Declarative rules are compiled into case-insensitive matchers, applied to
//! text in severity order, and every substitution is recorded as a trace
//! event with aggregate statistics kept per rule.

use vstd::prelude::*;

pub mod cli;
pub mod config;
pub mod laws;
pub mod matcher;
pub mod processor;
pub mod render;
pub mod text;
pub mod tracer;

pub use config::ObfuscationMethod;
pub use config::OutputConfig;
pub use config::OutputFormat;
pub use config::PhantomTraceConfig;
pub use config::ProcessingConfig;
pub use config::TraceRule;
pub use config::TraceSeverity;
pub use config::TracingConfig;
pub use processor::PhantomTraceProcessor;
pub use processor::ProcessingResult;
pub use processor::ProcessingStats;
pub use processor::ProcessingStatsOutput;
pub use tracer::CompileError;
pub use tracer::PhantomEvent;
pub use tracer::PhantomTracer;
pub use tracer::TraceReport;
pub use tracer::TraceStats;

verus! {

/// FNV-1a offset basis.
pub const FNV_OFFSET: u32 = 2166136261;

/// FNV-1a prime.
pub const FNV_PRIME: u32 = 16777619;

/// One step of the FNV-1a hash: xor in a byte, then multiply by the prime
/// modulo 2^32.
pub open spec fn fnv1a_step(h: u32, b: u8) -> u32 {
    vstd::wrapping::u32_specs::wrapping_mul(h ^ (b as u32), FNV_PRIME)
}

/// The FNV-1a hash of a byte sequence, folded from the left over `prefix`
/// leading bytes.
pub open spec fn fnv1a_prefix(bytes: Seq<u8>, prefix: int) -> u32
    decreases prefix,
{
    if prefix <= 0 {
        FNV_OFFSET
    } else {
        fnv1a_step(fnv1a_prefix(bytes, prefix - 1), bytes[prefix - 1])
    }
}

/// The FNV-1a hash of a whole byte sequence.
pub open spec fn fnv1a(bytes: Seq<u8>) -> u32 {
    fnv1a_prefix(bytes, bytes.len() as int)
}

/// Deterministic, non-cryptographic 32-bit hash of a string, computed as
/// FNV-1a over its UTF-8 bytes.
pub fn simple_hash(input: &str) -> (r: u32)
    ensures
        r == fnv1a(vstd::utf8::encode_utf8(input@)),
{
    let bytes: &[u8] = input.as_bytes();
    let mut h: u32 = FNV_OFFSET;
    let mut i: usize = 0;
    while i < bytes.len()
        invariant
            0 <= i <= bytes@.len(),
            bytes@ == vstd::utf8::encode_utf8(input@),
            h == fnv1a_prefix(bytes@, i as int),
        decreases bytes@.len() - i,
    {
        let b: u8 = bytes[i];
        h = (h ^ (b as u32)).wrapping_mul(FNV_PRIME);
        i = i + 1;
    }
    h
}

/// What `phantom_value` makes of one value: the quick single-value forms
/// of the five methods, with a fixed two-character preserve and a fixed
/// five-placeholder middle for `Phantom`.
pub open spec fn phantom_value_chars(v: Seq<char>, method: ObfuscationMethod) -> Seq<char> {
    match method {
        ObfuscationMethod::Phantom => if v.len() <= 4 {
            tracer::repeat_char(tracer::placeholder_char(), v.len())
        } else {
            v.take(2) + tracer::repeat_char(tracer::placeholder_char(), 5) + v.skip(v.len() - 2)
        },
        ObfuscationMethod::Vanish => Seq::<char>::empty(),
        ObfuscationMethod::Mirror => tracer::mirror_chars(v),
        ObfuscationMethod::Mask => "[PHANTOMED]"@,
        ObfuscationMethod::Tokenize => tracer::token_chars(v),
    }
}

/// Obscures a single value with the given method, using the stock
/// parameters.
pub fn phantom_value(value: &str, method: ObfuscationMethod) -> (r: String)
    ensures
        r@ == phantom_value_chars(value@, method),
{
    match method {
        ObfuscationMethod::Phantom => {
            let n = value.unicode_len();
            let mut out = String::new();
            if n <= 4 {
                tracer::append_placeholders(&mut out, n);
                proof {
                    assert(out@ =~= phantom_value_chars(value@, method));
                }
            } else {
                out.append(value.substring_char(0, 2));
                tracer::append_placeholders(&mut out, 5);
                out.append(value.substring_char(n - 2, n));
                proof {
                    assert(value@.subrange(0, 2) =~= value@.take(2));
                    assert(value@.subrange(n as int - 2, n as int) =~= value@.skip(n as int - 2));
                    assert(out@ =~= phantom_value_chars(value@, method));
                }
            }
            out
        },
        ObfuscationMethod::Vanish => String::new(),
        ObfuscationMethod::Mirror => {
            let mut s = String::from_str("PHANTOM_");
            render::append_hex8(&mut s, simple_hash(value));
            s
        },
        ObfuscationMethod::Mask => String::from_str("[PHANTOMED]"),
        ObfuscationMethod::Tokenize => {
            let mut s = String::from_str("PHANTOM_TOKEN_");
            render::append_hex8(&mut s, simple_hash(value));
            s
        },
    }
}

/// Obscures `input` with the stock rules, returning the transformed text.
/// Fails exactly when one of the stock patterns is not accepted by the
/// matcher.
pub fn phantom_text(input: &str) -> (r: Result<String, CompileError>)
    ensures
        ({
            let rs = config::default_rules_v();
            &&& (r is Ok <==> tracer::prefix_ok(rs, rs.len() as int))
            &&& (r matches Ok(out) ==> out@ == text::join_lines(
                processor::pipeline_outputs(
                    rs.map_values(|v: config::RuleV| tracer::compiled_model(v)),
                    text::std_lines(input@),
                ),
            ))
        }),
{
    let config = PhantomTraceConfig::default();
    let mut processor = match PhantomTraceProcessor::new(config) {
        Ok(p) => p,
        Err(e) => {
            return Err(e);
        },
    };
    let result = processor.phantom_text(input);
    Ok(result.phantomed_text)
}

/// Builds a processing session from a configuration, failing exactly as
/// the engine's compiler does.
pub fn create_phantom_processor(config: PhantomTraceConfig) -> (r: Result<
    PhantomTraceProcessor,
    CompileError,
>)
    ensures
        ({
            let rs = config.tracing.rules@.map_values(|t: TraceRule| t@);
            &&& (r is Ok <==> tracer::prefix_ok(rs, rs.len() as int))
            &&& (r matches Ok(p) ==> {
                &&& p.wf()
                &&& p.rules_model() == rs.map_values(
                    |v: config::RuleV| tracer::compiled_model(v),
                )
                &&& p.config_view() == config@
            })
        }),
{
    PhantomTraceProcessor::new(config)
}

} // verus!
