//! Trusted boundary around the `regex` crate.
//!
//! A [`Matcher`] pairs a compiled regular expression with the pattern text it
//! was compiled from; the pattern is the mathematical identity of the
//! matcher, and everything the engine proves is phrased over it.  Only the
//! two functions here call into the regex crate, and only their contracts
//! are taken on trust.

use vstd::prelude::*;
use crate::text::byte_len;
use crate::text::is_prefix_boundary;

verus! {

#[verifier::external_type_specification]
#[verifier::external_body]
pub struct ExRegex(regex::Regex);

/// Whether `regex::Regex::new` accepts this pattern: syntactically valid and
/// within the crate's default compiled-size limit.  A pure function of the
/// pattern text.
pub uninterp spec fn pattern_accepted(pattern: Seq<char>) -> bool;

/// The successive non-overlapping leftmost matches that a regular expression
/// compiled from `pattern` finds in `text`, as half-open byte-offset ranges
/// into the UTF-8 encoding of `text`.  A pure function of the pattern and
/// the text.
pub uninterp spec fn match_spans(pattern: Seq<char>, text: Seq<char>) -> Seq<(int, int)>;

/// A compiled matcher together with the pattern it was built from.
pub struct Matcher {
    regex: regex::Regex,
    pattern: String,
}

impl Matcher {
    /// The pattern this matcher was compiled from.
    pub closed spec fn pattern_view(&self) -> Seq<char> {
        self.pattern@
    }

    /// Relies on `regex::Regex::new`: it returns `Ok` exactly on the
    /// patterns it accepts, and this constructor is the only way a
    /// `Matcher` is built, so the stored pattern always describes the
    /// compiled expression.  The error is the regex crate's own message.
    #[verifier::external_body]
    pub(crate) fn compile(pattern: &String) -> (r: Result<Matcher, String>)
        ensures
            r is Ok <==> pattern_accepted(pattern@),
            r matches Ok(m) ==> m.pattern_view() == pattern@,
    {
        match regex::Regex::new(pattern.as_str()) {
            Ok(re) => Ok(Matcher { regex: re, pattern: pattern.clone() }),
            Err(e) => Err(e.to_string()),
        }
    }

    /// Relies on `regex::Regex::find_iter`: it yields the successive
    /// non-overlapping leftmost matches, in order, as byte offsets that lie
    /// on UTF-8 character boundaries of the haystack and never exceed its
    /// byte length.
    #[verifier::external_body]
    pub(crate) fn find_spans(&self, text: &str) -> (r: Vec<(usize, usize)>)
        ensures
            r@.map_values(|p: (usize, usize)| (p.0 as int, p.1 as int)) == match_spans(
                self.pattern_view(),
                text@,
            ),
            forall|j: int|
                0 <= j < r@.len() ==> (#[trigger] r@[j]).0 <= r@[j].1 <= byte_len(text@)
                    && is_prefix_boundary(text@, r@[j].0 as int) && is_prefix_boundary(
                    text@,
                    r@[j].1 as int,
                ),
            forall|j: int| 0 <= j < r@.len() - 1 ==> (#[trigger] r@[j]).1 <= r@[j + 1].0,
    {
        self.regex.find_iter(text).map(|m| (m.start(), m.end())).collect()
    }
}

/// Relies on `std::time::SystemTime::now` and
/// `SystemTime::duration_since`: a wall-clock reading, rendered as
/// nanoseconds since the Unix epoch truncated to 64 bits, or 0 for a clock
/// set before the epoch.  Nothing is assumed about the value.
#[verifier::external_body]
pub(crate) fn now_nanos() -> u64 {
    match std::time::SystemTime::now().duration_since(std::time::UNIX_EPOCH) {
        Ok(d) => d.as_nanos() as u64,
        Err(_) => 0,
    }
}

} // verus!
