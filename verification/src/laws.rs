//! Engine-wide laws: statements that hold of every input, proved once here
//! against the same specifications the executable code is verified against.

use vstd::prelude::*;
use crate::config::severity_rank;
use crate::tracer::RuleModel;
use crate::tracer::index_seq;
use crate::tracer::mirror_chars;
use crate::tracer::multi_events;
use crate::tracer::multi_pass;
use crate::tracer::pass_events;
use crate::tracer::pass_output;
use crate::tracer::phantom_chars;
use crate::tracer::placeholder_char;
use crate::tracer::rank_pred;
use crate::tracer::repeat_char;
use crate::tracer::rule_spans;
use crate::tracer::rule_transform;
use crate::tracer::sorted_order;
use crate::tracer::splice_from;
use crate::tracer::token_chars;
use crate::render::hex_chars;

verus! {

/// An input in which no rule finds any match passes through the whole
/// engine unchanged, and no event is emitted.
pub proof fn lemma_engine_identity_without_matches(rules: Seq<RuleModel>, text: Seq<char>)
    requires
        forall|i: int| 0 <= i < rules.len() ==> (#[trigger] rule_spans(rules[i], text)).len() == 0,
    ensures
        multi_pass(rules, sorted_order(rules), 0, text) == text,
        multi_events(rules, sorted_order(rules), 0, text).len() == 0,
{
    crate::tracer::lemma_sorted_order_bounds(rules);
    lemma_identity_from(rules, sorted_order(rules), 0, text);
}

proof fn lemma_identity_from(rules: Seq<RuleModel>, order: Seq<int>, k: int, text: Seq<char>)
    requires
        forall|i: int| 0 <= i < rules.len() ==> (#[trigger] rule_spans(rules[i], text)).len() == 0,
        forall|t: int| 0 <= t < order.len() ==> 0 <= #[trigger] order[t] < rules.len(),
    ensures
        multi_pass(rules, order, k, text) == text,
        multi_events(rules, order, k, text).len() == 0,
    decreases order.len() - k,
{
    if 0 <= k < order.len() {
        let m = rules[order[k]];
        assert(rule_spans(m, text).len() == 0);
        assert(pass_output(m, text) =~= text);
        assert(pass_events(m, text).len() == 0);
        lemma_identity_from(rules, order, k + 1, text);
    }
}

/// The text that remains when the given spans are cut out of `text`:
/// nothing of the matched ranges survives.
pub open spec fn delete_spans(text: Seq<char>, spans: Seq<(int, int)>, j: int, prev: int) -> Seq<
    char,
>
    decreases spans.len() - j,
{
    if j < 0 || j >= spans.len() {
        text.skip(prev)
    } else {
        let cs = crate::text::char_index_of(text, spans[j].0);
        let ce = crate::text::char_index_of(text, spans[j].1);
        text.subrange(prev, cs) + delete_spans(text, spans, j + 1, ce)
    }
}

/// A rule whose method removes its matches outright leaves exactly the
/// unmatched stretches of the text, in order, and every event it emits
/// records an empty replacement.
pub proof fn lemma_vanish_removes_matches(m: RuleModel, text: Seq<char>)
    requires
        m.method is Vanish,
    ensures
        pass_output(m, text) == delete_spans(text, rule_spans(m, text), 0, 0),
        forall|j: int|
            0 <= j < pass_events(m, text).len() ==> (#[trigger] pass_events(m, text)[j]).phantom
                =~= Seq::<char>::empty(),
{
    lemma_vanish_from(m, text, rule_spans(m, text), 0, 0);
}

proof fn lemma_vanish_from(
    m: RuleModel,
    text: Seq<char>,
    spans: Seq<(int, int)>,
    j: int,
    prev: int,
)
    requires
        m.method is Vanish,
    ensures
        splice_from(m, text, spans, j, prev) == delete_spans(text, spans, j, prev),
    decreases spans.len() - j,
{
    if 0 <= j < spans.len() {
        let ce = crate::text::char_index_of(text, spans[j].1);
        lemma_vanish_from(m, text, spans, j + 1, ce);
        let cs = crate::text::char_index_of(text, spans[j].0);
        assert(rule_transform(m, text.subrange(cs, ce)) =~= Seq::<char>::empty());
        assert(text.subrange(prev, cs) + Seq::<char>::empty() + delete_spans(
            text,
            spans,
            j + 1,
            ce,
        ) =~= text.subrange(prev, cs) + delete_spans(text, spans, j + 1, ce));
    }
}

/// The token substituted for a value depends on the value alone: any two
/// tokenizing rules, in any pass of any call within a session, substitute
/// the same token for equal values.
pub proof fn lemma_tokenize_deterministic(m1: RuleModel, m2: RuleModel, v: Seq<char>)
    requires
        m1.method is Tokenize,
        m2.method is Tokenize,
    ensures
        rule_transform(m1, v) == token_chars(v),
        rule_transform(m2, v) == token_chars(v),
        rule_transform(m1, v) == rule_transform(m2, v),
{
}

/// Every event a tokenizing rule records carries the token minted for its
/// matched value, so equal values receive identical tokens in every pass of
/// every call within a session.
pub proof fn lemma_tokenize_events_consistent(m: RuleModel, text: Seq<char>)
    requires
        m.method is Tokenize,
    ensures
        forall|j: int|
            0 <= j < pass_events(m, text).len() ==> (#[trigger] pass_events(m, text)[j]).phantom
                == token_chars(pass_events(m, text)[j].original),
{
}

/// Mirror and tokenize outputs are both pure functions of the value, but
/// their prefixes differ, so a mirror rendering of a value never equals a
/// token for it.
pub proof fn lemma_mirror_token_distinct(v: Seq<char>)
    ensures
        mirror_chars(v).len() == 16,
        token_chars(v).len() == 22,
        mirror_chars(v) != token_chars(v),
{
    reveal_strlit("PHANTOM_");
    reveal_strlit("PHANTOM_TOKEN_");
    assert(hex_chars(crate::fnv1a(vstd::utf8::encode_utf8(v)) as int, 8).len() == 8);
}

/// The phantom transform keeps the length of the value.  A value no longer
/// than twice the preserved count comes back all placeholders; a longer
/// one keeps exactly its first and last `k` characters and has placeholders
/// everywhere in between.
pub proof fn lemma_phantom_shape(v: Seq<char>, k: nat)
    ensures
        phantom_chars(v, k).len() == v.len(),
        v.len() <= 2 * k ==> forall|i: int|
            0 <= i < v.len() ==> #[trigger] phantom_chars(v, k)[i] == placeholder_char(),
        v.len() > 2 * k ==> {
            &&& (forall|i: int| 0 <= i < k ==> #[trigger] phantom_chars(v, k)[i] == v[i])
            &&& (forall|i: int|
                v.len() - k <= i < v.len() ==> #[trigger] phantom_chars(v, k)[i] == v[i])
            &&& (forall|i: int|
                k <= i < v.len() - k ==> #[trigger] phantom_chars(v, k)[i] == placeholder_char())
        },
{
    if v.len() <= 2 * k {
        assert(phantom_chars(v, k) == repeat_char(placeholder_char(), v.len()));
    } else {
        let p = phantom_chars(v, k);
        assert(p == v.take(k as int) + repeat_char(placeholder_char(), (v.len() - 2 * k) as nat)
            + v.skip((v.len() - k) as int));
        assert forall|i: int| 0 <= i < k implies #[trigger] p[i] == v[i] by {
            assert(p[i] == v.take(k as int)[i]);
        }
        assert forall|i: int| v.len() - k <= i < v.len() implies #[trigger] p[i] == v[i] by {
            assert(p[i] == v.skip((v.len() - k) as int)[i - (v.len() - k)]);
        }
        assert forall|i: int| k <= i < v.len() - k implies #[trigger] p[i] == placeholder_char() by {
            assert(p[i] == repeat_char(placeholder_char(), (v.len() - 2 * k) as nat)[i - k]);
        }
    }
}

proof fn lemma_filter_in_bounds(s: Seq<int>, pred: spec_fn(int) -> bool, lo: int, hi: int)
    requires
        forall|i: int| 0 <= i < s.len() ==> lo <= #[trigger] s[i] < hi,
    ensures
        forall|j: int| 0 <= j < s.filter(pred).len() ==> lo <= #[trigger] s.filter(pred)[j] < hi,
    decreases s.len(),
{
    reveal(Seq::filter);
    if s.len() > 0 {
        assert(forall|i: int|
            0 <= i < s.drop_last().len() ==> lo <= #[trigger] s.drop_last()[i] < hi);
        lemma_filter_in_bounds(s.drop_last(), pred, lo, hi);
        assert forall|j: int| 0 <= j < s.filter(pred).len() implies lo <= #[trigger] s.filter(
            pred,
        )[j] < hi by {
            if j < s.drop_last().filter(pred).len() {
                assert(s.filter(pred)[j] == s.drop_last().filter(pred)[j]);
            } else {
                assert(s.filter(pred)[j] == s.last());
            }
        }
    }
}

proof fn lemma_filter_strictly_increasing(s: Seq<int>, pred: spec_fn(int) -> bool)
    requires
        forall|a: int, b: int| 0 <= a < b < s.len() ==> s[a] < s[b],
    ensures
        forall|a: int, b: int|
            0 <= a < b < s.filter(pred).len() ==> #[trigger] s.filter(pred)[a] < #[trigger] s.filter(
                pred,
            )[b],
    decreases s.len(),
{
    reveal(Seq::filter);
    if s.len() > 0 {
        let d = s.drop_last();
        assert(forall|a: int, b: int| 0 <= a < b < d.len() ==> d[a] < d[b]);
        lemma_filter_strictly_increasing(d, pred);
        if s.len() >= 1 {
            assert(forall|i: int| 0 <= i < d.len() ==> d[i] == s[i]);
        }
        assert forall|a: int, b: int|
            0 <= a < b < s.filter(pred).len() implies #[trigger] s.filter(pred)[a]
            < #[trigger] s.filter(pred)[b] by {
            if b < d.filter(pred).len() {
                assert(s.filter(pred)[a] == d.filter(pred)[a]);
                assert(s.filter(pred)[b] == d.filter(pred)[b]);
            } else {
                assert(s.filter(pred)[b] == s.last());
                assert(s.filter(pred)[a] == d.filter(pred)[a]);
                if d.len() > 0 {
                    lemma_filter_in_bounds(d, pred, s[0], s.last());
                }
            }
        }
    }
}

/// The application order runs severest rank first; within one rank the
/// declaration order is kept; and every rule appears in the order.
pub proof fn lemma_order_by_severity(rules: Seq<RuleModel>)
    ensures
        forall|a: int, b: int|
            0 <= a < b < sorted_order(rules).len() ==> severity_rank(
                rules[#[trigger] sorted_order(rules)[a]].severity,
            ) <= severity_rank(rules[#[trigger] sorted_order(rules)[b]].severity),
        forall|a: int, b: int|
            0 <= a < b < sorted_order(rules).len() && severity_rank(
                rules[#[trigger] sorted_order(rules)[a]].severity,
            ) == severity_rank(rules[#[trigger] sorted_order(rules)[b]].severity)
                ==> sorted_order(rules)[a] < sorted_order(rules)[b],
        forall|i: int| 0 <= i < rules.len() ==> sorted_order(rules).contains(i),
{
    let idx = index_seq(rules.len());
    let f0 = idx.filter(rank_pred(rules, 0));
    let f1 = idx.filter(rank_pred(rules, 1));
    let f2 = idx.filter(rank_pred(rules, 2));
    let f3 = idx.filter(rank_pred(rules, 3));
    let ord = sorted_order(rules);
    assert(ord == f0 + f1 + f2 + f3);
    assert(forall|i: int| 0 <= i < idx.len() ==> #[trigger] idx[i] == i);
    idx.filter_lemma(rank_pred(rules, 0));
    idx.filter_lemma(rank_pred(rules, 1));
    idx.filter_lemma(rank_pred(rules, 2));
    idx.filter_lemma(rank_pred(rules, 3));
    assert(forall|a: int, b: int| 0 <= a < b < idx.len() ==> idx[a] < idx[b]);
    lemma_filter_strictly_increasing(idx, rank_pred(rules, 0));
    lemma_filter_strictly_increasing(idx, rank_pred(rules, 1));
    lemma_filter_strictly_increasing(idx, rank_pred(rules, 2));
    lemma_filter_strictly_increasing(idx, rank_pred(rules, 3));
    lemma_filter_in_bounds(idx, rank_pred(rules, 0), 0, rules.len() as int);
    lemma_filter_in_bounds(idx, rank_pred(rules, 1), 0, rules.len() as int);
    lemma_filter_in_bounds(idx, rank_pred(rules, 2), 0, rules.len() as int);
    lemma_filter_in_bounds(idx, rank_pred(rules, 3), 0, rules.len() as int);
    assert forall|a: int, b: int|
        0 <= a < b < ord.len() implies severity_rank(rules[#[trigger] ord[a]].severity)
        <= severity_rank(rules[#[trigger] ord[b]].severity) && (severity_rank(
        rules[ord[a]].severity,
    ) == severity_rank(rules[ord[b]].severity) ==> ord[a] < ord[b]) by {
        lemma_order_segment(rules, a);
        lemma_order_segment(rules, b);
    }
    assert forall|i: int| 0 <= i < rules.len() implies sorted_order(rules).contains(i) by {
        let r = severity_rank(rules[i].severity);
        assert(0 <= r <= 3);
        assert(rank_pred(rules, r)(idx[i]));
        if r == 0 {
            assert(f0.contains(idx[i]));
            let j = choose|j: int| 0 <= j < f0.len() && f0[j] == i;
            assert(ord[j] == i);
        } else if r == 1 {
            assert(f1.contains(idx[i]));
            let j = choose|j: int| 0 <= j < f1.len() && f1[j] == i;
            assert(ord[f0.len() + j] == i);
        } else if r == 2 {
            assert(f2.contains(idx[i]));
            let j = choose|j: int| 0 <= j < f2.len() && f2[j] == i;
            assert(ord[f0.len() + f1.len() + j] == i);
        } else {
            assert(f3.contains(idx[i]));
            let j = choose|j: int| 0 <= j < f3.len() && f3[j] == i;
            assert(ord[f0.len() + f1.len() + f2.len() + j] == i);
        }
    }
}

/// A position in the application order lies in the segment of its rule's
/// severity rank, and the element there satisfies that rank's predicate.
proof fn lemma_order_segment(rules: Seq<RuleModel>, t: int)
    requires
        0 <= t < sorted_order(rules).len(),
    ensures
        ({
            let idx = index_seq(rules.len());
            let f0 = idx.filter(rank_pred(rules, 0));
            let f1 = idx.filter(rank_pred(rules, 1));
            let f2 = idx.filter(rank_pred(rules, 2));
            let f3 = idx.filter(rank_pred(rules, 3));
            let ord = sorted_order(rules);
            &&& (t < f0.len() ==> severity_rank(rules[ord[t]].severity) == 0 && ord[t] == f0[t])
            &&& (f0.len() <= t < f0.len() + f1.len() ==> severity_rank(rules[ord[t]].severity) == 1
                && ord[t] == f1[t - f0.len()])
            &&& (f0.len() + f1.len() <= t < f0.len() + f1.len() + f2.len() ==> severity_rank(
                rules[ord[t]].severity,
            ) == 2 && ord[t] == f2[t - f0.len() - f1.len()])
            &&& (f0.len() + f1.len() + f2.len() <= t ==> severity_rank(rules[ord[t]].severity) == 3
                && ord[t] == f3[t - f0.len() - f1.len() - f2.len()])
        }),
{
    let idx = index_seq(rules.len());
    let f0 = idx.filter(rank_pred(rules, 0));
    let f1 = idx.filter(rank_pred(rules, 1));
    let f2 = idx.filter(rank_pred(rules, 2));
    let f3 = idx.filter(rank_pred(rules, 3));
    let ord = sorted_order(rules);
    assert(ord == f0 + f1 + f2 + f3);
    idx.filter_lemma(rank_pred(rules, 0));
    idx.filter_lemma(rank_pred(rules, 1));
    idx.filter_lemma(rank_pred(rules, 2));
    idx.filter_lemma(rank_pred(rules, 3));
    if t < f0.len() {
        assert(ord[t] == f0[t]);
        assert(rank_pred(rules, 0)(f0[t]));
    } else if t < f0.len() + f1.len() {
        assert(ord[t] == f1[t - f0.len()]);
        assert(rank_pred(rules, 1)(f1[t - f0.len()]));
    } else if t < f0.len() + f1.len() + f2.len() {
        assert(ord[t] == f2[t - f0.len() - f1.len()]);
        assert(rank_pred(rules, 2)(f2[t - f0.len() - f1.len()]));
    } else {
        assert(ord[t] == f3[t - f0.len() - f1.len() - f2.len()]);
        assert(rank_pred(rules, 3)(f3[t - f0.len() - f1.len() - f2.len()]));
    }
}

} // verus!
