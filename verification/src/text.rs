//! Character/byte bookkeeping for text scanning.
//!
//! Matchers report byte offsets into the UTF-8 encoding of a line, while all
//! splicing works on whole characters so that a replacement can never cut a
//! multi-byte character in half.  This module ties the two views together:
//! byte offsets are mapped to character indices through the UTF-8 encoding
//! spec, and line splitting is defined over character sequences.

use vstd::prelude::*;
use vstd::utf8::encode_scalar;
use vstd::utf8::encode_utf8;

verus! {

/// Number of bytes in the UTF-8 encoding of `s`.
pub open spec fn byte_len(s: Seq<char>) -> nat {
    encode_utf8(s).len()
}

/// `b` is the byte length of some character-aligned prefix of `s`: no byte
/// offset inside the encoding of a single character satisfies this.
pub open spec fn is_prefix_boundary(s: Seq<char>, b: int) -> bool {
    exists|i: int| 0 <= i <= s.len() && byte_len(s.take(i)) == b
}

/// The character index whose encoded prefix takes exactly `b` bytes.
pub open spec fn char_index_of(s: Seq<char>, b: int) -> int {
    choose|i: int| 0 <= i <= s.len() && byte_len(s.take(i)) == b
}

/// UTF-8 encoding distributes over concatenation.
pub proof fn lemma_encode_concat(a: Seq<char>, b: Seq<char>)
    ensures
        encode_utf8(a + b) == encode_utf8(a) + encode_utf8(b),
    decreases a.len(),
{
    if a.len() == 0 {
        assert(a + b =~= b);
        assert(encode_utf8(a) + encode_utf8(b) =~= encode_utf8(b));
    } else {
        assert((a + b).len() > 0);
        assert((a + b)[0] == a[0]);
        assert((a + b).drop_first() =~= a.drop_first() + b);
        lemma_encode_concat(a.drop_first(), b);
        assert(encode_utf8(a + b) =~= encode_utf8(a) + encode_utf8(b));
    }
}

/// Extending a prefix by one character adds that character's encoding.
pub proof fn lemma_byte_len_step(s: Seq<char>, i: int)
    requires
        0 <= i < s.len(),
    ensures
        byte_len(s.take(i + 1)) == byte_len(s.take(i)) + encode_scalar(s[i] as u32).len(),
{
    let single = seq![s[i]];
    assert(s.take(i + 1) =~= s.take(i) + single);
    lemma_encode_concat(s.take(i), single);
    assert(single.drop_first() =~= Seq::<char>::empty());
    assert(encode_utf8(Seq::<char>::empty()) =~= Seq::<u8>::empty());
    assert(encode_utf8(single) =~= encode_scalar(single[0] as u32) + encode_utf8(
        single.drop_first(),
    ));
    assert(encode_utf8(single) =~= encode_scalar(s[i] as u32));
}

/// Every character takes at least one byte.
pub proof fn lemma_scalar_width_pos(c: char)
    ensures
        1 <= encode_scalar(c as u32).len() <= 4,
{
}

/// The byte length of `s.take(i)` grows strictly with `i`.
pub proof fn lemma_byte_len_strict_mono(s: Seq<char>, i: int, j: int)
    requires
        0 <= i < j <= s.len(),
    ensures
        byte_len(s.take(i)) < byte_len(s.take(j)),
    decreases j - i,
{
    lemma_byte_len_step(s, j - 1);
    lemma_scalar_width_pos(s[j - 1]);
    if i < j - 1 {
        lemma_byte_len_strict_mono(s, i, j - 1);
    }
}

/// The byte length of `s.take(i)` grows monotonically with `i`.
pub proof fn lemma_byte_len_mono(s: Seq<char>, i: int, j: int)
    requires
        0 <= i <= j <= s.len(),
    ensures
        byte_len(s.take(i)) <= byte_len(s.take(j)),
{
    if i < j {
        lemma_byte_len_strict_mono(s, i, j);
    } else {
        assert(s.take(i) =~= s.take(j));
    }
}

/// At most one character index maps to a given byte offset, so
/// `char_index_of` is pinned down whenever `is_prefix_boundary` holds.
pub proof fn lemma_char_index_unique(s: Seq<char>, b: int, i: int)
    requires
        0 <= i <= s.len(),
        byte_len(s.take(i)) == b,
    ensures
        char_index_of(s, b) == i,
{
    assert(is_prefix_boundary(s, b));
    let j = char_index_of(s, b);
    if j < i {
        lemma_byte_len_strict_mono(s, j, i);
    } else if j > i {
        lemma_byte_len_strict_mono(s, i, j);
    }
}

/// Width in bytes of one character's UTF-8 encoding.
pub fn char_width(c: char) -> (r: usize)
    ensures
        r == encode_scalar(c as u32).len(),
{
    let u = c as u32;
    if u < 0x80 {
        1
    } else if u < 0x800 {
        2
    } else if u < 0x10000 {
        3
    } else {
        4
    }
}

/// The characters of `s`, in order.
pub fn chars_vec(s: &str) -> (v: Vec<char>)
    ensures
        v@ == s@,
{
    let n = s.unicode_len();
    let mut v: Vec<char> = Vec::new();
    let mut i: usize = 0;
    while i < n
        invariant
            n == s@.len(),
            0 <= i <= n,
            v@ == s@.take(i as int),
        decreases n - i,
    {
        v.push(s.get_char(i));
        assert(v@ =~= s@.take(i + 1));
        i = i + 1;
    }
    assert(v@ =~= s@);
    v
}

/// Character index of a byte offset that lies on a character boundary.
pub fn char_offset(chars: &Vec<char>, b: usize) -> (r: usize)
    requires
        is_prefix_boundary(chars@, b as int),
    ensures
        r <= chars@.len(),
        byte_len(chars@.take(r as int)) == b,
        r == char_index_of(chars@, b as int),
{
    let ghost w = char_index_of(chars@, b as int);
    proof {
        let i0 = choose|i: int| 0 <= i <= chars@.len() && byte_len(chars@.take(i)) == b;
        lemma_char_index_unique(chars@, b as int, i0);
    }
    let n = chars.len();
    let mut i: usize = 0;
    let mut acc: usize = 0;
    proof {
        assert(chars@.take(0) =~= Seq::<char>::empty());
    }
    while acc < b
        invariant
            n == chars@.len(),
            0 <= i <= n,
            acc == byte_len(chars@.take(i as int)),
            acc <= b,
            b as int == byte_len(chars@.take(w)),
            0 <= w <= chars@.len(),
            w == char_index_of(chars@, b as int),
        decreases b - acc,
    {
        proof {
            if i as int >= w {
                lemma_byte_len_mono(chars@, w, i as int);
            }
            assert(i < chars@.len());
            lemma_byte_len_step(chars@, i as int);
            lemma_scalar_width_pos(chars@[i as int]);
            lemma_byte_len_mono(chars@, i as int + 1, w);
        }
        let c = chars[i];
        acc = acc + char_width(c);
        i = i + 1;
    }
    proof {
        lemma_char_index_unique(chars@, b as int, i as int);
    }
    i
}

/// Whether two strings hold the same characters.
pub fn str_eq(a: &str, b: &str) -> (r: bool)
    ensures
        r == (a@ == b@),
{
    let na = a.unicode_len();
    let nb = b.unicode_len();
    if na != nb {
        proof {
            assert(a@ != b@);
        }
        return false;
    }
    let mut i: usize = 0;
    while i < na
        invariant
            na == a@.len(),
            na == b@.len(),
            0 <= i <= na,
            forall|j: int| 0 <= j < i ==> a@[j] == b@[j],
        decreases na - i,
    {
        if a.get_char(i) != b.get_char(i) {
            proof {
                assert(a@[i as int] != b@[i as int]);
            }
            return false;
        }
        i = i + 1;
    }
    proof {
        assert(a@ =~= b@);
    }
    true
}

/// Split `s` at every newline character.  Always yields one more segment
/// than there are newlines; the separators themselves are dropped.
pub open spec fn split_nl(s: Seq<char>) -> Seq<Seq<char>>
    decreases s.len(),
{
    if s.len() == 0 {
        seq![Seq::<char>::empty()]
    } else if s[0] == '\n' {
        seq![Seq::<char>::empty()] + split_nl(s.drop_first())
    } else {
        let rest = split_nl(s.drop_first());
        seq![seq![s[0]] + rest[0]] + rest.drop_first()
    }
}

/// Drop one trailing carriage return, if present.
pub open spec fn strip_cr(l: Seq<char>) -> Seq<char> {
    if l.len() > 0 && l[l.len() - 1] == '\r' {
        l.drop_last()
    } else {
        l
    }
}

/// The lines of `text` under the splitting rules of the standard library's
/// line iterator: segments between newlines, a trailing carriage return
/// removed from every segment that was terminated by a newline, and no empty
/// final segment when the text ends with a newline.
pub open spec fn std_lines(text: Seq<char>) -> Seq<Seq<char>> {
    if text.len() == 0 {
        Seq::<Seq<char>>::empty()
    } else {
        let segs = split_nl(text);
        let keep: int = if text[text.len() - 1] == '\n' {
            segs.len() - 1
        } else {
            segs.len() as int
        };
        Seq::new(
            keep as nat,
            |j: int|
                if j < segs.len() - 1 {
                    strip_cr(segs[j])
                } else {
                    segs[j]
                },
        )
    }
}

/// The segments joined back together with a newline between each pair.
pub open spec fn join_lines(lines: Seq<Seq<char>>) -> Seq<char>
    decreases lines.len(),
{
    if lines.len() == 0 {
        Seq::<char>::empty()
    } else if lines.len() == 1 {
        lines[0]
    } else {
        lines[0] + seq!['\n'] + join_lines(lines.drop_first())
    }
}

/// Appending one more segment extends the joined text by a newline and the
/// segment.
pub proof fn lemma_join_push(lines: Seq<Seq<char>>, x: Seq<char>)
    requires
        lines.len() >= 1,
    ensures
        join_lines(lines.push(x)) == join_lines(lines) + seq!['\n'] + x,
    decreases lines.len(),
{
    if lines.len() == 1 {
        assert(lines.push(x).drop_first() =~= seq![x]);
        assert(join_lines(seq![x]) == x);
        assert(lines.push(x)[0] == lines[0]);
        assert(join_lines(lines.push(x)) =~= lines[0] + seq!['\n'] + x);
        assert(join_lines(lines) == lines[0]);
    } else {
        lemma_join_push(lines.drop_first(), x);
        assert(lines.push(x).drop_first() =~= lines.drop_first().push(x));
        assert(lines.push(x)[0] == lines[0]);
        assert(join_lines(lines) + seq!['\n'] + x =~= lines[0] + seq!['\n'] + (join_lines(
            lines.drop_first(),
        ) + seq!['\n'] + x));
    }
}

/// Splitting always yields at least one segment.
pub proof fn lemma_split_nl_pos(s: Seq<char>)
    ensures
        split_nl(s).len() >= 1,
    decreases s.len(),
{
    if s.len() > 0 && s[0] != '\n' {
        lemma_split_nl_pos(s.drop_first());
    }
}

/// A segment currently being scanned, prepended to the first segment of the
/// rest of the split.
pub open spec fn with_prefix(p: Seq<char>, sp: Seq<Seq<char>>) -> Seq<Seq<char>>
    recommends
        sp.len() >= 1,
{
    seq![p + sp[0]] + sp.drop_first()
}

proof fn lemma_scan_step(text: Seq<char>, ls: int, i: int)
    requires
        0 <= ls <= i < text.len(),
        text[i] != '\n',
    ensures
        with_prefix(text.subrange(ls, i), split_nl(text.skip(i))) == with_prefix(
            text.subrange(ls, i + 1),
            split_nl(text.skip(i + 1)),
        ),
{
    let sk = text.skip(i);
    let rest = split_nl(text.skip(i + 1));
    lemma_split_nl_pos(text.skip(i + 1));
    assert(sk[0] == text[i]);
    assert(sk.drop_first() =~= text.skip(i + 1));
    assert(split_nl(sk) == seq![seq![text[i]] + rest[0]] + rest.drop_first());
    assert(text.subrange(ls, i) + (seq![text[i]] + rest[0]) =~= text.subrange(ls, i + 1)
        + rest[0]);
    assert((seq![seq![text[i]] + rest[0]] + rest.drop_first()).drop_first() =~= rest.drop_first());
    assert((seq![seq![text[i]] + rest[0]] + rest.drop_first())[0] == seq![text[i]] + rest[0]);
    assert(with_prefix(text.subrange(ls, i), split_nl(sk)) =~= with_prefix(
        text.subrange(ls, i + 1),
        rest,
    ));
}

proof fn lemma_scan_newline(text: Seq<char>, ls: int, i: int)
    requires
        0 <= ls <= i < text.len(),
        text[i] == '\n',
    ensures
        with_prefix(text.subrange(ls, i), split_nl(text.skip(i))) == seq![
            text.subrange(ls, i),
        ] + with_prefix(text.subrange(i + 1, i + 1), split_nl(text.skip(i + 1))),
{
    let rest = split_nl(text.skip(i + 1));
    lemma_split_nl_pos(text.skip(i + 1));
    let sk = text.skip(i);
    assert(sk[0] == text[i]);
    assert(sk.drop_first() =~= text.skip(i + 1));
    assert(split_nl(sk) == seq![Seq::<char>::empty()] + rest);
    assert(text.subrange(ls, i) + Seq::<char>::empty() =~= text.subrange(ls, i));
    assert(text.subrange(i + 1, i + 1) =~= Seq::<char>::empty());
    assert((seq![Seq::<char>::empty()] + rest)[0] =~= Seq::<char>::empty());
    assert((seq![Seq::<char>::empty()] + rest).drop_first() =~= rest);
    assert(text.subrange(i + 1, i + 1) + rest[0] =~= rest[0]);
    assert(with_prefix(text.subrange(i + 1, i + 1), rest) =~= rest);
    assert(with_prefix(text.subrange(ls, i), split_nl(sk)) =~= seq![text.subrange(ls, i)] + rest);
}

proof fn lemma_scan_end(text: Seq<char>, ls: int)
    requires
        0 <= ls <= text.len(),
    ensures
        with_prefix(text.subrange(ls, text.len() as int), split_nl(text.skip(text.len() as int)))
            == seq![text.subrange(ls, text.len() as int)],
{
    let sk = text.skip(text.len() as int);
    assert(sk =~= Seq::<char>::empty());
    assert(split_nl(sk) == seq![Seq::<char>::empty()]);
    assert(text.subrange(ls, text.len() as int) + Seq::<char>::empty() =~= text.subrange(
        ls,
        text.len() as int,
    ));
    assert((seq![Seq::<char>::empty()]).drop_first() =~= Seq::<Seq<char>>::empty());
    assert(with_prefix(text.subrange(ls, text.len() as int), split_nl(sk)) =~= seq![
        text.subrange(ls, text.len() as int),
    ]);
}

/// Character spans of the lines of `chars`, as `std_lines` describes them.
pub fn line_spans(chars: &Vec<char>) -> (r: Vec<(usize, usize)>)
    ensures
        r@.len() == std_lines(chars@).len(),
        forall|j: int|
            0 <= j < r@.len() ==> (#[trigger] r@[j]).0 <= r@[j].1 <= chars@.len()
                && chars@.subrange(r@[j].0 as int, r@[j].1 as int) == std_lines(chars@)[j],
{
    let ghost text = chars@;
    let n = chars.len();
    let mut r: Vec<(usize, usize)> = Vec::new();
    let mut ls: usize = 0;
    let mut i: usize = 0;
    let ghost mut done: Seq<Seq<char>> = Seq::<Seq<char>>::empty();
    proof {
        assert(text.skip(0) =~= text);
        assert(done + with_prefix(text.subrange(0, 0), split_nl(text.skip(0))) =~= with_prefix(
            text.subrange(0, 0),
            split_nl(text),
        ));
        lemma_split_nl_pos(text);
        assert(text.subrange(0, 0) + split_nl(text)[0] =~= split_nl(text)[0]);
        assert(with_prefix(text.subrange(0, 0), split_nl(text)) =~= split_nl(text));
    }
    while i < n
        invariant
            chars@ == text,
            n == text.len(),
            0 <= ls <= i <= n,
            done.len() == r@.len(),
            split_nl(text) == done + with_prefix(
                text.subrange(ls as int, i as int),
                split_nl(text.skip(i as int)),
            ),
            forall|j: int|
                0 <= j < r@.len() ==> (#[trigger] r@[j]).0 <= r@[j].1 <= n && text.subrange(
                    r@[j].0 as int,
                    r@[j].1 as int,
                ) == strip_cr(done[j]),
        decreases n - i,
    {
        let c = chars[i];
        if c == '\n' {
            let end: usize = if i > ls && chars[i - 1] == '\r' {
                i - 1
            } else {
                i
            };
            proof {
                let seg = text.subrange(ls as int, i as int);
                if i > ls && text[i as int - 1] == '\r' {
                    assert(seg.len() > 0);
                    assert(seg[seg.len() - 1] == '\r');
                    assert(strip_cr(seg) =~= text.subrange(ls as int, i as int - 1));
                } else {
                    assert(strip_cr(seg) =~= seg);
                }
                lemma_scan_newline(text, ls as int, i as int);
                done = done.push(seg);
            }
            r.push((ls, end));
            ls = i + 1;
        } else {
            proof {
                lemma_scan_step(text, ls as int, i as int);
            }
        }
        i = i + 1;
    }
    proof {
        lemma_scan_end(text, ls as int);
        assert(split_nl(text) == done + seq![text.subrange(ls as int, n as int)]);
    }
    if n == 0 {
        return r;
    }
    let lastc = chars[n - 1];
    if lastc != '\n' {
        r.push((ls, n));
        proof {
            let segs = split_nl(text);
            assert(segs.len() == done.len() + 1);
            assert(forall|j: int| 0 <= j < done.len() ==> segs[j] == done[j]);
            assert(segs[segs.len() - 1] == text.subrange(ls as int, n as int));
            assert(r@.len() == std_lines(text).len());
            assert forall|j: int| 0 <= j < r@.len() implies (#[trigger] r@[j]).0 <= r@[j].1
                <= chars@.len() && chars@.subrange(r@[j].0 as int, r@[j].1 as int) == std_lines(
                chars@,
            )[j] by {
                if j < r@.len() - 1 {
                    assert(std_lines(text)[j] == strip_cr(segs[j]));
                } else {
                    assert(std_lines(text)[j] == segs[j]);
                }
            }
        }
    } else {
        proof {
            let segs = split_nl(text);
            assert(segs.len() == done.len() + 1);
            assert(forall|j: int| 0 <= j < done.len() ==> segs[j] == done[j]);
            assert(r@.len() == std_lines(text).len());
            assert forall|j: int| 0 <= j < r@.len() implies (#[trigger] r@[j]).0 <= r@[j].1
                <= chars@.len() && chars@.subrange(r@[j].0 as int, r@[j].1 as int) == std_lines(
                chars@,
            )[j] by {
                assert(std_lines(text)[j] == strip_cr(segs[j]));
            }
        }
    }
    r
}

} // verus!
