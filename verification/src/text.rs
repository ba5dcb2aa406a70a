//! Splitting and reading text, as the parsers of this crate need it.
//!
//! Each function has its meaning written down as a function on sequences of characters:
//! a text is read from its start to its end, and what has been read is the pieces that
//! are complete and the piece that is under way.

use vstd::prelude::*;
use vstd::string::StrSliceExecFns;

verus! {

/// Whether `c` is one of the ASCII whitespace characters: space, tab, line feed, form
/// feed, carriage return.
pub open spec fn is_ascii_whitespace(c: char) -> bool {
    c == ' ' || c == '\t' || c == '\n' || c == '\x0C' || c == '\r'
}

/// What has been read of a text: the pieces that are complete, and the piece under way.
pub struct Pieces {
    pub done: Seq<Seq<char>>,
    pub current: Seq<char>,
}

/// Reading `s` for fields that whitespace separates.
pub open spec fn scan_fields(s: Seq<char>) -> Pieces
    decreases s.len(),
{
    if s.len() == 0 {
        Pieces { done: Seq::empty(), current: Seq::empty() }
    } else {
        let p = scan_fields(s.drop_last());
        if is_ascii_whitespace(s.last()) {
            if p.current.len() > 0 {
                Pieces { done: p.done.push(p.current), current: Seq::empty() }
            } else {
                p
            }
        } else {
            Pieces { done: p.done, current: p.current.push(s.last()) }
        }
    }
}

/// The fields of `s`: its longest runs of characters that are not ASCII whitespace, in
/// their order. None of them is empty.
pub open spec fn fields(s: Seq<char>) -> Seq<Seq<char>> {
    let p = scan_fields(s);
    if p.current.len() > 0 {
        p.done.push(p.current)
    } else {
        p.done
    }
}

/// Reading `s` for the pieces that the character `sep` separates.
pub open spec fn scan_pieces(s: Seq<char>, sep: char) -> Pieces
    decreases s.len(),
{
    if s.len() == 0 {
        Pieces { done: Seq::empty(), current: Seq::empty() }
    } else {
        let p = scan_pieces(s.drop_last(), sep);
        if s.last() == sep {
            Pieces { done: p.done.push(p.current), current: Seq::empty() }
        } else {
            Pieces { done: p.done, current: p.current.push(s.last()) }
        }
    }
}

/// The pieces of `s` between the occurrences of `sep`, empty ones included: one more
/// than there are occurrences.
pub open spec fn pieces(s: Seq<char>, sep: char) -> Seq<Seq<char>> {
    let p = scan_pieces(s, sep);
    p.done.push(p.current)
}

/// A line without the carriage return that may end it.
pub open spec fn without_cr(line: Seq<char>) -> Seq<char> {
    if line.len() > 0 && line.last() == '\r' {
        line.drop_last()
    } else {
        line
    }
}

/// Reading `s` for lines.
pub open spec fn scan_lines(s: Seq<char>) -> Pieces
    decreases s.len(),
{
    if s.len() == 0 {
        Pieces { done: Seq::empty(), current: Seq::empty() }
    } else {
        let p = scan_lines(s.drop_last());
        if s.last() == '\n' {
            Pieces { done: p.done.push(without_cr(p.current)), current: Seq::empty() }
        } else {
            Pieces { done: p.done, current: p.current.push(s.last()) }
        }
    }
}

/// The lines of `s`. A line ends with a line feed, or with a carriage return and a
/// line feed, which are not part of it. The last line needs no line ending, and there
/// is no empty line after a final line ending.
pub open spec fn lines_of(s: Seq<char>) -> Seq<Seq<char>> {
    let p = scan_lines(s);
    if p.current.len() > 0 {
        p.done.push(p.current)
    } else {
        p.done
    }
}

/// The texts of `parts` one after the other, with `sep` between each two of them.
pub open spec fn joined(parts: Seq<Seq<char>>, sep: Seq<char>) -> Seq<char>
    decreases parts.len(),
{
    if parts.len() == 0 {
        Seq::empty()
    } else if parts.len() == 1 {
        parts[0]
    } else {
        joined(parts.drop_last(), sep) + sep + parts.last()
    }
}

/// Whether the text `pattern` stands in `s` at the position `i`.
pub open spec fn occurs_at(s: Seq<char>, pattern: Seq<char>, i: int) -> bool {
    0 <= i && i + pattern.len() <= s.len() && s.subrange(i, i + pattern.len()) == pattern
}

/// What comes after the last occurrence of `pattern` in `s`; `s` itself if there is
/// none.
pub open spec fn after_last(s: Seq<char>, pattern: Seq<char>) -> Seq<char> {
    if exists|i: int| occurs_at(s, pattern, i) {
        let i = choose|i: int|
            occurs_at(s, pattern, i) && forall|j: int| i < j ==> !occurs_at(s, pattern, j);
        s.skip(i + pattern.len())
    } else {
        s
    }
}

/// The number of ASCII whitespace characters that `s` starts with.
pub open spec fn leading_whitespace(s: Seq<char>) -> nat
    decreases s.len(),
{
    if s.len() > 0 && is_ascii_whitespace(s[0]) {
        1 + leading_whitespace(s.skip(1))
    } else {
        0
    }
}

/// Whether `c` is a decimal digit.
pub open spec fn is_digit(c: char) -> bool {
    '0' <= c <= '9'
}

/// Whether `s` is made of decimal digits only.
pub open spec fn all_digits(s: Seq<char>) -> bool {
    forall|i: int| 0 <= i < s.len() ==> is_digit(#[trigger] s[i])
}

/// The number that the decimal digits of `s` write.
pub open spec fn digits_value(s: Seq<char>) -> nat
    decreases s.len(),
{
    if s.len() == 0 {
        0
    } else {
        digits_value(s.drop_last()) * 10 + ((s.last() as u32 - '0' as u32) as nat)
    }
}

/// The number that `s` writes: decimal digits, at least one, after at most one `+`.
/// There is none if `s` is anything else, or if the number does not fit in 64 bits.
pub open spec fn parsed_u64(s: Seq<char>) -> Option<u64> {
    let digits = if s.len() > 0 && s[0] == '+' {
        s.skip(1)
    } else {
        s
    };
    if digits.len() > 0 && all_digits(digits) && digits_value(digits) <= u64::MAX {
        Some(digits_value(digits) as u64)
    } else {
        None
    }
}

/// The decimal digit that writes `d`.
pub open spec fn digit_char(d: nat) -> char {
    ((48 + d) as u8) as char
}

/// `n` written with decimal digits, without leading zeros.
pub open spec fn decimal(n: nat) -> Seq<char>
    decreases n,
{
    if n < 10 {
        seq![digit_char(n)]
    } else {
        decimal(n / 10).push(digit_char(n % 10))
    }
}

/// Calls `to_string` of std on an unsigned number: the result is the number written
/// with decimal digits, without a sign and without leading zeros.
#[verifier::external_body]
pub(crate) fn u64_to_string(n: u64) -> (s: String)
    ensures
        s@ == decimal(n as nat),
{
    n.to_string()
}

/// Every field is a run of characters that are not whitespace, and is not empty.
pub proof fn lemma_fields_have_no_whitespace(s: Seq<char>)
    ensures
        forall|i: int, j: int|
            0 <= i < fields(s).len() && 0 <= j < fields(s)[i].len() ==> !is_ascii_whitespace(
                #[trigger] fields(s)[i][j],
            ),
        forall|i: int| 0 <= i < fields(s).len() ==> (#[trigger] fields(s)[i]).len() > 0,
{
    lemma_scan_fields(s);
}

proof fn lemma_scan_fields(s: Seq<char>)
    ensures
        forall|i: int, j: int|
            0 <= i < scan_fields(s).done.len() && 0 <= j < scan_fields(s).done[i].len()
                ==> !is_ascii_whitespace(#[trigger] scan_fields(s).done[i][j]),
        forall|i: int|
            0 <= i < scan_fields(s).done.len() ==> (#[trigger] scan_fields(s).done[i]).len() > 0,
        forall|j: int|
            0 <= j < scan_fields(s).current.len() ==> !is_ascii_whitespace(
                #[trigger] scan_fields(s).current[j],
            ),
    decreases s.len(),
{
    if s.len() > 0 {
        lemma_scan_fields(s.drop_last());
        let p = scan_fields(s.drop_last());
        let q = scan_fields(s);
        if is_ascii_whitespace(s.last()) {
            if p.current.len() > 0 {
                assert forall|i: int| 0 <= i < q.done.len() implies (#[trigger] q.done[i]).len()
                    > 0 && forall|j: int|
                    0 <= j < q.done[i].len() ==> !is_ascii_whitespace(q.done[i][j]) by {
                    if i < p.done.len() {
                        assert(q.done[i] == p.done[i]);
                        assert forall|j: int| 0 <= j < q.done[i].len() implies !is_ascii_whitespace(
                            q.done[i][j],
                        ) by {
                            assert(!is_ascii_whitespace(p.done[i][j]));
                        }
                    } else {
                        assert(q.done[i] == p.current);
                        assert forall|j: int| 0 <= j < q.done[i].len() implies !is_ascii_whitespace(
                            q.done[i][j],
                        ) by {
                            assert(!is_ascii_whitespace(p.current[j]));
                        }
                    }
                }
            }
        } else {
            assert forall|j: int| 0 <= j < q.current.len() implies !is_ascii_whitespace(
                #[trigger] q.current[j],
            ) by {
                if j < p.current.len() {
                    assert(!is_ascii_whitespace(p.current[j]));
                }
            }
        }
    }
}

/// Splitting loses nothing: no piece holds the separator, and the pieces joined with
/// the separator are the text that was split.
pub proof fn lemma_pieces(s: Seq<char>, sep: char)
    ensures
        forall|i: int, j: int|
            0 <= i < pieces(s, sep).len() && 0 <= j < pieces(s, sep)[i].len() ==> #[trigger] pieces(
                s,
                sep,
            )[i][j] != sep,
        joined(pieces(s, sep), seq![sep]) == s,
    decreases s.len(),
{
    let p = scan_pieces(s, sep);
    if s.len() == 0 {
        assert(pieces(s, sep) =~= seq![Seq::<char>::empty()]);
        assert(s =~= Seq::<char>::empty());
    } else {
        let init = s.drop_last();
        let c = s.last();
        let p0 = scan_pieces(init, sep);
        lemma_pieces(init, sep);
        let before = pieces(init, sep);
        let after = pieces(s, sep);
        assert(before.drop_last() =~= p0.done);
        assert(s =~= init.push(c));
        if c == sep {
            assert(after.drop_last() =~= before);
            assert(after.last() =~= Seq::<char>::empty());
            assert(joined(after, seq![sep]) =~= init + seq![sep] + Seq::<char>::empty());
            assert forall|i: int, j: int|
                0 <= i < after.len() && 0 <= j < after[i].len() implies #[trigger] after[i][j]
                != sep by {
                assert(after[i] == before[i]);
                assert(before[i][j] != sep);
            }
        } else {
            assert(after.drop_last() =~= p0.done);
            assert(after.last() == p0.current.push(c));
            if p0.done.len() == 0 {
                assert(before =~= seq![p0.current]);
                assert(after =~= seq![p0.current.push(c)]);
            } else {
                assert(joined(before, seq![sep]) == joined(p0.done, seq![sep]) + seq![sep]
                    + p0.current);
                assert(joined(after, seq![sep]) =~= (joined(p0.done, seq![sep]) + seq![sep]
                    + p0.current).push(c));
            }
            assert forall|i: int, j: int|
                0 <= i < after.len() && 0 <= j < after[i].len() implies #[trigger] after[i][j]
                != sep by {
                if i < after.len() - 1 {
                    assert(after[i] == before[i]);
                    assert(before[i][j] != sep);
                } else if j < p0.current.len() {
                    assert(before[i][j] != sep);
                }
            }
        }
    }
}

/// A number written with decimal digits is read back as that number.
pub proof fn lemma_decimal_parses(n: nat)
    requires
        n <= u64::MAX,
    ensures
        parsed_u64(decimal(n)) == Some(n as u64),
{
    lemma_decimal_digits(n);
    assert(decimal(n)[0] != '+');
}

proof fn lemma_decimal_digits(n: nat)
    ensures
        decimal(n).len() > 0,
        all_digits(decimal(n)),
        digits_value(decimal(n)) == n,
    decreases n,
{
    if n < 10 {
        let s = decimal(n);
        assert(s.len() == 1);
        assert(s.drop_last() =~= Seq::<char>::empty());
        assert(digits_value(s) == digits_value(s.drop_last()) * 10 + ((s.last() as u32 - '0' as u32) as nat));
    } else {
        lemma_decimal_digits(n / 10);
        let init = decimal(n / 10);
        let s = decimal(n);
        assert(s.drop_last() =~= init);
        assert(s.last() == digit_char(n % 10));
        assert forall|i: int| 0 <= i < s.len() implies is_digit(#[trigger] s[i]) by {
            if i < init.len() {
                assert(is_digit(init[i]));
            }
        }
    }
}

/// The digits of a number are worth at least as much as the digits that they start with.
proof fn lemma_digits_value_grows(s: Seq<char>, i: int)
    requires
        0 <= i <= s.len(),
    ensures
        digits_value(s.take(i)) <= digits_value(s),
    decreases s.len() - i,
{
    if i < s.len() {
        lemma_digits_value_grows(s, i + 1);
        assert(s.take(i + 1).drop_last() =~= s.take(i));
    } else {
        assert(s.take(i) =~= s);
    }
}

/// The characters of a string.
pub fn chars_of(s: &str) -> (v: Vec<char>)
    ensures
        v@ == s@,
{
    let mut v: Vec<char> = Vec::new();
    for c in it: s.chars()
        invariant
            it.seq() == s@,
            v@ == it.seq().take(it.index() as int),
    {
        v.push(c);
    }
    v
}

/// Whether two texts are made of the same characters.
pub fn same_text(a: &str, b: &str) -> (r: bool)
    ensures
        r == (a@ == b@),
{
    let x = chars_of(a);
    let y = chars_of(b);
    if x.len() != y.len() {
        return false;
    }
    let mut i: usize = 0;
    while i < x.len()
        invariant
            i <= x.len(),
            x.len() == y.len(),
            x@ == a@,
            y@ == b@,
            forall|j: int| 0 <= j < i ==> x[j] == y[j],
        decreases x.len() - i,
    {
        if x[i] != y[i] {
            assert(a@[i as int] != b@[i as int]);
            return false;
        }
        i = i + 1;
    }
    assert(a@ =~= b@);
    true
}

/// Whether `c` is an ASCII whitespace character.
pub fn char_is_ascii_whitespace(c: char) -> (b: bool)
    ensures
        b == is_ascii_whitespace(c),
{
    c == ' ' || c == '\t' || c == '\n' || c == '\x0C' || c == '\r'
}

/// The fields of `s` that ASCII whitespace separates.
pub fn split_ascii_whitespace(s: &str) -> (out: Vec<String>)
    ensures
        out.deep_view() == fields(s@),
{
    let chars = chars_of(s);
    let n = chars.len();
    let mut out: Vec<String> = Vec::new();
    let mut start: usize = 0;
    let mut i: usize = 0;
    proof {
        assert(s@.take(0) =~= Seq::<char>::empty());
        assert(s@.subrange(0, 0) =~= Seq::<char>::empty());
        assert(out.deep_view() =~= Seq::<Seq<char>>::empty());
    }
    while i < n
        invariant
            start <= i <= n,
            n == s@.len(),
            chars@ == s@,
            scan_fields(s@.take(i as int)) == (Pieces {
                done: out.deep_view(),
                current: s@.subrange(start as int, i as int),
            }),
        decreases n - i,
    {
        let c = chars[i];
        proof {
            assert(s@.take(i + 1).drop_last() =~= s@.take(i as int));
            assert(s@.take(i + 1).last() == s@[i as int]);
        }
        if char_is_ascii_whitespace(c) {
            if start < i {
                let ghost before = out.deep_view();
                out.push(s.substring_char(start, i).to_owned());
                assert(out.deep_view() =~= before.push(s@.subrange(start as int, i as int)));
            } else {
                assert(s@.subrange(start as int, i as int) =~= Seq::<char>::empty());
            }
            start = i + 1;
            assert(s@.subrange(start as int, i + 1) =~= Seq::<char>::empty());
        } else {
            assert(s@.subrange(start as int, i + 1) =~= s@.subrange(start as int, i as int).push(
                c,
            ));
        }
        i = i + 1;
    }
    assert(s@.take(n as int) =~= s@);
    if start < n {
        let ghost before = out.deep_view();
        out.push(s.substring_char(start, n).to_owned());
        assert(out.deep_view() =~= before.push(s@.subrange(start as int, n as int)));
    }
    out
}

/// The pieces of `s` between the occurrences of `sep`.
pub fn split_on(s: &str, sep: char) -> (out: Vec<String>)
    ensures
        out.deep_view() == pieces(s@, sep),
{
    let chars = chars_of(s);
    let n = chars.len();
    let mut out: Vec<String> = Vec::new();
    let mut start: usize = 0;
    let mut i: usize = 0;
    proof {
        assert(s@.take(0) =~= Seq::<char>::empty());
        assert(s@.subrange(0, 0) =~= Seq::<char>::empty());
        assert(out.deep_view() =~= Seq::<Seq<char>>::empty());
    }
    while i < n
        invariant
            start <= i <= n,
            n == s@.len(),
            chars@ == s@,
            scan_pieces(s@.take(i as int), sep) == (Pieces {
                done: out.deep_view(),
                current: s@.subrange(start as int, i as int),
            }),
        decreases n - i,
    {
        let c = chars[i];
        proof {
            assert(s@.take(i + 1).drop_last() =~= s@.take(i as int));
            assert(s@.take(i + 1).last() == s@[i as int]);
        }
        if c == sep {
            let ghost before = out.deep_view();
            out.push(s.substring_char(start, i).to_owned());
            assert(out.deep_view() =~= before.push(s@.subrange(start as int, i as int)));
            start = i + 1;
            assert(s@.subrange(start as int, i + 1) =~= Seq::<char>::empty());
        } else {
            assert(s@.subrange(start as int, i + 1) =~= s@.subrange(start as int, i as int).push(
                c,
            ));
        }
        i = i + 1;
    }
    assert(s@.take(n as int) =~= s@);
    let ghost before = out.deep_view();
    out.push(s.substring_char(start, n).to_owned());
    assert(out.deep_view() =~= before.push(s@.subrange(start as int, n as int)));
    out
}

/// The lines of `s`.
pub fn lines(s: &str) -> (out: Vec<String>)
    ensures
        out.deep_view() == lines_of(s@),
{
    let chars = chars_of(s);
    let n = chars.len();
    let mut out: Vec<String> = Vec::new();
    let mut start: usize = 0;
    let mut i: usize = 0;
    proof {
        assert(s@.take(0) =~= Seq::<char>::empty());
        assert(s@.subrange(0, 0) =~= Seq::<char>::empty());
        assert(out.deep_view() =~= Seq::<Seq<char>>::empty());
    }
    while i < n
        invariant
            start <= i <= n,
            n == s@.len(),
            chars@ == s@,
            scan_lines(s@.take(i as int)) == (Pieces {
                done: out.deep_view(),
                current: s@.subrange(start as int, i as int),
            }),
        decreases n - i,
    {
        let c = chars[i];
        proof {
            assert(s@.take(i + 1).drop_last() =~= s@.take(i as int));
            assert(s@.take(i + 1).last() == s@[i as int]);
        }
        if c == '\n' {
            let ghost before = out.deep_view();
            let ghost line = s@.subrange(start as int, i as int);
            let end = if start < i && chars[i - 1] == '\r' {
                i - 1
            } else {
                i
            };
            proof {
                if start < i {
                    assert(line.last() == s@[i - 1]);
                }
                assert(s@.subrange(start as int, end as int) =~= without_cr(line));
            }
            out.push(s.substring_char(start, end).to_owned());
            assert(out.deep_view() =~= before.push(without_cr(line)));
            start = i + 1;
            assert(s@.subrange(start as int, i + 1) =~= Seq::<char>::empty());
        } else {
            assert(s@.subrange(start as int, i + 1) =~= s@.subrange(start as int, i as int).push(
                c,
            ));
        }
        i = i + 1;
    }
    assert(s@.take(n as int) =~= s@);
    if start < n {
        let ghost before = out.deep_view();
        out.push(s.substring_char(start, n).to_owned());
        assert(out.deep_view() =~= before.push(s@.subrange(start as int, n as int)));
    }
    out
}

/// The texts of `parts` one after the other, with `sep` between each two of them.
pub fn join(parts: &Vec<String>, sep: &str) -> (r: String)
    ensures
        r@ == joined(parts.deep_view(), sep@),
{
    let ghost all = parts.deep_view();
    if parts.len() == 0 {
        return String::new();
    }
    let mut r = parts[0].clone();
    let mut i: usize = 1;
    assert(all.take(1) =~= seq![all[0]]);
    while i < parts.len()
        invariant
            1 <= i <= parts.len(),
            all == parts.deep_view(),
            r@ == joined(all.take(i as int), sep@),
        decreases parts.len() - i,
    {
        proof {
            assert(all.take(i + 1).drop_last() =~= all.take(i as int));
            assert(all.take(i + 1).last() == parts[i as int]@);
        }
        r = r.concat(sep).concat(parts[i].as_str());
        i = i + 1;
    }
    assert(all.take(parts.len() as int) =~= all);
    r
}

/// Whether `s` ends with the text `suffix`.
pub fn ends_with(s: &str, suffix: &str) -> (b: bool)
    ensures
        b == occurs_at(s@, suffix@, s@.len() - suffix@.len()),
{
    let n = s.unicode_len();
    let m = suffix.unicode_len();
    if m > n {
        return false;
    }
    same_text(s.substring_char(n - m, n), suffix)
}

/// What comes after the last occurrence of `pattern` in `s`, and `s` itself if there
/// is none. The pattern is not empty.
pub fn text_after_last<'a>(s: &'a str, pattern: &str) -> (r: &'a str)
    requires
        pattern@.len() > 0,
    ensures
        r@ == after_last(s@, pattern@),
{
    let n = s.unicode_len();
    let m = pattern.unicode_len();
    if m > n {
        assert(forall|i: int| !occurs_at(s@, pattern@, i));
        assert(s@.subrange(0, n as int) =~= s@);
        return s.substring_char(0, n);
    }
    let mut i: usize = n - m + 1;
    while i > 0
        invariant
            i <= n - m + 1,
            m <= n,
            m > 0,
            n == s@.len(),
            m == pattern@.len(),
            forall|j: int| i <= j ==> !occurs_at(s@, pattern@, j),
        decreases i,
    {
        i = i - 1;
        if same_text(s.substring_char(i, i + m), pattern) {
            proof {
                assert(occurs_at(s@, pattern@, i as int));
                let c = choose|c: int|
                    occurs_at(s@, pattern@, c) && forall|j: int|
                        c < j ==> !occurs_at(s@, pattern@, j);
                assert(occurs_at(s@, pattern@, i as int) && forall|j: int|
                    i < j ==> !occurs_at(s@, pattern@, j));
                if c < i {
                    assert(!occurs_at(s@, pattern@, i as int));
                } else if i < c {
                    assert(!occurs_at(s@, pattern@, c));
                }
                assert(s@.subrange(i + m, n as int) =~= s@.skip(i + m));
            }
            return s.substring_char(i + m, n);
        }
    }
    assert(forall|i: int| !occurs_at(s@, pattern@, i));
    assert(s@.subrange(0, n as int) =~= s@);
    s.substring_char(0, n)
}

/// `s` without the ASCII whitespace that it starts with.
pub fn trim_ascii_start(s: &str) -> (r: &str)
    ensures
        r@ == s@.skip(leading_whitespace(s@) as int),
{
    let chars = chars_of(s);
    let n = chars.len();
    let mut i: usize = 0;
    assert(s@.skip(0) =~= s@);
    while i < n && char_is_ascii_whitespace(chars[i])
        invariant
            i <= n,
            n == s@.len(),
            chars@ == s@,
            leading_whitespace(s@) == i + leading_whitespace(s@.skip(i as int)),
        decreases n - i,
    {
        assert(s@.skip(i as int).skip(1) =~= s@.skip(i + 1));
        assert(s@.skip(i as int)[0] == s@[i as int]);
        i = i + 1;
    }
    proof {
        if i < n {
            assert(s@.skip(i as int)[0] == s@[i as int]);
        }
        assert(leading_whitespace(s@.skip(i as int)) == 0);
        assert(s@.subrange(i as int, n as int) =~= s@.skip(i as int));
    }
    s.substring_char(i, n)
}

/// Whether `s` starts with the character `c`.
pub fn starts_with_char(s: &str, c: char) -> (b: bool)
    ensures
        b == (s@.len() > 0 && s@[0] == c),
{
    if s.unicode_len() == 0 {
        false
    } else {
        s.get_char(0) == c
    }
}

/// Reads an unsigned number of 64 bits, written with decimal digits.
pub fn parse_u64(s: &str) -> (r: Option<u64>)
    ensures
        r == parsed_u64(s@),
{
    let chars = chars_of(s);
    let n = chars.len();
    let first: usize = if n > 0 && chars[0] == '+' {
        1
    } else {
        0
    };
    let ghost digits = s@.skip(first as int);
    assert(s@.skip(0) =~= s@);
    assert(digits == (if s@.len() > 0 && s@[0] == '+' {
        s@.skip(1)
    } else {
        s@
    }));
    if first == n {
        return None;
    }
    let mut acc: u64 = 0;
    let mut i: usize = first;
    while i < n
        invariant
            first <= i <= n,
            first < n,
            n == s@.len(),
            chars@ == s@,
            digits == s@.skip(first as int),
            digits == (if s@.len() > 0 && s@[0] == '+' {
                s@.skip(1)
            } else {
                s@
            }),
            forall|j: int| 0 <= j < i - first ==> is_digit(digits[j]),
            acc == digits_value(digits.take(i - first)),
        decreases n - i,
    {
        let c = chars[i];
        assert(digits[i - first] == c);
        if !(c >= '0' && c <= '9') {
            assert(!is_digit(digits[i - first]));
            assert(!all_digits(digits));
            return None;
        }
        let d: u64 = (c as u32 - '0' as u32) as u64;
        proof {
            assert(digits.take(i - first + 1).drop_last() =~= digits.take(i - first));
            assert(digits.take(i - first + 1).last() == c);
            lemma_digits_value_grows(digits, i - first + 1);
            assert(digits_value(digits.take(i - first + 1)) == acc * 10 + d);
        }
        let next = match acc.checked_mul(10) {
            None => {
                return None;
            },
            Some(m) => match m.checked_add(d) {
                None => {
                    return None;
                },
                Some(v) => v,
            },
        };
        acc = next;
        i = i + 1;
    }
    assert(digits.take(n - first) =~= digits);
    Some(acc)
}

} // verus!
