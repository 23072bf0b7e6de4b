use vstd::prelude::*;

use crate::platform::Platform;
use crate::text::occurs_at;

verus! {

/// The position of the first character of `s` that satisfies `p`, or the
/// length of `s` when none does.
pub open spec fn index_where(s: Seq<char>, p: spec_fn(char) -> bool) -> nat
    decreases s.len(),
{
    if s.len() == 0 || p(s[0]) {
        0
    } else {
        1 + index_where(s.subrange(1, s.len() as int), p)
    }
}

proof fn lemma_index_where(s: Seq<char>, p: spec_fn(char) -> bool, k: int)
    requires
        0 <= k <= s.len(),
        forall|j: int| 0 <= j < k ==> !p(#[trigger] s[j]),
        k < s.len() ==> p(s[k]),
    ensures
        index_where(s, p) == k,
    decreases k,
{
    if k > 0 {
        let t = s.subrange(1, s.len() as int);
        assert forall|j: int| 0 <= j < k - 1 implies !p(#[trigger] t[j]) by {
            assert(t[j] == s[j + 1]);
        }
        if k - 1 < t.len() {
            assert(t[k - 1] == s[k]);
        }
        lemma_index_where(t, p, k - 1);
    }
}

/// The test for one given character.
pub open spec fn is_char(c: char) -> spec_fn(char) -> bool {
    |x: char| x == c
}

/// The pieces of `s` between occurrences of `c`; at least one.
pub open spec fn split_on(s: Seq<char>, c: char) -> Seq<Seq<char>>
    decreases s.len(),
{
    let k = index_where(s, is_char(c));
    if k >= s.len() {
        seq![s]
    } else {
        seq![s.subrange(0, k as int)] + split_on(s.subrange(k as int + 1, s.len() as int), c)
    }
}

/// Splits `s` at every occurrence of `c`.
pub fn split_char(s: &str, c: char) -> (r: Vec<String>)
    ensures
        r.deep_view() == split_on(s@, c),
        r@.len() > 0,
{
    let n = s.unicode_len();
    let mut out: Vec<String> = Vec::new();
    let mut start: usize = 0;
    let mut i: usize = 0;
    let ghost p = is_char(c);
    assert(s@.subrange(0, n as int) =~= s@);
    while i < n
        invariant
            start <= i <= n,
            n == s@.len(),
            p == is_char(c),
            forall|j: int| start <= j < i ==> s@[j] != c,
            out.deep_view() + split_on(s@.subrange(start as int, n as int), c) == split_on(s@, c),
        decreases n - i,
    {
        if s.get_char(i) == c {
            let ghost rest = s@.subrange(start as int, n as int);
            proof {
                lemma_index_where(rest, p, i - start);
                assert(rest.subrange(0, i - start) =~= s@.subrange(start as int, i as int));
                assert(rest.subrange(i - start + 1, rest.len() as int) =~= s@.subrange(
                    i + 1,
                    n as int,
                ));
                assert(split_on(rest, c) == seq![rest.subrange(0, i - start)] + split_on(
                    rest.subrange(i - start + 1, rest.len() as int),
                    c,
                ));
            }
            let ghost before = out.deep_view();
            let piece = s.substring_char(start, i);
            out.push(String::from_str(piece));
            assert(out.deep_view() =~= before.push(piece@));
            assert(before + split_on(rest, c) =~= out.deep_view() + split_on(
                s@.subrange(i + 1, n as int),
                c,
            ));
            start = i + 1;
        }
        i = i + 1;
    }
    let ghost rest = s@.subrange(start as int, n as int);
    proof {
        lemma_index_where(rest, p, n - start);
        assert(split_on(rest, c) == seq![rest]);
    }
    let ghost before = out.deep_view();
    let piece = s.substring_char(start, n);
    out.push(String::from_str(piece));
    assert(out.deep_view() =~= before.push(piece@));
    assert(before + split_on(rest, c) =~= out.deep_view());
    out
}

pub open spec fn is_digit(c: char) -> bool {
    48 <= c as u32 <= 57
}

/// The value of a string of decimal digits.
pub open spec fn digits_value(s: Seq<char>) -> nat
    decreases s.len(),
{
    if s.len() == 0 {
        0
    } else {
        digits_value(s.drop_last()) * 10 + (s.last() as u32 - 48) as nat
    }
}

/// `s` without a leading `+`.
pub open spec fn unsigned_digits(s: Seq<char>) -> Seq<char> {
    if s.len() > 0 && s[0] == '+' {
        s.subrange(1, s.len() as int)
    } else {
        s
    }
}

pub open spec fn all_digits(d: Seq<char>) -> bool {
    forall|i: int| 0 <= i < d.len() ==> is_digit(#[trigger] d[i])
}

/// A `u32` written in decimal: an optional `+`, then one or more digits,
/// of a value that fits.
pub open spec fn parse_u32(s: Seq<char>) -> Option<u32> {
    let d = unsigned_digits(s);
    if d.len() > 0 && all_digits(d) && digits_value(d) <= u32::MAX {
        Some(digits_value(d) as u32)
    } else {
        None
    }
}

/// Reads a `u32` written in decimal.
pub fn parse_decimal(s: &str) -> (r: Option<u32>)
    ensures
        r == parse_u32(s@),
{
    let n = s.unicode_len();
    let from: usize = if n > 0 && s.get_char(0) == '+' {
        1
    } else {
        0
    };
    let ghost d = unsigned_digits(s@);
    assert(d =~= s@.subrange(from as int, n as int));
    if from == n {
        return None;
    }
    let mut acc: u64 = 0;
    let mut big = false;
    let mut i: usize = from;
    while i < n
        invariant
            from <= i <= n,
            n == s@.len(),
            d == s@.subrange(from as int, n as int),
            d == unsigned_digits(s@),
            forall|j: int| from <= j < i ==> is_digit(#[trigger] s@[j]),
            big ==> digits_value(s@.subrange(from as int, i as int)) > u32::MAX,
            !big ==> acc == digits_value(s@.subrange(from as int, i as int)),
            !big ==> acc <= u32::MAX,
        decreases n - i,
    {
        let c = s.get_char(i);
        if !((c as u32) >= 48 && (c as u32) <= 57) {
            assert(d[i - from] == c);
            assert(!is_digit(d[i - from]));
            assert(!all_digits(d));
            return None;
        }
        let ghost prefix = s@.subrange(from as int, i + 1);
        assert(prefix.drop_last() =~= s@.subrange(from as int, i as int));
        if !big {
            acc = acc * 10 + ((c as u32) - 48) as u64;
            if acc > 4294967295 {
                big = true;
            }
        }
        i = i + 1;
    }
    assert(s@.subrange(from as int, n as int) =~= d);
    assert forall|k: int| 0 <= k < d.len() implies is_digit(#[trigger] d[k]) by {
        assert(d[k] == s@[from + k]);
    }
    assert(all_digits(d));
    if big {
        None
    } else {
        Some(acc as u32)
    }
}

/// A `WxH` size: exactly one `x` between two decimal numbers.
pub open spec fn size_of_token(w: Seq<char>) -> Option<(u32, u32)> {
    let parts = split_on(w, 'x');
    if parts.len() == 2 {
        match (parse_u32(parts[0]), parse_u32(parts[1])) {
            (Some(a), Some(b)) => Some((a, b)),
            _ => None,
        }
    } else {
        None
    }
}

/// Reads a `WxH` size.
pub fn parse_size(w: &str) -> (r: Option<(u32, u32)>)
    ensures
        r == size_of_token(w@),
{
    let parts = split_char(w, 'x');
    if parts.len() == 2 {
        assert(parts.deep_view()[0] == parts@[0]@);
        assert(parts.deep_view()[1] == parts@[1]@);
        match (parse_decimal(parts[0].as_str()), parse_decimal(parts[1].as_str())) {
            (Some(a), Some(b)) => Some((a, b)),
            _ => None,
        }
    } else {
        None
    }
}

/// A Unicode white-space character.
pub open spec fn is_ws(c: char) -> bool {
    let n = c as u32;
    (9 <= n <= 13) || n == 32 || n == 0x85 || n == 0xA0 || n == 0x1680 || (0x2000 <= n <= 0x200A)
        || n == 0x2028 || n == 0x2029 || n == 0x202F || n == 0x205F || n == 0x3000
}

pub open spec fn ws() -> spec_fn(char) -> bool {
    |x: char| is_ws(x)
}

fn is_ws_char(c: char) -> (r: bool)
    ensures
        r == is_ws(c),
{
    let n = c as u32;
    (9 <= n && n <= 13) || n == 32 || n == 0x85 || n == 0xA0 || n == 0x1680 || (0x2000 <= n && n
        <= 0x200A) || n == 0x2028 || n == 0x2029 || n == 0x202F || n == 0x205F || n == 0x3000
}

/// A line without the carriage return of a `\r\n` ending.
pub open spec fn strip_cr(l: Seq<char>) -> Seq<char> {
    if l.len() > 0 && l.last() == '\r' {
        l.drop_last()
    } else {
        l
    }
}

/// The lines of `s`: split at `\n` or `\r\n`, with no empty line after a
/// final line ending.
pub open spec fn lines(s: Seq<char>) -> Seq<Seq<char>>
    decreases s.len(),
{
    if s.len() == 0 {
        seq![]
    } else {
        let k = index_where(s, is_char('\n'));
        if k >= s.len() {
            seq![s]
        } else {
            seq![strip_cr(s.subrange(0, k as int))] + lines(s.subrange(k as int + 1, s.len() as int))
        }
    }
}

/// Splits `s` into its lines.
pub fn split_lines(s: &str) -> (r: Vec<String>)
    ensures
        r.deep_view() == lines(s@),
{
    let n = s.unicode_len();
    let mut out: Vec<String> = Vec::new();
    let mut start: usize = 0;
    let mut i: usize = 0;
    let ghost p = is_char('\n');
    assert(s@.subrange(0, n as int) =~= s@);
    while i < n
        invariant
            start <= i <= n,
            n == s@.len(),
            p == is_char('\n'),
            forall|j: int| start <= j < i ==> s@[j] != '\n',
            out.deep_view() + lines(s@.subrange(start as int, n as int)) == lines(s@),
        decreases n - i,
    {
        if s.get_char(i) == '\n' {
            let ghost rest = s@.subrange(start as int, n as int);
            proof {
                lemma_index_where(rest, p, i - start);
                assert(rest.subrange(i - start + 1, rest.len() as int) =~= s@.subrange(
                    i + 1,
                    n as int,
                ));
                assert(lines(rest) == seq![strip_cr(rest.subrange(0, i - start))] + lines(
                    rest.subrange(i - start + 1, rest.len() as int),
                ));
            }
            let end: usize = if i > start && s.get_char(i - 1) == '\r' {
                i - 1
            } else {
                i
            };
            let ghost before = out.deep_view();
            let piece = s.substring_char(start, end);
            assert(piece@ =~= strip_cr(rest.subrange(0, i - start)));
            out.push(String::from_str(piece));
            assert(out.deep_view() =~= before.push(piece@));
            assert(before + lines(rest) =~= out.deep_view() + lines(
                s@.subrange(i + 1, n as int),
            ));
            start = i + 1;
        }
        i = i + 1;
    }
    let ghost rest = s@.subrange(start as int, n as int);
    if start < n {
        proof {
            lemma_index_where(rest, p, n - start);
            assert(lines(rest) == seq![rest]);
        }
        let ghost before = out.deep_view();
        let piece = s.substring_char(start, n);
        out.push(String::from_str(piece));
        assert(out.deep_view() =~= before.push(piece@));
        assert(before + lines(rest) =~= out.deep_view());
    } else {
        assert(out.deep_view() + lines(rest) =~= out.deep_view());
    }
    out
}

/// The maximal runs of non-white-space characters of `s`, in order.
pub open spec fn words(s: Seq<char>) -> Seq<Seq<char>>
    decreases s.len(),
{
    if s.len() == 0 {
        seq![]
    } else if is_ws(s[0]) {
        words(s.subrange(1, s.len() as int))
    } else {
        let k = 1 + index_where(s.subrange(1, s.len() as int), ws());
        if k >= s.len() {
            seq![s]
        } else {
            seq![s.subrange(0, k as int)] + words(s.subrange(k as int, s.len() as int))
        }
    }
}

proof fn lemma_word_end(s: Seq<char>, start: int, end: int)
    requires
        0 <= start < end <= s.len(),
        forall|j: int| start <= j < end ==> !is_ws(#[trigger] s[j]),
        end < s.len() ==> is_ws(s[end]),
    ensures
        ({
            let rest = s.subrange(start, s.len() as int);
            1 + index_where(rest.subrange(1, rest.len() as int), ws()) == end - start
        }),
{
    let rest = s.subrange(start, s.len() as int);
    let t = rest.subrange(1, rest.len() as int);
    assert forall|j: int| 0 <= j < end - start - 1 implies !ws()(#[trigger] t[j]) by {
        assert(t[j] == s[start + 1 + j]);
    }
    if end - start - 1 < t.len() {
        assert(t[end - start - 1] == s[end]);
    }
    lemma_index_where(t, ws(), end - start - 1);
}

/// Splits `s` into its white-space separated words.
pub fn split_words(s: &str) -> (r: Vec<String>)
    ensures
        r.deep_view() == words(s@),
{
    let n = s.unicode_len();
    let mut out: Vec<String> = Vec::new();
    let mut start: usize = 0;
    let mut in_word = false;
    let mut i: usize = 0;
    let ghost p = ws();
    assert(s@.subrange(0, n as int) =~= s@);
    while i < n
        invariant
            start <= i <= n,
            n == s@.len(),
            p == ws(),
            !in_word ==> start == i,
            in_word ==> start < i,
            forall|j: int| start <= j < i ==> !is_ws(#[trigger] s@[j]),
            out.deep_view() + words(s@.subrange(start as int, n as int)) == words(s@),
        decreases n - i,
    {
        let c = s.get_char(i);
        let ghost rest = s@.subrange(start as int, n as int);
        let ghost after = s@.subrange(i + 1, n as int);
        if is_ws_char(c) {
            let ghost at_i = s@.subrange(i as int, n as int);
            assert(at_i.subrange(1, at_i.len() as int) =~= after);
            assert(words(at_i) == words(after));
            if in_word {
                proof {
                    lemma_word_end(s@, start as int, i as int);
                    assert(rest.subrange(i - start, rest.len() as int) =~= at_i);
                    assert(words(rest) == seq![rest.subrange(0, i - start)] + words(at_i));
                }
                let ghost before = out.deep_view();
                let piece = s.substring_char(start, i);
                assert(piece@ =~= rest.subrange(0, i - start));
                out.push(String::from_str(piece));
                assert(out.deep_view() =~= before.push(piece@));
                assert(before + words(rest) =~= out.deep_view() + words(after));
                in_word = false;
            }
            start = i + 1;
        } else {
            in_word = true;
        }
        i = i + 1;
    }
    let ghost rest = s@.subrange(start as int, n as int);
    if in_word {
        proof {
            lemma_word_end(s@, start as int, n as int);
            assert(words(rest) == seq![rest]);
        }
        let ghost before = out.deep_view();
        let piece = s.substring_char(start, n);
        out.push(String::from_str(piece));
        assert(out.deep_view() =~= before.push(piece@));
        assert(before + words(rest) =~= out.deep_view());
    } else {
        assert(out.deep_view() + words(rest) =~= out.deep_view());
    }
    out
}

/// `s` without its leading white space.
pub open spec fn trim_start(s: Seq<char>) -> Seq<char>
    decreases s.len(),
{
    if s.len() > 0 && is_ws(s[0]) {
        trim_start(s.subrange(1, s.len() as int))
    } else {
        s
    }
}

/// `s` without its trailing white space.
pub open spec fn trim_end(s: Seq<char>) -> Seq<char>
    decreases s.len(),
{
    if s.len() > 0 && is_ws(s.last()) {
        trim_end(s.drop_last())
    } else {
        s
    }
}

/// `s` without leading or trailing white space.
pub open spec fn trim(s: Seq<char>) -> Seq<char> {
    trim_end(trim_start(s))
}

proof fn lemma_trim_start(s: Seq<char>, a: int)
    requires
        0 <= a <= s.len(),
        forall|j: int| 0 <= j < a ==> is_ws(#[trigger] s[j]),
        a < s.len() ==> !is_ws(s[a]),
    ensures
        trim_start(s) == s.subrange(a, s.len() as int),
    decreases a,
{
    if a > 0 {
        let t = s.subrange(1, s.len() as int);
        assert forall|j: int| 0 <= j < a - 1 implies is_ws(#[trigger] t[j]) by {
            assert(t[j] == s[j + 1]);
        }
        if a - 1 < t.len() {
            assert(t[a - 1] == s[a]);
        }
        lemma_trim_start(t, a - 1);
        assert(t.subrange(a - 1, t.len() as int) =~= s.subrange(a, s.len() as int));
    } else {
        assert(s.subrange(0, s.len() as int) =~= s);
    }
}

proof fn lemma_trim_end(s: Seq<char>, b: int)
    requires
        0 <= b <= s.len(),
        forall|j: int| b <= j < s.len() ==> is_ws(#[trigger] s[j]),
        b > 0 ==> !is_ws(s[b - 1]),
    ensures
        trim_end(s) == s.subrange(0, b),
    decreases s.len() - b,
{
    if b < s.len() {
        let t = s.drop_last();
        assert forall|j: int| b <= j < t.len() implies is_ws(#[trigger] t[j]) by {
            assert(t[j] == s[j]);
        }
        if b > 0 {
            assert(t[b - 1] == s[b - 1]);
        }
        lemma_trim_end(t, b);
        assert(t.subrange(0, b) =~= s.subrange(0, b));
    } else {
        assert(s.subrange(0, s.len() as int) =~= s);
    }
}

/// Removes leading and trailing white space.
pub fn trim_text(s: &str) -> (r: String)
    ensures
        r@ == trim(s@),
{
    let n = s.unicode_len();
    let mut a: usize = 0;
    while a < n && is_ws_char(s.get_char(a))
        invariant
            a <= n,
            n == s@.len(),
            forall|j: int| 0 <= j < a ==> is_ws(#[trigger] s@[j]),
        decreases n - a,
    {
        a = a + 1;
    }
    proof {
        lemma_trim_start(s@, a as int);
    }
    let mut b: usize = n;
    while b > a && is_ws_char(s.get_char(b - 1))
        invariant
            a <= b <= n,
            n == s@.len(),
            forall|j: int| b <= j < n ==> is_ws(#[trigger] s@[j]),
        decreases b,
    {
        b = b - 1;
    }
    let ghost t = s@.subrange(a as int, n as int);
    proof {
        assert forall|j: int| b - a <= j < t.len() implies is_ws(#[trigger] t[j]) by {
            assert(t[j] == s@[a + j]);
        }
        if b > a {
            assert(t[b - a - 1] == s@[b - 1]);
        }
        lemma_trim_end(t, b - a);
    }
    let r = s.substring_char(a, b);
    assert(r@ =~= t.subrange(0, b - a));
    String::from_str(r)
}

pub open spec fn starts_with(t: Seq<char>, p: Seq<char>) -> bool {
    p.len() <= t.len() && t.subrange(0, p.len() as int) == p
}

pub open spec fn contains_seq(t: Seq<char>, p: Seq<char>) -> bool {
    exists|i: int| 0 <= i && i + p.len() <= t.len() && #[trigger] t.subrange(i, i + p.len()) == p
}

pub open spec fn contains_char(t: Seq<char>, c: char) -> bool {
    exists|i: int| 0 <= i < t.len() && #[trigger] t[i] == c
}

fn starts_with_text(t: &str, p: &str) -> (r: bool)
    ensures
        r == starts_with(t@, p@),
{
    let n = t.unicode_len();
    let m = p.unicode_len();
    if m <= n {
        occurs_at(t, 0, p, m)
    } else {
        false
    }
}

fn contains_text(t: &str, p: &str) -> (r: bool)
    ensures
        r == contains_seq(t@, p@),
{
    let n = t.unicode_len();
    let m = p.unicode_len();
    if m > n {
        return false;
    }
    if m == 0 {
        assert(t@.subrange(0, (0 as int) + p@.len()) =~= p@);
        return true;
    }
    let mut i: usize = 0;
    while i <= n - m
        invariant
            n == t@.len(),
            m == p@.len(),
            0 < m <= n,
            i <= n - m + 1,
            forall|k: int| 0 <= k < i ==> #[trigger] t@.subrange(k, k + m) != p@,
        decreases n - m + 1 - i,
    {
        if occurs_at(t, i, p, m) {
            return true;
        }
        i = i + 1;
    }
    false
}

fn contains_char_text(t: &str, c: char) -> (r: bool)
    ensures
        r == contains_char(t@, c),
{
    let n = t.unicode_len();
    let mut i: usize = 0;
    while i < n
        invariant
            n == t@.len(),
            i <= n,
            forall|k: int| 0 <= k < i ==> #[trigger] t@[k] != c,
        decreases n - i,
    {
        if t.get_char(i) == c {
            return true;
        }
        i = i + 1;
    }
    false
}

/// The first item for which `f` finds a size, and that size.
pub open spec fn first_found(
    items: Seq<Seq<char>>,
    f: spec_fn(Seq<char>) -> Option<(u32, u32)>,
) -> Option<(u32, u32)>
    decreases items.len(),
{
    if items.len() == 0 {
        None
    } else {
        match f(items[0]) {
            Some(v) => Some(v),
            None => first_found(items.subrange(1, items.len() as int), f),
        }
    }
}

/// The size on an `xdpyinfo` line `dimensions:    WxH pixels ...`.
pub open spec fn dims_of_line(line: Seq<char>) -> Option<(u32, u32)> {
    let t = trim(line);
    if starts_with(t, "dimensions:"@) && words(t).len() >= 2 {
        size_of_token(words(t)[1])
    } else {
        None
    }
}

pub open spec fn dims_rule() -> spec_fn(Seq<char>) -> Option<(u32, u32)> {
    |l: Seq<char>| dims_of_line(l)
}

/// The size in an `xrandr` word `WxH+X+Y`.
pub open spec fn xrandr_word(w: Seq<char>) -> Option<(u32, u32)> {
    if contains_char(w, 'x') && contains_char(w, '+') {
        size_of_token(split_on(w, '+')[0])
    } else {
        None
    }
}

pub open spec fn xrandr_word_rule() -> spec_fn(Seq<char>) -> Option<(u32, u32)> {
    |w: Seq<char>| xrandr_word(w)
}

/// The size on an `xrandr` line of a connected output with a position.
pub open spec fn xrandr_line(line: Seq<char>) -> Option<(u32, u32)> {
    if contains_seq(line, " connected"@) && contains_char(line, '+') {
        first_found(words(line), xrandr_word_rule())
    } else {
        None
    }
}

pub open spec fn xrandr_line_rule() -> spec_fn(Seq<char>) -> Option<(u32, u32)> {
    |l: Seq<char>| xrandr_line(l)
}

fn line_dims(line: &str) -> (r: Option<(u32, u32)>)
    ensures
        r == dims_of_line(line@),
{
    let t = trim_text(line);
    if starts_with_text(t.as_str(), "dimensions:") {
        let ws = split_words(t.as_str());
        if ws.len() >= 2 {
            assert(ws.deep_view()[1] == ws@[1]@);
            return parse_size(ws[1].as_str());
        }
    }
    None
}

fn word_size(w: &str) -> (r: Option<(u32, u32)>)
    ensures
        r == xrandr_word(w@),
{
    if contains_char_text(w, 'x') && contains_char_text(w, '+') {
        let parts = split_char(w, '+');
        assert(parts.deep_view()[0] == parts@[0]@);
        parse_size(parts[0].as_str())
    } else {
        None
    }
}

fn line_xrandr(line: &str) -> (r: Option<(u32, u32)>)
    ensures
        r == xrandr_line(line@),
{
    if !(contains_text(line, " connected") && contains_char_text(line, '+')) {
        return None;
    }
    let ws = split_words(line);
    let ghost items = ws.deep_view();
    let mut i: usize = 0;
    assert(items.subrange(0, items.len() as int) =~= items);
    while i < ws.len()
        invariant
            i <= ws.len(),
            items == ws.deep_view(),
            items == words(line@),
            contains_seq(line@, " connected"@),
            contains_char(line@, '+'),
            first_found(items.subrange(i as int, items.len() as int), xrandr_word_rule())
                == first_found(items, xrandr_word_rule()),
        decreases ws.len() - i,
    {
        let r = word_size(ws[i].as_str());
        let ghost rest = items.subrange(i as int, items.len() as int);
        assert(rest[0] == ws@[i as int]@);
        assert(rest.subrange(1, rest.len() as int) =~= items.subrange(i + 1, items.len() as int));
        if r.is_some() {
            return r;
        }
        i = i + 1;
    }
    None
}

/// The screen size that `xdpyinfo` reports: the first `dimensions:` line
/// that holds a readable size.
pub open spec fn xdpyinfo_size(text: Seq<char>) -> Option<(u32, u32)> {
    first_found(lines(text), dims_rule())
}

/// The screen size that `xrandr --current` reports: the first `WxH+X+Y`
/// word on a line of a connected output.
pub open spec fn xrandr_size(text: Seq<char>) -> Option<(u32, u32)> {
    first_found(lines(text), xrandr_line_rule())
}

/// Reads the screen size from the output of `xdpyinfo`.
pub fn size_from_xdpyinfo(text: &str) -> (r: Option<(u32, u32)>)
    ensures
        r == xdpyinfo_size(text@),
{
    let ls = split_lines(text);
    let ghost items = ls.deep_view();
    let mut i: usize = 0;
    assert(items.subrange(0, items.len() as int) =~= items);
    while i < ls.len()
        invariant
            i <= ls.len(),
            items == ls.deep_view(),
            items == lines(text@),
            first_found(items.subrange(i as int, items.len() as int), dims_rule())
                == first_found(items, dims_rule()),
        decreases ls.len() - i,
    {
        let r = line_dims(ls[i].as_str());
        let ghost rest = items.subrange(i as int, items.len() as int);
        assert(rest[0] == ls@[i as int]@);
        assert(rest.subrange(1, rest.len() as int) =~= items.subrange(i + 1, items.len() as int));
        if r.is_some() {
            return r;
        }
        i = i + 1;
    }
    None
}

/// Reads the screen size from the output of `xrandr --current`.
pub fn size_from_xrandr(text: &str) -> (r: Option<(u32, u32)>)
    ensures
        r == xrandr_size(text@),
{
    let ls = split_lines(text);
    let ghost items = ls.deep_view();
    let mut i: usize = 0;
    assert(items.subrange(0, items.len() as int) =~= items);
    while i < ls.len()
        invariant
            i <= ls.len(),
            items == ls.deep_view(),
            items == lines(text@),
            first_found(items.subrange(i as int, items.len() as int), xrandr_line_rule())
                == first_found(items, xrandr_line_rule()),
        decreases ls.len() - i,
    {
        let r = line_xrandr(ls[i].as_str());
        let ghost rest = items.subrange(i as int, items.len() as int);
        assert(rest[0] == ls@[i as int]@);
        assert(rest.subrange(1, rest.len() as int) =~= items.subrange(i + 1, items.len() as int));
        if r.is_some() {
            return r;
        }
        i = i + 1;
    }
    None
}

/// The size reported when the display cannot be queried.
pub const FALLBACK_WIDTH: u32 = 1920;

pub const FALLBACK_HEIGHT: u32 = 1080;

pub open spec fn text_of(t: Option<&str>) -> Option<Seq<char>> {
    match t {
        Some(s) => Some(s@),
        None => None,
    }
}

/// The primary screen's size: on Linux, what `xdpyinfo` reports, else what
/// `xrandr` reports, else the fallback; elsewhere the fallback, as the
/// capture drivers there take the whole desktop by themselves.
pub open spec fn screen_size(
    platform: Platform,
    xdpyinfo: Option<Seq<char>>,
    xrandr: Option<Seq<char>>,
) -> (u32, u32) {
    let first = match xdpyinfo {
        Some(t) => xdpyinfo_size(t),
        None => None,
    };
    let second = match xrandr {
        Some(t) => xrandr_size(t),
        None => None,
    };
    if platform == Platform::Linux && first is Some {
        first->Some_0
    } else if platform == Platform::Linux && second is Some {
        second->Some_0
    } else {
        (FALLBACK_WIDTH, FALLBACK_HEIGHT)
    }
}

/// Decides the primary screen's size from the outputs of the display
/// query tools, each `None` where the tool could not be run.
pub fn detect_screen_size(
    platform: Platform,
    xdpyinfo_output: Option<&str>,
    xrandr_output: Option<&str>,
) -> (r: (u32, u32))
    ensures
        r == screen_size(platform, text_of(xdpyinfo_output), text_of(xrandr_output)),
{
    if platform != Platform::Linux {
        return (FALLBACK_WIDTH, FALLBACK_HEIGHT);
    }
    if let Some(t) = xdpyinfo_output {
        if let Some(v) = size_from_xdpyinfo(t) {
            return v;
        }
    }
    if let Some(t) = xrandr_output {
        if let Some(v) = size_from_xrandr(t) {
            return v;
        }
    }
    (FALLBACK_WIDTH, FALLBACK_HEIGHT)
}

} // verus!
