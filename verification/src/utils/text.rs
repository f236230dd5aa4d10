//! Plain text helpers over Unicode scalar values.
use vstd::prelude::*;

verus! {

/// `String::push` appends the given character to the end of the string.
pub assume_specification[ String::push ](s: &mut String, c: char)
    ensures
        final(s)@ == old(s)@.push(c),
;

/// `str::to_lowercase` maps a text to its Unicode lowercase form.
pub uninterp spec fn lowercase(s: Seq<char>) -> Seq<char>;

/// `format!("{:?}", text)` writes a text as a quoted, escaped literal.
pub uninterp spec fn quoted(s: Seq<char>) -> Seq<char>;

pub open spec fn is_ascii_char(c: char) -> bool {
    c as u32 <= 127
}

pub open spec fn ascii_lower(c: char) -> char {
    if 'A' <= c && c <= 'Z' {
        (c as u32 + 32) as char
    } else {
        c
    }
}

/// Calls `str::to_lowercase`. The Unicode tables behind it are not restated:
/// the result has a name. Letters outside ASCII never matter to a text that is
/// all ASCII, which is lowered letter by letter.
#[verifier::external_body]
pub(crate) fn to_lowercase(s: &str) -> (r: String)
    ensures
        r@ == lowercase(s@),
        (forall|i: int| 0 <= i < s@.len() ==> is_ascii_char(#[trigger] s@[i])) ==> r@ == s@.map_values(
            |c: char| ascii_lower(c),
        ),
{
    s.to_lowercase()
}

/// Whether a character stands for itself in the `Debug` form of a text: it is printable
/// ASCII and neither a quote nor a backslash.
pub open spec fn is_plain_char(c: char) -> bool {
    ' ' <= c && c <= '~' && c != '"' && c != '\\'
}

/// Calls `format!` with the `Debug` form of a text: the text between quotes, with what is
/// not plain escaped. How it is escaped is not restated: the result has a name.
#[verifier::external_body]
pub(crate) fn quote(s: &str) -> (r: String)
    ensures
        r@ == quoted(s@),
        (forall|i: int| 0 <= i < s@.len() ==> is_plain_char(#[trigger] s@[i])) ==> r@ == seq!['"']
            + s@ + seq!['"'],
{
    format!("{:?}", s)
}

/// The characters of a text, in order.
pub fn to_chars(s: &str) -> (r: Vec<char>)
    ensures
        r@ == s@,
{
    let mut out: Vec<char> = Vec::new();
    for c in it: s.chars()
        invariant
            out@ == s@.take(it.index() as int),
            it.seq() == s@,
    {
        proof {
            assert(s@.take(it.index() + 1) == s@.take(it.index() as int).push(c));
        }
        out.push(c);
    }
    assert(s@.take(s@.len() as int) == s@);
    out
}

/// The text made of the given characters.
pub fn from_chars(v: &[char]) -> (r: String)
    ensures
        r@ == v@,
{
    let mut s = String::new();
    let mut i: usize = 0;
    while i < v.len()
        invariant
            i <= v.len(),
            s@ == v@.take(i as int),
        decreases v.len() - i,
    {
        proof {
            assert(v@.take(i + 1) == v@.take(i as int).push(v@[i as int]));
        }
        s.push(v[i]);
        i = i + 1;
    }
    assert(v@.take(v@.len() as int) == v@);
    s
}

/// Whether a character has the Unicode property `White_Space`.
pub open spec fn white_space(c: char) -> bool {
    let n = c as u32;
    ||| 0x9 <= n <= 0xd
    ||| n == 0x20
    ||| n == 0x85
    ||| n == 0xa0
    ||| n == 0x1680
    ||| 0x2000 <= n <= 0x200a
    ||| n == 0x2028
    ||| n == 0x2029
    ||| n == 0x202f
    ||| n == 0x205f
    ||| n == 0x3000
}

pub fn is_white_space(c: char) -> (r: bool)
    ensures
        r == white_space(c),
{
    let n: u32 = c as u32;
    (0x9 <= n && n <= 0xd) || n == 0x20 || n == 0x85 || n == 0xa0 || n == 0x1680 || (0x2000 <= n
        && n <= 0x200a) || n == 0x2028 || n == 0x2029 || n == 0x202f || n == 0x205f || n == 0x3000
}

/// A text without its leading white space.
pub open spec fn trim_start(s: Seq<char>) -> Seq<char>
    decreases s.len(),
{
    if s.len() > 0 && white_space(s[0]) {
        trim_start(s.drop_first())
    } else {
        s
    }
}

/// A text without its trailing white space.
pub open spec fn trim_end(s: Seq<char>) -> Seq<char>
    decreases s.len(),
{
    if s.len() > 0 && white_space(s.last()) {
        trim_end(s.drop_last())
    } else {
        s
    }
}

/// A text without white space at either end.
pub open spec fn trimmed(s: Seq<char>) -> Seq<char> {
    trim_end(trim_start(s))
}

fn trimmed_chars(v: &Vec<char>) -> (r: (usize, usize))
    ensures
        r.0 <= r.1 <= v@.len(),
        v@.subrange(r.0 as int, r.1 as int) == trimmed(v@),
{
    let mut from: usize = 0;
    assert(v@.skip(0) =~= v@);
    while from < v.len() && is_white_space(v[from])
        invariant
            from <= v.len(),
            trim_start(v@.skip(from as int)) == trim_start(v@),
        decreases v.len() - from,
    {
        proof {
            assert(v@.skip(from as int).drop_first() =~= v@.skip(from + 1));
        }
        from = from + 1;
    }
    let ghost rest = v@.skip(from as int);
    assert(trim_start(rest) == rest);
    let mut to: usize = v.len();
    assert(v@.subrange(from as int, to as int) =~= rest);
    while to > from && is_white_space(v[to - 1])
        invariant
            from <= to <= v.len(),
            trim_end(v@.subrange(from as int, to as int)) == trim_end(rest),
        decreases to,
    {
        proof {
            assert(v@.subrange(from as int, to as int).drop_last() =~= v@.subrange(
                from as int,
                to - 1,
            ));
        }
        to = to - 1;
    }
    (from, to)
}

/// Removes white space at both ends.
pub fn trim(s: &str) -> (r: String)
    ensures
        r@ == trimmed(s@),
{
    let v = to_chars(s);
    let (from, to) = trimmed_chars(&v);
    from_chars(vstd::slice::slice_subrange(v.as_slice(), from, to))
}

/// How many characters come before the first white space.
pub open spec fn word_len(s: Seq<char>) -> nat
    decreases s.len(),
{
    if s.len() == 0 || white_space(s[0]) {
        0
    } else {
        1 + word_len(s.drop_first())
    }
}

pub proof fn word_len_bounds(s: Seq<char>)
    ensures
        word_len(s) <= s.len(),
        s.len() > 0 && !white_space(s[0]) ==> word_len(s) > 0,
    decreases s.len(),
{
    if s.len() > 0 && !white_space(s[0]) {
        word_len_bounds(s.drop_first());
    }
}

pub proof fn trim_start_bounds(s: Seq<char>)
    ensures
        trim_start(s).len() <= s.len(),
        trim_start(s).len() > 0 ==> !white_space(trim_start(s)[0]),
    decreases s.len(),
{
    if s.len() > 0 && white_space(s[0]) {
        trim_start_bounds(s.drop_first());
    }
}

/// The words of a text, split at any run of white space.
pub open spec fn words(s: Seq<char>) -> Seq<Seq<char>>
    decreases s.len(),
    via words_decreases
{
    let t = trim_start(s);
    if t.len() == 0 {
        Seq::empty()
    } else {
        seq![t.take(word_len(t) as int)] + words(t.skip(word_len(t) as int))
    }
}

#[via_fn]
proof fn words_decreases(s: Seq<char>) {
    trim_start_bounds(s);
    word_len_bounds(trim_start(s));
}

/// The texts of a list.
pub open spec fn texts(v: Seq<String>) -> Seq<Seq<char>> {
    v.map_values(|s: String| s@)
}

/// Splits a text into words.
pub fn split_words(s: &str) -> (r: Vec<String>)
    ensures
        texts(r@) == words(s@),
{
    let v = to_chars(s);
    let mut out: Vec<String> = Vec::new();
    let mut at: usize = 0;
    assert(v@.skip(0) =~= v@);
    assert(texts(out@) + words(v@) =~= words(v@));
    while at < v.len()
        invariant
            at <= v.len(),
            texts(out@) + words(v@.skip(at as int)) == words(v@),
        decreases v.len() - at,
    {
        let ghost rest = v@.skip(at as int);
        if is_white_space(v[at]) {
            proof {
                assert(rest.drop_first() =~= v@.skip(at + 1));
                assert(trim_start(rest) == trim_start(v@.skip(at + 1)));
            }
            at = at + 1;
        } else {
            let start: usize = at;
            while at < v.len() && !is_white_space(v[at])
                invariant
                    start <= at <= v.len(),
                    rest == v@.skip(start as int),
                    word_len(rest) == at - start + word_len(v@.skip(at as int)),
                decreases v.len() - at,
            {
                proof {
                    assert(v@.skip(at as int).drop_first() =~= v@.skip(at + 1));
                }
                at = at + 1;
            }
            proof {
                word_len_bounds(rest);
                assert(word_len(v@.skip(at as int)) == 0);
                assert(trim_start(rest) == rest);
                assert(rest.take(at - start) =~= v@.subrange(start as int, at as int));
                assert(rest.skip(at - start) =~= v@.skip(at as int));
            }
            let ghost before = texts(out@);
            out.push(from_chars(vstd::slice::slice_subrange(v.as_slice(), start, at)));
            proof {
                let word = v@.subrange(start as int, at as int);
                assert(texts(out@) =~= before.push(word));
                assert(before + (seq![word] + words(v@.skip(at as int))) =~= texts(out@) + words(
                    v@.skip(at as int),
                ));
            }
        }
    }
    assert(words(v@.skip(at as int)) =~= Seq::empty());
    assert(texts(out@) + Seq::<Seq<char>>::empty() =~= texts(out@));
    out
}

/// Whether one text begins with another.
pub open spec fn has_prefix(s: Seq<char>, prefix: Seq<char>) -> bool {
    prefix.len() <= s.len() && s.take(prefix.len() as int) == prefix
}

pub fn starts_with(s: &str, prefix: &str) -> (r: bool)
    ensures
        r == has_prefix(s@, prefix@),
{
    let a = to_chars(s);
    let b = to_chars(prefix);
    if b.len() > a.len() {
        return false;
    }
    let mut i: usize = 0;
    while i < b.len()
        invariant
            i <= b.len() <= a.len(),
            a@ == s@,
            b@ == prefix@,
            forall|k: int| 0 <= k < i ==> a@[k] == b@[k],
        decreases b.len() - i,
    {
        if a[i] != b[i] {
            assert(s@.take(prefix@.len() as int)[i as int] != prefix@[i as int]);
            return false;
        }
        i = i + 1;
    }
    assert(s@.take(prefix@.len() as int) =~= prefix@);
    true
}

/// A text with every occurrence of a part, from the left, replaced.
pub open spec fn replaced(s: Seq<char>, part: Seq<char>, by: Seq<char>) -> Seq<char>
    decreases s.len(),
{
    if part.len() == 0 || s.len() < part.len() {
        s
    } else if has_prefix(s, part) {
        by + replaced(s.skip(part.len() as int), part, by)
    } else {
        seq![s[0]] + replaced(s.drop_first(), part, by)
    }
}

/// Replaces every occurrence of a part, from the left.
pub fn replace(s: &str, part: &str, by: &str) -> (r: String)
    requires
        part@.len() > 0,
    ensures
        r@ == replaced(s@, part@, by@),
{
    let v = to_chars(s);
    let w = to_chars(part);
    let b = to_chars(by);
    let mut out: Vec<char> = Vec::new();
    let mut i: usize = 0;
    let total: usize = v.len();
    let width: usize = w.len();
    assert(v@.skip(0) =~= v@);
    assert(out@ + replaced(v@.skip(0), w@, b@) =~= replaced(v@, w@, b@));
    while i < total
        invariant
            i <= total == v@.len(),
            width == w@.len() > 0,
            v@ == s@,
            w@ == part@,
            b@ == by@,
            out@ + replaced(v@.skip(i as int), w@, b@) == replaced(v@, w@, b@),
        decreases total - i,
    {
        let ghost rest = v@.skip(i as int);
        let mut j: usize = 0;
        while j < width && j < total - i && v[i + j] == w[j]
            invariant
                i < total == v@.len(),
                width == w@.len(),
                j <= width,
                j <= total - i,
                forall|k: int| 0 <= k < j ==> v@[i + k] == w@[k],
            decreases width - j,
        {
            j = j + 1;
        }
        let ghost before = out@;
        if j == width {
            proof {
                assert(rest.take(width as int) =~= w@);
                assert(has_prefix(rest, w@));
                assert(rest.skip(width as int) =~= v@.skip(i + width));
            }
            let mut k: usize = 0;
            assert(out@ =~= before + b@.take(0));
            while k < b.len()
                invariant
                    k <= b.len(),
                    out@ == before + b@.take(k as int),
                decreases b.len() - k,
            {
                out.push(b[k]);
                assert(out@ =~= before + b@.take(k + 1));
                k = k + 1;
            }
            proof {
                assert(b@.take(k as int) =~= b@);
                let tail = replaced(v@.skip(i + width), w@, b@);
                assert((before + b@) + tail =~= before + (b@ + tail));
            }
            i = i + width;
        } else {
            proof {
                if rest.len() >= width {
                    assert(rest[j as int] != w@[j as int]);
                    if has_prefix(rest, w@) {
                        assert(rest.take(width as int)[j as int] == w@[j as int]);
                    }
                }
                assert(rest.drop_first() =~= v@.skip(i + 1));
                if rest.len() < width {
                    assert(v@.skip(i + 1).len() < width);
                    assert(rest =~= seq![rest[0]] + v@.skip(i + 1));
                }
                let tail = replaced(v@.skip(i + 1), w@, b@);
                assert(before.push(rest[0]) + tail =~= before + (seq![rest[0]] + tail));
            }
            out.push(v[i]);
            i = i + 1;
        }
    }
    proof {
        assert(v@.skip(i as int) =~= Seq::empty());
        assert(out@ + Seq::<char>::empty() =~= out@);
    }
    from_chars(out.as_slice())
}

/// Whether a text ends with another one.
pub open spec fn has_suffix(s: Seq<char>, suffix: Seq<char>) -> bool {
    s.len() >= suffix.len() && s.skip(s.len() - suffix.len()) == suffix
}

/// Tells whether a text ends with another one.
pub fn ends_with(s: &str, suffix: &str) -> (r: bool)
    ensures
        r == has_suffix(s@, suffix@),
{
    let v = to_chars(s);
    let w = to_chars(suffix);
    if v.len() < w.len() {
        return false;
    }
    let total: usize = v.len();
    let from: usize = total - w.len();
    let mut i: usize = 0;
    while i < w.len()
        invariant
            i <= w.len(),
            total == v@.len(),
            from + w.len() == total,
            v@ == s@,
            w@ == suffix@,
            forall|k: int| 0 <= k < i ==> v@[from + k] == w@[k],
        decreases w.len() - i,
    {
        if v[from + i] != w[i] {
            assert(s@.skip(from as int)[i as int] != suffix@[i as int]);
            return false;
        }
        i = i + 1;
    }
    assert(s@.skip(from as int) =~= suffix@);
    true
}

/// Whether a text has another one in it.
pub open spec fn has_within(s: Seq<char>, part: Seq<char>) -> bool {
    exists|i: int| 0 <= i && i + part.len() <= s.len() && #[trigger] s.subrange(i, i + part.len()) == part
}

/// Tells whether a text has another one in it.
pub fn contains(s: &str, part: &str) -> (r: bool)
    ensures
        r == has_within(s@, part@),
{
    let v = to_chars(s);
    let w = to_chars(part);
    let total: usize = v.len();
    let width: usize = w.len();
    if width == 0 {
        assert(s@.subrange(0, 0 + part@.len() as int) =~= part@);
        return true;
    }
    let mut i: usize = 0;
    while i <= total && width <= total - i
        invariant
            0 < width,
            total == v@.len(),
            width == w@.len(),
            v@ == s@,
            w@ == part@,
            i <= total,
            forall|k: int| 0 <= k < i && k + width <= total ==> #[trigger] s@.subrange(k, k + width) != part@,
        decreases total + 1 - i,
    {
        let mut j: usize = 0;
        while j < width && v[i + j] == w[j]
            invariant
                total == v@.len(),
                width == w@.len(),
                i + width <= total,
                j <= width,
                forall|k: int| 0 <= k < j ==> v@[i + k] == w@[k],
            decreases width - j,
        {
            j = j + 1;
        }
        if j == width {
            assert(s@.subrange(i as int, i + width) =~= part@);
            return true;
        }
        assert(s@.subrange(i as int, i + width)[j as int] != part@[j as int]);
        i = i + 1;
    }
    false
}

/// Whether two texts are equal.
pub fn same_text(a: &str, b: &str) -> (r: bool)
    ensures
        r == (a@ == b@),
{
    let x = to_chars(a);
    let y = to_chars(b);
    if x.len() != y.len() {
        return false;
    }
    let mut i: usize = 0;
    while i < x.len()
        invariant
            i <= x.len() == y.len(),
            x@ == a@,
            y@ == b@,
            forall|k: int| 0 <= k < i ==> x@[k] == y@[k],
        decreases x.len() - i,
    {
        if x[i] != y[i] {
            return false;
        }
        i = i + 1;
    }
    assert(a@ =~= b@);
    true
}

/// The digit that stands for a number below ten.
pub open spec fn digit(n: nat) -> char {
    (48 + n) as char
}

pub open spec fn is_digit(c: char) -> bool {
    '0' <= c <= '9'
}

/// Whether a text is made of one or more digits.
pub open spec fn all_digits(s: Seq<char>) -> bool {
    s.len() > 0 && forall|i: int| 0 <= i < s.len() ==> is_digit(#[trigger] s[i])
}

/// A number in decimal, without leading zeros.
pub open spec fn decimal(n: nat) -> Seq<char>
    decreases n,
{
    if n < 10 {
        seq![digit(n)]
    } else {
        decimal(n / 10).push(digit(n % 10))
    }
}

/// A number in decimal, filled up with zeros to at least `width` digits.
pub open spec fn zero_padded(n: nat, width: nat) -> Seq<char> {
    let digits = decimal(n);
    if digits.len() < width {
        Seq::new((width - digits.len()) as nat, |i: int| '0') + digits
    } else {
        digits
    }
}

/// The number that a sequence of digits spells.
pub open spec fn digits_value(s: Seq<char>) -> nat
    decreases s.len(),
{
    if s.len() == 0 {
        0
    } else {
        10 * digits_value(s.drop_last()) + (s.last() as nat - 48) as nat
    }
}

/// The number that an unsigned text states: an optional `+`, then digits only.
pub open spec fn unsigned(s: Seq<char>) -> Option<nat> {
    if s.len() > 0 && s[0] == '+' && all_digits(s.drop_first()) {
        Some(digits_value(s.drop_first()))
    } else if all_digits(s) {
        Some(digits_value(s))
    } else {
        None
    }
}

/// The number that a signed text states: an optional sign, then digits only.
pub open spec fn signed(s: Seq<char>) -> Option<int> {
    if s.len() > 0 && s[0] == '-' {
        if all_digits(s.drop_first()) {
            Some(-(digits_value(s.drop_first()) as int))
        } else {
            None
        }
    } else {
        match unsigned(s) {
            Some(n) => Some(n as int),
            None => None,
        }
    }
}

proof fn digits_value_grows(s: Seq<char>, n: int)
    requires
        0 <= n <= s.len(),
        forall|i: int| 0 <= i < s.len() ==> is_digit(#[trigger] s[i]),
    ensures
        digits_value(s.take(n)) <= digits_value(s),
    decreases s.len(),
{
    if n < s.len() {
        digits_value_grows(s.drop_last(), n);
        assert(s.drop_last().take(n) =~= s.take(n));
    } else {
        assert(s.take(n) =~= s);
    }
}

fn parse_digits(v: &Vec<char>, from: usize, max: u64) -> (r: Option<u64>)
    requires
        from <= v@.len(),
    ensures
        ({
            let d = v@.skip(from as int);
            match r {
                Some(n) => all_digits(d) && digits_value(d) == n && n <= max,
                None => !all_digits(d) || digits_value(d) > max,
            }
        }),
{
    let ghost d = v@.skip(from as int);
    if from == v.len() {
        return None;
    }
    let mut i: usize = from;
    while i < v.len()
        invariant
            from <= i <= v.len(),
            d == v@.skip(from as int),
            forall|k: int| 0 <= k < i - from ==> is_digit(#[trigger] d[k]),
        decreases v.len() - i,
    {
        assert(d[i - from] == v@[i as int]);
        if !('0' <= v[i] && v[i] <= '9') {
            return None;
        }
        i = i + 1;
    }
    let mut value: u64 = 0;
    let mut k: usize = from;
    while k < v.len()
        invariant
            from <= k <= v.len(),
            d == v@.skip(from as int),
            forall|j: int| 0 <= j < d.len() ==> is_digit(#[trigger] d[j]),
            value == digits_value(d.take(k - from)),
            value <= max,
        decreases v.len() - k,
    {
        assert(d[k - from] == v@[k as int]);
        let n: u64 = (v[k] as u32 - 48) as u64;
        proof {
            assert(d.take(k - from + 1).drop_last() =~= d.take(k - from));
            digits_value_grows(d, k - from + 1);
        }
        let next: u64 = match value.checked_mul(10) {
            Some(m) => match m.checked_add(n) {
                Some(next) => next,
                None => return None,
            },
            None => return None,
        };
        if next > max {
            return None;
        }
        value = next;
        k = k + 1;
    }
    assert(d.take(d.len() as int) =~= d);
    Some(value)
}

/// Reads an unsigned number of at most `max`.
pub fn parse_unsigned(s: &str, max: u64) -> (r: Option<u64>)
    ensures
        match r {
            Some(n) => unsigned(s@) == Some(n as nat) && n <= max,
            None => unsigned(s@) is None || unsigned(s@)->0 > max,
        },
{
    let v = to_chars(s);
    if v.len() > 0 && v[0] == '+' {
        assert(v@.skip(1) =~= v@.drop_first());
        parse_digits(&v, 1, max)
    } else {
        assert(v@.skip(0) =~= v@);
        parse_digits(&v, 0, max)
    }
}

/// Reads a signed 32-bit number.
pub fn parse_i32(s: &str) -> (r: Option<i32>)
    ensures
        match r {
            Some(n) => signed(s@) == Some(n as int),
            None => signed(s@) is None || !(i32::MIN <= signed(s@)->0 <= i32::MAX),
        },
{
    let v = to_chars(s);
    if v.len() > 0 && v[0] == '-' {
        assert(v@.skip(1) =~= v@.drop_first());
        match parse_digits(&v, 1, 0x8000_0000) {
            Some(n) => Some((-(n as i64)) as i32),
            None => None,
        }
    } else {
        match parse_unsigned(s, 0x7fff_ffff) {
            Some(n) => Some(n as i32),
            None => None,
        }
    }
}

/// A number in decimal.
pub fn decimal_text(n: u128) -> (r: String)
    ensures
        r@ == decimal(n as nat),
    decreases n,
{
    if n < 10 {
        let mut s = String::new();
        s.push(digit_char(n as u8));
        assert(s@ =~= decimal(n as nat));
        s
    } else {
        let mut s = decimal_text(n / 10);
        s.push(digit_char((n % 10) as u8));
        s
    }
}

fn digit_char(n: u8) -> (c: char)
    requires
        n < 10,
    ensures
        c == digit(n as nat),
{
    (48 + n) as char
}

/// A number in decimal with at least `width` digits.
pub fn padded_text(n: u128, width: usize) -> (r: String)
    ensures
        r@ == zero_padded(n as nat, width as nat),
{
    let digits = decimal_text(n);
    let v = to_chars(digits.as_str());
    let mut out = String::new();
    let mut have: usize = v.len();
    while have < width
        invariant
            v@.len() <= have,
            have <= width || have == v@.len(),
            out@ == Seq::new((have - v@.len()) as nat, |i: int| '0'),
        decreases width - have,
    {
        out.push('0');
        have = have + 1;
        assert(out@ =~= Seq::new((have - v@.len()) as nat, |i: int| '0'));
    }
    out.append(digits.as_str());
    assert(out@ =~= zero_padded(n as nat, width as nat));
    out
}

/// Reading a number's decimal form gives the number.
pub proof fn decimal_reads_back(n: nat)
    ensures
        all_digits(decimal(n)),
        digits_value(decimal(n)) == n,
        unsigned(decimal(n)) == Some(n),
    decreases n,
{
    if n >= 10 {
        decimal_reads_back(n / 10);
        assert(decimal(n).drop_last() =~= decimal(n / 10));
        assert(is_digit(digit(n % 10)));
    } else {
        let one = decimal(n);
        assert(one.drop_last() =~= Seq::empty());
        assert(digits_value(one.drop_last()) == 0);
    }
}

/// Two numbers with the same padded form are the same number.
pub proof fn padding_keeps_numbers_apart(a: nat, b: nat, width: nat)
    requires
        zero_padded(a, width) == zero_padded(b, width),
    ensures
        a == b,
{
    padded_value(a, width);
    padded_value(b, width);
}

proof fn padded_value(n: nat, width: nat)
    ensures
        digits_value(zero_padded(n, width)) == n,
{
    decimal_reads_back(n);
    let d = decimal(n);
    if d.len() < width {
        zeros_then(Seq::new((width - d.len()) as nat, |i: int| '0'), d);
    }
}

proof fn zeros_then(zeros: Seq<char>, s: Seq<char>)
    requires
        forall|i: int| 0 <= i < zeros.len() ==> zeros[i] == '0',
    ensures
        digits_value(zeros + s) == digits_value(s),
    decreases zeros.len() + s.len(),
{
    if s.len() > 0 {
        assert((zeros + s).drop_last() =~= zeros + s.drop_last());
        zeros_then(zeros, s.drop_last());
    } else if zeros.len() > 0 {
        assert(zeros + s =~= zeros);
        assert(zeros.drop_last() + s =~= zeros.drop_last());
        zeros_then(zeros.drop_last(), s);
    } else {
        assert(zeros + s =~= s);
    }
}

/// The text of an optional string.
pub open spec fn option_text(s: Option<String>) -> Option<Seq<char>> {
    match s {
        Some(t) => Some(t@),
        None => None,
    }
}

pub fn clone_option(s: &Option<String>) -> (r: Option<String>)
    ensures
        option_text(r) == option_text(*s),
{
    match s {
        Some(t) => Some(t.clone()),
        None => None,
    }
}

pub fn clone_texts(v: &Vec<String>) -> (r: Vec<String>)
    ensures
        texts(r@) == texts(v@),
{
    let mut out: Vec<String> = Vec::new();
    let mut i: usize = 0;
    while i < v.len()
        invariant
            i <= v.len(),
            texts(out@) == texts(v@).take(i as int),
        decreases v.len() - i,
    {
        let ghost before = texts(out@);
        out.push(v[i].clone());
        proof {
            assert(texts(out@) =~= before.push(v@[i as int]@));
            assert(before.push(v@[i as int]@) =~= texts(v@).take(i + 1));
        }
        i = i + 1;
    }
    assert(texts(out@) =~= texts(v@));
    out
}

/// Whether one text comes before another, character by character.
pub open spec fn comes_before(a: Seq<char>, b: Seq<char>) -> bool
    decreases a.len(),
{
    if b.len() == 0 {
        false
    } else if a.len() == 0 {
        true
    } else if a[0] != b[0] {
        a[0] < b[0]
    } else {
        comes_before(a.drop_first(), b.drop_first())
    }
}

/// Whether a list of texts is in order.
pub open spec fn in_order(v: Seq<Seq<char>>) -> bool {
    forall|i: int, j: int|
        #![trigger v[i], v[j]]
        0 <= i < j < v.len() ==> !comes_before(v[j], v[i])
}

pub proof fn order_is_total(a: Seq<char>, b: Seq<char>)
    ensures
        comes_before(a, b) ==> !comes_before(b, a),
        !comes_before(a, b) && !comes_before(b, a) ==> a == b,
    decreases a.len(),
{
    if a.len() > 0 && b.len() > 0 && a[0] == b[0] {
        order_is_total(a.drop_first(), b.drop_first());
        if a.drop_first() == b.drop_first() {
            assert(a =~= seq![a[0]] + a.drop_first());
            assert(b =~= seq![b[0]] + b.drop_first());
        }
    } else if a.len() == 0 && b.len() == 0 {
        assert(a =~= b);
    }
}

pub proof fn order_is_transitive(a: Seq<char>, b: Seq<char>, c: Seq<char>)
    requires
        !comes_before(b, a),
        !comes_before(c, b),
    ensures
        !comes_before(c, a),
    decreases a.len() + b.len() + c.len(),
{
    if a.len() > 0 && b.len() > 0 && c.len() > 0 && a[0] == b[0] && b[0] == c[0] {
        order_is_transitive(a.drop_first(), b.drop_first(), c.drop_first());
    }
}

/// Whether one text comes before another.
pub fn is_before(a: &str, b: &str) -> (r: bool)
    ensures
        r == comes_before(a@, b@),
{
    let x = to_chars(a);
    let y = to_chars(b);
    let mut i: usize = 0;
    assert(x@.skip(0) =~= x@);
    assert(y@.skip(0) =~= y@);
    while i < x.len() && i < y.len()
        invariant
            i <= x.len(),
            i <= y.len(),
            x@ == a@,
            y@ == b@,
            comes_before(x@, y@) == comes_before(x@.skip(i as int), y@.skip(i as int)),
        decreases x.len() - i,
    {
        if x[i] != y[i] {
            return x[i] < y[i];
        }
        proof {
            assert(x@.skip(i as int).drop_first() =~= x@.skip(i + 1));
            assert(y@.skip(i as int).drop_first() =~= y@.skip(i + 1));
        }
        i = i + 1;
    }
    i < y.len()
}

/// Sorts texts.
pub fn sort_texts(v: Vec<String>) -> (r: Vec<String>)
    ensures
        in_order(texts(r@)),
        texts(r@).to_multiset() == texts(v@).to_multiset(),
{
    let mut out: Vec<String> = Vec::new();
    let mut n: usize = 0;
    assert(texts(v@).take(0) =~= texts(out@));
    while n < v.len()
        invariant
            n <= v.len(),
            in_order(texts(out@)),
            texts(out@).to_multiset() == texts(v@).take(n as int).to_multiset(),
        decreases v.len() - n,
    {
        let item = v[n].clone();
        let mut at: usize = out.len();
        while at > 0 && is_before(item.as_str(), out[at - 1].as_str())
            invariant
                at <= out.len(),
                forall|k: int|
                    at <= k < out@.len() ==> comes_before(item@, #[trigger] texts(out@)[k]),
            decreases at,
        {
            assert(texts(out@)[at - 1] == out@[at - 1]@);
            at = at - 1;
        }
        let ghost before = texts(out@);
        let ghost x = item@;
        proof {
            if at > 0 {
                assert(before[at - 1] == out@[at - 1]@);
                assert(!comes_before(x, before[at - 1]));
            }
            assert forall|k: int| 0 <= k < at implies !comes_before(x, #[trigger] before[k]) by {
                if k < at - 1 {
                    order_is_transitive(before[k], before[at - 1], x);
                }
            }
            assert forall|k: int| at <= k < before.len() implies !comes_before(
                #[trigger] before[k],
                x,
            ) by {
                order_is_total(x, before[k]);
            }
        }
        out.insert(at, item);
        proof {
            let after = texts(out@);
            assert(after =~= before.insert(at as int, x));
            assert(after.remove(at as int) =~= before);
            vstd::seq_lib::to_multiset_remove(after, at as int);
            after.to_multiset_ensures();
            assert(after[at as int] == x);
            assert(after.contains(x));
            assert(after.to_multiset() =~= before.to_multiset().insert(x));
            assert(texts(v@).take(n + 1) =~= texts(v@).take(n as int).push(texts(v@)[n as int]));
            texts(v@).take(n as int).to_multiset_ensures();
        }
        n = n + 1;
    }
    assert(texts(v@).take(n as int) =~= texts(v@));
    out
}

/// Texts joined by a separator.
pub open spec fn join(v: Seq<Seq<char>>, sep: Seq<char>) -> Seq<char>
    decreases v.len(),
{
    if v.len() == 0 {
        Seq::empty()
    } else if v.len() == 1 {
        v[0]
    } else {
        join(v.drop_last(), sep) + sep + v.last()
    }
}

/// Joins texts by a separator.
pub fn join_texts(v: &Vec<String>, sep: &str) -> (r: String)
    ensures
        r@ == join(texts(v@), sep@),
{
    let mut out = String::new();
    let mut i: usize = 0;
    while i < v.len()
        invariant
            i <= v.len(),
            out@ == join(texts(v@).take(i as int), sep@),
        decreases v.len() - i,
    {
        let ghost now = texts(v@).take(i + 1);
        proof {
            assert(now.drop_last() =~= texts(v@).take(i as int));
            assert(now.last() == v@[i as int]@);
        }
        if i > 0 {
            out.append(sep);
        }
        let ghost before = out@;
        out.append(v[i].as_str());
        assert(i == 0 ==> out@ =~= v@[0]@);
        i = i + 1;
    }
    assert(texts(v@).take(i as int) =~= texts(v@));
    out
}

/// The parts of a text between separators.
pub open spec fn split(s: Seq<char>, sep: char) -> Seq<Seq<char>>
    decreases s.len(),
{
    if s.len() == 0 {
        seq![Seq::empty()]
    } else {
        let before = split(s.drop_last(), sep);
        if s.last() == sep {
            before.push(Seq::empty())
        } else {
            before.drop_last().push(before.last().push(s.last()))
        }
    }
}

/// Splits a text at a separator.
pub fn split_text(s: &str, sep: char) -> (r: Vec<String>)
    ensures
        texts(r@) == split(s@, sep),
        r@.len() >= 1,
{
    let v = to_chars(s);
    let mut out: Vec<String> = Vec::new();
    let mut current = String::new();
    let mut i: usize = 0;
    assert(v@.take(0) =~= Seq::empty());
    assert(texts(out@).push(current@) =~= split(v@.take(0), sep));
    while i < v.len()
        invariant
            i <= v.len(),
            texts(out@).push(current@) == split(v@.take(i as int), sep),
        decreases v.len() - i,
    {
        let ghost done = texts(out@);
        let ghost piece = current@;
        proof {
            assert(v@.take(i + 1).drop_last() =~= v@.take(i as int));
            assert(done.push(piece).drop_last() =~= done);
        }
        if v[i] == sep {
            out.push(current);
            current = String::new();
            assert(texts(out@) =~= done.push(piece));
        } else {
            current.push(v[i]);
        }
        i = i + 1;
    }
    let ghost done = texts(out@);
    let ghost piece = current@;
    out.push(current);
    assert(texts(out@) =~= done.push(piece));
    assert(v@.take(i as int) =~= v@);
    out
}

/// A number in decimal with its sign.
pub open spec fn number_text(n: int) -> Seq<char> {
    if n < 0 {
        seq!['-'] + decimal((-n) as nat)
    } else {
        decimal(n as nat)
    }
}

/// A number in decimal with its sign.
pub fn signed_text(n: i64) -> (r: String)
    ensures
        r@ == number_text(n as int),
{
    if n < 0 {
        let mut out = String::new();
        out.push('-');
        out.append(decimal_text((-(n as i128)) as u128).as_str());
        assert(out@ =~= number_text(n as int));
        out
    } else {
        decimal_text(n as u128)
    }
}

/// Reading a number's text gives the number.
pub proof fn number_reads_back(n: int)
    ensures
        signed(number_text(n)) == Some(n),
        number_text(n).len() > 0,
        trimmed(number_text(n)) == number_text(n),
{
    let s = number_text(n);
    if n < 0 {
        decimal_reads_back((-n) as nat);
        assert(s.drop_first() =~= decimal((-n) as nat));
        assert(s.last() == decimal((-n) as nat).last());
    } else {
        decimal_reads_back(n as nat);
        assert(is_digit(s[0]));
    }
    let d = decimal(if n < 0 {
        (-n) as nat
    } else {
        n as nat
    });
    assert(is_digit(d[d.len() - 1]));
    assert(!white_space(s[0]));
    assert(!white_space(s.last()));
}

/// The names of a set in order.
pub open spec fn lists(names: Seq<Seq<char>>, dom: Set<Seq<char>>) -> bool {
    &&& in_order(names)
    &&& names.no_duplicates()
    &&& forall|name: Seq<char>| #[trigger] dom.contains(name) <==> names.contains(name)
}

/// The names of a finite set, in order.
pub open spec fn ordered(dom: Set<Seq<char>>) -> Seq<Seq<char>> {
    choose|names: Seq<Seq<char>>| lists(names, dom)
}

/// A set has only one list of its names in order.
pub proof fn ordered_is(names: Seq<Seq<char>>, dom: Set<Seq<char>>)
    requires
        lists(names, dom),
    ensures
        ordered(dom) == names,
        lists(ordered(dom), dom),
{
    lists_alike(ordered(dom), names, dom);
}

/// Every finite set of names can be put in order.
pub proof fn finite_sets_are_ordered(dom: Set<Seq<char>>)
    requires
        dom.finite(),
    ensures
        lists(ordered(dom), dom),
{
    let names = an_order(dom);
    ordered_is(names, dom);
}

proof fn an_order(dom: Set<Seq<char>>) -> (names: Seq<Seq<char>>)
    requires
        dom.finite(),
    ensures
        lists(names, dom),
    decreases dom.len(),
{
    if dom.len() == 0 {
        assert(dom =~= Set::empty());
        Seq::empty()
    } else {
        let x = dom.choose();
        let rest = an_order(dom.remove(x));
        let at = first_after(rest, x, 0);
        let names = rest.insert(at, x);
        assert(!rest.contains(x)) by {
            if rest.contains(x) {
                assert(dom.remove(x).contains(x));
            }
        }
        assert forall|name: Seq<char>| #[trigger] dom.contains(name) <==> names.contains(name) by {
            assert(dom.remove(x).contains(name) <==> rest.contains(name));
            assert(names[at] == x);
            if rest.contains(name) {
                let k = choose|k: int| 0 <= k < rest.len() && rest[k] == name;
                assert(names[if k < at {
                    k
                } else {
                    k + 1
                }] == name);
            }
            if names.contains(name) {
                let k = choose|k: int| 0 <= k < names.len() && names[k] == name;
                if k < at {
                    assert(rest[k] == name);
                } else if k > at {
                    assert(rest[k - 1] == name);
                }
            }
        }
        assert forall|i: int, j: int|
            0 <= i < names.len() && 0 <= j < names.len() && i != j implies names[i]
            != names[j] by {
            let a = if i < at {
                i
            } else {
                i - 1
            };
            let b = if j < at {
                j
            } else {
                j - 1
            };
            if i != at {
                assert(names[i] == rest[a]);
                assert(rest.contains(rest[a]));
            }
            if j != at {
                assert(names[j] == rest[b]);
                assert(rest.contains(rest[b]));
            }
        }
        assert forall|i: int, j: int|
            #![trigger names[i], names[j]]
            0 <= i < j < names.len() implies !comes_before(names[j], names[i]) by {
            let a = if i < at {
                i
            } else {
                i - 1
            };
            let b = if j < at {
                j
            } else {
                j - 1
            };
            if i != at {
                assert(names[i] == rest[a]);
            }
            if j != at {
                assert(names[j] == rest[b]);
            }
        }
        names
    }
}

/// Where a name goes in an ordered list.
proof fn first_after(v: Seq<Seq<char>>, x: Seq<char>, from: int) -> (at: int)
    requires
        in_order(v),
        0 <= from <= v.len(),
        forall|k: int| 0 <= k < from ==> !comes_before(x, #[trigger] v[k]),
    ensures
        from <= at <= v.len(),
        forall|k: int| 0 <= k < at ==> !comes_before(x, #[trigger] v[k]),
        forall|k: int| at <= k < v.len() ==> !comes_before(#[trigger] v[k], x),
    decreases v.len() - from,
{
    if from == v.len() || comes_before(x, v[from]) {
        assert forall|k: int| from <= k < v.len() implies !comes_before(#[trigger] v[k], x) by {
            order_is_total(x, v[from]);
            if k > from {
                order_is_transitive(x, v[from], v[k]);
            }
        }
        from
    } else {
        first_after(v, x, from + 1)
    }
}

proof fn lists_alike(a: Seq<Seq<char>>, b: Seq<Seq<char>>, dom: Set<Seq<char>>)
    requires
        lists(a, dom),
        lists(b, dom),
    ensures
        a == b,
    decreases a.len(),
{
    if a.len() == 0 {
        if b.len() > 0 {
            assert(b.contains(b[0]));
            assert(dom.contains(b[0]));
            assert(a.contains(b[0]));
        }
        assert(a =~= b);
    } else {
        assert(a.contains(a.last())) by {
            assert(a[a.len() - 1] == a.last());
        }
        assert(dom.contains(a.last()));
        assert(b.contains(a.last()));
        let k = choose|k: int| 0 <= k < b.len() && b[k] == a.last();
        assert(b.contains(b.last())) by {
            assert(b[b.len() - 1] == b.last());
        }
        assert(dom.contains(b.last()));
        assert(a.contains(b.last()));
        let j = choose|j: int| 0 <= j < a.len() && a[j] == b.last();
        order_is_total(a.last(), b.last());
        if k < b.len() - 1 && j < a.len() - 1 {
            assert(!comes_before(b[b.len() - 1], b[k]));
            assert(!comes_before(a[a.len() - 1], a[j]));
        }
        assert(a.last() == b.last());
        let rest = dom.remove(a.last());
        lists_shorter(a, dom);
        lists_shorter(b, dom);
        lists_alike(a.drop_last(), b.drop_last(), rest);
        assert(a =~= a.drop_last().push(a.last()));
        assert(b =~= b.drop_last().push(b.last()));
    }
}

proof fn lists_shorter(a: Seq<Seq<char>>, dom: Set<Seq<char>>)
    requires
        lists(a, dom),
        a.len() > 0,
    ensures
        lists(a.drop_last(), dom.remove(a.last())),
{
    let t = a.drop_last();
    assert forall|name: Seq<char>| #[trigger]
        dom.remove(a.last()).contains(name) <==> t.contains(name) by {
        if dom.contains(name) && name != a.last() {
            assert(a.contains(name));
            let k = choose|k: int| 0 <= k < a.len() && a[k] == name;
            assert(t[k] == name);
        }
        if t.contains(name) {
            let k = choose|k: int| 0 <= k < t.len() && t[k] == name;
            assert(a[k] == name);
            assert(a.contains(name));
            assert(a[a.len() - 1] == a.last());
        }
    }
}

/// Sorts names that are all different.
pub fn sort_names(v: Vec<String>, Ghost(dom): Ghost<Set<Seq<char>>>) -> (r: Vec<String>)
    requires
        texts(v@).no_duplicates(),
        forall|name: Seq<char>| #[trigger] dom.contains(name) <==> texts(v@).contains(name),
    ensures
        texts(r@) == ordered(dom),
        lists(texts(r@), dom),
{
    let ghost a = texts(v@);
    let sorted = sort_texts(v);
    proof {
        let b = texts(sorted@);
        a.to_multiset_ensures();
        b.to_multiset_ensures();
        a.lemma_multiset_has_no_duplicates();
        b.lemma_multiset_has_no_duplicates_conv();
        assert forall|name: Seq<char>| #[trigger] dom.contains(name) <==> b.contains(name) by {
            assert(a.contains(name) <==> a.to_multiset().count(name) > 0);
            assert(b.contains(name) <==> b.to_multiset().count(name) > 0);
        }
        ordered_is(b, dom);
    }
    sorted
}

proof fn start_is_cut(s: Seq<char>) -> (from: int)
    ensures
        0 <= from <= s.len(),
        trim_start(s) == s.skip(from),
        forall|k: int| 0 <= k < from ==> white_space(#[trigger] s[k]),
    decreases s.len(),
{
    if s.len() > 0 && white_space(s[0]) {
        let rest = s.drop_first();
        let m = start_is_cut(rest);
        assert(rest.skip(m) =~= s.skip(m + 1));
        assert forall|k: int| 0 <= k < m + 1 implies white_space(#[trigger] s[k]) by {
            if k > 0 {
                assert(rest[k - 1] == s[k]);
            }
        }
        m + 1
    } else {
        assert(s.skip(0) =~= s);
        0
    }
}

proof fn end_is_cut(s: Seq<char>) -> (to: int)
    ensures
        0 <= to <= s.len(),
        trim_end(s) == s.take(to),
        forall|k: int| to <= k < s.len() ==> white_space(#[trigger] s[k]),
        to > 0 ==> !white_space(s[to - 1]),
    decreases s.len(),
{
    if s.len() > 0 && white_space(s.last()) {
        let rest = s.drop_last();
        let m = end_is_cut(rest);
        assert(rest.take(m) =~= s.take(m));
        assert forall|k: int| m <= k < s.len() implies white_space(#[trigger] s[k]) by {
            if k < rest.len() {
                assert(rest[k] == s[k]);
            }
        }
        m
    } else {
        assert(s.take(s.len() as int) =~= s);
        s.len() as int
    }
}

/// A trimmed text is the part of the text between its first and its last character that is
/// no white space: only white space is cut off, and all of it at either end.
pub proof fn trimming_cuts_white_space(s: Seq<char>) -> (ends: (int, int))
    ensures
        0 <= ends.0 <= ends.1 <= s.len(),
        trimmed(s) == s.subrange(ends.0, ends.1),
        forall|k: int| 0 <= k < ends.0 ==> white_space(#[trigger] s[k]),
        forall|k: int| ends.1 <= k < s.len() ==> white_space(#[trigger] s[k]),
        trimmed(s).len() > 0 ==> !white_space(trimmed(s)[0]) && !white_space(trimmed(s).last()),
{
    let from = start_is_cut(s);
    let t = s.skip(from);
    trim_start_bounds(s);
    let to = end_is_cut(t);
    assert(t.take(to) =~= s.subrange(from, from + to));
    assert forall|k: int| from + to <= k < s.len() implies white_space(#[trigger] s[k]) by {
        assert(t[k - from] == s[k]);
    }
    if to > 0 {
        assert(trimmed(s)[0] == t[0]);
        assert(trimmed(s).last() == t[to - 1]);
    }
    (from, from + to)
}

/// Words are not empty and have no white space in them.
pub proof fn words_have_no_white_space(s: Seq<char>, i: int, k: int)
    requires
        0 <= i < words(s).len(),
        0 <= k < words(s)[i].len(),
    ensures
        words(s)[i].len() > 0,
        !white_space(words(s)[i][k]),
    decreases s.len(),
{
    let t = trim_start(s);
    trim_start_bounds(s);
    word_len_bounds(t);
    if i == 0 {
        word_is_black(t, k);
    } else {
        words_have_no_white_space(t.skip(word_len(t) as int), i - 1, k);
    }
}

proof fn word_is_black(s: Seq<char>, k: int)
    requires
        0 <= k < word_len(s),
    ensures
        k < s.len(),
        !white_space(s[k]),
    decreases s.len(),
{
    word_len_bounds(s);
    if k > 0 {
        word_is_black(s.drop_first(), k - 1);
    }
}

/// A text that was split and joined again by the same character is the text.
pub proof fn splitting_and_joining_restores(s: Seq<char>, sep: char)
    ensures
        split(s, sep).len() > 0,
        join(split(s, sep), seq![sep]) == s,
    decreases s.len(),
{
    if s.len() == 0 {
        assert(join(split(s, sep), seq![sep]) =~= s);
    } else {
        let front = s.drop_last();
        let before = split(front, sep);
        splitting_and_joining_restores(front, sep);
        let all = split(s, sep);
        if s.last() == sep {
            assert(all.drop_last() =~= before);
            assert(join(all, seq![sep]) =~= s);
        } else {
            assert(all.drop_last() =~= before.drop_last());
            if before.len() > 1 {
                let earlier = join(before.drop_last(), seq![sep]);
                assert(join(before, seq![sep]) == earlier + seq![sep] + before.last());
                assert(all.last() == before.last().push(s.last()));
                assert(join(all, seq![sep]) =~= (earlier + seq![sep] + before.last()).push(
                    s.last(),
                ));
            } else {
                assert(join(before, seq![sep]) == before[0]);
                assert(all[0] == before.last().push(s.last()));
            }
            assert(join(all, seq![sep]) =~= front.push(s.last()));
            assert(front.push(s.last()) =~= s);
        }
    }
}

/// A number is written digit by digit, the highest first.
pub proof fn numbers_are_written_digit_by_digit(n: nat, d: nat)
    requires
        d < 10,
    ensures
        decimal(0) == seq!['0'],
        d > 0 ==> decimal(d) == seq![(48 + d) as char],
        n > 0 ==> decimal(10 * n + d) == decimal(n).push((48 + d) as char),
{
    assert((10 * n + d) / 10 == n);
    assert((10 * n + d) % 10 == d);
}

/// A number that is filled up has its digits at the end and zeros before them, and at least
/// the wanted number of characters.
pub proof fn numbers_are_filled_up_with_zeros(n: nat, width: nat, k: int)
    requires
        0 <= k,
        k + decimal(n).len() < width,
    ensures
        zero_padded(n, width).len() == width,
        zero_padded(n, width)[k] == '0',
        zero_padded(n, width).skip(width - decimal(n).len()) == decimal(n),
        zero_padded(n, decimal(n).len()) == decimal(n),
{
    assert(zero_padded(n, width).skip(width - decimal(n).len()) =~= decimal(n));
}

/// Of two texts the one with the lower character in the first place where they differ comes
/// first; a text comes before its own continuation.
pub proof fn texts_are_ordered_by_their_first_difference(
    common: Seq<char>,
    c: char,
    d: char,
    x: Seq<char>,
    y: Seq<char>,
)
    ensures
        c != d ==> comes_before(common.push(c) + x, common.push(d) + y) == (c < d),
        comes_before(common, common.push(c) + x),
        !comes_before(common, common),
    decreases common.len(),
{
    let a = common.push(c) + x;
    let b = common.push(d) + y;
    if common.len() > 0 {
        let rest = common.drop_first();
        texts_are_ordered_by_their_first_difference(rest, c, d, x, y);
        assert(a.drop_first() =~= rest.push(c) + x);
        assert(b.drop_first() =~= rest.push(d) + y);
        assert(a[0] == common[0]);
        assert(b[0] == common[0]);
    } else {
        assert(a[0] == c);
        assert(b[0] == d);
    }
}

proof fn word_ends(w: Seq<char>, rest: Seq<char>)
    requires
        forall|k: int| 0 <= k < w.len() ==> !white_space(#[trigger] w[k]),
        rest.len() > 0 ==> white_space(rest[0]),
    ensures
        word_len(w + rest) == w.len(),
    decreases w.len(),
{
    let s = w + rest;
    if w.len() == 0 {
        assert(s =~= rest);
    } else {
        let front = w.drop_first();
        assert(s[0] == w[0]);
        assert(s.drop_first() =~= front + rest);
        assert forall|k: int| 0 <= k < front.len() implies !white_space(#[trigger] front[k]) by {
            assert(front[k] == w[k + 1]);
        }
        word_ends(front, rest);
    }
}

/// The words of a text are its runs without white space, in their order: a run, white space
/// and a rest make the run and the words of the rest, and white space at the start makes
/// none.
pub proof fn words_stand_between_white_space(w: Seq<char>, c: char, rest: Seq<char>)
    requires
        w.len() > 0,
        forall|k: int| 0 <= k < w.len() ==> !white_space(#[trigger] w[k]),
        white_space(c),
    ensures
        words(Seq::empty()).len() == 0,
        words(w) == seq![w],
        words(seq![c] + rest) == words(rest),
        words(w + (seq![c] + rest)) == seq![w] + words(rest),
{
    let none = Seq::<char>::empty();
    assert(trim_start(none).len() == 0);
    let gap = seq![c] + rest;
    assert(gap[0] == c);
    assert(gap.drop_first() =~= rest);
    assert(trim_start(gap) == trim_start(rest));
    assert(words(gap) == words(rest)) by {
        let t = trim_start(rest);
        trim_start_bounds(rest);
        word_len_bounds(t);
    }
    let s = w + gap;
    assert(s[0] == w[0]);
    assert(!white_space(w[0]));
    assert(trim_start(s) == s);
    word_ends(w, gap);
    assert(s.take(w.len() as int) =~= w);
    assert(s.skip(w.len() as int) =~= gap);
    word_ends(w, none);
    assert(w + none =~= w);
    assert(trim_start(w) == w);
    assert(w.take(w.len() as int) =~= w);
    assert(w.skip(w.len() as int) =~= none);
    assert(words(none) =~= Seq::empty());
    assert(words(w) =~= seq![w]);
}

} // verus!
