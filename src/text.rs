use vstd::prelude::*;

verus! {

/// The decimal digit character for `d` in `0..10`.
pub open spec fn digit_char(d: int) -> char {
    if d == 0 { '0' }
    else if d == 1 { '1' }
    else if d == 2 { '2' }
    else if d == 3 { '3' }
    else if d == 4 { '4' }
    else if d == 5 { '5' }
    else if d == 6 { '6' }
    else if d == 7 { '7' }
    else if d == 8 { '8' }
    else { '9' }
}

/// The last `width` decimal digits of `v`, with leading zeros.
pub open spec fn padded(v: int, width: nat) -> Seq<char>
    decreases width,
{
    if width == 0 {
        seq![]
    } else {
        padded(v / 10, (width - 1) as nat).push(digit_char(v % 10))
    }
}

/// A UTC offset in seconds as chrono shows it: `+HH:MM`, or `+HH:MM:SS` when the seconds are
/// not zero.
pub open spec fn offset_text_of(offset: int) -> Seq<char> {
    let sign = if offset < 0 { '-' } else { '+' };
    let a = if offset < 0 { -offset } else { offset };
    let head = seq![sign] + padded(a / 3_600, 2) + seq![':'] + padded(a / 60 % 60, 2);
    if a % 60 == 0 {
        head
    } else {
        head + seq![':'] + padded(a % 60, 2)
    }
}

/// The fraction of a second as chrono shows it after a time: nothing, or a dot and three, six
/// or nine digits, the fewest that hold it exactly.
pub open spec fn fraction_text_of(nanos: int) -> Seq<char> {
    if nanos == 0 {
        seq![]
    } else if nanos % 1_000_000 == 0 {
        seq!['.'] + padded(nanos / 1_000_000, 3)
    } else if nanos % 1_000 == 0 {
        seq!['.'] + padded(nanos / 1_000, 6)
    } else {
        seq!['.'] + padded(nanos, 9)
    }
}

/// A time of day `sod` seconds after midnight with fraction `nanos`, as `HH:MM:SS[.fff]`; a
/// fraction of one second or more is a leap second, shown as second 60.
pub open spec fn time_text_of(sod: int, nanos: int) -> Seq<char> {
    let leap = nanos >= 1_000_000_000;
    let sec = if leap { sod % 60 + 1 } else { sod % 60 };
    let frac = if leap { nanos - 1_000_000_000 } else { nanos };
    padded(sod / 3_600, 2) + seq![':'] + padded(sod / 60 % 60, 2) + seq![':'] + padded(sec, 2)
        + fraction_text_of(frac)
}

fn digit_str(d: u32) -> (r: &'static str)
    requires
        d < 10,
    ensures
        r@ == seq![digit_char(d as int)],
{
    proof {
        reveal_strlit("0");
        reveal_strlit("1");
        reveal_strlit("2");
        reveal_strlit("3");
        reveal_strlit("4");
        reveal_strlit("5");
        reveal_strlit("6");
        reveal_strlit("7");
        reveal_strlit("8");
        reveal_strlit("9");
    }
    match d {
        0 => "0",
        1 => "1",
        2 => "2",
        3 => "3",
        4 => "4",
        5 => "5",
        6 => "6",
        7 => "7",
        8 => "8",
        _ => "9",
    }
}

/// Appends the last `width` digits of `v`, with leading zeros.
fn push_padded(out: &mut String, v: u32, width: u32)
    ensures
        final(out)@ == old(out)@ + padded(v as int, width as nat),
    decreases width,
{
    if width > 0 {
        push_padded(out, v / 10, width - 1);
        out.append(digit_str(v % 10));
        assert(padded(v as int, width as nat) == padded(v as int / 10, (width - 1) as nat).push(
            digit_char(v as int % 10),
        ));
        assert(final(out)@ =~= old(out)@ + padded(v as int, width as nat));
    }
}

fn push_str(out: &mut String, s: &str)
    ensures
        final(out)@ == old(out)@ + s@,
{
    out.append(s);
}

/// Renders a UTC offset in seconds as `+HH:MM` or `+HH:MM:SS`.
pub fn offset_text(offset: i32) -> (r: String)
    requires
        -86_400 < offset < 86_400,
    ensures
        r@ == offset_text_of(offset as int),
{
    proof {
        reveal_strlit("-");
        reveal_strlit("+");
        reveal_strlit(":");
    }
    let a: u32 = if offset < 0 { (-offset) as u32 } else { offset as u32 };
    let mut out = String::new();
    if offset < 0 {
        push_str(&mut out, "-");
    } else {
        push_str(&mut out, "+");
    }
    push_padded(&mut out, a / 3_600, 2);
    push_str(&mut out, ":");
    push_padded(&mut out, a / 60 % 60, 2);
    if a % 60 != 0 {
        push_str(&mut out, ":");
        push_padded(&mut out, a % 60, 2);
    }
    assert(out@ =~= offset_text_of(offset as int));
    out
}

/// Renders a time of day as `HH:MM:SS`, with a fraction when it is not zero.
pub fn time_text(sod: u32, nanos: u32) -> (r: String)
    requires
        sod < 86_400,
        nanos < 2_000_000_000,
    ensures
        r@ == time_text_of(sod as int, nanos as int),
{
    proof {
        reveal_strlit(":");
        reveal_strlit(".");
    }
    let (sec, frac) = if nanos >= 1_000_000_000 {
        (sod % 60 + 1, nanos - 1_000_000_000)
    } else {
        (sod % 60, nanos)
    };
    let mut out = String::new();
    push_padded(&mut out, sod / 3_600, 2);
    push_str(&mut out, ":");
    push_padded(&mut out, sod / 60 % 60, 2);
    push_str(&mut out, ":");
    push_padded(&mut out, sec, 2);
    if frac != 0 {
        push_str(&mut out, ".");
        if frac % 1_000_000 == 0 {
            push_padded(&mut out, frac / 1_000_000, 3);
        } else if frac % 1_000 == 0 {
            push_padded(&mut out, frac / 1_000, 6);
        } else {
            push_padded(&mut out, frac, 9);
        }
    }
    assert(out@ =~= time_text_of(sod as int, nanos as int));
    out
}

// ---------------------------------------------------------------------------------------
// Reading text

/// `c` is `lower`, or its ASCII capital when `lower` is a lower-case ASCII letter.
pub open spec fn same_letter(c: char, lower: char) -> bool {
    c == lower || ('a' <= lower <= 'z' && c as u32 + 32 == lower as u32)
}

/// `s` spells `word` (lower-case ASCII) in any mix of ASCII letter case.
pub open spec fn spells_ignoring_case(s: Seq<char>, word: Seq<char>) -> bool {
    s.len() == word.len() && forall|i: int| 0 <= i < s.len() ==> same_letter(#[trigger] s[i], word[i])
}

/// Whether `s` is `word` in any mix of ASCII letter case; `word` is lower-case.
pub fn equals_ignoring_case(s: &str, word: &str) -> (r: bool)
    ensures
        r == spells_ignoring_case(s@, word@),
{
    let n = s.unicode_len();
    if n != word.unicode_len() {
        return false;
    }
    let mut i: usize = 0;
    while i < n
        invariant
            n == s@.len() == word@.len(),
            i <= n,
            forall|j: int| 0 <= j < i ==> same_letter(#[trigger] s@[j], word@[j]),
        decreases n - i,
    {
        let c = s.get_char(i);
        let l = word.get_char(i);
        let ok = c == l || ('a' <= l && l <= 'z' && c as u32 + 32 == l as u32);
        if !ok {
            return false;
        }
        i = i + 1;
    }
    true
}

/// Whether the character `c` occurs in `s`.
pub fn contains_char(s: &str, c: char) -> (r: bool)
    ensures
        r == s@.contains(c),
{
    let n = s.unicode_len();
    let mut i: usize = 0;
    while i < n
        invariant
            n == s@.len(),
            i <= n,
            forall|j: int| 0 <= j < i ==> s@[j] != c,
        decreases n - i,
    {
        if s.get_char(i) == c {
            return true;
        }
        i = i + 1;
    }
    false
}

pub open spec fn is_digit(c: char) -> bool {
    '0' <= c <= '9'
}

pub open spec fn all_digits(s: Seq<char>) -> bool {
    forall|i: int| 0 <= i < s.len() ==> is_digit(#[trigger] s[i])
}

/// The number that a string of decimal digits spells.
pub open spec fn digits_value(s: Seq<char>) -> int
    decreases s.len(),
{
    if s.len() == 0 {
        0
    } else {
        digits_value(s.drop_last()) * 10 + (s.last() as u32 - 48)
    }
}

/// What `str::parse::<u32>` returns: an optional `+` and at least one digit, whose value fits.
pub open spec fn parse_u32_of(s: Seq<char>) -> Option<int> {
    let body = if s.len() > 0 && s[0] == '+' {
        s.drop_first()
    } else {
        s
    };
    if body.len() > 0 && all_digits(body) && digits_value(body) <= u32::MAX {
        Some(digits_value(body))
    } else {
        None
    }
}

proof fn lemma_digits_grow(s: Seq<char>, j: int)
    requires
        all_digits(s),
        0 <= j <= s.len(),
    ensures
        digits_value(s.take(j)) <= digits_value(s),
        0 <= digits_value(s),
    decreases s.len(),
{
    if s.len() > 0 {
        let t = s.drop_last();
        assert(all_digits(t));
        if j == s.len() {
            assert(s.take(j) =~= s);
        } else {
            assert(t.take(j) =~= s.take(j));
        }
        lemma_digits_grow(t, if j == s.len() { t.len() as int } else { j });
    } else {
        assert(s.take(j) =~= s);
    }
}

/// The value of `s[from..to]` read as a `u32`, or zero when it does not read as one.
fn read_u32_or_zero(s: &str, from: usize, to: usize) -> (r: u32)
    requires
        from <= to <= s@.len(),
    ensures
        r == read_or_zero(s@.subrange(from as int, to as int)),
{
    let ghost t = s@.subrange(from as int, to as int);
    let mut start = from;
    if from < to && s.get_char(from) == '+' {
        start = from + 1;
    }
    let ghost body = s@.subrange(start as int, to as int);
    assert(body =~= (if t.len() > 0 && t[0] == '+' { t.drop_first() } else { t }));
    if start == to {
        return 0;
    }
    let mut v: u64 = 0;
    let mut i = start;
    while i < to
        invariant
            start <= i <= to <= s@.len(),
            body == s@.subrange(start as int, to as int),
            body == (if t.len() > 0 && t[0] == '+' { t.drop_first() } else { t }),
            body.len() > 0,
            t == s@.subrange(from as int, to as int),
            v == digits_value(body.take(i - start)),
            all_digits(body.take(i - start)),
            v <= u32::MAX,
        decreases to - i,
    {
        let c = s.get_char(i);
        if c < '0' || c > '9' {
            assert(!all_digits(body)) by {
                assert(body[i - start] == c);
            }
            assert(parse_u32_of(t) is None);
            return 0;
        }
        let d = c as u32 - 48;
        let ghost before = body.take(i - start);
        let ghost after = body.take(i - start + 1);
        assert(after.drop_last() =~= before);
        assert(after.last() == c);
        assert(all_digits(after)) by {
            assert forall|j: int| 0 <= j < after.len() implies is_digit(#[trigger] after[j]) by {
                if j < before.len() {
                    assert(after[j] == before[j]);
                }
            }
        }
        v = v * 10 + d as u64;
        i = i + 1;
        assert(v == digits_value(body.take(i - start)));
        if v > u32::MAX as u64 {
            proof {
                if all_digits(body) {
                    lemma_digits_grow(body, i - start);
                }
            }
            assert(parse_u32_of(t) is None);
            return 0;
        }
    }
    assert(body.take(i - start) =~= body);
    assert(parse_u32_of(t) == Some(v as int));
    v as u32
}

/// Index of the first `:` in `s`, or `s.len()` when there is none.
pub open spec fn colon_index(s: Seq<char>) -> int
    decreases s.len(),
{
    if s.len() == 0 || s[0] == ':' {
        0
    } else {
        1 + colon_index(s.drop_first())
    }
}

proof fn lemma_colon_index(s: Seq<char>)
    ensures
        0 <= colon_index(s) <= s.len(),
        colon_index(s) < s.len() ==> s[colon_index(s)] == ':',
    decreases s.len(),
{
    if s.len() > 0 && s[0] != ':' {
        lemma_colon_index(s.drop_first());
    }
}

/// What a piece of text reads as: its `u32` value, or zero when it does not read as one.
pub open spec fn read_or_zero(s: Seq<char>) -> int {
    match parse_u32_of(s) {
        Some(v) => v,
        None => 0,
    }
}

/// The value of the `k`-th piece of `s` between colons (as `str::split(':')` cuts it), or zero
/// when `s` has fewer pieces.
pub open spec fn piece_value(s: Seq<char>, k: nat) -> int
    decreases k,
{
    let c = colon_index(s);
    if k == 0 {
        read_or_zero(s.take(c))
    } else if c < s.len() {
        piece_value(s.skip(c + 1), (k - 1) as nat)
    } else {
        0
    }
}

/// Seconds after midnight named by a lenient `H:M:S` text: pieces after the third are
/// ignored, missing or unreadable pieces count as zero, and a time that does not exist
/// becomes midnight.
pub open spec fn lenient_time_of(s: Seq<char>) -> int {
    let h = piece_value(s, 0);
    let m = piece_value(s, 1);
    let sec = piece_value(s, 2);
    if h < 24 && m < 60 && sec < 60 {
        h * 3_600 + m * 60 + sec
    } else {
        0
    }
}

fn find_colon(s: &str, from: usize) -> (r: usize)
    requires
        from <= s@.len(),
    ensures
        r == from + colon_index(s@.skip(from as int)),
        from <= r <= s@.len(),
{
    let n = s.unicode_len();
    let mut i = from;
    while i < n
        invariant
            n == s@.len(),
            from <= i <= n,
            colon_index(s@.skip(from as int)) == (i - from) + colon_index(s@.skip(i as int)),
        decreases n - i,
    {
        if s.get_char(i) == ':' {
            return i;
        }
        assert(s@.skip(i as int).drop_first() =~= s@.skip(i + 1));
        i = i + 1;
    }
    i
}

fn piece_value_from(s: &str, from: usize, k: u32) -> (r: u32)
    requires
        from <= s@.len(),
    ensures
        r == piece_value(s@.skip(from as int), k as nat),
    decreases k,
{
    let n = s.unicode_len();
    let c = find_colon(s, from);
    let ghost t = s@.skip(from as int);
    proof {
        lemma_colon_index(t);
    }
    if k == 0 {
        assert(t.take(c - from) =~= s@.subrange(from as int, c as int));
        read_u32_or_zero(s, from, c)
    } else if c < n {
        assert(t.skip(c - from + 1) =~= s@.skip(c + 1));
        piece_value_from(s, c + 1, k - 1)
    } else {
        0
    }
}

/// Reads a lenient `H:M:S` time of day, in seconds after midnight.
pub fn lenient_time(s: &str) -> (r: u32)
    ensures
        r == lenient_time_of(s@),
        r < 86_400,
{
    assert(s@.skip(0) =~= s@);
    let h = piece_value_from(s, 0, 0);
    let m = piece_value_from(s, 0, 1);
    let sec = piece_value_from(s, 0, 2);
    if h < 24 && m < 60 && sec < 60 {
        h * 3_600 + m * 60 + sec
    } else {
        0
    }
}

/// A strftime specifier letter that reads or writes part of the time of day (`%H`, `%M`,
/// `%S`, `%f`, `%p`, `%T`, ...), or the timestamp and full forms `%s`, `%c`, `%+`.
pub open spec fn is_time_letter(c: char) -> bool {
    c == 'H' || c == 'k' || c == 'I' || c == 'l' || c == 'P' || c == 'p' || c == 'M' || c == 'S'
        || c == 'f' || c == 'R' || c == 'T' || c == 'X' || c == 'r' || c == 's' || c == 'c' || c
        == '+'
}

/// A flag or width that may stand between `%` and the specifier letter.
pub open spec fn is_spec_modifier(c: char) -> bool {
    c == '-' || c == '_' || c == '0' || c == '.' || c == '3' || c == '6' || c == '9' || c == ':'
        || c == '#'
}

/// Whether `s` from index `i` on holds a time specifier; `in_spec` says that a `%` (and perhaps
/// modifiers) has just been read. `%%` is a literal percent sign.
pub open spec fn names_time_from(s: Seq<char>, i: int, in_spec: bool) -> bool
    decreases s.len() - i,
{
    if i < 0 || i >= s.len() {
        false
    } else if !in_spec {
        names_time_from(s, i + 1, s[i] == '%')
    } else if is_spec_modifier(s[i]) {
        names_time_from(s, i + 1, true)
    } else if is_time_letter(s[i]) {
        true
    } else {
        names_time_from(s, i + 1, false)
    }
}

/// Whether a strftime pattern reads or writes any part of the time of day.
pub open spec fn names_time(pattern: Seq<char>) -> bool {
    names_time_from(pattern, 0, false)
}

/// Whether a strftime pattern reads or writes any part of the time of day.
pub fn pattern_names_time(pattern: &str) -> (r: bool)
    ensures
        r == names_time(pattern@),
{
    let n = pattern.unicode_len();
    let mut i: usize = 0;
    let mut in_spec = false;
    while i < n
        invariant
            n == pattern@.len(),
            i <= n,
            names_time(pattern@) == names_time_from(pattern@, i as int, in_spec),
        decreases n - i,
    {
        let c = pattern.get_char(i);
        if !in_spec {
            in_spec = c == '%';
        } else if c == '-' || c == '_' || c == '0' || c == '.' || c == '3' || c == '6' || c == '9'
            || c == ':' || c == '#' {
            in_spec = true;
        } else if c == 'H' || c == 'k' || c == 'I' || c == 'l' || c == 'P' || c == 'p' || c == 'M'
            || c == 'S' || c == 'f' || c == 'R' || c == 'T' || c == 'X' || c == 'r' || c == 's'
            || c == 'c' || c == '+' {
            return true;
        } else {
            in_spec = false;
        }
        i = i + 1;
    }
    false
}

} // verus!
