use vstd::prelude::*;

verus! {

/// type of number to use for calculations
#[derive(Debug, Default, Clone, Copy, PartialEq, Eq, Structural)]
pub enum NumberType {
    /// double precision floating point value. supports SIMD.
    #[default]
    F64,
    /// single precision floating point value. supports SIMD.
    F32,
    /// double precision floating point value, assuming associativity.
    FastF64,
    /// single precision floating point value, assuming associativity.
    FastF32,
    /// posit (Type III Unum)
    Posit,
}

/// The reasons for which a decimal integer cannot be parsed, as the standard
/// library reports them.
#[derive(Debug, Clone, Copy, PartialEq, Eq, Structural)]
pub enum IntErrorKind {
    /// The text is empty.
    Empty,
    /// The text holds a character that is not a digit where one is expected.
    InvalidDigit,
    /// The number is larger than the largest `u16`.
    PosOverflow,
}

/// The standard library's description of each parse error.
pub open spec fn kind_message(kind: IntErrorKind) -> Seq<char> {
    match kind {
        IntErrorKind::Empty => "cannot parse integer from empty string"@,
        IntErrorKind::InvalidDigit => "invalid digit found in string"@,
        IntErrorKind::PosOverflow => "number too large to fit in target type"@,
    }
}

impl IntErrorKind {
    /// The description of the error, as the standard library words it.
    pub fn message(&self) -> (r: String)
        ensures
            r@ == kind_message(*self),
    {
        match self {
            IntErrorKind::Empty => String::from_str("cannot parse integer from empty string"),
            IntErrorKind::InvalidDigit => String::from_str("invalid digit found in string"),
            IntErrorKind::PosOverflow => String::from_str("number too large to fit in target type"),
        }
    }
}

/// Whether `c` is an ASCII decimal digit.
pub open spec fn is_digit(c: char) -> bool {
    48 <= (c as u32) <= 57
}

/// The value of an ASCII decimal digit.
pub open spec fn digit_value(c: char) -> int {
    (c as u32) - 48
}

/// Reads the decimal digits of `s` from index `i` on, with `acc` the value of
/// the digits before: the first character that is not a digit, or the first
/// digit that makes the value exceed `u16::MAX`, is an error.
pub open spec fn scan_u16(s: Seq<char>, i: int, acc: int) -> Result<u16, IntErrorKind>
    decreases s.len() - i,
{
    if i >= s.len() {
        Ok(acc as u16)
    } else if !is_digit(s[i]) {
        Err(IntErrorKind::InvalidDigit)
    } else if acc * 10 + digit_value(s[i]) > u16::MAX {
        Err(IntErrorKind::PosOverflow)
    } else {
        scan_u16(s, i + 1, acc * 10 + digit_value(s[i]))
    }
}

/// How the standard library parses a `u16` in base 10: an optional leading
/// `+`, then at least one digit.
pub open spec fn spec_parse_u16(s: Seq<char>) -> Result<u16, IntErrorKind> {
    if s.len() == 0 {
        Err(IntErrorKind::Empty)
    } else if s.len() == 1 && (s[0] == '+' || s[0] == '-') {
        Err(IntErrorKind::InvalidDigit)
    } else if s[0] == '+' {
        scan_u16(s, 1, 0)
    } else {
        scan_u16(s, 0, 0)
    }
}

/// The index of the first `c` in `s` at or after `i`, if there is one.
pub open spec fn find_from(s: Seq<char>, c: char, i: int) -> Option<int>
    decreases s.len() - i,
{
    if i < 0 || i >= s.len() {
        None
    } else if s[i] == c {
        Some(i)
    } else {
        find_from(s, c, i + 1)
    }
}

/// The message for a window size without separator.
pub open spec fn no_separator_message() -> Seq<char> {
    "no `x` separator found in window size"@
}

/// The message for a width that is not a `u16`.
pub open spec fn width_message(text: Seq<char>, kind: IntErrorKind) -> Seq<char> {
    "unable to parse "@ + text + " as window width: "@ + kind_message(kind)
}

/// The message for a height that is not a `u16`.
pub open spec fn height_message(text: Seq<char>, kind: IntErrorKind) -> Seq<char> {
    "unable to parse "@ + text + " as window height: "@ + kind_message(kind)
}

/// What parsing `WxH` gives: the width and the height, or the error message.
pub open spec fn spec_parse_window_size(s: Seq<char>) -> Result<(u16, u16), Seq<char>> {
    match find_from(s, 'x', 0) {
        None => Err(no_separator_message()),
        Some(i) => {
            let l = s.subrange(0, i);
            let r = s.subrange(i + 1, s.len() as int);
            match spec_parse_u16(l) {
                Err(kind) => Err(width_message(l, kind)),
                Ok(width) => match spec_parse_u16(r) {
                    Err(kind) => Err(height_message(r, kind)),
                    Ok(height) => Ok((width, height)),
                },
            }
        },
    }
}

proof fn lemma_find_from_bounds(s: Seq<char>, c: char, i: int)
    requires
        0 <= i,
    ensures
        find_from(s, c, i) matches Some(j) ==> i <= j < s.len() && s[j] == c,
    decreases s.len() - i,
{
    if i < s.len() && s[i] != c {
        lemma_find_from_bounds(s, c, i + 1);
    }
}

/// The character of a decimal digit.
pub open spec fn digit_char(d: nat) -> char {
    (d + 48) as char
}

/// The base-10 representation of `n`, as `{}` formats an integer.
pub open spec fn decimal(n: nat) -> Seq<char>
    decreases n,
{
    if n < 10 {
        seq![digit_char(n)]
    } else {
        decimal(n / 10).push(digit_char(n % 10))
    }
}

/// The value of a sequence of decimal digits.
pub open spec fn digits_value(s: Seq<char>) -> int
    decreases s.len(),
{
    if s.len() == 0 {
        0
    } else {
        digits_value(s.drop_last()) * 10 + digit_value(s.last())
    }
}

pub open spec fn all_digits(s: Seq<char>) -> bool {
    forall|k: int| 0 <= k < s.len() ==> is_digit(#[trigger] s[k])
}

proof fn lemma_decimal(n: nat)
    ensures
        decimal(n).len() >= 1,
        all_digits(decimal(n)),
        digits_value(decimal(n)) == n,
    decreases n,
{
    if n < 10 {
        assert(seq![digit_char(n)].drop_last() =~= Seq::<char>::empty());
        assert(digit_char(n) as u32 == n + 48);
        assert(digits_value(Seq::<char>::empty()) == 0);
        assert(decimal(n).last() == digit_char(n));
        assert(digits_value(decimal(n)) == digits_value(decimal(n).drop_last()) * 10 + digit_value(
            decimal(n).last(),
        ));
    } else {
        lemma_decimal(n / 10);
        let s = decimal(n);
        assert(s.drop_last() =~= decimal(n / 10));
        assert(digit_char(n % 10) as u32 == n % 10 + 48);
        assert(n == (n / 10) * 10 + n % 10);
        assert(s.last() == digit_char(n % 10));
        assert(digits_value(s) == digits_value(s.drop_last()) * 10 + digit_value(s.last()));
    }
}

proof fn lemma_digits_value_nonneg(s: Seq<char>)
    requires
        all_digits(s),
    ensures
        digits_value(s) >= 0,
    decreases s.len(),
{
    if s.len() > 0 {
        lemma_digits_value_nonneg(s.drop_last());
    }
}

/// The value of a prefix is at most the value of the whole.
proof fn lemma_prefix_value_le(s: Seq<char>, k: int)
    requires
        all_digits(s),
        0 <= k <= s.len(),
    ensures
        digits_value(s.subrange(0, k)) <= digits_value(s),
    decreases s.len() - k,
{
    if k < s.len() {
        lemma_prefix_value_le(s, k + 1);
        let p = s.subrange(0, k + 1);
        assert(p.drop_last() =~= s.subrange(0, k));
        lemma_digits_value_nonneg(s.subrange(0, k));
    } else {
        assert(s.subrange(0, k) =~= s);
    }
}

/// Scanning the digits of `s` from `k` on, after reading its first `k` digits,
/// gives the value of `s` when that value is a `u16`.
proof fn lemma_scan_digits(s: Seq<char>, k: int)
    requires
        all_digits(s),
        0 <= k <= s.len(),
        digits_value(s) <= u16::MAX,
    ensures
        scan_u16(s, k, digits_value(s.subrange(0, k))) == Ok::<u16, IntErrorKind>(
            digits_value(s) as u16,
        ),
    decreases s.len() - k,
{
    if k < s.len() {
        let p = s.subrange(0, k + 1);
        assert(p.drop_last() =~= s.subrange(0, k));
        lemma_prefix_value_le(s, k + 1);
        lemma_scan_digits(s, k + 1);
    } else {
        assert(s.subrange(0, k) =~= s);
    }
}

proof fn lemma_find_absent_prefix(p: Seq<char>, q: Seq<char>, c: char, i: int)
    requires
        0 <= i <= p.len(),
        forall|k: int| 0 <= k < p.len() ==> p[k] != c,
    ensures
        find_from(p + q, c, i) == (match find_from(q, c, 0) {
            Some(j) => Some(j + p.len()),
            None => None::<int>,
        }),
    decreases (p + q).len() - i,
{
    if i < p.len() {
        lemma_find_absent_prefix(p, q, c, i + 1);
    } else {
        lemma_find_shift(p, q, c, 0);
    }
}

proof fn lemma_find_shift(p: Seq<char>, q: Seq<char>, c: char, j: int)
    requires
        0 <= j <= q.len(),
    ensures
        find_from(p + q, c, p.len() + j) == (match find_from(q, c, j) {
            Some(m) => Some(m + p.len()),
            None => None::<int>,
        }),
    decreases q.len() - j,
{
    if j < q.len() {
        assert((p + q)[p.len() + j] == q[j]);
        lemma_find_shift(p, q, c, j + 1);
    }
}

/// Parsing a window size written as `format!("{}x{}", width, height)` gives
/// back that width and height.
pub proof fn lemma_parse_window_size_round_trip(width: u16, height: u16)
    ensures
        spec_parse_window_size(decimal(width as nat) + seq!['x'] + decimal(height as nat))
            == Ok::<(u16, u16), Seq<char>>((width, height)),
{
    let l = decimal(width as nat);
    let r = decimal(height as nat);
    let s = l + seq!['x'] + r;
    lemma_decimal(width as nat);
    lemma_decimal(height as nat);
    assert forall|k: int| 0 <= k < l.len() implies l[k] != 'x' by {
        assert(is_digit(l[k]));
    }
    assert(s =~= l + (seq!['x'] + r));
    lemma_find_absent_prefix(l, seq!['x'] + r, 'x', 0);
    assert(find_from(seq!['x'] + r, 'x', 0) == Some(0int));
    assert(s.subrange(0, l.len() as int) =~= l);
    assert(s.subrange(l.len() + 1int, s.len() as int) =~= r);
    assert(l.subrange(0, 0) =~= Seq::<char>::empty());
    assert(r.subrange(0, 0) =~= Seq::<char>::empty());
    lemma_scan_digits(l, 0);
    lemma_scan_digits(r, 0);
    assert(is_digit(l[0]));
    assert(is_digit(r[0]));
}

/// Parses a `u16` written in base 10, as `str::parse::<u16>` does.
pub fn parse_u16(s: &str) -> (r: Result<u16, IntErrorKind>)
    ensures
        r == spec_parse_u16(s@),
{
    let n = s.unicode_len();
    if n == 0 {
        return Err(IntErrorKind::Empty);
    }
    let first = s.get_char(0);
    if n == 1 && (first == '+' || first == '-') {
        return Err(IntErrorKind::InvalidDigit);
    }
    let start: usize = if first == '+' { 1 } else { 0 };
    let mut i: usize = start;
    let mut acc: u32 = 0;
    while i < n
        invariant
            n == s@.len(),
            start <= i <= n,
            acc <= u16::MAX,
            spec_parse_u16(s@) == scan_u16(s@, i as int, acc as int),
        decreases n - i,
    {
        let c = s.get_char(i);
        let code = c as u32;
        if code < 48 || code > 57 {
            return Err(IntErrorKind::InvalidDigit);
        }
        let next = acc * 10 + (code - 48);
        if next > 65535 {
            return Err(IntErrorKind::PosOverflow);
        }
        acc = next;
        i = i + 1;
    }
    Ok(acc as u16)
}

/// The size of the window, in pixels.
#[derive(Debug, Clone, Copy)]
pub struct WindowSize {
    pub width: u16,
    pub height: u16,
}

impl WindowSize {
    /// Parses a window size in the format `WxH`.
    pub fn parse(input: &str) -> (r: Result<Self, String>)
        ensures
            r is Ok <==> spec_parse_window_size(input@) is Ok,
            r matches Ok(ws) ==> spec_parse_window_size(input@) == Ok::<(u16, u16), Seq<char>>(
                (ws.width, ws.height),
            ),
            r matches Err(e) ==> spec_parse_window_size(input@) == Err::<(u16, u16), Seq<char>>(
                e@,
            ),
    {
        let n = input.unicode_len();
        let mut i: usize = 0;
        while i < n
            invariant
                n == input@.len(),
                0 <= i <= n,
                find_from(input@, 'x', 0) == find_from(input@, 'x', i as int),
            ensures
                0 <= i <= n,
                find_from(input@, 'x', 0) == find_from(input@, 'x', i as int),
                i < n ==> input@[i as int] == 'x',
            decreases n - i,
        {
            if input.get_char(i) == 'x' {
                break;
            }
            i = i + 1;
        }
        if i == n {
            return Err(String::from_str("no `x` separator found in window size"));
        }
        proof {
            lemma_find_from_bounds(input@, 'x', i as int);
        }
        assert(find_from(input@, 'x', 0) == Some(i as int));
        let l = input.substring_char(0, i);
        let r = input.substring_char(i + 1, n);
        let width = match parse_u16(l) {
            Ok(width) => width,
            Err(kind) => {
                let mut message = String::from_str("unable to parse ");
                message.append(l);
                message.append(" as window width: ");
                message.append(kind.message().as_str());
                return Err(message);
            },
        };
        let height = match parse_u16(r) {
            Ok(height) => height,
            Err(kind) => {
                let mut message = String::from_str("unable to parse ");
                message.append(r);
                message.append(" as window height: ");
                message.append(kind.message().as_str());
                return Err(message);
            },
        };
        Ok(Self { width, height })
    }
}

} // verus!
