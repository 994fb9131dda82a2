use vstd::prelude::*;
use vstd::string::*;

verus! {

// ---------------------------------------------------------------------------
// Specifications over character sequences
// ---------------------------------------------------------------------------

/// `p` is a prefix of `s`.
pub open spec fn has_prefix(s: Seq<char>, p: Seq<char>) -> bool {
    p.len() <= s.len() && s.subrange(0, p.len() as int) == p
}

/// `p` is a suffix of `s`.
pub open spec fn has_suffix(s: Seq<char>, p: Seq<char>) -> bool {
    p.len() <= s.len() && s.subrange(s.len() - p.len(), s.len() as int) == p
}

/// `p` occurs in `s` starting at position `i`.
pub open spec fn occurs_at(s: Seq<char>, p: Seq<char>, i: int) -> bool {
    0 <= i && i + p.len() <= s.len() && s.subrange(i, i + p.len()) == p
}

/// `p` occurs somewhere in `s`.
pub open spec fn contains_seq(s: Seq<char>, p: Seq<char>) -> bool {
    exists|i: int| occurs_at(s, p, i)
}

/// Position of the last occurrence of `c` in `s`, if any.
pub open spec fn last_index_of(s: Seq<char>, c: char) -> Option<int>
    decreases s.len(),
{
    if s.len() == 0 {
        None
    } else if s.last() == c {
        Some(s.len() - 1)
    } else {
        last_index_of(s.drop_last(), c)
    }
}

/// The pieces of `s` between occurrences of the delimiter `d` (as `str::split` with a char).
pub open spec fn split_on(s: Seq<char>, d: char) -> Seq<Seq<char>>
    decreases s.len(),
{
    if s.len() == 0 {
        seq![Seq::<char>::empty()]
    } else {
        let rest = split_on(s.drop_last(), d);
        if s.last() == d {
            rest.push(Seq::<char>::empty())
        } else {
            rest.update(rest.len() - 1, rest.last().push(s.last()))
        }
    }
}

/// The pieces of `parts` joined with `sep` between them.
pub open spec fn join_with(parts: Seq<Seq<char>>, sep: Seq<char>) -> Seq<char>
    decreases parts.len(),
{
    if parts.len() == 0 {
        Seq::<char>::empty()
    } else if parts.len() == 1 {
        parts[0]
    } else {
        join_with(parts.drop_last(), sep) + sep + parts.last()
    }
}

/// ASCII decimal digit.
pub open spec fn is_digit(c: char) -> bool {
    '0' <= c && c <= '9'
}

/// ASCII lowercase letter.
pub open spec fn is_lower(c: char) -> bool {
    'a' <= c && c <= 'z'
}

/// ASCII uppercase letter.
pub open spec fn is_upper(c: char) -> bool {
    'A' <= c && c <= 'Z'
}

/// The character for the decimal digit `d`.
pub open spec fn digit_char(d: nat) -> char
    recommends
        d < 10,
{
    (('0' as u32) + d) as char
}

/// The character for the lowercase hexadecimal digit `d`.
pub open spec fn hex_char(d: nat) -> char
    recommends
        d < 16,
{
    if d < 10 {
        (('0' as u32) + d) as char
    } else {
        (('a' as u32) + (d - 10)) as char
    }
}

/// Decimal representation of `n` (as `Display` for unsigned integers).
pub open spec fn decimal(n: nat) -> Seq<char>
    decreases n,
{
    if n < 10 {
        seq![digit_char(n)]
    } else {
        decimal(n / 10).push(digit_char(n % 10))
    }
}

/// Lowercase hexadecimal representation of `n` (as the `{:x}` format).
pub open spec fn hex(n: nat) -> Seq<char>
    decreases n,
{
    if n < 16 {
        seq![hex_char(n)]
    } else {
        hex(n / 16).push(hex_char(n % 16))
    }
}

/// `s` left-padded with `'0'` to at least `width` characters.
pub open spec fn zero_pad(s: Seq<char>, width: nat) -> Seq<char> {
    if s.len() >= width {
        s
    } else {
        Seq::new((width - s.len()) as nat, |i: int| '0') + s
    }
}

/// Value of a string of decimal digits.
pub open spec fn digits_value(s: Seq<char>) -> nat
    decreases s.len(),
{
    if s.len() == 0 {
        0
    } else {
        digits_value(s.drop_last()) * 10 + ((s.last() as u32) - ('0' as u32)) as nat
    }
}

/// All characters are decimal digits.
pub open spec fn all_digits(s: Seq<char>) -> bool {
    forall|i: int| 0 <= i < s.len() ==> is_digit(#[trigger] s[i])
}

/// The value that `str::parse::<u8>` yields for `s`, if it yields one: an optional `+`
/// followed by at least one decimal digit, with a value below 256.
pub open spec fn parse_u8_spec(s: Seq<char>) -> Option<nat> {
    let body = if s.len() > 0 && s[0] == '+' { s.drop_first() } else { s };
    if body.len() > 0 && all_digits(body) && digits_value(body) < 256 {
        Some(digits_value(body))
    } else {
        None
    }
}

// ---------------------------------------------------------------------------
// Executable helpers
// ---------------------------------------------------------------------------

/// The characters of a string slice, in order.
pub fn chars_of(s: &str) -> (v: Vec<char>)
    ensures
        v@ == s@,
{
    let mut v: Vec<char> = Vec::new();
    for c in it: s.chars()
        invariant
            v@ == it.seq().take(it.index() as int),
            it.seq() == s@,
    {
        v.push(c);
    }
    v
}

/// Appends one character to a string (`String::push`).
#[verifier::external_body]
pub(crate) fn push_char(s: &mut String, c: char)
    ensures
        final(s)@ == old(s)@.push(c),
{
    s.push(c);
}

/// Builds a string from a sequence of characters.
pub fn string_from_chars(v: &[char]) -> (s: String)
    ensures
        s@ == v@,
{
    let mut s = String::new();
    let mut i: usize = 0;
    while i < v.len()
        invariant
            i <= v.len(),
            s@ == v@.take(i as int),
        decreases v.len() - i,
    {
        push_char(&mut s, v[i]);
        proof {
            assert(v@.take(i as int).push(v@[i as int]) =~= v@.take(i + 1));
        }
        i = i + 1;
    }
    proof {
        assert(v@.take(v.len() as int) =~= v@);
    }
    s
}

/// Builds a string from the characters `v[from..to]`.
pub fn string_from_subrange(v: &[char], from: usize, to: usize) -> (s: String)
    requires
        from <= to <= v.len(),
    ensures
        s@ == v@.subrange(from as int, to as int),
{
    let mut s = String::new();
    let mut i: usize = from;
    while i < to
        invariant
            from <= i <= to <= v.len(),
            s@ == v@.subrange(from as int, i as int),
        decreases to - i,
    {
        push_char(&mut s, v[i]);
        proof {
            assert(v@.subrange(from as int, i as int).push(v@[i as int]) =~= v@.subrange(
                from as int,
                i + 1,
            ));
        }
        i = i + 1;
    }
    s
}

/// `s` followed by `t`.
pub fn concat_str(s: &str, t: &str) -> (r: String)
    ensures
        r@ == s@ + t@,
{
    let mut r = String::from_str(s);
    r.append(t);
    r
}

/// Whether `p` is a prefix of `s`.
pub fn slice_starts_with(s: &[char], p: &[char]) -> (b: bool)
    ensures
        b == has_prefix(s@, p@),
{
    if p.len() > s.len() {
        return false;
    }
    let mut i: usize = 0;
    while i < p.len()
        invariant
            p.len() <= s.len(),
            i <= p.len(),
            forall|j: int| 0 <= j < i ==> s@[j] == p@[j],
        decreases p.len() - i,
    {
        if s[i] != p[i] {
            proof {
                assert(s@.subrange(0, p.len() as int)[i as int] != p@[i as int]);
            }
            return false;
        }
        i = i + 1;
    }
    proof {
        assert(s@.subrange(0, p.len() as int) =~= p@);
    }
    true
}

/// Whether `p` occurs in `s` at position `at`.
pub fn slice_occurs_at(s: &[char], p: &[char], at: usize) -> (b: bool)
    ensures
        b == occurs_at(s@, p@, at as int),
{
    if at > s.len() || p.len() > s.len() - at {
        return false;
    }
    let mut i: usize = 0;
    while i < p.len()
        invariant
            at + p.len() <= s.len(),
            i <= p.len(),
            forall|j: int| 0 <= j < i ==> s@[at + j] == p@[j],
        decreases p.len() - i,
    {
        if s[at + i] != p[i] {
            proof {
                assert(s@.subrange(at as int, at + p.len())[i as int] != p@[i as int]);
            }
            return false;
        }
        i = i + 1;
    }
    proof {
        assert(s@.subrange(at as int, at + p.len()) =~= p@);
    }
    true
}

/// Whether `p` occurs anywhere in `s`.
pub fn slice_contains(s: &[char], p: &[char]) -> (b: bool)
    ensures
        b == contains_seq(s@, p@),
{
    if p.len() > s.len() {
        assert forall|i: int| !occurs_at(s@, p@, i) by {}
        return false;
    }
    let last = s.len() - p.len();
    let mut at: usize = 0;
    loop
        invariant
            p.len() <= s.len(),
            last == s.len() - p.len(),
            at <= last,
            forall|j: int| 0 <= j < at ==> !occurs_at(s@, p@, j),
        ensures
            forall|j: int| 0 <= j <= last ==> !occurs_at(s@, p@, j),
        decreases last - at,
    {
        if slice_occurs_at(s, p, at) {
            return true;
        }
        if at == last {
            break;
        }
        at = at + 1;
    }
    assert forall|i: int| !occurs_at(s@, p@, i) by {
        if 0 <= i && i + p.len() <= s.len() {
            assert(i <= last);
        }
    }
    false
}

/// Whether `p` is a suffix of `s`.
pub fn slice_ends_with(s: &[char], p: &[char]) -> (b: bool)
    ensures
        b == has_suffix(s@, p@),
{
    if p.len() > s.len() {
        return false;
    }
    let r = slice_occurs_at(s, p, s.len() - p.len());
    r
}

/// Whether the character `c` occurs in `s`.
pub fn slice_contains_char(s: &[char], c: char) -> (b: bool)
    ensures
        b == s@.contains(c),
{
    let mut i: usize = 0;
    while i < s.len()
        invariant
            i <= s.len(),
            forall|j: int| 0 <= j < i ==> s@[j] != c,
        decreases s.len() - i,
    {
        if s[i] == c {
            return true;
        }
        i = i + 1;
    }
    false
}

/// Position of the last occurrence of `c` in `s`.
pub fn slice_last_index_of(s: &[char], c: char) -> (r: Option<usize>)
    ensures
        match last_index_of(s@, c) {
            Some(i) => r == Some(i as usize),
            None => r is None,
        },
{
    let mut i: usize = s.len();
    assert(s@.take(i as int) =~= s@);
    while i > 0
        invariant
            i <= s.len(),
            last_index_of(s@, c) == last_index_of(s@.take(i as int), c),
        decreases i,
    {
        let ghost t = s@.take(i as int);
        assert(t.drop_last() =~= s@.take(i - 1));
        if s[i - 1] == c {
            return Some(i - 1);
        }
        i = i - 1;
    }
    None
}

/// Appends the decimal representation of `n`.
pub fn push_decimal(s: &mut String, n: u64)
    ensures
        final(s)@ == old(s)@ + decimal(n as nat),
    decreases n,
{
    if n >= 10 {
        push_decimal(s, n / 10);
    }
    let d = (n % 10) as u32;
    let c = char_from_digit(d);
    push_char(s, c);
    proof {
        assert(n < 10 ==> n % 10 == n);
    }
}

/// The character for a decimal or lowercase hexadecimal digit.
pub fn char_from_digit(d: u32) -> (c: char)
    requires
        d < 16,
    ensures
        c == hex_char(d as nat),
        d < 10 ==> c == digit_char(d as nat),
{
    match d {
        0 => '0',
        1 => '1',
        2 => '2',
        3 => '3',
        4 => '4',
        5 => '5',
        6 => '6',
        7 => '7',
        8 => '8',
        9 => '9',
        10 => 'a',
        11 => 'b',
        12 => 'c',
        13 => 'd',
        14 => 'e',
        _ => 'f',
    }
}

/// Appends the lowercase hexadecimal representation of `n`.
pub fn push_hex(s: &mut String, n: u128)
    ensures
        final(s)@ == old(s)@ + hex(n as nat),
    decreases n,
{
    if n >= 16 {
        push_hex(s, n / 16);
    }
    let d = (n % 16) as u32;
    let c = char_from_digit(d);
    push_char(s, c);
    proof {
        assert(n < 16 ==> n % 16 == n);
    }
}

/// The decimal representation of `n`.
pub fn decimal_string(n: u64) -> (s: String)
    ensures
        s@ == decimal(n as nat),
{
    let mut s = String::new();
    push_decimal(&mut s, n);
    assert(Seq::<char>::empty() + decimal(n as nat) =~= decimal(n as nat));
    s
}

/// Appends a string slice.
pub fn push_str(s: &mut String, t: &str)
    ensures
        final(s)@ == old(s)@ + t@,
{
    s.append(t);
}

/// The characters of each string.
pub open spec fn string_views(v: Seq<String>) -> Seq<Seq<char>> {
    v.map_values(|x: String| x@)
}

/// The strings joined with `sep` between them, as `[String]::join` does.
pub fn join_strings(v: &Vec<String>, sep: &str) -> (r: String)
    ensures
        r@ == join_with(string_views(v@), sep@),
{
    let mut r = String::new();
    let mut i: usize = 0;
    assert(string_views(v@.take(0)) =~= Seq::<Seq<char>>::empty());
    while i < v.len()
        invariant
            i <= v.len(),
            r@ == join_with(string_views(v@.take(i as int)), sep@),
        decreases v.len() - i,
    {
        let ghost before = string_views(v@.take(i as int));
        assert(string_views(v@.take(i + 1)) =~= before.push(v@[i as int]@));
        assert(before.push(v@[i as int]@).drop_last() =~= before);
        if i > 0 {
            push_str(&mut r, sep);
        } else {
            assert(before.push(v@[i as int]@)[0] == v@[0]@);
            assert(r@ + v@[0]@ =~= v@[0]@);
        }
        push_str(&mut r, v[i].as_str());
        i = i + 1;
    }
    assert(v@.take(v.len() as int) =~= v@);
    r
}

/// Whether two string slices hold the same characters.
pub fn str_eq(a: &str, b: &str) -> (r: bool)
    ensures
        r == (a@ == b@),
{
    let x = String::from_str(a);
    let y = String::from_str(b);
    x == y
}

/// Why `str::parse::<usize>` refuses a string.
#[derive(Debug, Clone, Copy, PartialEq, Eq, Structural)]
pub enum IntErrorKind {
    Empty,
    InvalidDigit,
    PosOverflow,
}

impl IntErrorKind {
    /// What `ParseIntError` writes with `Display` for this kind.
    pub open spec fn spec_message(self) -> Seq<char> {
        match self {
            IntErrorKind::Empty => "cannot parse integer from empty string"@,
            IntErrorKind::InvalidDigit => "invalid digit found in string"@,
            IntErrorKind::PosOverflow => "number too large to fit in target type"@,
        }
    }

    /// What `ParseIntError` writes with `Display` for this kind.
    pub fn message(&self) -> (r: &'static str)
        ensures
            r@ == self.spec_message(),
    {
        match self {
            IntErrorKind::Empty => "cannot parse integer from empty string",
            IntErrorKind::InvalidDigit => "invalid digit found in string",
            IntErrorKind::PosOverflow => "number too large to fit in target type",
        }
    }
}

/// The value of a string of digits read left to right: the first character that is no digit
/// is an invalid digit, and the first prefix whose value exceeds the largest `usize` is an
/// overflow.
pub open spec fn digits_usize(s: Seq<char>) -> Result<nat, IntErrorKind>
    decreases s.len(),
{
    if s.len() == 0 {
        Ok(0)
    } else {
        match digits_usize(s.drop_last()) {
            Err(k) => Err(k),
            Ok(v) => if !is_digit(s.last()) {
                Err(IntErrorKind::InvalidDigit)
            } else if v * 10 + ((s.last() as u32) - ('0' as u32)) > usize::MAX {
                Err(IntErrorKind::PosOverflow)
            } else {
                Ok(v * 10 + ((s.last() as u32) - ('0' as u32)) as nat)
            },
        }
    }
}

/// What `str::parse::<usize>` gives: an empty string is refused, a leading `+` is skipped
/// (alone it is an invalid digit), then the digits are read.
pub open spec fn parse_usize_spec(s: Seq<char>) -> Result<nat, IntErrorKind> {
    if s.len() == 0 {
        Err(IntErrorKind::Empty)
    } else if s[0] == '+' {
        if s.len() == 1 {
            Err(IntErrorKind::InvalidDigit)
        } else {
            digits_usize(s.drop_first())
        }
    } else {
        digits_usize(s)
    }
}

/// `str::parse::<usize>`.
pub fn parse_usize(text: &str) -> (r: Result<usize, IntErrorKind>)
    ensures
        match parse_usize_spec(text@) {
            Ok(v) => r == Ok::<usize, IntErrorKind>(v as usize),
            Err(k) => r == Err::<usize, IntErrorKind>(k),
        },
{
    let chars = chars_of(text);
    if chars.len() == 0 {
        return Err(IntErrorKind::Empty);
    }
    let mut start: usize = 0;
    if chars[0] == '+' {
        if chars.len() == 1 {
            return Err(IntErrorKind::InvalidDigit);
        }
        start = 1;
    }
    let ghost body = if chars@[0] == '+' { chars@.drop_first() } else { chars@ };
    assert(body =~= chars@.subrange(start as int, chars@.len() as int));
    let mut value: usize = 0;
    let mut i: usize = start;
    assert(body.take(0) =~= Seq::<char>::empty());
    while i < chars.len()
        invariant
            chars@ == text@,
            chars@.len() > 0,
            start <= i <= chars@.len(),
            body == (if chars@[0] == '+' { chars@.drop_first() } else { chars@ }),
            body =~= chars@.subrange(start as int, chars@.len() as int),
            digits_usize(body.take(i - start)) == Ok::<nat, IntErrorKind>(value as nat),
        decreases chars@.len() - i,
    {
        let c = chars[i];
        let ghost k = i - start;
        assert(body.take(k + 1).drop_last() =~= body.take(k));
        assert(body.take(k + 1).last() == c);
        if !('0' <= c && c <= '9') {
            proof {
                lemma_digits_error_extends(body, k + 1);
            }
            return Err(IntErrorKind::InvalidDigit);
        }
        let d = (c as u32 - '0' as u32) as usize;
        if value > (usize::MAX - d) / 10 {
            proof {
                assert(value * 10 + d > usize::MAX) by (nonlinear_arith)
                    requires
                        value > (usize::MAX - d) / 10,
                        d <= 9,
                ;
                lemma_digits_error_extends(body, k + 1);
            }
            return Err(IntErrorKind::PosOverflow);
        }
        proof {
            assert(value * 10 + d <= usize::MAX) by (nonlinear_arith)
                requires
                    value <= (usize::MAX - d) / 10,
                    d <= 9,
            ;
        }
        value = value * 10 + d;
        i = i + 1;
    }
    assert(body.take(chars@.len() - start) =~= body);
    Ok(value)
}

/// Once a prefix fails, the whole string fails the same way.
proof fn lemma_digits_error_extends(s: Seq<char>, n: int)
    requires
        0 <= n <= s.len(),
        digits_usize(s.take(n)) is Err,
    ensures
        digits_usize(s) == digits_usize(s.take(n)),
    decreases s.len() - n,
{
    if n < s.len() {
        assert(s.take(n + 1).drop_last() =~= s.take(n));
        lemma_digits_error_extends(s, n + 1);
    } else {
        assert(s.take(n) =~= s);
    }
}

/// The string equals `target` (all lowercase ASCII letters) ignoring ASCII case. No other
/// character lowercases to one of these letters, so this is `to_lowercase() == target` for
/// such targets.
pub open spec fn lower_eq(s: Seq<char>, target: Seq<char>) -> bool {
    s.len() == target.len() && forall|i: int|
        0 <= i < s.len() ==> (#[trigger] s[i] == target[i] || (is_upper(s[i]) && (s[i] as u32) + 32
            == (target[i] as u32)))
}

/// Whether the string equals `target` ignoring ASCII case.
pub fn lower_equals(s: &str, target: &str) -> (r: bool)
    ensures
        r == lower_eq(s@, target@),
{
    let a = chars_of(s);
    let b = chars_of(target);
    if a.len() != b.len() {
        return false;
    }
    let mut i: usize = 0;
    while i < a.len()
        invariant
            a@ == s@,
            b@ == target@,
            a@.len() == b@.len(),
            i <= a@.len(),
            forall|j: int|
                0 <= j < i ==> (#[trigger] a@[j] == b@[j] || (is_upper(a@[j]) && (a@[j] as u32) + 32
                    == (b@[j] as u32))),
        decreases a@.len() - i,
    {
        let c = a[i];
        let t = b[i];
        if !(c == t || ('A' <= c && c <= 'Z' && (c as u32) + 32 == (t as u32))) {
            return false;
        }
        i = i + 1;
    }
    true
}

} // verus!
