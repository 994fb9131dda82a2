use vstd::prelude::*;
use vstd::string::*;
use vstd::utf8::encode_utf8;

use crate::errors::{ValidationError, ValidationErrorView};
use crate::text::{
    all_digits, chars_of, contains_seq, digit_char, digits_value, has_prefix, has_suffix, hex,
    hex_char, is_digit, is_lower, is_upper, last_index_of, parse_u8_spec, push_char, push_hex,
    push_str, slice_contains, string_from_subrange, slice_contains_char, slice_ends_with, slice_last_index_of,
    slice_starts_with, split_on, string_from_chars, zero_pad,
};

verus! {

// ---------------------------------------------------------------------------
// Shared specifications
// ---------------------------------------------------------------------------

/// Length in bytes of the UTF-8 encoding of `s`, as `str::len` reports it.
pub open spec fn byte_len(s: Seq<char>) -> usize {
    encode_utf8(s).len() as usize
}

// ---------------------------------------------------------------------------
// Bucket names
// ---------------------------------------------------------------------------

/// A character that may start or end a bucket name.
pub open spec fn bucket_edge_char(c: char) -> bool {
    is_lower(c) || is_digit(c)
}

/// A character that may appear in a bucket name.
pub open spec fn bucket_char(c: char) -> bool {
    is_lower(c) || is_digit(c) || c == '-'
}

/// The first character of `s` that may not appear in a bucket name.
pub open spec fn first_bad_bucket_char(s: Seq<char>) -> Option<char>
    decreases s.len(),
{
    if s.len() == 0 {
        None
    } else {
        match first_bad_bucket_char(s.drop_last()) {
            Some(c) => Some(c),
            None => if bucket_char(s.last()) {
                None
            } else {
                Some(s.last())
            },
        }
    }
}

proof fn lemma_first_bad_bucket_char_step(s: Seq<char>, i: int)
    requires
        0 <= i < s.len(),
    ensures
        first_bad_bucket_char(s.take(i + 1)) == (match first_bad_bucket_char(s.take(i)) {
            Some(c) => Some(c),
            None => if bucket_char(s[i]) {
                None
            } else {
                Some(s[i])
            },
        }),
{
    assert(s.take(i + 1).drop_last() =~= s.take(i));
}

proof fn lemma_first_bad_bucket_char_extends(s: Seq<char>, i: int)
    requires
        0 <= i <= s.len(),
        first_bad_bucket_char(s.take(i)) is Some,
    ensures
        first_bad_bucket_char(s) == first_bad_bucket_char(s.take(i)),
    decreases s.len() - i,
{
    if i < s.len() {
        lemma_first_bad_bucket_char_step(s, i);
        lemma_first_bad_bucket_char_extends(s, i + 1);
    } else {
        assert(s.take(i) =~= s);
    }
}

/// The string splits on `.` into four parts that each parse as a `u8`.
pub open spec fn looks_like_ip(s: Seq<char>) -> bool {
    let parts = split_on(s, '.');
    parts.len() == 4 && forall|i: int| 0 <= i < 4 ==> (#[trigger] parse_u8_spec(parts[i])) is Some
}

/// The error that bucket-name validation reports for `s`, checked in order; `None` when
/// `s` is a valid bucket name.
pub open spec fn bucket_name_error(s: Seq<char>) -> Option<ValidationErrorView> {
    let n = byte_len(s);
    if n < 3 {
        Some(ValidationErrorView::BucketNameTooShort { actual: n, min: 3 })
    } else if n > 63 {
        Some(ValidationErrorView::BucketNameTooLong { actual: n, max: 63 })
    } else if !(s.len() > 0 && bucket_edge_char(s[0])) {
        Some(ValidationErrorView::BucketNameInvalidStart)
    } else if !bucket_edge_char(s.last()) {
        Some(ValidationErrorView::BucketNameInvalidEnd)
    } else if first_bad_bucket_char(s) is Some {
        Some(ValidationErrorView::BucketNameInvalidCharacter(first_bad_bucket_char(s)->0))
    } else if contains_seq(s, seq!['-', '-']) {
        Some(ValidationErrorView::BucketNameConsecutiveHyphens)
    } else if looks_like_ip(s) {
        Some(ValidationErrorView::BucketNameLooksLikeIpAddress)
    } else {
        None
    }
}

/// A validated bucket name.
#[derive(Debug, PartialEq, Eq, Hash)]
pub struct BucketName(String);

impl View for BucketName {
    type V = Seq<char>;

    closed spec fn view(&self) -> Seq<char> {
        self.0@
    }
}

impl Clone for BucketName {
    fn clone(&self) -> (r: Self)
        ensures
            r == *self,
    {
        BucketName(self.0.clone())
    }
}

/// Splits a character slice on a delimiter.
pub fn split_chars(v: &[char], d: char) -> (parts: Vec<Vec<char>>)
    ensures
        parts@.len() == split_on(v@, d).len(),
        forall|k: int| 0 <= k < parts@.len() ==> (#[trigger] parts@[k])@ == split_on(v@, d)[k],
{
    let mut done: Vec<Vec<char>> = Vec::new();
    let mut current: Vec<char> = Vec::new();
    let mut i: usize = 0;
    assert(v@.take(0) =~= Seq::<char>::empty());
    while i < v.len()
        invariant
            i <= v.len(),
            split_on(v@.take(i as int), d).len() == done@.len() + 1,
            forall|k: int|
                0 <= k < done@.len() ==> (#[trigger] done@[k])@ == split_on(v@.take(i as int), d)[k],
            current@ == split_on(v@.take(i as int), d)[done@.len() as int],
        decreases v.len() - i,
    {
        let ghost before = split_on(v@.take(i as int), d);
        assert(v@.take(i + 1).drop_last() =~= v@.take(i as int));
        assert(v@.take(i + 1).last() == v@[i as int]);
        if v[i] == d {
            let finished = current;
            done.push(finished);
            current = Vec::new();
        } else {
            current.push(v[i]);
        }
        i = i + 1;
    }
    done.push(current);
    assert(v@.take(v.len() as int) =~= v@);
    done
}

proof fn lemma_digits_value_prefix(s: Seq<char>, i: int)
    requires
        0 <= i <= s.len(),
        all_digits(s),
    ensures
        digits_value(s.take(i)) <= digits_value(s),
    decreases s.len() - i,
{
    if i < s.len() {
        lemma_digits_value_prefix(s, i + 1);
        assert(s.take(i + 1).drop_last() =~= s.take(i));
        assert(s.take(i + 1).last() == s[i]);
        assert(is_digit(s[i]));
    } else {
        assert(s.take(i) =~= s);
    }
}

/// Whether `str::parse::<u8>` accepts the string.
pub fn parses_as_u8(s: &[char]) -> (b: bool)
    ensures
        b == (parse_u8_spec(s@) is Some),
{
    let start: usize = if s.len() > 0 && s[0] == '+' {
        1
    } else {
        0
    };
    let ghost body = if s@.len() > 0 && s@[0] == '+' {
        s@.drop_first()
    } else {
        s@
    };
    assert(body =~= s@.subrange(start as int, s.len() as int));
    if start >= s.len() {
        return false;
    }
    let mut value: u32 = 0;
    let mut i: usize = start;
    while i < s.len()
        invariant
            start <= i <= s.len(),
            body == (if s@.len() > 0 && s@[0] == '+' { s@.drop_first() } else { s@ }),
            body =~= s@.subrange(start as int, s.len() as int),
            all_digits(body.take(i - start)),
            value == digits_value(body.take(i - start)),
            value < 256,
        decreases s.len() - i,
    {
        let c = s[i];
        let ghost k = i - start;
        assert(body.take(k + 1).drop_last() =~= body.take(k));
        assert(body[k] == c);
        assert(body.take(k + 1).last() == c);
        if !('0' <= c && c <= '9') {
            assert(!is_digit(body[k]));
            assert(!all_digits(body));
            return false;
        }
        value = value * 10 + ((c as u32) - ('0' as u32));
        assert(all_digits(body.take(k + 1))) by {
            assert forall|j: int| 0 <= j < k + 1 implies is_digit(#[trigger] body.take(k + 1)[j]) by {
                if j < k {
                    assert(body.take(k + 1)[j] == body.take(k)[j]);
                }
            }
        }
        if value >= 256 {
            proof {
                if all_digits(body) {
                    lemma_digits_value_prefix(body, k + 1);
                }
            }
            return false;
        }
        i = i + 1;
    }
    assert(body.take(s.len() - start) =~= body);
    true
}

/// Whether the name looks like a dotted IPv4 address.
fn looks_like_ip_address(s: &[char]) -> (b: bool)
    ensures
        b == looks_like_ip(s@),
{
    let parts = split_chars(s, '.');
    if parts.len() != 4 {
        return false;
    }
    let mut i: usize = 0;
    while i < 4
        invariant
            i <= 4,
            parts.len() == 4,
            forall|k: int| 0 <= k < 4 ==> (#[trigger] parts@[k])@ == split_on(s@, '.')[k],
            forall|j: int| 0 <= j < i ==> (#[trigger] parse_u8_spec(split_on(s@, '.')[j])) is Some,
        decreases 4 - i,
    {
        assert(parts@[i as int]@ == split_on(s@, '.')[i as int]);
        if !parses_as_u8(parts[i].as_slice()) {
            return false;
        }
        i = i + 1;
    }
    true
}

impl BucketName {
    /// Creates a bucket name, checking the S3 naming rules in order: length between 3 and
    /// 63 bytes, a lowercase letter or digit at both ends, only lowercase letters, digits and
    /// hyphens, no `--`, not shaped like an IP address.
    pub fn new(value: String) -> (r: Result<BucketName, ValidationError>)
        ensures
            match bucket_name_error(value@) {
                Some(e) => r matches Err(err) && err@ == e,
                None => r matches Ok(b) && b@ == value@,
            },
    {
        let n = value.as_str().len();
        let chars = chars_of(value.as_str());
        assert(n == byte_len(value@));
        if n < 3 {
            return Err(ValidationError::BucketNameTooShort { actual: n, min: 3 });
        }
        if n > 63 {
            return Err(ValidationError::BucketNameTooLong { actual: n, max: 63 });
        }
        if !(chars.len() > 0 && is_bucket_edge_char(chars[0])) {
            return Err(ValidationError::BucketNameInvalidStart);
        }
        if !is_bucket_edge_char(chars[chars.len() - 1]) {
            return Err(ValidationError::BucketNameInvalidEnd);
        }
        let mut i: usize = 0;
        assert(chars@.take(0) =~= Seq::<char>::empty());
        while i < chars.len()
            invariant
                i <= chars.len(),
                chars@ == value@,
                3 <= byte_len(value@) <= 63,
                n == byte_len(value@),
                chars@.len() > 0 && bucket_edge_char(chars@[0]),
                bucket_edge_char(chars@.last()),
                first_bad_bucket_char(chars@.take(i as int)) is None,
            decreases chars.len() - i,
        {
            proof {
                lemma_first_bad_bucket_char_step(chars@, i as int);
            }
            let c = chars[i];
            if !(('a' <= c && c <= 'z') || ('0' <= c && c <= '9') || c == '-') {
                proof {
                    lemma_first_bad_bucket_char_extends(chars@, i as int + 1);
                }
                return Err(ValidationError::BucketNameInvalidCharacter(c));
            }
            i = i + 1;
        }
        assert(chars@.take(chars.len() as int) =~= chars@);
        let hyphens = ['-', '-'];
        assert(hyphens@ =~= seq!['-', '-']);
        if slice_contains(chars.as_slice(), &hyphens) {
            return Err(ValidationError::BucketNameConsecutiveHyphens);
        }
        if looks_like_ip_address(chars.as_slice()) {
            return Err(ValidationError::BucketNameLooksLikeIpAddress);
        }
        Ok(BucketName(value))
    }

    /// The bucket name as a string slice.
    pub fn as_str(&self) -> (r: &str)
        ensures
            r@ == self@,
    {
        self.0.as_str()
    }
}

fn is_bucket_edge_char(c: char) -> (b: bool)
    ensures
        b == bucket_edge_char(c),
{
    ('a' <= c && c <= 'z') || ('0' <= c && c <= '9')
}

// ---------------------------------------------------------------------------
// Object keys
// ---------------------------------------------------------------------------

/// The error that object-key validation reports for `s`; `None` when `s` is a valid key.
pub open spec fn object_key_error(s: Seq<char>) -> Option<ValidationErrorView> {
    if s.len() == 0 {
        Some(ValidationErrorView::EmptyObjectKey)
    } else if byte_len(s) > 1024 {
        Some(ValidationErrorView::ObjectKeyTooLong { actual: byte_len(s), max: 1024 })
    } else if s.contains('\0') {
        Some(ValidationErrorView::InvalidObjectKeyCharacter('\0'))
    } else if has_prefix(s, seq!['/']) {
        Some(ValidationErrorView::ObjectKeyStartsWithSlash)
    } else if contains_seq(s, seq!['/', '/']) {
        Some(ValidationErrorView::ObjectKeyContainsDoubleSlash)
    } else {
        None
    }
}

/// A valid object key.
pub open spec fn valid_object_key(s: Seq<char>) -> bool {
    object_key_error(s) is None
}

/// A validated object key (path) in the storage system.
#[derive(Debug, PartialEq, Eq, Hash)]
pub struct ObjectKey(String);

impl View for ObjectKey {
    type V = Seq<char>;

    closed spec fn view(&self) -> Seq<char> {
        self.0@
    }
}

impl Clone for ObjectKey {
    fn clone(&self) -> (r: Self)
        ensures
            r == *self,
    {
        ObjectKey(self.0.clone())
    }
}

/// The key joined with a suffix, with a `/` between them unless one is already there.
pub open spec fn joined_key(key: Seq<char>, suffix: Seq<char>) -> Seq<char> {
    if !has_suffix(key, seq!['/']) && !has_prefix(suffix, seq!['/']) {
        key.push('/') + suffix
    } else {
        key + suffix
    }
}

impl ObjectKey {
    /// Creates an object key: non-empty, at most 1024 bytes, no NUL character, no leading
    /// `/` and no `//`.
    pub fn new(value: String) -> (r: Result<ObjectKey, ValidationError>)
        ensures
            match object_key_error(value@) {
                Some(e) => r matches Err(err) && err@ == e,
                None => r matches Ok(k) && k@ == value@,
            },
    {
        let chars = chars_of(value.as_str());
        if chars.len() == 0 {
            return Err(ValidationError::EmptyObjectKey);
        }
        let n = value.as_str().len();
        if n > 1024 {
            return Err(ValidationError::ObjectKeyTooLong { actual: n, max: 1024 });
        }
        if slice_contains_char(chars.as_slice(), '\0') {
            return Err(ValidationError::InvalidObjectKeyCharacter('\0'));
        }
        let slash = ['/'];
        assert(slash@ =~= seq!['/']);
        if slice_starts_with(chars.as_slice(), &slash) {
            return Err(ValidationError::ObjectKeyStartsWithSlash);
        }
        let double_slash = ['/', '/'];
        assert(double_slash@ =~= seq!['/', '/']);
        if slice_contains(chars.as_slice(), &double_slash) {
            return Err(ValidationError::ObjectKeyContainsDoubleSlash);
        }
        Ok(ObjectKey(value))
    }

    /// The key as a string slice.
    pub fn as_str(&self) -> (r: &str)
        ensures
            r@ == self@,
    {
        self.0.as_str()
    }

    /// Everything before the last `/`, if the key has one.
    pub fn parent(&self) -> (r: Option<String>)
        ensures
            match last_index_of(self@, '/') {
                Some(i) => r matches Some(p) && p@ == self@.take(i),
                None => r is None,
            },
    {
        let chars = chars_of(self.0.as_str());
        match slice_last_index_of(chars.as_slice(), '/') {
            Some(i) => {
                proof {
                    lemma_last_index_in_bounds(self@, '/');
                }
                let p = string_from_subrange(chars.as_slice(), 0, i);
                assert(chars@.subrange(0, i as int) =~= self@.take(i as int));
                Some(p)
            },
            None => None,
        }
    }

    /// Everything after the last `/` (the whole key when it has none).
    pub fn file_name(&self) -> (r: String)
        ensures
            match last_index_of(self@, '/') {
                Some(i) => r@ == self@.subrange(i + 1, self@.len() as int),
                None => r@ == self@,
            },
    {
        let chars = chars_of(self.0.as_str());
        match slice_last_index_of(chars.as_slice(), '/') {
            Some(i) => {
                proof {
                    lemma_last_index_in_bounds(self@, '/');
                }
                assert(chars@ == self@);
                assert(i < chars.len());
                let r = string_from_subrange(chars.as_slice(), i + 1, chars.len());
                r
            },
            None => self.0.clone(),
        }
    }

    /// Whether the key starts with `prefix`.
    pub fn has_prefix(&self, prefix: &str) -> (b: bool)
        ensures
            b == has_prefix(self@, prefix@),
    {
        let chars = chars_of(self.0.as_str());
        let p = chars_of(prefix);
        slice_starts_with(chars.as_slice(), p.as_slice())
    }

    /// The key joined with `suffix` (with a `/` between unless one side has it), validated
    /// as a new key.
    pub fn join(&self, suffix: &str) -> (r: Result<ObjectKey, ValidationError>)
        ensures
            match object_key_error(joined_key(self@, suffix@)) {
                Some(e) => r matches Err(err) && err@ == e,
                None => r matches Ok(k) && k@ == joined_key(self@, suffix@),
            },
    {
        let mut new_key = self.0.clone();
        let key_chars = chars_of(self.0.as_str());
        let suffix_chars = chars_of(suffix);
        let slash = ['/'];
        assert(slash@ =~= seq!['/']);
        if !slice_ends_with(key_chars.as_slice(), &slash) && !slice_starts_with(
            suffix_chars.as_slice(),
            &slash,
        ) {
            push_char(&mut new_key, '/');
        }
        push_str(&mut new_key, suffix);
        ObjectKey::new(new_key)
    }
}

pub proof fn lemma_last_index_in_bounds(s: Seq<char>, c: char)
    ensures
        last_index_of(s, c) matches Some(i) ==> 0 <= i < s.len() && s[i] == c,
    decreases s.len(),
{
    if s.len() > 0 && s.last() != c {
        lemma_last_index_in_bounds(s.drop_last(), c);
    }
}

// ---------------------------------------------------------------------------
// Version ids
// ---------------------------------------------------------------------------

/// What `char::is_alphanumeric` returns for a non-ASCII `c` (Unicode alphabetic or numeric).
pub uninterp spec fn unicode_alphanumeric(c: char) -> bool;

/// `char::is_alphanumeric`: for ASCII characters, the letters and digits.
pub open spec fn alphanumeric(c: char) -> bool {
    if (c as u32) < 128 {
        is_lower(c) || is_upper(c) || is_digit(c)
    } else {
        unicode_alphanumeric(c)
    }
}

/// `char::is_alphanumeric`. For ASCII characters the standard library documents it as the
/// letters and digits; for other characters the Unicode tables are left unsaid.
#[verifier::external_body]
fn is_alphanumeric(c: char) -> (b: bool)
    ensures
        (c as u32) < 128 ==> (b <==> (is_lower(c) || is_upper(c) || is_digit(c))),
        (c as u32) >= 128 ==> b == unicode_alphanumeric(c),
{
    c.is_alphanumeric()
}

/// A character allowed in a version id.
pub open spec fn version_id_char(c: char) -> bool {
    alphanumeric(c) || c == '-' || c == '_' || c == '.'
}

/// The first character of `s` that may not appear in a version id.
pub open spec fn first_bad_version_char(s: Seq<char>) -> Option<char>
    decreases s.len(),
{
    if s.len() == 0 {
        None
    } else {
        match first_bad_version_char(s.drop_last()) {
            Some(c) => Some(c),
            None => if version_id_char(s.last()) {
                None
            } else {
                Some(s.last())
            },
        }
    }
}

proof fn lemma_first_bad_version_char_step(s: Seq<char>, i: int)
    requires
        0 <= i < s.len(),
    ensures
        first_bad_version_char(s.take(i + 1)) == (match first_bad_version_char(s.take(i)) {
            Some(c) => Some(c),
            None => if version_id_char(s[i]) {
                None
            } else {
                Some(s[i])
            },
        }),
{
    assert(s.take(i + 1).drop_last() =~= s.take(i));
}

proof fn lemma_first_bad_version_char_extends(s: Seq<char>, i: int)
    requires
        0 <= i <= s.len(),
        first_bad_version_char(s.take(i)) is Some,
    ensures
        first_bad_version_char(s) == first_bad_version_char(s.take(i)),
    decreases s.len() - i,
{
    if i < s.len() {
        lemma_first_bad_version_char_step(s, i);
        lemma_first_bad_version_char_extends(s, i + 1);
    } else {
        assert(s.take(i) =~= s);
    }
}

/// The error that version-id validation reports for `s`; `None` when `s` is valid.
pub open spec fn version_id_error(s: Seq<char>) -> Option<ValidationErrorView> {
    if s.len() == 0 {
        Some(ValidationErrorView::EmptyVersionId)
    } else if byte_len(s) > 1024 {
        Some(ValidationErrorView::VersionIdTooLong { actual: byte_len(s), max: 1024 })
    } else if first_bad_version_char(s) is Some {
        Some(ValidationErrorView::InvalidVersionIdCharacter(first_bad_version_char(s)->0))
    } else {
        None
    }
}

/// A unique identifier for an object version.
#[derive(Debug, PartialEq, Eq, Hash)]
pub struct VersionId(String);

impl View for VersionId {
    type V = Seq<char>;

    closed spec fn view(&self) -> Seq<char> {
        self.0@
    }
}

impl Clone for VersionId {
    fn clone(&self) -> (r: Self)
        ensures
            r == *self,
    {
        VersionId(self.0.clone())
    }
}

/// The wall clock as seconds since the Unix epoch and the nanoseconds within that second
/// (`SystemTime::now` measured from `UNIX_EPOCH`; a clock set before the epoch reads as 0).
#[verifier::external_body]
pub(crate) fn unix_clock() -> (r: (u64, u32))
    ensures
        r.1 < 1_000_000_000,
{
    match std::time::SystemTime::now().duration_since(std::time::UNIX_EPOCH) {
        Ok(d) => (d.as_secs(), d.subsec_nanos()),
        Err(_) => (0, 0),
    }
}

/// The mixing step applied to the clock's nanoseconds for the random part of a version id.
pub open spec fn mix_nanos(nanos: u32) -> u32 {
    vstd::wrapping::u32_specs::wrapping_add(
        vstd::wrapping::u32_specs::wrapping_mul(nanos, 1664525),
        1013904223,
    )
}

/// The shape of a generated version id: the timestamp in microseconds in hexadecimal,
/// a dash, and the mixed nanoseconds as eight hexadecimal digits.
pub open spec fn generated_version_id(micros: nat, nanos: u32) -> Seq<char> {
    hex(micros) + seq!['-'] + zero_pad(hex(mix_nanos(nanos) as nat), 8)
}

/// Every character is an ASCII character allowed in a version id.
spec fn ascii_id_chars(s: Seq<char>) -> bool {
    forall|i: int| 0 <= i < s.len() ==> version_id_char(#[trigger] s[i]) && '\0' <= s[i] <= '\u{7f}'
}

proof fn lemma_ascii_id_chars_concat(a: Seq<char>, b: Seq<char>)
    requires
        ascii_id_chars(a),
        ascii_id_chars(b),
    ensures
        ascii_id_chars(a + b),
{
    assert forall|i: int| 0 <= i < (a + b).len() implies version_id_char(#[trigger] (a + b)[i])
        && '\0' <= (a + b)[i] <= '\u{7f}' by {
        if i < a.len() {
            assert((a + b)[i] == a[i]);
        } else {
            assert((a + b)[i] == b[i - a.len()]);
        }
    }
}

proof fn lemma_hex_ascii(n: nat)
    ensures
        ascii_id_chars(hex(n)),
        1 <= hex(n).len(),
    decreases n,
{
    if n >= 16 {
        lemma_hex_ascii(n / 16);
        assert(ascii_id_chars(seq![hex_char(n % 16)]));
        lemma_ascii_id_chars_concat(hex(n / 16), seq![hex_char(n % 16)]);
        assert(hex(n / 16) + seq![hex_char(n % 16)] =~= hex(n));
    }
}

proof fn lemma_zero_pad_ascii(s: Seq<char>, w: nat)
    requires
        ascii_id_chars(s),
    ensures
        ascii_id_chars(zero_pad(s, w)),
        zero_pad(s, w).len() == if s.len() >= w { s.len() } else { w },
{
    if s.len() < w {
        let z = Seq::new((w - s.len()) as nat, |i: int| '0');
        assert(ascii_id_chars(z)) by {
            assert forall|i: int| 0 <= i < z.len() implies version_id_char(#[trigger] z[i])
                && '\0' <= z[i] <= '\u{7f}' by {
                assert(z[i] == '0');
            }
        }
        lemma_ascii_id_chars_concat(z, s);
    }
}

spec fn pow16(k: nat) -> nat
    decreases k,
{
    if k == 0 {
        1
    } else {
        16 * pow16((k - 1) as nat)
    }
}

proof fn lemma_hex_len_bound(n: nat, k: nat)
    requires
        1 <= k,
        n < pow16(k),
    ensures
        hex(n).len() <= k,
    decreases k,
{
    if n >= 16 {
        if k == 1 {
            assert(pow16(1) == 16 * pow16(0));
        } else {
            assert(n / 16 < pow16((k - 1) as nat));
            lemma_hex_len_bound(n / 16, (k - 1) as nat);
        }
    }
}

/// A generated version id passes version-id validation.
pub proof fn lemma_generated_version_id_valid(micros: nat, nanos: u32)
    requires
        micros < 0x1_0000_0000_0000_0000_0000_0000_0000_0000,
    ensures
        version_id_error(generated_version_id(micros, nanos)) is None,
{
    let g = generated_version_id(micros, nanos);
    let h = hex(mix_nanos(nanos) as nat);
    lemma_hex_ascii(micros);
    lemma_hex_ascii(mix_nanos(nanos) as nat);
    assert(pow16(32) == 0x1_0000_0000_0000_0000_0000_0000_0000_0000) by {
        reveal_with_fuel(pow16, 33);
    }
    lemma_hex_len_bound(micros, 32);
    assert(pow16(8) == 0x1_0000_0000) by {
        reveal_with_fuel(pow16, 9);
    }
    lemma_hex_len_bound(mix_nanos(nanos) as nat, 8);
    lemma_zero_pad_ascii(h, 8);
    assert(ascii_id_chars(seq!['-']));
    lemma_ascii_id_chars_concat(hex(micros), seq!['-']);
    lemma_ascii_id_chars_concat(hex(micros) + seq!['-'], zero_pad(h, 8));
    assert(vstd::utf8::is_ascii_chars(g));
    vstd::utf8::is_ascii_chars_encode_utf8(g);
    lemma_ascii_id_chars_first_bad(g);
}

proof fn lemma_ascii_id_chars_first_bad(s: Seq<char>)
    requires
        ascii_id_chars(s),
    ensures
        first_bad_version_char(s) is None,
    decreases s.len(),
{
    if s.len() > 0 {
        assert(ascii_id_chars(s.drop_last())) by {
            assert forall|i: int| 0 <= i < s.len() - 1 implies version_id_char(
                #[trigger] s.drop_last()[i],
            ) && '\0' <= s.drop_last()[i] <= '\u{7f}' by {
                assert(s.drop_last()[i] == s[i]);
            }
        }
        lemma_ascii_id_chars_first_bad(s.drop_last());
        assert(version_id_char(s[s.len() - 1]));
    }
}

/// A string of 1 to 1024 ASCII letters, digits, `-`, `_` and `.` is a valid version id.
pub proof fn lemma_plain_version_id_valid(s: Seq<char>)
    requires
        0 < s.len() <= 1024,
        forall|i: int|
            0 <= i < s.len() ==> (is_digit(#[trigger] s[i]) || is_lower(s[i]) || is_upper(s[i])
                || s[i] == '-' || s[i] == '_' || s[i] == '.'),
    ensures
        version_id_error(s) is None,
{
    assert(ascii_id_chars(s));
    assert(vstd::utf8::is_ascii_chars(s));
    vstd::utf8::is_ascii_chars_encode_utf8(s);
    lemma_ascii_id_chars_first_bad(s);
}

/// A string of 1 to 1024 lowercase ASCII letters is a valid object key.
pub proof fn lemma_lowercase_object_key_valid(s: Seq<char>)
    requires
        0 < s.len() <= 1024,
        forall|i: int| 0 <= i < s.len() ==> is_lower(#[trigger] s[i]),
    ensures
        object_key_error(s) is None,
{
    assert(vstd::utf8::is_ascii_chars(s));
    vstd::utf8::is_ascii_chars_encode_utf8(s);
    assert(!s.contains('\0')) by {
        if s.contains('\0') {
            let i = choose|i: int| 0 <= i < s.len() && s[i] == '\0';
            assert(is_lower(s[i]));
        }
    }
    assert(!has_prefix(s, seq!['/'])) by {
        assert(is_lower(s[0]));
        assert(s.subrange(0, 1)[0] == s[0]);
        assert(seq!['/'][0] == '/');
    }
    assert(!contains_seq(s, seq!['/', '/'])) by {
        if contains_seq(s, seq!['/', '/']) {
            let i = choose|i: int| crate::text::occurs_at(s, seq!['/', '/'], i);
            assert(s.subrange(i, i + 2)[0] == s[i]);
            assert(is_lower(s[i]));
        }
    }
}

/// `n` as exactly eight hexadecimal digits, left-padded with zeros.
fn padded_hex8(n: u32) -> (r: String)
    ensures
        r@ == zero_pad(hex(n as nat), 8),
{
    let mut digits = String::new();
    push_hex(&mut digits, n as u128);
    let dl = chars_of(digits.as_str()).len();
    let ghost h = hex(n as nat);
    assert(digits@ =~= h);
    let mut s = String::new();
    let mut pad: usize = dl;
    assert(s@ =~= Seq::new(0nat, |i: int| '0'));
    while pad < 8
        invariant
            dl <= pad,
            pad < 8 ==> pad <= 8,
            dl == h.len(),
            pad > 8 ==> pad == dl,
            s@ == Seq::new((pad - dl) as nat, |i: int| '0'),
        decreases 8 - pad,
    {
        push_char(&mut s, '0');
        assert(Seq::new((pad - dl) as nat, |i: int| '0').push('0') =~= Seq::new(
            (pad + 1 - dl) as nat,
            |i: int| '0',
        ));
        pad = pad + 1;
    }
    push_str(&mut s, digits.as_str());
    if dl >= 8 {
        assert(s@ =~= h);
    } else {
        assert(pad == 8);
        assert(s@ =~= zero_pad(h, 8));
    }
    s
}

impl VersionId {
    /// Creates a version id: non-empty, at most 1024 bytes, only alphanumeric characters,
    /// `-`, `_` and `.`.
    pub fn new(value: String) -> (r: Result<VersionId, ValidationError>)
        ensures
            match version_id_error(value@) {
                Some(e) => r matches Err(err) && err@ == e,
                None => r matches Ok(v) && v@ == value@,
            },
    {
        let chars = chars_of(value.as_str());
        if chars.len() == 0 {
            return Err(ValidationError::EmptyVersionId);
        }
        let n = value.as_str().len();
        assert(n == byte_len(value@));
        if n > 1024 {
            return Err(ValidationError::VersionIdTooLong { actual: n, max: 1024 });
        }
        let mut i: usize = 0;
        assert(chars@.take(0) =~= Seq::<char>::empty());
        while i < chars.len()
            invariant
                i <= chars.len(),
                chars@ == value@,
                chars@.len() > 0,
                byte_len(value@) <= 1024,
                first_bad_version_char(chars@.take(i as int)) is None,
            decreases chars.len() - i,
        {
            proof {
                lemma_first_bad_version_char_step(chars@, i as int);
            }
            let c = chars[i];
            if !is_alphanumeric(c) && c != '-' && c != '_' && c != '.' {
                proof {
                    lemma_first_bad_version_char_extends(chars@, i as int + 1);
                }
                return Err(ValidationError::InvalidVersionIdCharacter(c));
            }
            i = i + 1;
        }
        assert(chars@.take(chars.len() as int) =~= chars@);
        Ok(VersionId(value))
    }

    /// Generates a new version id from the clock: the current time in microseconds in
    /// hexadecimal, a dash, and eight hexadecimal digits mixed from a second clock reading.
    pub fn generate() -> (r: VersionId)
        ensures
            exists|micros: nat, nanos: u32| r@ == generated_version_id(micros, nanos),
            version_id_error(r@) is None,
    {
        let (secs, nanos) = unix_clock();
        let micros: u128 = (secs as u128) * 1_000_000 + (nanos as u128) / 1000;
        let (random, Ghost(seen)) = Self::simple_random();
        let mut s = String::new();
        push_hex(&mut s, micros);
        push_char(&mut s, '-');
        let tail = padded_hex8(random);
        push_str(&mut s, tail.as_str());
        assert(s@ =~= generated_version_id(micros as nat, seen));
        proof {
            lemma_generated_version_id_valid(micros as nat, seen);
        }
        VersionId(s)
    }

    /// The version id as a string slice.
    pub fn as_str(&self) -> (r: &str)
        ensures
            r@ == self@,
    {
        self.0.as_str()
    }

    /// A pseudo-random number mixed from the nanoseconds of the clock, with the reading
    /// it was mixed from.
    fn simple_random() -> (r: (u32, Ghost<u32>))
        ensures
            r.0 == mix_nanos(r.1@),
    {
        let (_, nanos) = unix_clock();
        let r = nanos.wrapping_mul(1664525).wrapping_add(1013904223);
        (r, Ghost(nanos))
    }
}

} // verus!
