use vstd::prelude::*;
use vstd::string::*;

use quick_xml::events::Event;

use crate::store_error::{status_code_text, status_display, StoreError};
use crate::text::{chars_of, concat_str, decimal, is_digit, push_char, push_decimal, push_str, str_eq};
use crate::time::{utc_rfc3339, utc_rfc3339_text, UtcTime};

verus! {

/// MinIO's lifecycle configuration of a bucket.
#[derive(Debug)]
pub struct MinioLifecycleConfig {
    pub rules: Vec<MinioLifecycleRule>,
}

/// A MinIO lifecycle rule.
#[derive(Debug)]
pub struct MinioLifecycleRule {
    pub id: String,
    pub status: bool,
    pub filter: MinioFilter,
    pub abort_incomplete_multipart_upload_days_after_initiation: Option<usize>,
    pub expiration_date: Option<UtcTime>,
    pub expiration_days: Option<usize>,
    pub expiration_expired_object_delete_marker: Option<bool>,
    pub noncurrent_version_expiration_noncurrent_days: Option<usize>,
    pub noncurrent_version_transition_noncurrent_days: Option<usize>,
    pub noncurrent_version_transition_storage_class: Option<String>,
    pub transition_date: Option<UtcTime>,
    pub transition_days: Option<usize>,
    pub transition_storage_class: Option<String>,
}

/// A MinIO rule filter.
#[derive(Debug)]
pub struct MinioFilter {
    pub prefix: Option<String>,
    pub tag: Option<String>,
    pub and: Option<String>,
}

impl Default for MinioFilter {
    fn default() -> (r: Self)
        ensures
            r.prefix is None,
            r.tag is None,
            r.and is None,
    {
        MinioFilter { prefix: None, tag: None, and: None }
    }
}

impl Default for MinioLifecycleConfig {
    fn default() -> (r: Self)
        ensures
            r.rules@.len() == 0,
    {
        MinioLifecycleConfig { rules: Vec::new() }
    }
}

/// The view of an optional string.
pub open spec fn ostr(s: Option<String>) -> Option<Seq<char>> {
    match s {
        Some(x) => Some(x@),
        None => None,
    }
}

/// A plain model of a MinIO rule.
pub struct MinioRuleModel {
    pub id: Seq<char>,
    pub status: bool,
    pub prefix: Option<Seq<char>>,
    pub tag: Option<Seq<char>>,
    pub and: Option<Seq<char>>,
    pub abort_days: Option<usize>,
    pub expiration_date: Option<UtcTime>,
    pub expiration_days: Option<usize>,
    pub expired_object_delete_marker: Option<bool>,
    pub noncurrent_expiration_days: Option<usize>,
    pub noncurrent_transition_days: Option<usize>,
    pub noncurrent_transition_storage_class: Option<Seq<char>>,
    pub transition_date: Option<UtcTime>,
    pub transition_days: Option<usize>,
    pub transition_storage_class: Option<Seq<char>>,
}

/// The model of a MinIO rule.
pub open spec fn rule_model(r: MinioLifecycleRule) -> MinioRuleModel {
    MinioRuleModel {
        id: r.id@,
        status: r.status,
        prefix: ostr(r.filter.prefix),
        tag: ostr(r.filter.tag),
        and: ostr(r.filter.and),
        abort_days: r.abort_incomplete_multipart_upload_days_after_initiation,
        expiration_date: r.expiration_date,
        expiration_days: r.expiration_days,
        expired_object_delete_marker: r.expiration_expired_object_delete_marker,
        noncurrent_expiration_days: r.noncurrent_version_expiration_noncurrent_days,
        noncurrent_transition_days: r.noncurrent_version_transition_noncurrent_days,
        noncurrent_transition_storage_class: ostr(r.noncurrent_version_transition_storage_class),
        transition_date: r.transition_date,
        transition_days: r.transition_days,
        transition_storage_class: ostr(r.transition_storage_class),
    }
}

/// The models of a list of MinIO rules.
pub open spec fn rule_models(v: Seq<MinioLifecycleRule>) -> Seq<MinioRuleModel> {
    v.map_values(|r: MinioLifecycleRule| rule_model(r))
}

/// The dates in the rule lie in range.
pub open spec fn minio_rule_wf(r: MinioRuleModel) -> bool {
    (match r.expiration_date {
        Some(t) => t.wf(),
        None => true,
    }) && (match r.transition_date {
        Some(t) => t.wf(),
        None => true,
    })
}

// ---------------------------------------------------------------------------
// Writing
// ---------------------------------------------------------------------------

/// The XML escape of one character, as `quick_xml::escape::escape` writes it.
pub open spec fn escape_char(c: char) -> Seq<char> {
    if c == '<' {
        "&lt;"@
    } else if c == '>' {
        "&gt;"@
    } else if c == '&' {
        "&amp;"@
    } else if c == '\'' {
        "&apos;"@
    } else if c == '"' {
        "&quot;"@
    } else {
        seq![c]
    }
}

/// The text with `<`, `>`, `&`, `'` and `"` replaced by their XML entities.
pub open spec fn xml_escape(s: Seq<char>) -> Seq<char>
    decreases s.len(),
{
    if s.len() == 0 {
        Seq::empty()
    } else {
        xml_escape(s.drop_last()) + escape_char(s.last())
    }
}

/// An element with the given name around the text.
pub open spec fn element(name: Seq<char>, text: Seq<char>) -> Seq<char> {
    "<"@ + name + ">"@ + text + "</"@ + name + ">"@
}

/// The element when there is a value, nothing otherwise.
pub open spec fn opt_element(name: Seq<char>, text: Option<Seq<char>>) -> Seq<char> {
    match text {
        Some(t) => element(name, t),
        None => Seq::empty(),
    }
}

/// The decimal text of an optional count.
pub open spec fn opt_count(n: Option<usize>) -> Option<Seq<char>> {
    match n {
        Some(d) => Some(decimal(d as nat)),
        None => None,
    }
}

/// The escaped RFC 3339 text of an optional date.
pub open spec fn opt_date(t: Option<UtcTime>) -> Option<Seq<char>> {
    match t {
        Some(d) => Some(xml_escape(utc_rfc3339_text(d.spec_secs() as i64, d.spec_nanos() as u32))),
        None => None,
    }
}

/// The escaped text of an optional string.
pub open spec fn opt_text(s: Option<Seq<char>>) -> Option<Seq<char>> {
    match s {
        Some(x) => Some(xml_escape(x)),
        None => None,
    }
}

/// `true` or `false`.
pub open spec fn bool_text(b: bool) -> Seq<char> {
    if b {
        "true"@
    } else {
        "false"@
    }
}

/// The `Expiration` element, written when the rule sets a date, days or the delete-marker
/// flag: days, date, then the flag.
#[verifier::opaque]
pub open spec fn expiration_xml(r: MinioRuleModel) -> Seq<char> {
    if r.expiration_date is Some || r.expiration_days is Some || r.expired_object_delete_marker
        is Some {
        element(
            "Expiration"@,
            opt_element("Days"@, opt_count(r.expiration_days)) + opt_element(
                "Date"@,
                opt_date(r.expiration_date),
            ) + opt_element(
                "ExpiredObjectDeleteMarker"@,
                match r.expired_object_delete_marker {
                    Some(b) => Some(bool_text(b)),
                    None => None,
                },
            ),
        )
    } else {
        Seq::empty()
    }
}

/// The `Transition` element, written when the rule sets a date, days or a storage class.
#[verifier::opaque]
pub open spec fn transition_xml(r: MinioRuleModel) -> Seq<char> {
    if r.transition_date is Some || r.transition_days is Some || r.transition_storage_class
        is Some {
        element(
            "Transition"@,
            opt_element("Days"@, opt_count(r.transition_days)) + opt_element(
                "Date"@,
                opt_date(r.transition_date),
            ) + opt_element("StorageClass"@, opt_text(r.transition_storage_class)),
        )
    } else {
        Seq::empty()
    }
}

/// The `NoncurrentVersionExpiration` element, written when the rule sets its days.
#[verifier::opaque]
pub open spec fn noncurrent_expiration_xml(r: MinioRuleModel) -> Seq<char> {
    if r.noncurrent_expiration_days is Some {
        element(
            "NoncurrentVersionExpiration"@,
            opt_element("NoncurrentDays"@, opt_count(r.noncurrent_expiration_days)),
        )
    } else {
        Seq::empty()
    }
}

/// The `NoncurrentVersionTransition` element, written when the rule sets its days or
/// storage class.
#[verifier::opaque]
pub open spec fn noncurrent_transition_xml(r: MinioRuleModel) -> Seq<char> {
    if r.noncurrent_transition_days is Some || r.noncurrent_transition_storage_class is Some {
        element(
            "NoncurrentVersionTransition"@,
            opt_element("NoncurrentDays"@, opt_count(r.noncurrent_transition_days)) + opt_element(
                "StorageClass"@,
                opt_text(r.noncurrent_transition_storage_class),
            ),
        )
    } else {
        Seq::empty()
    }
}

/// The `AbortIncompleteMultipartUpload` element, written when the rule sets its days.
#[verifier::opaque]
pub open spec fn abort_xml(r: MinioRuleModel) -> Seq<char> {
    match r.abort_days {
        Some(d) => element(
            "AbortIncompleteMultipartUpload"@,
            element("DaysAfterInitiation"@, decimal(d as nat)),
        ),
        None => Seq::empty(),
    }
}

/// The `Rule` element: the id (when not empty), the status, the filter with its prefix,
/// then the expiration, transition, non-current version and multipart-upload elements.
pub open spec fn rule_xml(r: MinioRuleModel) -> Seq<char> {
    element(
        "Rule"@,
        (if r.id.len() > 0 {
            element("ID"@, xml_escape(r.id))
        } else {
            Seq::empty()
        }) + status_filter_xml(r) + expiration_xml(r)
            + transition_xml(r) + noncurrent_expiration_xml(r) + noncurrent_transition_xml(r)
            + abort_xml(r),
    )
}

/// The rules' elements one after the other.
pub open spec fn rules_xml(rules: Seq<MinioRuleModel>) -> Seq<char>
    decreases rules.len(),
{
    if rules.len() == 0 {
        Seq::empty()
    } else {
        rules_xml(rules.drop_last()) + rule_xml(rules.last())
    }
}

/// The XML declaration that starts the document.
pub open spec fn xml_declaration() -> Seq<char> {
    "<?xml version=\"1.0\" encoding=\"UTF-8\"?>"@
}

/// The XML document of a lifecycle configuration.
pub open spec fn config_xml(rules: Seq<MinioRuleModel>) -> Seq<char> {
    xml_declaration() + element("LifecycleConfiguration"@, rules_xml(rules))
}

/// Appends the XML escape of the text.
fn push_escaped(s: &mut String, text: &str)
    ensures
        final(s)@ == old(s)@ + xml_escape(text@),
{
    let chars = chars_of(text);
    let mut i: usize = 0;
    assert(chars@.take(0) =~= Seq::<char>::empty());
    assert(old(s)@ + xml_escape(Seq::<char>::empty()) =~= old(s)@);
    while i < chars.len()
        invariant
            i <= chars@.len(),
            chars@ == text@,
            s@ == old(s)@ + xml_escape(chars@.take(i as int)),
        decreases chars@.len() - i,
    {
        let c = chars[i];
        let ghost before = s@;
        assert(chars@.take(i + 1).drop_last() =~= chars@.take(i as int));
        assert(chars@.take(i + 1).last() == c);
        if c == '<' {
            push_str(s, "&lt;");
        } else if c == '>' {
            push_str(s, "&gt;");
        } else if c == '&' {
            push_str(s, "&amp;");
        } else if c == '\'' {
            push_str(s, "&apos;");
        } else if c == '"' {
            push_str(s, "&quot;");
        } else {
            push_char(s, c);
            assert(before.push(c) =~= before + seq![c]);
        }
        assert(s@ =~= old(s)@ + xml_escape(chars@.take(i + 1)));
        i = i + 1;
    }
    assert(chars@.take(chars@.len() as int) =~= chars@);
}

/// Appends `<name>`.
fn push_open(s: &mut String, name: &str)
    ensures
        final(s)@ == old(s)@ + "<"@ + name@ + ">"@,
{
    push_str(s, "<");
    push_str(s, name);
    push_str(s, ">");
}

/// Appends `</name>`.
fn push_close(s: &mut String, name: &str)
    ensures
        final(s)@ == old(s)@ + "</"@ + name@ + ">"@,
{
    push_str(s, "</");
    push_str(s, name);
    push_str(s, ">");
}

/// Appends an element around the escaped text.
fn push_text_element(s: &mut String, name: &str, text: &str)
    ensures
        final(s)@ == old(s)@ + element(name@, xml_escape(text@)),
{
    push_open(s, name);
    push_escaped(s, text);
    push_close(s, name);
}

/// Appends an element around the decimal of a count.
fn push_count_element(s: &mut String, name: &str, n: usize)
    ensures
        final(s)@ == old(s)@ + element(name@, decimal(n as nat)),
{
    push_open(s, name);
    push_decimal(s, n as u64);
    push_close(s, name);
}

/// Appends an element around the escaped RFC 3339 text of a date.
fn push_date_element(s: &mut String, name: &str, t: &UtcTime)
    requires
        t.wf(),
    ensures
        final(s)@ == old(s)@ + element(
            name@,
            xml_escape(utc_rfc3339_text(t.spec_secs() as i64, t.spec_nanos() as u32)),
        ),
{
    let text = utc_rfc3339(t);
    push_text_element(s, name, text.as_str());
}

/// Appends the element around the decimal of the count, if any.
fn push_opt_count(s: &mut String, name: &str, n: Option<usize>)
    ensures
        final(s)@ == old(s)@ + opt_element(name@, opt_count(n)),
{
    match n {
        Some(d) => push_count_element(s, name, d),
        None => {
            assert(old(s)@ + Seq::<char>::empty() =~= old(s)@);
        },
    }
}

/// Appends the element around the date, if any.
fn push_opt_date(s: &mut String, name: &str, t: &Option<UtcTime>)
    requires
        t matches Some(d) ==> d.wf(),
    ensures
        final(s)@ == old(s)@ + opt_element(name@, opt_date(*t)),
{
    match t {
        Some(d) => push_date_element(s, name, d),
        None => {
            assert(old(s)@ + Seq::<char>::empty() =~= old(s)@);
        },
    }
}

/// Appends the element around the escaped text, if any.
fn push_opt_text(s: &mut String, name: &str, t: &Option<String>)
    ensures
        final(s)@ == old(s)@ + opt_element(name@, opt_text(ostr(*t))),
{
    match t {
        Some(x) => push_text_element(s, name, x.as_str()),
        None => {
            assert(old(s)@ + Seq::<char>::empty() =~= old(s)@);
        },
    }
}

/// Appends the element around `true` or `false`, if any.
fn push_opt_bool(s: &mut String, name: &str, b: Option<bool>)
    ensures
        final(s)@ == old(s)@ + opt_element(
            name@,
            match b {
                Some(x) => Some(bool_text(x)),
                None => None,
            },
        ),
{
    match b {
        Some(x) => {
            push_open(s, name);
            push_str(s, if x {
                "true"
            } else {
                "false"
            });
            push_close(s, name);
        },
        None => {
            assert(old(s)@ + Seq::<char>::empty() =~= old(s)@);
        },
    }
}

/// Appends an element around content that the closure-free steps between `push_open` and
/// `push_close` wrote.
proof fn lemma_wrapped(before: Seq<char>, name: Seq<char>, inner: Seq<char>, after: Seq<char>)
    requires
        after == before + "<"@ + name + ">"@ + inner + "</"@ + name + ">"@,
    ensures
        after == before + element(name, inner),
{
    assert(after =~= before + element(name, inner));
}

/// Appends the `Expiration` element of the rule, if any.
fn push_expiration(s: &mut String, r: &MinioLifecycleRule)
    requires
        minio_rule_wf(rule_model(*r)),
    ensures
        final(s)@ == old(s)@ + expiration_xml(rule_model(*r)),
{
    proof {
        reveal(expiration_xml);
    }
    let ghost m = rule_model(*r);
    if r.expiration_date.is_some() || r.expiration_days.is_some()
        || r.expiration_expired_object_delete_marker.is_some() {
        push_open(s, "Expiration");
        let ghost a0 = s@;
        push_opt_count(s, "Days", r.expiration_days);
        let ghost a1 = s@;
        push_opt_date(s, "Date", &r.expiration_date);
        let ghost a2 = s@;
        push_opt_bool(s, "ExpiredObjectDeleteMarker", r.expiration_expired_object_delete_marker);
        let ghost a3 = s@;
        push_close(s, "Expiration");
        proof {
            let inner = a3.subrange(a0.len() as int, a3.len() as int);
            assert(a3 =~= a0 + inner);
            assert(inner =~= opt_element("Days"@, opt_count(m.expiration_days)) + opt_element(
                "Date"@,
                opt_date(m.expiration_date),
            ) + opt_element(
                "ExpiredObjectDeleteMarker"@,
                match m.expired_object_delete_marker {
                    Some(b) => Some(bool_text(b)),
                    None => None,
                },
            ));
            lemma_wrapped(old(s)@, "Expiration"@, inner, s@);
        }
    } else {
        assert(old(s)@ + Seq::<char>::empty() =~= old(s)@);
    }
}

/// Appends the `Transition` element of the rule, if any.
fn push_transition(s: &mut String, r: &MinioLifecycleRule)
    requires
        minio_rule_wf(rule_model(*r)),
    ensures
        final(s)@ == old(s)@ + transition_xml(rule_model(*r)),
{
    proof {
        reveal(transition_xml);
    }
    let ghost m = rule_model(*r);
    if r.transition_date.is_some() || r.transition_days.is_some()
        || r.transition_storage_class.is_some() {
        push_open(s, "Transition");
        let ghost a0 = s@;
        push_opt_count(s, "Days", r.transition_days);
        push_opt_date(s, "Date", &r.transition_date);
        push_opt_text(s, "StorageClass", &r.transition_storage_class);
        let ghost a3 = s@;
        push_close(s, "Transition");
        proof {
            let inner = a3.subrange(a0.len() as int, a3.len() as int);
            assert(a3 =~= a0 + inner);
            assert(inner =~= opt_element("Days"@, opt_count(m.transition_days)) + opt_element(
                "Date"@,
                opt_date(m.transition_date),
            ) + opt_element("StorageClass"@, opt_text(m.transition_storage_class)));
            lemma_wrapped(old(s)@, "Transition"@, inner, s@);
        }
    } else {
        assert(old(s)@ + Seq::<char>::empty() =~= old(s)@);
    }
}

/// Appends the `NoncurrentVersionExpiration` element of the rule, if any.
fn push_noncurrent_expiration(s: &mut String, r: &MinioLifecycleRule)
    ensures
        final(s)@ == old(s)@ + noncurrent_expiration_xml(rule_model(*r)),
{
    proof {
        reveal(noncurrent_expiration_xml);
    }
    let ghost m = rule_model(*r);
    if r.noncurrent_version_expiration_noncurrent_days.is_some() {
        push_open(s, "NoncurrentVersionExpiration");
        let ghost a0 = s@;
        push_opt_count(s, "NoncurrentDays", r.noncurrent_version_expiration_noncurrent_days);
        let ghost a1 = s@;
        push_close(s, "NoncurrentVersionExpiration");
        proof {
            let inner = a1.subrange(a0.len() as int, a1.len() as int);
            assert(a1 =~= a0 + inner);
            lemma_wrapped(old(s)@, "NoncurrentVersionExpiration"@, inner, s@);
        }
    } else {
        assert(old(s)@ + Seq::<char>::empty() =~= old(s)@);
    }
}

/// Appends the `NoncurrentVersionTransition` element of the rule, if any.
fn push_noncurrent_transition(s: &mut String, r: &MinioLifecycleRule)
    ensures
        final(s)@ == old(s)@ + noncurrent_transition_xml(rule_model(*r)),
{
    proof {
        reveal(noncurrent_transition_xml);
    }
    let ghost m = rule_model(*r);
    if r.noncurrent_version_transition_noncurrent_days.is_some()
        || r.noncurrent_version_transition_storage_class.is_some() {
        push_open(s, "NoncurrentVersionTransition");
        let ghost a0 = s@;
        push_opt_count(s, "NoncurrentDays", r.noncurrent_version_transition_noncurrent_days);
        push_opt_text(s, "StorageClass", &r.noncurrent_version_transition_storage_class);
        let ghost a2 = s@;
        push_close(s, "NoncurrentVersionTransition");
        proof {
            let inner = a2.subrange(a0.len() as int, a2.len() as int);
            assert(a2 =~= a0 + inner);
            assert(inner =~= opt_element("NoncurrentDays"@, opt_count(m.noncurrent_transition_days))
                + opt_element("StorageClass"@, opt_text(m.noncurrent_transition_storage_class)));
            lemma_wrapped(old(s)@, "NoncurrentVersionTransition"@, inner, s@);
        }
    } else {
        assert(old(s)@ + Seq::<char>::empty() =~= old(s)@);
    }
}

/// Appends the `AbortIncompleteMultipartUpload` element of the rule, if any.
fn push_abort(s: &mut String, r: &MinioLifecycleRule)
    ensures
        final(s)@ == old(s)@ + abort_xml(rule_model(*r)),
{
    proof {
        reveal(abort_xml);
    }
    if let Some(days) = r.abort_incomplete_multipart_upload_days_after_initiation {
        push_open(s, "AbortIncompleteMultipartUpload");
        let ghost a0 = s@;
        push_count_element(s, "DaysAfterInitiation", days);
        let ghost a1 = s@;
        push_close(s, "AbortIncompleteMultipartUpload");
        proof {
            let inner = a1.subrange(a0.len() as int, a1.len() as int);
            assert(a1 =~= a0 + inner);
            lemma_wrapped(old(s)@, "AbortIncompleteMultipartUpload"@, inner, s@);
        }
    } else {
        assert(old(s)@ + Seq::<char>::empty() =~= old(s)@);
    }
}

/// The `Status` and `Filter` elements of a rule.
pub open spec fn status_filter_xml(m: MinioRuleModel) -> Seq<char> {
    element(
        "Status"@,
        if m.status {
            "Enabled"@
        } else {
            "Disabled"@
        },
    ) + element("Filter"@, opt_element("Prefix"@, opt_text(m.prefix)))
}

/// Appends the `Status` and `Filter` elements of the rule.
fn push_status_filter(s: &mut String, r: &MinioLifecycleRule)
    ensures
        final(s)@ == old(s)@ + status_filter_xml(rule_model(*r)),
{
    let ghost m = rule_model(*r);
    push_open(s, "Status");
    let ghost a0 = s@;
    push_str(s, if r.status {
        "Enabled"
    } else {
        "Disabled"
    });
    let ghost a1 = s@;
    push_close(s, "Status");
    let ghost a2 = s@;
    proof {
        let inner = a1.subrange(a0.len() as int, a1.len() as int);
        assert(a1 =~= a0 + inner);
        assert(a2 =~= old(s)@ + "<"@ + "Status"@ + ">"@ + inner + "</"@ + "Status"@ + ">"@);
        lemma_wrapped(old(s)@, "Status"@, inner, a2);
    }
    push_open(s, "Filter");
    let ghost b0 = s@;
    push_opt_text(s, "Prefix", &r.filter.prefix);
    let ghost b1 = s@;
    push_close(s, "Filter");
    proof {
        let inner = b1.subrange(b0.len() as int, b1.len() as int);
        assert(b1 =~= b0 + inner);
        lemma_wrapped(a2, "Filter"@, inner, s@);
        assert(s@ =~= old(s)@ + status_filter_xml(m));
    }
}

/// Appends the `Rule` element.
fn push_rule(s: &mut String, r: &MinioLifecycleRule)
    requires
        minio_rule_wf(rule_model(*r)),
    ensures
        final(s)@ == old(s)@ + rule_xml(rule_model(*r)),
{
    let ghost m = rule_model(*r);
    push_open(s, "Rule");
    let ghost a0 = s@;
    if chars_of(r.id.as_str()).len() != 0 {
        push_text_element(s, "ID", r.id.as_str());
    } else {
        assert(s@ + Seq::<char>::empty() =~= s@);
    }
    let ghost a1 = s@;
    push_status_filter(s, r);
    let ghost a3 = s@;
    push_expiration(s, r);
    let ghost a4 = s@;
    push_transition(s, r);
    let ghost a5 = s@;
    push_noncurrent_expiration(s, r);
    let ghost a6 = s@;
    push_noncurrent_transition(s, r);
    let ghost a7 = s@;
    push_abort(s, r);
    let ghost a8 = s@;
    push_close(s, "Rule");
    proof {
        let p1 = a1.subrange(a0.len() as int, a1.len() as int);
        let p3 = a3.subrange(a1.len() as int, a3.len() as int);
        assert(a1 =~= a0 + p1);
        assert(a3 =~= a1 + p3);
        let inner = a8.subrange(a0.len() as int, a8.len() as int);
        assert(a8 =~= a0 + inner);
        assert(inner =~= p1 + p3 + expiration_xml(m) + transition_xml(m)
            + noncurrent_expiration_xml(m) + noncurrent_transition_xml(m) + abort_xml(m));
        assert(rule_xml(m) == element("Rule"@, inner));
        lemma_wrapped(old(s)@, "Rule"@, inner, s@);
    }
}

/// All rules' dates lie in range.
pub open spec fn minio_rules_wf(rules: Seq<MinioLifecycleRule>) -> bool {
    forall|i: int| 0 <= i < rules.len() ==> minio_rule_wf(rule_model(#[trigger] rules[i]))
}

/// The XML document of the lifecycle configuration, as MinIO's lifecycle API takes it: an
/// XML declaration and a `LifecycleConfiguration` element with one `Rule` element per rule.
pub fn lifecycle_config_to_xml(config: &MinioLifecycleConfig) -> (r: Result<String, StoreError>)
    requires
        minio_rules_wf(config.rules@),
    ensures
        r matches Ok(xml) && xml@ == config_xml(rule_models(config.rules@)),
{
    let mut s = String::new();
    push_str(&mut s, "<?xml version=\"1.0\" encoding=\"UTF-8\"?>");
    push_open(&mut s, "LifecycleConfiguration");
    let ghost head = s@;
    let mut i: usize = 0;
    assert(rule_models(config.rules@.take(0)) =~= Seq::<MinioRuleModel>::empty());
    assert(head + rules_xml(Seq::<MinioRuleModel>::empty()) =~= head);
    while i < config.rules.len()
        invariant
            i <= config.rules@.len(),
            minio_rules_wf(config.rules@),
            s@ == head + rules_xml(rule_models(config.rules@.take(i as int))),
        decreases config.rules@.len() - i,
    {
        let ghost before = s@;
        assert(minio_rule_wf(rule_model(config.rules@[i as int])));
        push_rule(&mut s, &config.rules[i]);
        proof {
            let t = rule_models(config.rules@.take(i + 1));
            assert(t.drop_last() =~= rule_models(config.rules@.take(i as int)));
            assert(t.last() == rule_model(config.rules@[i as int]));
            assert(s@ =~= head + rules_xml(t));
        }
        i = i + 1;
    }
    push_close(&mut s, "LifecycleConfiguration");
    proof {
        assert(config.rules@.take(config.rules@.len() as int) =~= config.rules@);
        assert(s@ =~= config_xml(rule_models(config.rules@)));
    }
    Ok(s)
}

// ---------------------------------------------------------------------------
// Reading
// ---------------------------------------------------------------------------

/// An event of the XML reader, with names and texts as strings.
#[derive(Debug)]
pub enum XmlEvent {
    Start(String),
    End(String),
    Empty(String),
    /// Text as it stands in the document (still escaped).
    Text(String),
    /// Any other event (declaration, comment, CDATA, processing instruction, doctype).
    Other,
    /// The reader failed, with its message; no events follow.
    Error(String),
    /// The end of the document.
    Eof,
}

/// A plain model of [`XmlEvent`].
pub enum XmlEventView {
    Start(Seq<char>),
    End(Seq<char>),
    Empty(Seq<char>),
    Text(Seq<char>),
    Other,
    Error(Seq<char>),
    Eof,
}

impl View for XmlEvent {
    type V = XmlEventView;

    open spec fn view(&self) -> XmlEventView {
        match self {
            XmlEvent::Start(n) => XmlEventView::Start(n@),
            XmlEvent::End(n) => XmlEventView::End(n@),
            XmlEvent::Empty(n) => XmlEventView::Empty(n@),
            XmlEvent::Text(t) => XmlEventView::Text(t@),
            XmlEvent::Other => XmlEventView::Other,
            XmlEvent::Error(m) => XmlEventView::Error(m@),
            XmlEvent::Eof => XmlEventView::Eof,
        }
    }
}

/// The views of a list of events.
pub open spec fn event_views(v: Seq<XmlEvent>) -> Seq<XmlEventView> {
    v.map_values(|e: XmlEvent| e@)
}

#[verifier::external_type_specification]
#[verifier::external_body]
#[verifier::reject_recursive_types(R)]
pub struct ExXmlReader<R>(quick_xml::Reader<R>);

/// The events a `quick_xml` reader made by `Reader::from_str` gives for the document, one
/// per `read_event` call, up to and including the end of input or the first error.
pub uninterp spec fn raw_xml_events(xml: Seq<char>) -> Seq<XmlEventView>;

/// The events the reader holds for reading: those its next `read_event` calls give, up to
/// and including the end of input or the first error.
pub uninterp spec fn reader_pending(reader: quick_xml::Reader<&[u8]>) -> Seq<XmlEventView>;

/// The events end with the end of input or an error, and only there.
pub open spec fn well_ended(s: Seq<XmlEventView>) -> bool {
    &&& s.len() > 0
    &&& (s.last() is Eof || s.last() is Error)
    &&& forall|i: int| 0 <= i < s.len() - 1 ==> !(#[trigger] s[i] is Eof) && !(s[i] is Error)
}

/// `quick_xml::Reader::from_str`; reading ends with the end of input or an error.
#[verifier::external_body]
fn xml_reader(xml: &str) -> (r: quick_xml::Reader<&[u8]>)
    ensures
        reader_pending(r) == raw_xml_events(xml@),
        well_ended(reader_pending(r)),
{
    quick_xml::Reader::from_str(xml)
}

/// An XML whitespace character: space, tab, carriage return or line feed.
pub open spec fn is_xml_space(c: char) -> bool {
    c == ' ' || c == '\t' || c == '\r' || c == '\n'
}

/// The text without leading XML whitespace.
pub open spec fn trim_start(t: Seq<char>) -> Seq<char>
    decreases t.len(),
{
    if t.len() > 0 && is_xml_space(t[0]) {
        trim_start(t.drop_first())
    } else {
        t
    }
}

/// The text without trailing XML whitespace.
pub open spec fn trim_end(t: Seq<char>) -> Seq<char>
    decreases t.len(),
{
    if t.len() > 0 && is_xml_space(t.last()) {
        trim_end(t.drop_last())
    } else {
        t
    }
}

/// The events with each text trimmed of whitespace at both ends, texts left empty dropped.
pub open spec fn trimmed_events(events: Seq<XmlEventView>) -> Seq<XmlEventView>
    decreases events.len(),
{
    if events.len() == 0 {
        events
    } else {
        let rest = trimmed_events(events.drop_first());
        match events[0] {
            XmlEventView::Text(t) => if trim_end(trim_start(t)).len() == 0 {
                rest
            } else {
                seq![XmlEventView::Text(trim_end(trim_start(t)))] + rest
            },
            e => seq![e] + rest,
        }
    }
}

proof fn lemma_trimmed_well_ended(s: Seq<XmlEventView>)
    requires
        well_ended(s),
    ensures
        well_ended(trimmed_events(s)),
    decreases s.len(),
{
    let t = trimmed_events(s);
    if s.len() == 1 {
        assert(!(s[0] is Text));
        assert(trimmed_events(s.drop_first()) =~= Seq::<XmlEventView>::empty());
        assert(t =~= seq![s[0]]);
    } else {
        let rest = s.drop_first();
        assert(rest.last() == s.last());
        assert forall|i: int| 0 <= i < rest.len() - 1 implies !(#[trigger] rest[i] is Eof) && !(rest[i] is Error) by {
            assert(rest[i] == s[i + 1]);
        }
        lemma_trimmed_well_ended(rest);
        let tr = trimmed_events(rest);
        assert(!(s[0] is Eof) && !(s[0] is Error));
        match s[0] {
            XmlEventView::Text(x) => {
                if trim_end(trim_start(x)).len() == 0 {
                    assert(t == tr);
                } else {
                    assert forall|i: int| 0 <= i < t.len() - 1 implies !(#[trigger] t[i] is Eof) && !(t[i] is Error) by {
                        if i > 0 {
                            assert(t[i] == tr[i - 1]);
                        }
                    }
                    assert(t.last() == tr.last());
                }
            },
            _ => {
                assert forall|i: int| 0 <= i < t.len() - 1 implies !(#[trigger] t[i] is Eof) && !(t[i] is Error) by {
                    if i > 0 {
                        assert(t[i] == tr[i - 1]);
                    }
                }
                assert(t.last() == tr.last());
            },
        }
    }
}

/// `Reader::trim_text(true)`: from then on, texts are trimmed of whitespace at both ends and
/// texts left empty are not given.
#[verifier::external_body]
fn trim_reader_text(reader: &mut quick_xml::Reader<&[u8]>)
    ensures
        reader_pending(*final(reader)) == trimmed_events(reader_pending(*old(reader))),
{
    reader.trim_text(true);
}

/// `Reader::read_event`: the next event, names and texts taken as (lossy) UTF-8.
#[verifier::external_body]
fn next_xml_event(reader: &mut quick_xml::Reader<&[u8]>) -> (e: XmlEvent)
    requires
        reader_pending(*old(reader)).len() > 0,
    ensures
        e@ == reader_pending(*old(reader))[0],
        reader_pending(*final(reader)) == reader_pending(*old(reader)).drop_first(),
{
    match reader.read_event() {
        Ok(Event::Start(e)) => XmlEvent::Start(String::from_utf8_lossy(e.name().as_ref()).into_owned()),
        Ok(Event::End(e)) => XmlEvent::End(String::from_utf8_lossy(e.name().as_ref()).into_owned()),
        Ok(Event::Empty(e)) => XmlEvent::Empty(String::from_utf8_lossy(e.name().as_ref()).into_owned()),
        Ok(Event::Text(e)) => XmlEvent::Text(String::from_utf8_lossy(&e).into_owned()),
        Ok(Event::Eof) => XmlEvent::Eof,
        Ok(_) => XmlEvent::Other,
        Err(e) => XmlEvent::Error(e.to_string()),
    }
}

/// The events before the end of input, the first error included.
pub open spec fn until_end(events: Seq<XmlEventView>) -> Seq<XmlEventView>
    decreases events.len(),
{
    if events.len() == 0 {
        events
    } else {
        match events[0] {
            XmlEventView::Eof => Seq::empty(),
            XmlEventView::Error(m) => seq![XmlEventView::Error(m)],
            e => seq![e] + until_end(events.drop_first()),
        }
    }
}

/// The events a text-trimming reader gives for the document, before the end of input and
/// up to its first error.
pub open spec fn xml_reader_events(xml: Seq<char>) -> Seq<XmlEventView> {
    until_end(trimmed_events(raw_xml_events(xml)))
}

/// Reads the document with a text-trimming `quick_xml` reader, event by event, until the end
/// or the first error.
fn read_xml_events(xml: &str) -> (r: Vec<XmlEvent>)
    ensures
        event_views(r@) == xml_reader_events(xml@),
{
    let mut reader = xml_reader(xml);
    trim_reader_text(&mut reader);
    proof {
        lemma_trimmed_well_ended(raw_xml_events(xml@));
        assert(well_ended(raw_xml_events(xml@)));
    }
    let ghost target = xml_reader_events(xml@);
    let mut out: Vec<XmlEvent> = Vec::new();
    assert(event_views(out@) + until_end(reader_pending(reader)) =~= target);
    loop
        invariant
            event_views(out@) + until_end(reader_pending(reader)) == target,
            target == xml_reader_events(xml@),
            well_ended(reader_pending(reader)),
        decreases reader_pending(reader).len(),
    {
        let ghost before = reader_pending(reader);
        let ghost prior = out@;
        let e = next_xml_event(&mut reader);
        match e {
            XmlEvent::Eof => {
                assert(until_end(before) =~= Seq::<XmlEventView>::empty());
                assert(event_views(out@) =~= target);
                return out;
            },
            XmlEvent::Error(m) => {
                let ghost mv = m@;
                out.push(XmlEvent::Error(m));
                assert(event_views(out@) =~= event_views(prior).push(XmlEventView::Error(mv)));
                assert(until_end(before) =~= seq![XmlEventView::Error(mv)]);
                assert(event_views(out@) =~= target);
                return out;
            },
            other => {
                let ghost ev = other@;
                out.push(other);
                assert(event_views(out@) =~= event_views(prior).push(ev));
                assert(until_end(before) =~= seq![ev] + until_end(before.drop_first()));
                assert(event_views(out@) + until_end(reader_pending(reader)) =~= target);
                proof {
                    let p = reader_pending(reader);
                    assert(before.len() > 1);
                    assert(p.last() == before.last());
                    assert forall|i: int| 0 <= i < p.len() - 1 implies !(#[trigger] p[i] is Eof) && !(p[i] is Error) by {
                        assert(p[i] == before[i + 1]);
                    }
                }
            },
        }
    }
}

/// What `quick_xml::escape::unescape` gives for escaped text: the text with its entity and
/// character references resolved, or the message of the error.
pub uninterp spec fn xml_unescape_text(raw: Seq<char>) -> Result<Seq<char>, Seq<char>>;

/// `quick_xml::escape::unescape`. Text without `&` holds no reference and comes back as it
/// is (the source scans for `&` and, finding none, returns the input borrowed).
#[verifier::external_body]
fn unescape_xml(raw: &str) -> (r: Result<String, String>)
    ensures
        match r {
            Ok(t) => xml_unescape_text(raw@) == Ok::<Seq<char>, Seq<char>>(t@) && (!raw@.contains('&')
                ==> t@ == raw@),
            Err(m) => xml_unescape_text(raw@) == Err::<Seq<char>, Seq<char>>(m@) && raw@.contains('&'),
        },
{
    match quick_xml::escape::unescape(raw) {
        Ok(t) => Ok(t.into_owned()),
        Err(e) => Err(e.to_string()),
    }
}

/// What `chrono::DateTime::parse_from_rfc3339` gives for the text, taken to UTC: the
/// instant's seconds since the epoch and nanoseconds, or the message of the error.
pub uninterp spec fn rfc3339_timestamp(text: Seq<char>) -> Result<(i64, u32), Seq<char>>;

/// `DateTime::parse_from_rfc3339`, taken to UTC as seconds and nanoseconds.
#[verifier::external_body]
fn parse_rfc3339(text: &str) -> (r: Result<(i64, u32), String>)
    ensures
        match r {
            Ok(p) => rfc3339_timestamp(text@) == Ok::<(i64, u32), Seq<char>>(p),
            Err(m) => rfc3339_timestamp(text@) == Err::<(i64, u32), Seq<char>>(m@),
        },
{
    match chrono::DateTime::parse_from_rfc3339(text) {
        Ok(d) => Ok((d.timestamp(), d.timestamp_subsec_nanos())),
        Err(e) => Err(e.to_string()),
    }
}

/// The parser's state: rules read so far, the rule being read, and the sections open.
pub struct ParseState {
    pub rules: Seq<MinioRuleModel>,
    pub current: Option<MinioRuleModel>,
    pub in_expiration: bool,
    pub in_filter: bool,
    pub in_transition: bool,
    pub in_noncurrent_expiration: bool,
    pub in_noncurrent_transition: bool,
}

/// The state before any event.
pub open spec fn initial_state() -> ParseState {
    ParseState {
        rules: Seq::empty(),
        current: None,
        in_expiration: false,
        in_filter: false,
        in_transition: false,
        in_noncurrent_expiration: false,
        in_noncurrent_transition: false,
    }
}

/// A rule with nothing set.
pub open spec fn empty_rule() -> MinioRuleModel {
    MinioRuleModel {
        id: Seq::empty(),
        status: false,
        prefix: None,
        tag: None,
        and: None,
        abort_days: None,
        expiration_date: None,
        expiration_days: None,
        expired_object_delete_marker: None,
        noncurrent_expiration_days: None,
        noncurrent_transition_days: None,
        noncurrent_transition_storage_class: None,
        transition_date: None,
        transition_days: None,
        transition_storage_class: None,
    }
}

/// The text of the element that starts before event `i`: event `i` must be text, which is
/// unescaped.
pub open spec fn text_at(events: Seq<XmlEventView>, i: int) -> Result<Seq<char>, Seq<char>> {
    if 0 <= i < events.len() && events[i] is Text {
        match xml_unescape_text(events[i]->Text_0) {
            Ok(t) => Ok(t),
            Err(e) => Err("Failed to unescape XML text: "@ + e),
        }
    } else {
        Err("Expected text content"@)
    }
}

/// Elements whose text sets a field of the rule being read.
pub open spec fn is_text_element(name: Seq<char>) -> bool {
    name == "ID"@ || name == "Status"@ || name == "Days"@ || name == "Date"@ || name
        == "StorageClass"@ || name == "NoncurrentDays"@ || name == "DaysAfterInitiation"@ || name
        == "ExpiredObjectDeleteMarker"@
}

/// A count read from text, or the error with the message prefix.
pub open spec fn count_from(text: Seq<char>, what: Seq<char>) -> Result<usize, Seq<char>> {
    match crate::text::parse_usize_spec(text) {
        Ok(v) => Ok(v as usize),
        Err(k) => Err("Failed to parse "@ + what + ": "@ + k.spec_message()),
    }
}

/// An instant read from RFC 3339 text, or the error.
pub open spec fn date_from(text: Seq<char>) -> Result<UtcTime, Seq<char>> {
    match rfc3339_timestamp(text) {
        Ok((secs, nanos)) => if crate::time::valid_instant(secs as int, nanos as int) {
            Ok(UtcTime::spec_new(secs, nanos))
        } else {
            Err("Failed to parse date: out of range"@)
        },
        Err(e) => Err("Failed to parse date: "@ + e),
    }
}

/// The rule after the text of element `name` is read, or the error.
pub open spec fn apply_text(name: Seq<char>, text: Seq<char>, st: ParseState, cur: MinioRuleModel) -> Result<
    MinioRuleModel,
    Seq<char>,
> {
    if name == "ID"@ {
        Ok(MinioRuleModel { id: text, ..cur })
    } else if name == "Status"@ {
        Ok(MinioRuleModel { status: crate::text::lower_eq(text, "enabled"@), ..cur })
    } else if name == "Days"@ {
        match count_from(text, "days"@) {
            Err(e) => Err(e),
            Ok(d) => Ok(
                if st.in_expiration {
                    MinioRuleModel { expiration_days: Some(d), ..cur }
                } else if st.in_transition {
                    MinioRuleModel { transition_days: Some(d), ..cur }
                } else {
                    cur
                },
            ),
        }
    } else if name == "Date"@ {
        match date_from(text) {
            Err(e) => Err(e),
            Ok(t) => Ok(
                if st.in_expiration {
                    MinioRuleModel { expiration_date: Some(t), ..cur }
                } else if st.in_transition {
                    MinioRuleModel { transition_date: Some(t), ..cur }
                } else {
                    cur
                },
            ),
        }
    } else if name == "StorageClass"@ {
        Ok(
            if st.in_transition {
                MinioRuleModel { transition_storage_class: Some(text), ..cur }
            } else if st.in_noncurrent_transition {
                MinioRuleModel { noncurrent_transition_storage_class: Some(text), ..cur }
            } else {
                cur
            },
        )
    } else if name == "NoncurrentDays"@ {
        match count_from(text, "noncurrent days"@) {
            Err(e) => Err(e),
            Ok(d) => Ok(
                if st.in_noncurrent_expiration {
                    MinioRuleModel { noncurrent_expiration_days: Some(d), ..cur }
                } else if st.in_noncurrent_transition {
                    MinioRuleModel { noncurrent_transition_days: Some(d), ..cur }
                } else {
                    cur
                },
            ),
        }
    } else if name == "DaysAfterInitiation"@ {
        match count_from(text, "days after initiation"@) {
            Err(e) => Err(e),
            Ok(d) => Ok(MinioRuleModel { abort_days: Some(d), ..cur }),
        }
    } else if name == "ExpiredObjectDeleteMarker"@ {
        Ok(
            MinioRuleModel {
                expired_object_delete_marker: Some(crate::text::lower_eq(text, "true"@)),
                ..cur
            },
        )
    } else {
        Ok(MinioRuleModel { prefix: Some(text), ..cur })
    }
}

/// The state after a start tag that is not a text element.
pub open spec fn open_section(name: Seq<char>, st: ParseState) -> ParseState {
    if name == "Rule"@ {
        ParseState { current: Some(empty_rule()), ..st }
    } else if name == "Expiration"@ {
        ParseState { in_expiration: true, ..st }
    } else if name == "Filter"@ {
        ParseState { in_filter: true, ..st }
    } else if name == "Transition"@ {
        ParseState { in_transition: true, ..st }
    } else if name == "NoncurrentVersionExpiration"@ {
        ParseState { in_noncurrent_expiration: true, ..st }
    } else if name == "NoncurrentVersionTransition"@ {
        ParseState { in_noncurrent_transition: true, ..st }
    } else {
        st
    }
}

/// The state after an end tag.
pub open spec fn close_section(name: Seq<char>, st: ParseState) -> ParseState {
    if name == "Rule"@ {
        match st.current {
            Some(r) => ParseState { rules: st.rules.push(r), current: None, ..st },
            None => st,
        }
    } else if name == "Expiration"@ {
        ParseState { in_expiration: false, ..st }
    } else if name == "Filter"@ {
        ParseState { in_filter: false, ..st }
    } else if name == "Transition"@ {
        ParseState { in_transition: false, ..st }
    } else if name == "NoncurrentVersionExpiration"@ {
        ParseState { in_noncurrent_expiration: false, ..st }
    } else if name == "NoncurrentVersionTransition"@ {
        ParseState { in_noncurrent_transition: false, ..st }
    } else {
        st
    }
}

/// A start tag whose element text is read: a text element, or `Prefix` inside the filter,
/// while a rule is being read.
pub open spec fn reads_text(name: Seq<char>, st: ParseState) -> bool {
    st.current is Some && (is_text_element(name) || (name == "Prefix"@ && st.in_filter))
}

/// The rules that the lifecycle document's events describe from event `i` on in state `st`,
/// or the message of the error met: a `Rule` element starts a rule, which is kept at its end
/// tag; the text of `ID`, `Status`, `Days`, `Date`, `StorageClass`, `NoncurrentDays`,
/// `DaysAfterInitiation`, `ExpiredObjectDeleteMarker` and (inside `Filter`) `Prefix` sets a
/// field according to the sections open; an empty `ExpiredObjectDeleteMarker` sets the flag;
/// a reader error ends with that error; other events are skipped.
pub open spec fn parse_events(events: Seq<XmlEventView>, i: int, st: ParseState) -> Result<
    Seq<MinioRuleModel>,
    Seq<char>,
>
    decreases events.len() - i, 0int,
{
    if i < 0 || i >= events.len() {
        Ok(st.rules)
    } else {
        match events[i] {
            XmlEventView::Start(name) => if reads_text(name, st) {
                match text_at(events, i + 1) {
                    Err(e) => Err(e),
                    Ok(text) => match apply_text(name, text, st, st.current->0) {
                        Err(e) => Err(e),
                        Ok(r) => parse_events(events, i + 2, ParseState { current: Some(r), ..st }),
                    },
                }
            } else {
                parse_events(events, i + 1, open_section(name, st))
            },
            XmlEventView::End(name) => parse_events(events, i + 1, close_section(name, st)),
            XmlEventView::Empty(name) => if name == "ExpiredObjectDeleteMarker"@ && st.current is Some {
                parse_events(
                    events,
                    i + 1,
                    ParseState {
                        current: Some(
                            MinioRuleModel {
                                expired_object_delete_marker: Some(true),
                                ..st.current->0
                            },
                        ),
                        ..st
                    },
                )
            } else {
                parse_events(events, i + 1, st)
            },
            XmlEventView::Error(e) => Err("Error parsing XML: "@ + e),
            _ => parse_events(events, i + 1, st),
        }
    }
}

/// The model of the parser's state.
pub open spec fn state_model(
    rules: Seq<MinioLifecycleRule>,
    current: Option<MinioLifecycleRule>,
    flags: (bool, bool, bool, bool, bool),
) -> ParseState {
    ParseState {
        rules: rule_models(rules),
        current: match current {
            Some(r) => Some(rule_model(r)),
            None => None,
        },
        in_expiration: flags.0,
        in_filter: flags.1,
        in_transition: flags.2,
        in_noncurrent_expiration: flags.3,
        in_noncurrent_transition: flags.4,
    }
}

/// A rule with nothing set.
fn new_rule() -> (r: MinioLifecycleRule)
    ensures
        rule_model(r) == empty_rule(),
{
    MinioLifecycleRule {
        id: String::new(),
        status: false,
        filter: MinioFilter::default(),
        abort_incomplete_multipart_upload_days_after_initiation: None,
        expiration_date: None,
        expiration_days: None,
        expiration_expired_object_delete_marker: None,
        noncurrent_version_expiration_noncurrent_days: None,
        noncurrent_version_transition_noncurrent_days: None,
        noncurrent_version_transition_storage_class: None,
        transition_date: None,
        transition_days: None,
        transition_storage_class: None,
    }
}

/// The unescaped text of event `i`, which must be a text event.
fn element_text(events: &Vec<XmlEvent>, i: usize) -> (r: Result<String, StoreError>)
    ensures
        match text_at(event_views(events@), i as int) {
            Ok(t) => r matches Ok(x) && x@ == t,
            Err(m) => r matches Err(StoreError::Other(x)) && x@ == m,
        },
{
    if i < events.len() {
        match &events[i] {
            XmlEvent::Text(raw) => {
                assert(event_views(events@)[i as int] == events@[i as int]@);
                return match unescape_xml(raw.as_str()) {
                    Ok(t) => Ok(t),
                    Err(m) => Err(
                        StoreError::Other(concat_str("Failed to unescape XML text: ", m.as_str())),
                    ),
                };
            },
            _ => {
                assert(event_views(events@)[i as int] == events@[i as int]@);
            },
        }
    }
    Err(StoreError::Other(String::from_str("Expected text content")))
}

/// A count read from text, or the error with the message prefix.
fn read_count(text: &str, what: &str) -> (r: Result<usize, StoreError>)
    ensures
        match count_from(text@, what@) {
            Ok(v) => r == Ok::<usize, StoreError>(v),
            Err(m) => r matches Err(StoreError::Other(x)) && x@ == m,
        },
{
    match crate::text::parse_usize(text) {
        Ok(v) => Ok(v),
        Err(k) => {
            let mut m = concat_str("Failed to parse ", what);
            push_str(&mut m, ": ");
            push_str(&mut m, k.message());
            Err(StoreError::Other(m))
        },
    }
}

/// An instant read from RFC 3339 text, or the error.
fn read_date(text: &str) -> (r: Result<UtcTime, StoreError>)
    ensures
        match date_from(text@) {
            Ok(t) => r == Ok::<UtcTime, StoreError>(t),
            Err(m) => r matches Err(StoreError::Other(x)) && x@ == m,
        },
{
    match parse_rfc3339(text) {
        Ok((secs, nanos)) => match UtcTime::from_unix(secs, nanos) {
            Some(t) => Ok(t),
            None => Err(StoreError::Other(String::from_str("Failed to parse date: out of range"))),
        },
        Err(m) => Err(StoreError::Other(concat_str("Failed to parse date: ", m.as_str()))),
    }
}

/// Whether the element's text is read in this state.
fn reads_text_exec(name: &str, has_rule: bool, in_filter: bool) -> (r: bool)
    ensures
        r == (has_rule && (is_text_element(name@) || (name@ == "Prefix"@ && in_filter))),
{
    has_rule && (str_eq(name, "ID") || str_eq(name, "Status") || str_eq(name, "Days") || str_eq(
        name,
        "Date",
    ) || str_eq(name, "StorageClass") || str_eq(name, "NoncurrentDays") || str_eq(
        name,
        "DaysAfterInitiation",
    ) || str_eq(name, "ExpiredObjectDeleteMarker") || (str_eq(name, "Prefix") && in_filter))
}

/// Sets the field of the rule that the element's text names.
fn apply_text_exec(
    name: &str,
    text: String,
    flags: (bool, bool, bool, bool, bool),
    rule: &mut MinioLifecycleRule,
) -> (r: Result<(), StoreError>)
    requires
        is_text_element(name@) || name@ == "Prefix"@,
    ensures
        match apply_text(
            name@,
            text@,
            state_model(Seq::empty(), None, flags),
            rule_model(*old(rule)),
        ) {
            Ok(m) => r is Ok && rule_model(*final(rule)) == m,
            Err(e) => r matches Err(StoreError::Other(x)) && x@ == e,
        },
{
    let (in_expiration, in_filter, in_transition, in_nc_expiration, in_nc_transition) = flags;
    if str_eq(name, "ID") {
        rule.id = text;
    } else if str_eq(name, "Status") {
        rule.status = crate::text::lower_equals(text.as_str(), "enabled");
    } else if str_eq(name, "Days") {
        let d = match read_count(text.as_str(), "days") {
            Ok(d) => d,
            Err(e) => {
                return Err(e);
            },
        };
        if in_expiration {
            rule.expiration_days = Some(d);
        } else if in_transition {
            rule.transition_days = Some(d);
        }
    } else if str_eq(name, "Date") {
        let t = match read_date(text.as_str()) {
            Ok(t) => t,
            Err(e) => {
                return Err(e);
            },
        };
        if in_expiration {
            rule.expiration_date = Some(t);
        } else if in_transition {
            rule.transition_date = Some(t);
        }
    } else if str_eq(name, "StorageClass") {
        if in_transition {
            rule.transition_storage_class = Some(text);
        } else if in_nc_transition {
            rule.noncurrent_version_transition_storage_class = Some(text);
        }
    } else if str_eq(name, "NoncurrentDays") {
        let d = match read_count(text.as_str(), "noncurrent days") {
            Ok(d) => d,
            Err(e) => {
                return Err(e);
            },
        };
        if in_nc_expiration {
            rule.noncurrent_version_expiration_noncurrent_days = Some(d);
        } else if in_nc_transition {
            rule.noncurrent_version_transition_noncurrent_days = Some(d);
        }
    } else if str_eq(name, "DaysAfterInitiation") {
        let d = match read_count(text.as_str(), "days after initiation") {
            Ok(d) => d,
            Err(e) => {
                return Err(e);
            },
        };
        rule.abort_incomplete_multipart_upload_days_after_initiation = Some(d);
    } else if str_eq(name, "ExpiredObjectDeleteMarker") {
        rule.expiration_expired_object_delete_marker = Some(
            crate::text::lower_equals(text.as_str(), "true"),
        );
    } else {
        rule.filter.prefix = Some(text);
    }
    Ok(())
}

/// The lifecycle configuration that the reader's events describe (see [`parse_events`]).
pub fn parse_lifecycle_events(events: &Vec<XmlEvent>) -> (r: Result<MinioLifecycleConfig, StoreError>)
    ensures
        match parse_events(event_views(events@), 0, initial_state()) {
            Ok(rules) => r matches Ok(c) && rule_models(c.rules@) == rules,
            Err(m) => r matches Err(StoreError::Other(x)) && x@ == m,
        },
{
    let ghost views = event_views(events@);
    let ghost goal = parse_events(views, 0, initial_state());
    let mut rules: Vec<MinioLifecycleRule> = Vec::new();
    let mut current: Option<MinioLifecycleRule> = None;
    let mut flags: (bool, bool, bool, bool, bool) = (false, false, false, false, false);
    let mut i: usize = 0;
    assert(state_model(rules@, current, flags) == initial_state()) by {
        assert(rule_models(rules@) =~= Seq::<MinioRuleModel>::empty());
    }
    while i < events.len()
        invariant
            views == event_views(events@),
            goal == parse_events(event_views(events@), 0, initial_state()),
            views.len() == events@.len(),
            i <= events@.len(),
            parse_events(views, i as int, state_model(rules@, current, flags)) == goal,
        decreases events@.len() - i,
    {
        let ghost st = state_model(rules@, current, flags);
        assert(views[i as int] == events@[i as int]@);
        match &events[i] {
            XmlEvent::Start(name) => {
                if reads_text_exec(name.as_str(), current.is_some(), flags.1) {
                    assert(reads_text(name@, st));
                    let text = match element_text(events, i + 1) {
                        Ok(t) => t,
                        Err(e) => {
                            assert(text_at(views, i + 1) is Err);
                            assert(parse_events(views, i as int, st) == Err::<
                                Seq<MinioRuleModel>,
                                Seq<char>,
                            >(text_at(views, i + 1)->Err_0));
                            return Err(e);
                        },
                    };
                    let mut rule = match current {
                        Some(r) => r,
                        None => new_rule(),
                    };
                    let ghost before_rule = rule;
                    assert(state_model(Seq::empty(), None, flags).in_expiration == st.in_expiration);
                    let ghost text_view = text@;
                    match apply_text_exec(name.as_str(), text, flags, &mut rule) {
                        Ok(()) => {},
                        Err(e) => {
                            proof {
                                assert(apply_text(name@, text_view, st, st.current->0) == apply_text(
                                    name@,
                                    text_view,
                                    state_model(Seq::empty(), None, flags),
                                    rule_model(before_rule),
                                ));
                                assert(parse_events(views, i as int, st) == Err::<
                                    Seq<MinioRuleModel>,
                                    Seq<char>,
                                >(apply_text(name@, text_view, st, st.current->0)->Err_0));
                            }
                            return Err(e);
                        },
                    }
                    current = Some(rule);
                    proof {
                        assert(apply_text(
                            name@,
                            text_at(views, i + 1)->Ok_0,
                            st,
                            st.current->0,
                        ) == apply_text(
                            name@,
                            text_at(views, i + 1)->Ok_0,
                            state_model(Seq::empty(), None, flags),
                            st.current->0,
                        ));
                        assert(state_model(rules@, current, flags) == ParseState {
                            current: Some(rule_model(rule)),
                            ..st
                        });
                    }
                    i = i + 2;
                } else {
                    if str_eq(name.as_str(), "Rule") {
                        current = Some(new_rule());
                    } else if str_eq(name.as_str(), "Expiration") {
                        flags.0 = true;
                    } else if str_eq(name.as_str(), "Filter") {
                        flags.1 = true;
                    } else if str_eq(name.as_str(), "Transition") {
                        flags.2 = true;
                    } else if str_eq(name.as_str(), "NoncurrentVersionExpiration") {
                        flags.3 = true;
                    } else if str_eq(name.as_str(), "NoncurrentVersionTransition") {
                        flags.4 = true;
                    }
                    assert(state_model(rules@, current, flags) == open_section(name@, st));
                    i = i + 1;
                }
            },
            XmlEvent::End(name) => {
                if str_eq(name.as_str(), "Rule") {
                    match current {
                        Some(r) => {
                            let ghost old_rules = rules@;
                            let ghost rm = rule_model(r);
                            rules.push(r);
                            current = None;
                            assert(rule_models(rules@) =~= rule_models(old_rules).push(rm));
                        },
                        None => {},
                    }
                } else if str_eq(name.as_str(), "Expiration") {
                    flags.0 = false;
                } else if str_eq(name.as_str(), "Filter") {
                    flags.1 = false;
                } else if str_eq(name.as_str(), "Transition") {
                    flags.2 = false;
                } else if str_eq(name.as_str(), "NoncurrentVersionExpiration") {
                    flags.3 = false;
                } else if str_eq(name.as_str(), "NoncurrentVersionTransition") {
                    flags.4 = false;
                }
                assert(state_model(rules@, current, flags) == close_section(name@, st));
                i = i + 1;
            },
            XmlEvent::Empty(name) => {
                if str_eq(name.as_str(), "ExpiredObjectDeleteMarker") {
                    match current {
                        Some(mut r) => {
                            r.expiration_expired_object_delete_marker = Some(true);
                            current = Some(r);
                        },
                        None => {},
                    }
                }
                i = i + 1;
            },
            XmlEvent::Error(m) => {
                return Err(StoreError::Other(concat_str("Error parsing XML: ", m.as_str())));
            },
            _ => {
                i = i + 1;
            },
        }
    }
    Ok(MinioLifecycleConfig { rules })
}

/// The lifecycle configuration in MinIO's XML document: the document is read with
/// `quick_xml` and its events are interpreted by [`parse_lifecycle_events`].
pub fn parse_lifecycle_config(xml: &str) -> (r: Result<MinioLifecycleConfig, StoreError>)
    ensures
        match parse_events(xml_reader_events(xml@), 0, initial_state()) {
            Ok(rules) => r matches Ok(c) && rule_models(c.rules@) == rules,
            Err(m) => r matches Err(StoreError::Other(x)) && x@ == m,
        },
{
    let events = read_xml_events(xml);
    parse_lifecycle_events(&events)
}

/// Where MinIO's lifecycle API is reached and the credentials sent to it.
#[derive(Debug)]
pub struct MinioClient {
    pub endpoint: String,
    pub access_key: String,
    pub secret_key: String,
    pub region: String,
}

impl MinioClient {
    /// A client of the endpoint with these credentials.
    pub fn new(endpoint: &str, access_key: &str, secret_key: &str, region: &str) -> (r: Self)
        ensures
            r.endpoint@ == endpoint@,
            r.access_key@ == access_key@,
            r.secret_key@ == secret_key@,
            r.region@ == region@,
    {
        MinioClient {
            endpoint: String::from_str(endpoint),
            access_key: String::from_str(access_key),
            secret_key: String::from_str(secret_key),
            region: String::from_str(region),
        }
    }

    /// A client made from S3 credentials, as [`MinioClient::new`] makes it.
    pub fn from_s3_config(endpoint: &str, access_key: &str, secret_key: &str, region: &str) -> (r: Self)
        ensures
            r.endpoint@ == endpoint@,
            r.access_key@ == access_key@,
            r.secret_key@ == secret_key@,
            r.region@ == region@,
    {
        Self::new(endpoint, access_key, secret_key, region)
    }

    /// The address of a bucket's lifecycle configuration: `{endpoint}/{bucket}?lifecycle`.
    pub fn lifecycle_url(&self, bucket: &str) -> (r: String)
        ensures
            r@ == self.endpoint@ + "/"@ + bucket@ + "?lifecycle"@,
    {
        let mut url = self.endpoint.clone();
        push_str(&mut url, "/");
        push_str(&mut url, bucket);
        push_str(&mut url, "?lifecycle");
        url
    }
}

/// The status is a success (2xx).
pub open spec fn is_success(status: u16) -> bool {
    200 <= status <= 299
}

/// The error for a failed lifecycle request: what failed, then the status code and its
/// reason.
pub open spec fn status_failure(what: Seq<char>, status: u16) -> Seq<char> {
    what + status_code_text(status)
}

/// What the answer to a lifecycle read means: on success the configuration in its body; on
/// 404 an empty configuration; otherwise an error naming the status.
pub fn lifecycle_from_response(status: u16, body: &str) -> (r: Result<MinioLifecycleConfig, StoreError>)
    requires
        100 <= status <= 999,
    ensures
        is_success(status) ==> match parse_events(xml_reader_events(body@), 0, initial_state()) {
            Ok(rules) => r matches Ok(c) && rule_models(c.rules@) == rules,
            Err(m) => r matches Err(StoreError::Other(x)) && x@ == m,
        },
        status == 404 ==> (r matches Ok(c) && c.rules@.len() == 0),
        !is_success(status) && status != 404 ==> (r matches Err(StoreError::Other(x)) && x@
            == status_failure("Failed to get lifecycle configuration: "@, status)),
{
    if 200 <= status && status <= 299 {
        parse_lifecycle_config(body)
    } else if status == 404 {
        Ok(MinioLifecycleConfig::default())
    } else {
        let t = status_display(status);
        Err(StoreError::Other(concat_str("Failed to get lifecycle configuration: ", t.as_str())))
    }
}

/// What the answer to a lifecycle write means: nothing on success, otherwise an error naming
/// the status and the body of the answer.
pub fn lifecycle_set_from_response(status: u16, error_text: &str) -> (r: Result<(), StoreError>)
    requires
        100 <= status <= 999,
    ensures
        is_success(status) ==> r is Ok,
        !is_success(status) ==> (r matches Err(StoreError::Other(x)) && x@ == status_failure(
            "Failed to set lifecycle configuration: "@,
            status,
        ) + " - "@ + error_text@),
{
    if 200 <= status && status <= 299 {
        Ok(())
    } else {
        let t = status_display(status);
        let mut m = concat_str("Failed to set lifecycle configuration: ", t.as_str());
        push_str(&mut m, " - ");
        push_str(&mut m, error_text);
        Err(StoreError::Other(m))
    }
}

/// What the answer to a lifecycle removal means: nothing on success, otherwise an error
/// naming the status.
pub fn lifecycle_delete_from_response(status: u16) -> (r: Result<(), StoreError>)
    requires
        100 <= status <= 999,
    ensures
        is_success(status) ==> r is Ok,
        !is_success(status) ==> (r matches Err(StoreError::Other(x)) && x@ == status_failure(
            "Failed to delete lifecycle configuration: "@,
            status,
        )),
{
    if 200 <= status && status <= 299 {
        Ok(())
    } else {
        let t = status_display(status);
        Err(StoreError::Other(concat_str("Failed to delete lifecycle configuration: ", t.as_str())))
    }
}

/// The error for a lifecycle request that got no answer: what failed, then why.
pub fn transport_failure(what: &str, reason: &str) -> (r: StoreError)
    ensures
        r matches StoreError::Other(x) && x@ == what@ + reason@,
{
    StoreError::Other(concat_str(what, reason))
}

} // verus!
