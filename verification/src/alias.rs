//! Validation and normalization of service URL aliases (`urls`).
//!
//! An alias is a *hostname*, not a URL. What a configuration supplies here goes
//! straight into an nginx `server_name`, a hosts-file line and `portmap.json`,
//! so a value that carries a scheme, a port, a path or an nginx delimiter could
//! produce an unusable mapping or break the shared reverse-proxy configuration
//! for every other service. A whole deployment can be validated before anything
//! is written.
use crate::text::{
    all_digits, chars_have, chars_of, chars_split, digits_value, ends_with, has_part, is_ascii_text,
    is_digit, is_space, lemma_split_characters, lemma_split_nonempty, lower, lower_char, occurs_at,
    split, str_ends_with, str_has, str_lower, str_trim, string_of, trim, trim_end, trim_start,
};
use vstd::prelude::*;

verus! {

/// Maximum total length of a DNS name, per RFC 1035.
const MAX_HOSTNAME_LEN: usize = 253;

/// Maximum length of a single DNS label, per RFC 1035.
const MAX_LABEL_LEN: usize = 63;

/// Why one configured alias was rejected.
#[derive(Debug, Clone, Copy, PartialEq, Eq, Structural)]
pub enum AliasErrorReason {
    Empty,
    Scheme,
    UserInfo,
    Path,
    Query,
    Fragment,
    Port,
    Wildcard,
    IpLiteral,
    NonAscii,
    TrailingDots,
    HostnameTooLong,
    EmptyLabel,
    LabelTooLong,
    InvalidCharacter,
    LeadingHyphen,
    TrailingHyphen,
}

impl AliasErrorReason {
    /// The explanation that a user reads.
    pub open spec fn text(self) -> Seq<char> {
        match self {
            AliasErrorReason::Empty => "aliases must not be empty"@,
            AliasErrorReason::Scheme => "aliases must not include a URL scheme"@,
            AliasErrorReason::UserInfo => "aliases must not include user information"@,
            AliasErrorReason::Path => "aliases must not include a path"@,
            AliasErrorReason::Query => "aliases must not include a query string"@,
            AliasErrorReason::Fragment => "aliases must not include a fragment"@,
            AliasErrorReason::Port => "aliases must not include a port"@,
            AliasErrorReason::Wildcard => "wildcard hostnames are not supported"@,
            AliasErrorReason::IpLiteral => "aliases must be hostnames, not IP address literals"@,
            AliasErrorReason::NonAscii => {
                "internationalized hostnames must be supplied in ASCII/Punycode form"@
            },
            AliasErrorReason::TrailingDots => "aliases may end with at most one trailing dot"@,
            AliasErrorReason::HostnameTooLong => "hostnames must not exceed 253 characters"@,
            AliasErrorReason::EmptyLabel => "hostname labels must not be empty"@,
            AliasErrorReason::LabelTooLong => "hostname labels must not exceed 63 characters"@,
            AliasErrorReason::InvalidCharacter => {
                "hostname labels may contain only letters, digits, and hyphens"@
            },
            AliasErrorReason::LeadingHyphen => "hostname labels must not begin with a hyphen"@,
            AliasErrorReason::TrailingHyphen => "hostname labels must not end with a hyphen"@,
        }
    }

    /// The explanation that a user reads, phrased so that it reads correctly
    /// behind the quoted alias.
    pub fn message(self) -> (r: &'static str)
        ensures
            r@ == self.text(),
    {
        match self {
            AliasErrorReason::Empty => "aliases must not be empty",
            AliasErrorReason::Scheme => "aliases must not include a URL scheme",
            AliasErrorReason::UserInfo => "aliases must not include user information",
            AliasErrorReason::Path => "aliases must not include a path",
            AliasErrorReason::Query => "aliases must not include a query string",
            AliasErrorReason::Fragment => "aliases must not include a fragment",
            AliasErrorReason::Port => "aliases must not include a port",
            AliasErrorReason::Wildcard => "wildcard hostnames are not supported",
            AliasErrorReason::IpLiteral => "aliases must be hostnames, not IP address literals",
            AliasErrorReason::NonAscii => {
                "internationalized hostnames must be supplied in ASCII/Punycode form"
            },
            AliasErrorReason::TrailingDots => "aliases may end with at most one trailing dot",
            AliasErrorReason::HostnameTooLong => "hostnames must not exceed 253 characters",
            AliasErrorReason::EmptyLabel => "hostname labels must not be empty",
            AliasErrorReason::LabelTooLong => "hostname labels must not exceed 63 characters",
            AliasErrorReason::InvalidCharacter => {
                "hostname labels may contain only letters, digits, and hyphens"
            },
            AliasErrorReason::LeadingHyphen => "hostname labels must not begin with a hyphen",
            AliasErrorReason::TrailingHyphen => "hostname labels must not end with a hyphen",
        }
    }

    /// The explanation as a text of its own.
    pub fn to_string(&self) -> (r: String)
        ensures
            r@ == self.text(),
    {
        str::to_owned(self.message())
    }
}

/// A rejected alias, with the text as it was configured, so that an error quotes
/// what was written and not a normalized guess.
#[derive(Debug, Clone, PartialEq, Eq)]
pub struct AliasValidationError {
    pub input: String,
    pub reason: AliasErrorReason,
}

/// What a rejected alias is: the configured text and the reason.
pub struct AliasErrorView {
    pub input: Seq<char>,
    pub reason: AliasErrorReason,
}

impl View for AliasValidationError {
    type V = AliasErrorView;

    open spec fn view(&self) -> AliasErrorView {
        AliasErrorView { input: self.input@, reason: self.reason }
    }
}

impl DeepView for AliasValidationError {
    type V = AliasErrorView;

    open spec fn deep_view(&self) -> AliasErrorView {
        self@
    }
}

/// The text that the `Debug` formatting of std writes for a string: the string
/// in double quotes, with escapes.
pub uninterp spec fn debug_text(s: Seq<char>) -> Seq<char>;

/// The text is printable ASCII without a double quote or a backslash.
pub open spec fn needs_no_escape(s: Seq<char>) -> bool {
    forall|i: int|
        0 <= i < s.len() ==> ' ' <= #[trigger] s[i] <= '~' && s[i] != '"' && s[i] != '\\'
}

/// The text in double quotes, with escapes. Of a text that needs none this says what
/// that is.
pub open spec fn quoted_text(s: Seq<char>) -> Seq<char> {
    if needs_no_escape(s) {
        seq!['"'] + s + seq!['"']
    } else {
        debug_text(s)
    }
}

/// Formats a string with `format!` and `{:?}`. The result is the text that std's
/// `Debug` implementation for `str` writes. Printable ASCII without a double quote or
/// a backslash is put in double quotes as it stands; which other characters are
/// escaped, and how, is left to the name.
#[verifier::external_body]
fn debug_quoted(s: &str) -> (r: String)
    ensures
        r@ == debug_text(s@),
        needs_no_escape(s@) ==> r@ == seq!['"'] + s@ + seq!['"'],
{
    format!("{:?}", s)
}

/// The line that reports a rejected alias, given the quoted alias.
pub open spec fn error_line(quoted: Seq<char>, reason: AliasErrorReason) -> Seq<char> {
    quoted + " — "@ + reason.text()
}

/// The line that reports a rejected alias, given the quoted alias.
pub fn alias_error_line(quoted: &str, reason: AliasErrorReason) -> (r: String)
    ensures
        r@ == error_line(quoted@, reason),
{
    let mut line = quoted.to_string();
    line.append(" — ");
    line.append(reason.message());
    line
}

impl AliasErrorView {
    /// The line that reports the rejected alias.
    pub open spec fn text(self) -> Seq<char> {
        error_line(quoted_text(self.input), self.reason)
    }
}

impl AliasValidationError {
    /// The line that reports the rejected alias: its quoted text, then why it was
    /// rejected.
    pub fn to_string(&self) -> (r: String)
        ensures
            r@ == self@.text(),
    {
        let quoted = debug_quoted(self.input.as_str());
        alias_error_line(quoted.as_str(), self.reason)
    }
}

// ---------------------------------------------------------------------------
// Address literals
// ---------------------------------------------------------------------------
/// One part of a dotted quad: at most three digits without a leading zero, up to
/// 255.
pub open spec fn is_octet(s: Seq<char>) -> bool {
    &&& 1 <= s.len() <= 3
    &&& all_digits(s)
    &&& s.len() > 1 ==> s[0] != '0'
    &&& digits_value(s) <= 255
}

/// A dotted quad.
pub open spec fn is_ipv4(s: Seq<char>) -> bool {
    let parts = split(s, '.');
    parts.len() == 4 && forall|i: int| 0 <= i < 4 ==> is_octet(#[trigger] parts[i])
}

/// Is the character a hexadecimal digit?
pub open spec fn is_hex(c: char) -> bool {
    is_digit(c) || 'a' <= c <= 'f' || 'A' <= c <= 'F'
}

/// One group of an IPv6 address: one to four hexadecimal digits.
pub open spec fn is_group(s: Seq<char>) -> bool {
    1 <= s.len() <= 4 && forall|i: int| 0 <= i < s.len() ==> is_hex(#[trigger] s[i])
}

/// How many 16-bit groups a side of an IPv6 address writes: groups with a colon
/// between them. Where `quad` allows it, the last may be a dotted quad, which
/// stands for two. `None` for a text of another form.
pub open spec fn group_count(s: Seq<char>, quad: bool) -> Option<nat> {
    let parts = split(s, ':');
    let before = forall|i: int| 0 <= i < parts.len() - 1 ==> is_group(#[trigger] parts[i]);
    if s.len() == 0 {
        Some(0)
    } else if before && is_group(parts.last()) {
        Some(parts.len())
    } else if before && quad && is_ipv4(parts.last()) {
        Some(parts.len() + 1)
    } else {
        None
    }
}

/// The text is an IPv6 address with the double colon at position `i`, which
/// stands for at least one group.
pub open spec fn is_shortened_at(s: Seq<char>, i: int) -> bool {
    &&& 0 <= i <= s.len() - 2
    &&& s[i] == ':'
    &&& s[i + 1] == ':'
    &&& group_count(s.take(i), false) is Some
    &&& group_count(s.skip(i + 2), true) is Some
    &&& group_count(s.take(i), false)->0 + group_count(s.skip(i + 2), true)->0 <= 7
}

/// An IPv6 address: eight groups, or fewer with one double colon.
pub open spec fn is_ipv6(s: Seq<char>) -> bool {
    group_count(s, true) == Some(8nat) || exists|i: int| is_shortened_at(s, i)
}

/// An address literal.
pub open spec fn is_ip(s: Seq<char>) -> bool {
    is_ipv4(s) || is_ipv6(s)
}

fn octet(s: &Vec<char>) -> (r: bool)
    ensures
        r == is_octet(s@),
{
    if s.len() == 0 || s.len() > 3 || (s.len() > 1 && s[0] == '0') {
        return false;
    }
    let mut value: u32 = 0;
    let mut i: usize = 0;
    while i < s.len()
        invariant
            i <= s@.len() <= 3,
            value == digits_value(s@.take(i as int)),
            value <= 999,
            i == 0 ==> value == 0,
            i == 1 ==> value <= 9,
            i == 2 ==> value <= 99,
            forall|k: int| 0 <= k < i ==> is_digit(#[trigger] s@[k]),
        decreases s@.len() - i,
    {
        let c = s[i];
        if !('0' <= c && c <= '9') {
            return false;
        }
        let d: u8 = c as u8 - 48;
        value = value * 10 + d as u32;
        assert(s@.take(i as int + 1).drop_last() =~= s@.take(i as int));
        assert(s@.take(i as int + 1).last() == c);
        i += 1;
    }
    assert(s@.take(s@.len() as int) =~= s@);
    value <= 255
}

fn ipv4(s: &Vec<char>) -> (r: bool)
    ensures
        r == is_ipv4(s@),
{
    let parts = chars_split(s, '.');
    if parts.len() != 4 {
        return false;
    }
    octet(&parts[0]) && octet(&parts[1]) && octet(&parts[2]) && octet(&parts[3])
}

fn group(s: &Vec<char>) -> (r: bool)
    ensures
        r == is_group(s@),
{
    if s.len() == 0 || s.len() > 4 {
        return false;
    }
    let mut i: usize = 0;
    while i < s.len()
        invariant
            i <= s@.len(),
            forall|k: int| 0 <= k < i ==> is_hex(#[trigger] s@[k]),
        decreases s@.len() - i,
    {
        let c = s[i];
        if !(('0' <= c && c <= '9') || ('a' <= c && c <= 'f') || ('A' <= c && c <= 'F')) {
            return false;
        }
        i += 1;
    }
    true
}

fn count_groups(s: &Vec<char>, quad: bool) -> (r: Option<usize>)
    ensures
        r is Some <==> group_count(s@, quad) is Some,
        r matches Some(n) ==> group_count(s@, quad) == Some(n as nat),
{
    if s.len() == 0 {
        return Some(0);
    }
    let parts = chars_split(s, ':');
    proof {
        lemma_split_nonempty(s@, ':');
    }
    let last: usize = parts.len() - 1;
    let mut i: usize = 0;
    while i < last
        invariant
            i <= last,
            last == parts@.len() - 1,
            s@.len() > 0,
            parts@.len() == split(s@, ':').len(),
            forall|k: int| 0 <= k < parts@.len() ==> (#[trigger] parts@[k])@ == split(s@, ':')[k],
            forall|k: int| 0 <= k < i ==> is_group(#[trigger] split(s@, ':')[k]),
        decreases last - i,
    {
        if !group(&parts[i]) {
            assert(!is_group(split(s@, ':')[i as int]));
            return None;
        }
        i += 1;
    }
    if group(&parts[last]) {
        Some(parts.len())
    } else if quad && ipv4(&parts[last]) {
        proof {
            lemma_quad_length(parts@[last as int]@);
            lemma_split_last_length(s@, ':');
        }
        Some(parts.len() + 1)
    } else {
        None
    }
}

/// The last part leaves room for the others.
proof fn lemma_split_last_length(s: Seq<char>, sep: char)
    ensures
        split(s, sep).len() > 0,
        split(s, sep).len() + split(s, sep).last().len() <= s.len() + 1,
    decreases s.len(),
{
    if s.len() > 0 {
        lemma_split_last_length(s.drop_last(), sep);
    }
}

/// A dotted quad has at least its three dots.
proof fn lemma_quad_length(s: Seq<char>)
    requires
        is_ipv4(s),
    ensures
        s.len() >= 3,
{
    lemma_split_last_length(s, '.');
}

fn shortened_at(s: &Vec<char>, i: usize) -> (r: bool)
    requires
        i + 2 <= s@.len(),
    ensures
        r == is_shortened_at(s@, i as int),
{
    let n: usize = s.len();
    if s[i] != ':' || s[i + 1] != ':' {
        return false;
    }
    let head = part_of(s, 0, i);
    let tail = part_of(s, i + 2, n);
    assert(head@ =~= s@.take(i as int));
    assert(tail@ =~= s@.skip(i + 2));
    match (count_groups(&head, false), count_groups(&tail, true)) {
        (Some(a), Some(b)) => a <= 7 && b <= 7 - a,
        _ => false,
    }
}

fn part_of(s: &Vec<char>, from: usize, to: usize) -> (r: Vec<char>)
    requires
        from <= to <= s@.len(),
    ensures
        r@ == s@.subrange(from as int, to as int),
{
    let mut out: Vec<char> = Vec::new();
    let mut i: usize = from;
    while i < to
        invariant
            from <= i <= to <= s@.len(),
            out@ == s@.subrange(from as int, i as int),
        decreases to - i,
    {
        out.push(s[i]);
        i += 1;
        assert(out@ =~= s@.subrange(from as int, i as int));
    }
    out
}

fn ipv6(s: &Vec<char>) -> (r: bool)
    ensures
        r == is_ipv6(s@),
{
    match count_groups(s, true) {
        Some(n) => {
            if n == 8 {
                return true;
            }
        },
        None => {},
    }
    if s.len() < 2 {
        return false;
    }
    let n: usize = s.len() - 1;
    let mut i: usize = 0;
    while i < n
        invariant
            i <= n,
            n == s@.len() - 1,
            group_count(s@, true) != Some(8nat),
            forall|k: int| 0 <= k < i ==> !is_shortened_at(s@, k),
        decreases n - i,
    {
        if shortened_at(s, i) {
            return true;
        }
        i += 1;
    }
    assert forall|k: int| !is_shortened_at(s@, k) by {}
    false
}

/// Is the value an IPv4 or IPv6 address literal rather than a hostname?
pub fn is_ip_literal(value: &str) -> (r: bool)
    ensures
        r == is_ip(value@),
{
    let chars = chars_of(value);
    ipv4(&chars) || ipv6(&chars)
}

// ---------------------------------------------------------------------------
// Hostnames
// ---------------------------------------------------------------------------
/// The text without one dot at its end.
pub open spec fn strip_dot(s: Seq<char>) -> Seq<char> {
    if s.len() > 0 && s.last() == '.' {
        s.drop_last()
    } else {
        s
    }
}

/// The form in which hostnames are compared: without the white space around
/// them, without one trailing dot, with ASCII letters in lower case.
pub open spec fn comparison_form(s: Seq<char>) -> Seq<char> {
    lower(strip_dot(trim(s)))
}

/// May the character stand in a label?
pub open spec fn is_label_char(c: char) -> bool {
    is_digit(c) || 'a' <= c <= 'z' || 'A' <= c <= 'Z' || c == '-'
}

/// What is wrong with a label, if anything.
pub open spec fn label_fault(label: Seq<char>) -> Option<AliasErrorReason> {
    if label.len() == 0 {
        Some(AliasErrorReason::EmptyLabel)
    } else if label.len() > 63 {
        Some(AliasErrorReason::LabelTooLong)
    } else if exists|i: int| 0 <= i < label.len() && !is_label_char(#[trigger] label[i]) {
        Some(AliasErrorReason::InvalidCharacter)
    } else if label[0] == '-' {
        Some(AliasErrorReason::LeadingHyphen)
    } else if label.last() == '-' {
        Some(AliasErrorReason::TrailingHyphen)
    } else {
        None
    }
}

/// What is wrong with the first faulty label, if there is one.
pub open spec fn first_label_fault(labels: Seq<Seq<char>>) -> Option<AliasErrorReason>
    decreases labels.len(),
{
    if labels.len() == 0 {
        None
    } else if first_label_fault(labels.drop_last()) is Some {
        first_label_fault(labels.drop_last())
    } else {
        label_fault(labels.last())
    }
}

/// What is wrong with a hostname without a trailing dot, if anything.
pub open spec fn hostname_fault(s: Seq<char>) -> Option<AliasErrorReason> {
    if is_ip(s) {
        Some(AliasErrorReason::IpLiteral)
    } else if s.len() > 253 {
        Some(AliasErrorReason::HostnameTooLong)
    } else {
        first_label_fault(split(s, '.'))
    }
}

/// What makes a trimmed alias something other than a bare hostname, if anything:
/// the part of a URL that it carries, or an address in place of a name.
pub open spec fn url_fault(s: Seq<char>) -> Option<AliasErrorReason> {
    if has_part(s, "://"@) {
        Some(AliasErrorReason::Scheme)
    } else if s.contains('*') {
        Some(AliasErrorReason::Wildcard)
    } else if s.contains('@') {
        Some(AliasErrorReason::UserInfo)
    } else if s.contains('/') {
        Some(AliasErrorReason::Path)
    } else if s.contains('?') {
        Some(AliasErrorReason::Query)
    } else if s.contains('#') {
        Some(AliasErrorReason::Fragment)
    } else if s.contains('[') || s.contains(']') || is_ip(s) {
        Some(AliasErrorReason::IpLiteral)
    } else if s.contains(':') {
        let tail = s.skip(s.index_of_first(':')->0 + 1);
        if tail.len() > 0 && all_digits(tail) {
            Some(AliasErrorReason::Port)
        } else {
            Some(AliasErrorReason::Scheme)
        }
    } else {
        None
    }
}

/// Why an alias is rejected, or `None` where it is accepted. The first reason in
/// this order is the one that is reported.
pub open spec fn alias_fault(input: Seq<char>) -> Option<AliasErrorReason> {
    let s = trim(input);
    if s.len() == 0 {
        Some(AliasErrorReason::Empty)
    } else if !is_ascii_text(s) {
        Some(AliasErrorReason::NonAscii)
    } else if url_fault(s) is Some {
        url_fault(s)
    } else if ends_with(s, ".."@) {
        Some(AliasErrorReason::TrailingDots)
    } else if strip_dot(s).len() == 0 {
        Some(AliasErrorReason::Empty)
    } else {
        hostname_fault(comparison_form(input))
    }
}

fn ascii_text(s: &Vec<char>) -> (r: bool)
    ensures
        r == is_ascii_text(s@),
{
    let mut i: usize = 0;
    while i < s.len()
        invariant
            i <= s@.len(),
            forall|k: int| 0 <= k < i ==> (#[trigger] s@[k] as u32) < 128,
        decreases s@.len() - i,
    {
        if s[i] as u32 >= 128 {
            return false;
        }
        i += 1;
    }
    true
}

fn find_label_fault(label: &Vec<char>) -> (r: Option<AliasErrorReason>)
    ensures
        r == label_fault(label@),
{
    if label.len() == 0 {
        return Some(AliasErrorReason::EmptyLabel);
    }
    if label.len() > MAX_LABEL_LEN {
        return Some(AliasErrorReason::LabelTooLong);
    }
    let mut i: usize = 0;
    while i < label.len()
        invariant
            i <= label@.len() <= 63,
            label@.len() > 0,
            forall|k: int| 0 <= k < i ==> is_label_char(#[trigger] label@[k]),
        decreases label@.len() - i,
    {
        let c = label[i];
        if !(('0' <= c && c <= '9') || ('a' <= c && c <= 'z') || ('A' <= c && c <= 'Z') || c
            == '-') {
            assert(!is_label_char(label@[i as int]));
            return Some(AliasErrorReason::InvalidCharacter);
        }
        i += 1;
    }
    if label[0] == '-' {
        Some(AliasErrorReason::LeadingHyphen)
    } else if label[label.len() - 1] == '-' {
        Some(AliasErrorReason::TrailingHyphen)
    } else {
        None
    }
}

/// The first fault stays the first when more labels follow.
proof fn lemma_first_fault_of_prefix(labels: Seq<Seq<char>>, k: int)
    requires
        0 <= k <= labels.len(),
        first_label_fault(labels.take(k)) is Some,
    ensures
        first_label_fault(labels) == first_label_fault(labels.take(k)),
    decreases labels.len() - k,
{
    if k == labels.len() {
        assert(labels.take(k) =~= labels);
    } else {
        assert(labels.take(k + 1).drop_last() =~= labels.take(k));
        lemma_first_fault_of_prefix(labels, k + 1);
    }
}

fn find_hostname_fault(s: &str) -> (r: Option<AliasErrorReason>)
    ensures
        r == hostname_fault(s@),
{
    if is_ip_literal(s) {
        return Some(AliasErrorReason::IpLiteral);
    }
    let chars = chars_of(s);
    if chars.len() > MAX_HOSTNAME_LEN {
        return Some(AliasErrorReason::HostnameTooLong);
    }
    let labels = chars_split(&chars, '.');
    let ghost all = split(s@, '.');
    let mut i: usize = 0;
    while i < labels.len()
        invariant
            i <= labels@.len(),
            hostname_fault(s@) == first_label_fault(all),
            labels@.len() == all.len(),
            forall|k: int| 0 <= k < all.len() ==> (#[trigger] labels@[k])@ == all[k],
            first_label_fault(all.take(i as int)) is None,
        decreases labels@.len() - i,
    {
        let fault = find_label_fault(&labels[i]);
        assert(all.take(i as int + 1).drop_last() =~= all.take(i as int));
        assert(all.take(i as int + 1).last() == all[i as int]);
        if fault.is_some() {
            proof {
                lemma_first_fault_of_prefix(all, i as int + 1);
            }
            return fault;
        }
        i += 1;
    }
    assert(all.take(all.len() as int) =~= all);
    None
}

fn find_url_fault(text: &str) -> (r: Option<AliasErrorReason>)
    ensures
        r == url_fault(text@),
{
    let s = chars_of(text);
    if str_has(text, "://") {
        return Some(AliasErrorReason::Scheme);
    }
    if chars_have(&s, '*') {
        return Some(AliasErrorReason::Wildcard);
    }
    if chars_have(&s, '@') {
        return Some(AliasErrorReason::UserInfo);
    }
    if chars_have(&s, '/') {
        return Some(AliasErrorReason::Path);
    }
    if chars_have(&s, '?') {
        return Some(AliasErrorReason::Query);
    }
    if chars_have(&s, '#') {
        return Some(AliasErrorReason::Fragment);
    }
    // Bracketed IPv6 (`[::1]`, `[::1]:80`) stands before the colon check, which
    // would otherwise report it as a port problem.
    if chars_have(&s, '[') || chars_have(&s, ']') || is_ip_literal(text) {
        return Some(AliasErrorReason::IpLiteral);
    }
    let mut i: usize = 0;
    while i < s.len()
        invariant
            i <= s@.len(),
            s@ == text@,
            forall|k: int| 0 <= k < i ==> s@[k] != ':',
        ensures
            i <= s@.len(),
            forall|k: int| 0 <= k < i ==> s@[k] != ':',
            i < s@.len() ==> s@[i as int] == ':',
        decreases s@.len() - i,
    {
        if s[i] == ':' {
            break;
        }
        i += 1;
    }
    if i == s.len() {
        return None;
    }
    // `host:8080` carries a port; `mailto:x`, or any other tail that is no
    // number, a scheme that lacked the `//`.
    let ghost tail = text@.skip(i + 1);
    proof {
        text@.index_of_first_ensures(':');
        assert(text@[i as int] == ':');
        assert(text@.contains(':'));
        assert(text@.index_of_first(':') == Some(i as int));
    }
    if i + 1 == s.len() {
        return Some(AliasErrorReason::Scheme);
    }
    let mut j: usize = i + 1;
    while j < s.len()
        invariant
            i < j <= s@.len(),
            s@ == text@,
            tail == text@.skip(i + 1),
            tail.len() > 0,
            url_fault(text@) == (if tail.len() > 0 && all_digits(tail) {
                Some(AliasErrorReason::Port)
            } else {
                Some(AliasErrorReason::Scheme)
            }),
            forall|k: int| 0 <= k < j - i - 1 ==> is_digit(#[trigger] tail[k]),
        decreases s@.len() - j,
    {
        assert(tail[j - i - 1] == s@[j as int]);
        if !('0' <= s[j] && s[j] <= '9') {
            return Some(AliasErrorReason::Scheme);
        }
        j += 1;
    }
    Some(AliasErrorReason::Port)
}

/// Validates one configured alias and returns its normalized hostname.
///
/// Normalization trims surrounding white space, drops at most one trailing DNS
/// dot and lowercases ASCII letters. The result is what every later consumer
/// uses, so two spellings of one name can never diverge between artifacts.
///
/// Wildcards and IP literals are rejected: an alias names an alternate hostname,
/// not an alternate listener address or an nginx pattern.
pub fn validate_and_normalize_alias(input: &str) -> (r: Result<String, AliasValidationError>)
    ensures
        r is Ok <==> alias_fault(input@) is None,
        r matches Ok(hostname) ==> hostname@ == comparison_form(input@),
        r matches Err(e) ==> e.input@ == input@ && alias_fault(input@) == Some(e.reason),
{
    match find_alias_fault(input) {
        Some(reason) => Err(AliasValidationError { input: input.to_string(), reason }),
        None => Ok(normalize_for_comparison(input)),
    }
}

fn find_alias_fault(input: &str) -> (r: Option<AliasErrorReason>)
    ensures
        r == alias_fault(input@),
{
    let trimmed = str_trim(input);
    let chars = chars_of(trimmed.as_str());
    if chars.len() == 0 {
        return Some(AliasErrorReason::Empty);
    }
    // A raw UTF-8 name needs the Punycode advice, not a complaint about label
    // characters.
    if !ascii_text(&chars) {
        return Some(AliasErrorReason::NonAscii);
    }
    let fault = find_url_fault(trimmed.as_str());
    if fault.is_some() {
        return fault;
    }
    // One trailing dot is the fully-qualified form; two mean an empty label.
    if str_ends_with(trimmed.as_str(), "..") {
        return Some(AliasErrorReason::TrailingDots);
    }
    if chars.len() == 1 && chars[0] == '.' {
        return Some(AliasErrorReason::Empty);
    }
    find_hostname_fault(normalize_for_comparison(input).as_str())
}

/// Normalizes an already trusted hostname for comparison only: the canonical
/// `{service}.{domain}.test` names, which are built from folder names that
/// nothing validates.
///
/// Comparison is DNS-correct (case-insensitive, trailing dot optional) even when
/// the name itself is passed on verbatim, so an alias spelled
/// `MyApp.comagine.test` is recognized as its own canonical URL.
pub fn normalize_for_comparison(hostname: &str) -> (r: String)
    ensures
        r@ == comparison_form(hostname@),
{
    let trimmed = str_trim(hostname);
    let chars = chars_of(trimmed.as_str());
    let n: usize = chars.len();
    if n > 0 && chars[n - 1] == '.' {
        let stripped = string_of(&chars, 0, n - 1);
        assert(stripped@ =~= strip_dot(trim(hostname@)));
        str_lower(stripped.as_str())
    } else {
        str_lower(trimmed.as_str())
    }
}

/// Does the dnsmasq wildcard (`address=/.test/127.0.0.1`) already resolve this
/// hostname, so that it needs no hosts-file entry to be reachable?
///
/// The suffix match is case-insensitive but strict: `example.test.invalid` is
/// not a `.test` name.
pub fn is_dnsmasq_wildcard_hostname(hostname: &str) -> (r: bool)
    ensures
        r == ends_with(comparison_form(hostname@), ".test"@),
{
    str_ends_with(normalize_for_comparison(hostname).as_str(), ".test")
}

// ---------------------------------------------------------------------------
// Laws
// ---------------------------------------------------------------------------
/// Where no label is at fault, none of them is.
proof fn lemma_no_label_fault(labels: Seq<Seq<char>>)
    requires
        first_label_fault(labels) is None,
    ensures
        forall|i: int| 0 <= i < labels.len() ==> label_fault(#[trigger] labels[i]) is None,
    decreases labels.len(),
{
    if labels.len() > 0 {
        lemma_no_label_fault(labels.drop_last());
        assert forall|i: int| 0 <= i < labels.len() implies label_fault(
            #[trigger] labels[i],
        ) is None by {
            if i < labels.len() - 1 {
                assert(labels.drop_last()[i] == labels[i]);
            }
        }
    }
}

/// May the character stand in a normalized hostname?
pub open spec fn is_hostname_char(c: char) -> bool {
    is_digit(c) || 'a' <= c <= 'z' || c == '-' || c == '.'
}

/// What an accepted alias becomes is a hostname: at most 253 characters, all of
/// them lower-case letters, digits, hyphens and dots, no address literal, and
/// every label nonempty, at most 63 characters long and without a hyphen at
/// either end.
pub proof fn accepted_alias_is_a_hostname(input: Seq<char>)
    requires
        alias_fault(input) is None,
    ensures
        1 <= comparison_form(input).len() <= 253,
        !is_ip(comparison_form(input)),
        forall|i: int|
            0 <= i < comparison_form(input).len() ==> is_hostname_char(
                #[trigger] comparison_form(input)[i],
            ),
        forall|i: int|
            0 <= i < split(comparison_form(input), '.').len() ==> {
                let label = #[trigger] split(comparison_form(input), '.')[i];
                1 <= label.len() <= 63 && label[0] != '-' && label.last() != '-'
            },
{
    let h = comparison_form(input);
    let labels = split(h, '.');
    lemma_no_label_fault(labels);
    lemma_split_characters(h, '.');
    assert forall|i: int| 0 <= i < h.len() implies is_hostname_char(#[trigger] h[i]) by {
        assert(h[i] == lower_char(strip_dot(trim(input))[i]));
        if h[i] != '.' {
            let k = choose|k: int| 0 <= k < labels.len() && #[trigger] labels[k].contains(h[i]);
            assert(label_fault(labels[k]) is None);
            let j = labels[k].index_of(h[i]);
            assert(is_label_char(labels[k][j]));
        }
    }
    assert forall|i: int| 0 <= i < labels.len() implies {
        let label = #[trigger] labels[i];
        1 <= label.len() <= 63 && label[0] != '-' && label.last() != '-'
    } by {
        assert(label_fault(labels[i]) is None);
    }
}

/// Normalization is stable: what an accepted alias becomes is accepted again and
/// stays as it is, also when it is normalized for comparison only.
pub proof fn normalized_alias_is_stable(input: Seq<char>)
    requires
        alias_fault(input) is None,
    ensures
        alias_fault(comparison_form(input)) is None,
        comparison_form(comparison_form(input)) == comparison_form(input),
{
    accepted_alias_is_a_hostname(input);
    let h = comparison_form(input);
    let labels = split(h, '.');
    assert(is_hostname_char(h[0]));
    assert(is_hostname_char(h[h.len() - 1]));
    assert(trim(h) == h);
    assert(h.last() != '.') by {
        if h.last() == '.' {
            lemma_split_nonempty(h, '.');
            assert(labels.last().len() == 0);
            assert(labels[labels.len() - 1].len() == 0);
        }
    }
    assert(lower(h) =~= h) by {
        assert forall|i: int| 0 <= i < h.len() implies lower(h)[i] == h[i] by {
            assert(is_hostname_char(h[i]));
        }
    }
    assert(comparison_form(h) == h);
    assert(is_ascii_text(h)) by {
        assert forall|i: int| 0 <= i < h.len() implies (#[trigger] h[i] as u32) < 128 by {
            assert(is_hostname_char(h[i]));
        }
    }
    assert forall|c: char| h.contains(c) implies is_hostname_char(c) by {
        assert(is_hostname_char(h[h.index_of(c)]));
    }
    reveal_strlit("://");
    reveal_strlit("..");
    assert(!has_part(h, "://"@)) by {
        if has_part(h, "://"@) {
            let i = choose|i: int| occurs_at(h, "://"@, i);
            assert(h.subrange(i, i + 3)[0] == ':');
            assert(h[i] == ':');
        }
    }
    assert(!ends_with(h, ".."@)) by {
        if ends_with(h, ".."@) {
            assert(h.subrange(h.len() - 2, h.len() as int)[1] == '.');
        }
    }
}

/// Trimming and lowercasing can be done in either order.
proof fn lemma_trim_lower(s: Seq<char>)
    ensures
        lower(trim(s)) == trim(lower(s)),
{
    lemma_trim_start_lower(s);
    lemma_trim_end_lower(trim_start(s));
}

proof fn lemma_trim_start_lower(s: Seq<char>)
    ensures
        lower(trim_start(s)) == trim_start(lower(s)),
    decreases s.len(),
{
    if s.len() > 0 {
        lemma_trim_start_lower(s.drop_first());
        assert(lower(s.drop_first()) =~= lower(s).drop_first());
    }
}

proof fn lemma_trim_end_lower(s: Seq<char>)
    ensures
        lower(trim_end(s)) == trim_end(lower(s)),
    decreases s.len(),
{
    if s.len() > 0 {
        lemma_trim_end_lower(s.drop_last());
        assert(lower(s.drop_last()) =~= lower(s).drop_last());
    }
}

/// Comparison ignores the case of ASCII letters.
pub proof fn comparison_ignores_case(a: Seq<char>, b: Seq<char>)
    requires
        lower(a) == lower(b),
    ensures
        comparison_form(a) == comparison_form(b),
{
    assert forall|s: Seq<char>| #[trigger] comparison_form(s) == strip_dot(trim(lower(s))) by {
        lemma_trim_lower(s);
        assert(lower(strip_dot(trim(s))) =~= strip_dot(lower(trim(s))));
    }
}

/// Comparison ignores white space around a hostname.
pub proof fn comparison_ignores_white_space(s: Seq<char>, c: char)
    requires
        is_space(c),
    ensures
        comparison_form(s.push(c)) == comparison_form(s),
        comparison_form(seq![c] + s) == comparison_form(s),
{
    lemma_trim_push(s, c);
    assert((seq![c] + s).drop_first() =~= s);
}

proof fn lemma_trim_push(s: Seq<char>, c: char)
    requires
        is_space(c),
    ensures
        trim(s.push(c)) == trim(s),
    decreases s.len(),
{
    let t = s.push(c);
    if s.len() == 0 {
        assert(t.drop_first() =~= s);
    } else {
        assert(t[0] == s[0]);
        assert(t.drop_first() =~= s.drop_first().push(c));
        if is_space(s[0]) {
            lemma_trim_push(s.drop_first(), c);
        } else {
            assert(t.drop_last() =~= s);
        }
    }
}

/// Comparison ignores one trailing dot.
pub proof fn comparison_ignores_a_trailing_dot(s: Seq<char>)
    requires
        s.len() > 0 ==> s.last() != '.' && !is_space(s.last()),
    ensures
        comparison_form(s.push('.')) == comparison_form(s),
{
    lemma_trim_dotted(s);
    let t = trim(s);
    assert(t.push('.').drop_last() =~= t);
}

proof fn lemma_trim_dotted(s: Seq<char>)
    requires
        s.len() > 0 ==> s.last() != '.' && !is_space(s.last()),
    ensures
        trim(s.push('.')) == trim(s).push('.'),
        trim(s).len() > 0 ==> trim(s).last() != '.',
    decreases s.len(),
{
    let t = s.push('.');
    if s.len() > 0 {
        assert(t[0] == s[0]);
        assert(t.drop_first() =~= s.drop_first().push('.'));
        if is_space(s[0]) {
            lemma_trim_dotted(s.drop_first());
        }
    }
}

/// Leading white space goes; the rest of a text that ends without any stays.
proof fn lemma_trim_keeps_end(s: Seq<char>, end: Seq<char>)
    requires
        end.len() > 0,
        !is_space(end[0]),
        !is_space(end.last()),
    ensures
        exists|head: Seq<char>| trim(s + end) == #[trigger] (head + end),
    decreases s.len(),
{
    let t = s + end;
    assert(t.last() == end.last());
    if s.len() == 0 {
        assert(t =~= end);
        assert(trim(t) == Seq::<char>::empty() + end) by {
            assert(Seq::<char>::empty() + end =~= end);
        }
    } else {
        assert(t[0] == s[0]);
        if is_space(s[0]) {
            assert(t.drop_first() =~= s.drop_first() + end);
            lemma_trim_keeps_end(s.drop_first(), end);
        } else {
            assert(trim(t) == s + end);
        }
    }
}

/// Every name below `.test` is resolved by the wildcard, canonical hostnames among them.
pub proof fn names_below_test_are_resolved_by_wildcard(name: Seq<char>)
    ensures
        ends_with(comparison_form(name + ".test"@), ".test"@),
{
    reveal_strlit(".test");
    let end = ".test"@;
    assert(end[0] == '.' && end[1] == 't' && end[2] == 'e' && end[3] == 's' && end[4] == 't');
    lemma_trim_keeps_end(name, end);
    let head = choose|head: Seq<char>| trim(name + end) == #[trigger] (head + end);
    let t = head + end;
    assert(t.last() == 't');
    assert(strip_dot(t) == t);
    let form = lower(t);
    assert(form.subrange(form.len() - 5, form.len() as int) =~= end);
}

} // verus!
