//! What holds of the validation of aliases.
use crate::alias::{
    accepted_alias_is_a_hostname, alias_fault, comparison_form, first_label_fault, group_count,
    hostname_fault, is_ip, is_ipv4, is_ipv6, is_octet, label_fault, strip_dot, url_fault,
    AliasErrorReason,
};
use crate::text::{
    all_digits, digits_value, ends_with, has_part, is_ascii_text, is_digit, lemma_split_characters,
    lemma_split_nonempty, lower, lower_char, occurs_at, split, trim,
};
use crate::text_laws::{
    is_bare, is_blank, splitting_parts_at_every_separator, trimming_takes_the_white_space_around,
};
use vstd::prelude::*;

verus! {

/// Normalizing takes away the white space around an alias and one dot at its end, and puts
/// what is left into lower case.
pub proof fn normalizing_trims_and_lowers(a: Seq<char>, h: Seq<char>, b: Seq<char>)
    requires
        is_blank(a),
        is_blank(b),
        is_bare(h),
    ensures
        h.last() != '.' ==> comparison_form(a + h + b) == lower(h),
        h.last() == '.' ==> comparison_form(a + h + b) == lower(h.drop_last()),
{
    trimming_takes_the_white_space_around(a, h, b);
}

/// The label of a hostname: one to 63 lower-case letters, digits and hyphens, with no hyphen
/// at either end.
pub open spec fn is_label(s: Seq<char>) -> bool {
    &&& 1 <= s.len() <= 63
    &&& forall|i: int|
        0 <= i < s.len() ==> 'a' <= #[trigger] s[i] <= 'z' || '0' <= s[i] <= '9' || s[i] == '-'
    &&& s[0] != '-'
    &&& s.last() != '-'
}

/// A number from 0 to 255 in decimal, without a leading zero.
pub open spec fn is_byte(s: Seq<char>) -> bool {
    &&& 1 <= s.len() <= 3
    &&& forall|i: int| 0 <= i < s.len() ==> '0' <= #[trigger] s[i] <= '9'
    &&& s.len() > 1 ==> s[0] != '0'
    &&& digits_value(s) <= 255
}

/// An IPv4 address: four such numbers with dots between them.
pub open spec fn is_address(s: Seq<char>) -> bool {
    &&& split(s, '.').len() == 4
    &&& is_byte(split(s, '.')[0])
    &&& is_byte(split(s, '.')[1])
    &&& is_byte(split(s, '.')[2])
    &&& is_byte(split(s, '.')[3])
}

/// A hostname: labels with dots between them, at most 253 characters, and no address.
pub open spec fn is_hostname(s: Seq<char>) -> bool {
    &&& s.len() <= 253
    &&& forall|i: int| 0 <= i < split(s, '.').len() ==> is_label(#[trigger] split(s, '.')[i])
    &&& !is_address(s)
}

proof fn lemma_address(s: Seq<char>)
    ensures
        is_ipv4(s) <==> is_address(s),
{
    let parts = split(s, '.');
    assert forall|p: Seq<char>| is_octet(p) <==> #[trigger] is_byte(p) by {
        if is_octet(p) {
            assert forall|i: int| 0 <= i < p.len() implies '0' <= #[trigger] p[i] <= '9' by {
                assert(is_digit(p[i]));
            }
        }
        if is_byte(p) {
            assert(all_digits(p));
        }
    }
    if is_ipv4(s) {
        assert(is_octet(parts[0]) && is_octet(parts[1]) && is_octet(parts[2]) && is_octet(
            parts[3],
        ));
    }
    if is_address(s) {
        assert forall|i: int| 0 <= i < 4 implies is_octet(#[trigger] parts[i]) by {
            assert(is_byte(parts[i]));
        }
    }
}

/// A text without colons is no IPv6 address.
proof fn lemma_no_colons(s: Seq<char>)
    requires
        !s.contains(':'),
    ensures
        !is_ipv6(s),
{
    splitting_parts_at_every_separator(s, Seq::empty(), ':');
    assert(split(s, ':').len() == 1);
    assert(group_count(s, true) != Some(8nat));
    assert forall|i: int| !crate::alias::is_shortened_at(s, i) by {
        if 0 <= i < s.len() && s[i] == ':' {
            assert(s.contains(':'));
        }
    }
}

/// The characters of a hostname.
proof fn lemma_hostname_characters(s: Seq<char>)
    requires
        forall|i: int| 0 <= i < split(s, '.').len() ==> is_label(#[trigger] split(s, '.')[i]),
    ensures
        forall|i: int|
            0 <= i < s.len() ==> 'a' <= #[trigger] s[i] <= 'z' || '0' <= s[i] <= '9' || s[i] == '-'
                || s[i] == '.',
        s.len() > 0,
        s.last() != '.',
        s[0] != '.',
{
    let labels = split(s, '.');
    lemma_split_characters(s, '.');
    lemma_split_nonempty(s, '.');
    assert forall|i: int| 0 <= i < s.len() implies 'a' <= #[trigger] s[i] <= 'z' || '0' <= s[i]
        <= '9' || s[i] == '-' || s[i] == '.' by {
        if s[i] != '.' {
            let k = choose|k: int| 0 <= k < labels.len() && #[trigger] labels[k].contains(s[i]);
            let j = labels[k].index_of(s[i]);
            assert(is_label(labels[k]));
            assert(labels[k][j] == s[i]);
        }
    }
    if s.len() == 0 {
        assert(labels[0].len() == 0);
        assert(is_label(labels[0]));
    } else {
        if s.last() == '.' {
            assert(labels[labels.len() - 1].len() == 0);
            assert(is_label(labels[labels.len() - 1]));
        }
        if s[0] == '.' {
            let none = Seq::<char>::empty();
            assert(s =~= none.push('.') + s.drop_first());
            splitting_parts_at_every_separator(none, s.drop_first(), '.');
            assert(labels[0].len() == 0);
            assert(is_label(labels[0]));
        }
    }
}

proof fn lemma_no_fault(labels: Seq<Seq<char>>)
    requires
        forall|i: int| 0 <= i < labels.len() ==> is_label(#[trigger] labels[i]),
    ensures
        first_label_fault(labels) is None,
    decreases labels.len(),
{
    if labels.len() > 0 {
        let init = labels.drop_last();
        assert forall|i: int| 0 <= i < init.len() implies is_label(#[trigger] init[i]) by {
            assert(init[i] == labels[i]);
        }
        lemma_no_fault(init);
        let last = labels[labels.len() - 1];
        assert(is_label(last));
        assert forall|i: int| 0 <= i < last.len() implies crate::alias::is_label_char(
            #[trigger] last[i],
        ) by {}
    }
}

/// An alias is accepted exactly when what it is normalized to is a hostname.
pub proof fn alias_is_accepted_when_it_is_a_hostname(input: Seq<char>)
    ensures
        alias_fault(input) is None <==> is_hostname(comparison_form(input)),
{
    let n = comparison_form(input);
    let labels = split(n, '.');
    lemma_address(n);
    if alias_fault(input) is None {
        accepted_alias_is_a_hostname(input);
        assert forall|i: int| 0 <= i < labels.len() implies is_label(#[trigger] labels[i]) by {
            lemma_split_characters(n, '.');
            let label = labels[i];
            assert forall|j: int| 0 <= j < label.len() implies 'a' <= #[trigger] label[j] <= 'z'
                || '0' <= label[j] <= '9' || label[j] == '-' by {
                assert(labels[i].contains(label[j]));
                let k = n.index_of(label[j]);
                assert(crate::alias::is_hostname_char(n[k]));
            }
        }
    }
    if is_hostname(n) {
        lemma_hostname_characters(n);
        lemma_no_fault(labels);
        let t = trim(input);
        let bare = strip_dot(t);
        assert(n.len() == bare.len());
        assert forall|i: int| 0 <= i < t.len() implies {
            ||| 'a' <= #[trigger] t[i] <= 'z'
            ||| 'A' <= t[i] <= 'Z'
            ||| '0' <= t[i] <= '9'
            ||| t[i] == '-'
            ||| t[i] == '.'
        } by {
            if i < bare.len() {
                assert(n[i] == lower_char(bare[i]));
            }
        }
        assert(is_ascii_text(t));
        lemma_no_mark(t, ':');
        lemma_no_mark(t, '*');
        lemma_no_mark(t, '@');
        lemma_no_mark(t, '/');
        lemma_no_mark(t, '?');
        lemma_no_mark(t, '#');
        lemma_no_mark(t, '[');
        lemma_no_mark(t, ']');
        assert(!has_part(t, "://"@)) by {
            reveal_strlit("://");
            if has_part(t, "://"@) {
                let i = choose|i: int| occurs_at(t, "://"@, i);
                assert(t.subrange(i, i + 3)[0] == ':');
                assert(t[i] == ':');
            }
        }
        lemma_no_colons(t);
        assert(!n.contains(':')) by {
            if n.contains(':') {
                assert(n[n.index_of(':')] == ':');
            }
        }
        lemma_no_colons(n);
        assert(!is_ipv4(t)) by {
            if is_ipv4(t) {
                lemma_address_is_normal(t);
                if t.last() != '.' {
                    assert(bare == t);
                    assert(n == t);
                } else {
                    lemma_split_nonempty(t, '.');
                    assert(split(t, '.').last().len() == 0);
                    assert(is_octet(split(t, '.')[3]));
                }
            }
        }
        assert(url_fault(t) is None);
        assert(!ends_with(t, ".."@)) by {
            reveal_strlit("..");
            if ends_with(t, ".."@) {
                let e = t.subrange(t.len() - 2, t.len() as int);
                assert(e[0] == '.' && e[1] == '.');
                assert(t[t.len() - 1] == '.' && t[t.len() - 2] == '.');
                assert(bare.last() == '.');
                assert(n[n.len() - 1] == lower_char(bare[bare.len() - 1]));
            }
        }
        assert(hostname_fault(n) is None);
    }
}

/// A text of letters, digits, hyphens and dots holds no other mark.
proof fn lemma_no_mark(t: Seq<char>, c: char)
    requires
        forall|i: int|
            0 <= i < t.len() ==> {
                ||| 'a' <= #[trigger] t[i] <= 'z'
                ||| 'A' <= t[i] <= 'Z'
                ||| '0' <= t[i] <= '9'
                ||| t[i] == '-'
                ||| t[i] == '.'
            },
        c == ':' || c == '*' || c == '@' || c == '/' || c == '?' || c == '#' || c == '[' || c
            == ']',
    ensures
        !t.contains(c),
{
    if t.contains(c) {
        let i = t.index_of(c);
        assert(t[i] == c);
    }
}

/// An IPv4 address is the same in lower case.
proof fn lemma_address_is_normal(t: Seq<char>)
    requires
        is_ipv4(t),
    ensures
        lower(t) == t,
        t.len() > 0,
{
    let parts = split(t, '.');
    lemma_split_characters(t, '.');
    if t.len() == 0 {
        assert(parts.len() == 1);
    }
    assert forall|i: int| 0 <= i < t.len() implies lower(t)[i] == t[i] by {
        if t[i] != '.' {
            let k = choose|k: int| 0 <= k < parts.len() && #[trigger] parts[k].contains(t[i]);
            let j = parts[k].index_of(t[i]);
            assert(is_octet(parts[k]));
            assert(is_digit(parts[k][j]));
        }
    }
    assert(lower(t) =~= t);
}

/// The character stands in the text.
pub open spec fn holds(t: Seq<char>, c: char) -> bool {
    exists|i: int| 0 <= i < t.len() && #[trigger] t[i] == c
}

/// The first colon of the text is followed by digits up to its end.
pub open spec fn ends_with_port(t: Seq<char>) -> bool {
    exists|i: int|
        {
            &&& 0 <= i < t.len() - 1
            &&& #[trigger] t[i] == ':'
            &&& forall|k: int| 0 <= k < i ==> t[k] != ':'
            &&& forall|k: int| i < k < t.len() ==> '0' <= #[trigger] t[k] <= '9'
        }
}

/// An alias with a part of a URL in it is rejected for that part. Of several parts the one
/// that is named here first counts: the scheme, a wildcard, the user, the path, the query,
/// the fragment, then brackets, and then what a colon begins.
pub proof fn url_parts_are_rejected_by_name(a: Seq<char>, t: Seq<char>, b: Seq<char>)
    requires
        is_blank(a),
        is_blank(b),
        is_bare(t),
        forall|i: int| 0 <= i < t.len() ==> (#[trigger] t[i] as u32) < 128,
    ensures
        ({
            let fault = alias_fault(a + t + b);
            let scheme = has_part(t, "://"@);
            let marks = holds(t, '*') || holds(t, '@') || holds(t, '/') || holds(t, '?') || holds(
                t,
                '#',
            );
            let bracket = holds(t, '[') || holds(t, ']');
            &&& scheme ==> fault == Some(AliasErrorReason::Scheme)
            &&& !scheme && holds(t, '*') ==> fault == Some(AliasErrorReason::Wildcard)
            &&& !scheme && !holds(t, '*') && holds(t, '@') ==> fault == Some(
                AliasErrorReason::UserInfo,
            )
            &&& !scheme && !holds(t, '*') && !holds(t, '@') && holds(t, '/') ==> fault == Some(
                AliasErrorReason::Path,
            )
            &&& !scheme && !holds(t, '*') && !holds(t, '@') && !holds(t, '/') && holds(t, '?')
                ==> fault == Some(AliasErrorReason::Query)
            &&& !scheme && !holds(t, '*') && !holds(t, '@') && !holds(t, '/') && !holds(t, '?')
                && holds(t, '#') ==> fault == Some(AliasErrorReason::Fragment)
            &&& !scheme && !marks && (bracket || is_ip(t)) ==> fault == Some(
                AliasErrorReason::IpLiteral,
            )
            &&& !scheme && !marks && !bracket && !is_ip(t) && ends_with_port(t) ==> fault == Some(
                AliasErrorReason::Port,
            )
            &&& !scheme && !marks && !bracket && !is_ip(t) && holds(t, ':') && !ends_with_port(t)
                ==> fault == Some(AliasErrorReason::Scheme)
        }),
{
    trimming_takes_the_white_space_around(a, t, b);
    assert forall|c: char| #[trigger] holds(t, c) <==> t.contains(c) by {
        if holds(t, c) {
            let i = choose|i: int| 0 <= i < t.len() && #[trigger] t[i] == c;
            assert(t.contains(c));
        }
        if t.contains(c) {
            assert(t[t.index_of(c)] == c);
        }
    }
    assert(is_ascii_text(t));
    if t.contains(':') {
        t.index_of_first_ensures(':');
        let i = t.index_of_first(':')->0;
        let tail = t.skip(i + 1);
        if ends_with_port(t) {
            let j = choose|j: int|
                {
                    &&& 0 <= j < t.len() - 1
                    &&& #[trigger] t[j] == ':'
                    &&& forall|k: int| 0 <= k < j ==> t[k] != ':'
                    &&& forall|k: int| j < k < t.len() ==> '0' <= #[trigger] t[k] <= '9'
                };
            assert(i == j);
            assert forall|k: int| 0 <= k < tail.len() implies is_digit(#[trigger] tail[k]) by {
                assert(tail[k] == t[i + 1 + k]);
            }
        } else if tail.len() > 0 && all_digits(tail) {
            assert forall|k: int| i < k < t.len() implies '0' <= #[trigger] t[k] <= '9' by {
                assert(is_digit(tail[k - i - 1]));
            }
            assert(t[i] == ':');
            assert(ends_with_port(t));
        }
    }
}

/// An alias of nothing but white space is rejected as empty, and so is a single dot; one with
/// a character beyond ASCII is rejected as such, whatever else is wrong with it.
pub proof fn empty_and_foreign_aliases_are_rejected(a: Seq<char>, t: Seq<char>, b: Seq<char>)
    requires
        is_blank(a),
        is_blank(b),
        is_bare(t),
    ensures
        alias_fault(a) == Some(AliasErrorReason::Empty),
        (exists|i: int| 0 <= i < t.len() && (#[trigger] t[i] as u32) >= 128) ==> alias_fault(
            a + t + b,
        ) == Some(AliasErrorReason::NonAscii),
        t == seq!['.'] ==> alias_fault(a + t + b) == Some(AliasErrorReason::Empty),
{
    trimming_takes_the_white_space_around(a, t, b);
    if exists|i: int| 0 <= i < t.len() && (#[trigger] t[i] as u32) >= 128 {
        let i = choose|i: int| 0 <= i < t.len() && (#[trigger] t[i] as u32) >= 128;
        assert(!is_ascii_text(t));
    }
    if t == seq!['.'] {
        assert(is_ascii_text(t));
        lemma_no_mark(t, ':');
        lemma_no_mark(t, '*');
        lemma_no_mark(t, '@');
        lemma_no_mark(t, '/');
        lemma_no_mark(t, '?');
        lemma_no_mark(t, '#');
        lemma_no_mark(t, '[');
        lemma_no_mark(t, ']');
        reveal_strlit("://");
        reveal_strlit("..");
        lemma_no_colons(t);
        let none = Seq::<char>::empty();
        assert(t =~= none.push('.') + none);
        splitting_parts_at_every_separator(none, none, '.');
        assert(split(t, '.').len() == 2);
        assert(!is_ip(t));
        assert(url_fault(t) is None);
    }
}

/// What is wrong with a label: it is empty, or too long, or holds a character that does not
/// belong, or has a hyphen at its start, or at its end. Of several the one named first counts.
pub open spec fn is_wrong_for(label: Seq<char>, reason: AliasErrorReason) -> bool {
    let foreign = exists|i: int|
        0 <= i < label.len() && !('a' <= #[trigger] label[i] <= 'z' || '0' <= label[i] <= '9'
            || label[i] == '-');
    &&& label.len() == 0 ==> reason == AliasErrorReason::EmptyLabel
    &&& label.len() > 63 ==> reason == AliasErrorReason::LabelTooLong
    &&& 1 <= label.len() <= 63 && foreign ==> reason == AliasErrorReason::InvalidCharacter
    &&& 1 <= label.len() <= 63 && !foreign && label[0] == '-' ==> reason
        == AliasErrorReason::LeadingHyphen
    &&& 1 <= label.len() <= 63 && !foreign && label[0] != '-' && label.last() == '-' ==> reason
        == AliasErrorReason::TrailingHyphen
}

proof fn lemma_first_fault(labels: Seq<Seq<char>>, k: int)
    requires
        0 <= k < labels.len(),
        forall|i: int| 0 <= i < k ==> is_label(#[trigger] labels[i]),
        label_fault(labels[k]) is Some,
    ensures
        first_label_fault(labels) == label_fault(labels[k]),
    decreases labels.len(),
{
    let init = labels.drop_last();
    if k < labels.len() - 1 {
        assert forall|i: int| 0 <= i < k implies is_label(#[trigger] init[i]) by {
            assert(init[i] == labels[i]);
        }
        assert(init[k] == labels[k]);
        lemma_first_fault(init, k);
    } else {
        assert forall|i: int| 0 <= i < init.len() implies is_label(#[trigger] init[i]) by {
            assert(init[i] == labels[i]);
        }
        lemma_no_fault(init);
    }
}

/// A name without any part of a URL that is too long, or whose first bad label is the one at
/// position `k`, is rejected for that; and an address for being one.
pub proof fn bad_hostnames_are_rejected_by_name(a: Seq<char>, t: Seq<char>, b: Seq<char>, k: int)
    requires
        is_blank(a),
        is_blank(b),
        is_bare(t),
        forall|i: int| 0 <= i < t.len() ==> (#[trigger] t[i] as u32) < 128,
        !holds(t, '*') && !holds(t, '@') && !holds(t, '/') && !holds(t, '?') && !holds(t, '#'),
        !holds(t, '[') && !holds(t, ']') && !holds(t, ':'),
        t != seq!['.'],
    ensures
        ({
            let fault = alias_fault(a + t + b);
            let n = comparison_form(a + t + b);
            let labels = split(n, '.');
            let dots = t.len() >= 2 && t[t.len() - 1] == '.' && t[t.len() - 2] == '.';
            &&& dots ==> fault == Some(AliasErrorReason::TrailingDots)
            &&& !dots && is_address(n) ==> fault == Some(AliasErrorReason::IpLiteral)
            &&& !dots && !is_address(n) && n.len() > 253 ==> fault == Some(
                AliasErrorReason::HostnameTooLong,
            )
            &&& !dots && !is_address(n) && n.len() <= 253 && 0 <= k < labels.len() && !is_label(
                labels[k],
            ) && (forall|i: int| 0 <= i < k ==> is_label(#[trigger] labels[i])) ==> {
                &&& fault is Some
                &&& is_wrong_for(labels[k], fault->0)
            }
        }),
{
    trimming_takes_the_white_space_around(a, t, b);
    let n = comparison_form(a + t + b);
    let labels = split(n, '.');
    assert forall|c: char| t.contains(c) implies #[trigger] holds(t, c) by {
        assert(t[t.index_of(c)] == c);
    }
    assert(!t.contains(':') && !holds(t, ':'));
    assert(!holds(t, '*') && !holds(t, '@') && !holds(t, '/') && !holds(t, '?') && !holds(t, '#'));
    assert(!t.contains('*') && !t.contains('@') && !t.contains('/') && !t.contains('?')
        && !t.contains('#') && !t.contains('[') && !t.contains(']'));
    assert(is_ascii_text(t));
    assert(!has_part(t, "://"@)) by {
        reveal_strlit("://");
        if has_part(t, "://"@) {
            let i = choose|i: int| occurs_at(t, "://"@, i);
            assert(t.subrange(i, i + 3)[0] == ':');
            assert(t[i] == ':');
        }
    }
    lemma_no_colons(t);
    let bare = strip_dot(t);
    assert(!n.contains(':')) by {
        if n.contains(':') {
            let i = n.index_of(':');
            assert(n[i] == lower_char(bare[i]));
            assert(t[i] == ':');
        }
    }
    lemma_no_colons(n);
    lemma_address(n);
    lemma_address(t);
    let dots = t.len() >= 2 && t[t.len() - 1] == '.' && t[t.len() - 2] == '.';
    assert(dots <==> ends_with(t, ".."@)) by {
        reveal_strlit("..");
        if t.len() >= 2 {
            let e = t.subrange(t.len() - 2, t.len() as int);
            assert(e[0] == t[t.len() - 2] && e[1] == t[t.len() - 1]);
            if dots {
                assert(e =~= ".."@);
            }
        }
    }
    if is_ipv4(t) {
        lemma_address_is_normal(t);
        lemma_split_nonempty(t, '.');
        if t.last() == '.' {
            assert(split(t, '.').last().len() == 0);
            assert(is_octet(split(t, '.')[3]));
        }
        assert(n == t);
    }
    assert(bare.len() > 0) by {
        if bare.len() == 0 {
            assert(t =~= seq!['.']);
        }
    }
    if 0 <= k < labels.len() && !is_label(labels[k]) && (forall|i: int|
        0 <= i < k ==> is_label(#[trigger] labels[i])) && !dots && !is_address(n) && n.len()
        <= 253 {
        let label = labels[k];
        lemma_split_characters(n, '.');
        assert forall|j: int| 0 <= j < label.len() implies !('A' <= #[trigger] label[j] <= 'Z') by {
            assert(labels[k].contains(label[j]));
            let i = n.index_of(label[j]);
            assert(n[i] == lower_char(bare[i]));
        }
        lemma_label_fault(label);
        lemma_first_fault(labels, k);
    }
}

proof fn lemma_label_fault(label: Seq<char>)
    requires
        !is_label(label),
        forall|j: int| 0 <= j < label.len() ==> !('A' <= #[trigger] label[j] <= 'Z'),
    ensures
        label_fault(label) is Some,
        is_wrong_for(label, label_fault(label)->0),
{
    let foreign = exists|i: int|
        0 <= i < label.len() && !('a' <= #[trigger] label[i] <= 'z' || '0' <= label[i] <= '9'
            || label[i] == '-');
    if foreign {
        let i = choose|i: int|
            0 <= i < label.len() && !('a' <= #[trigger] label[i] <= 'z' || '0' <= label[i] <= '9'
                || label[i] == '-');
        assert(!('A' <= label[i] <= 'Z'));
        assert(!crate::alias::is_label_char(label[i]));
    } else {
        assert forall|i: int| 0 <= i < label.len() implies crate::alias::is_label_char(
            #[trigger] label[i],
        ) by {}
    }
}

} // verus!
