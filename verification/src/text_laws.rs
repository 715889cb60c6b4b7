//! What holds of the operations on texts.
use crate::text::{
    decimal, digits_value, ends_with, has_part, is_space, lemma_decimal_value,
    lemma_split_nonempty, lex_less, lower, lowered, occurs_at, port_number, replace_all, split,
    starts_with, trim, trim_end, trim_start,
};
use vstd::prelude::*;

verus! {

// ---------------------------------------------------------------------------
// Order
// ---------------------------------------------------------------------------
/// Texts are ordered by the first character in which they differ, and a text comes before
/// every text that goes on after it.
pub proof fn first_difference_decides_the_order(p: Seq<char>, a: Seq<char>, b: Seq<char>)
    ensures
        a.len() > 0 && b.len() > 0 && a[0] < b[0] ==> lex_less(p + a, p + b),
        a.len() > 0 && b.len() > 0 && a[0] > b[0] ==> !lex_less(p + a, p + b),
        a.len() == 0 && b.len() > 0 ==> lex_less(p + a, p + b),
        b.len() == 0 ==> !lex_less(p + a, p + b),
    decreases p.len(),
{
    if p.len() == 0 {
        assert(p + a =~= a);
        assert(p + b =~= b);
    } else {
        let rest = p.drop_first();
        first_difference_decides_the_order(rest, a, b);
        assert((p + a).drop_first() =~= rest + a);
        assert((p + b).drop_first() =~= rest + b);
    }
}

// ---------------------------------------------------------------------------
// White space
// ---------------------------------------------------------------------------
/// Every character is white space.
pub open spec fn is_blank(s: Seq<char>) -> bool {
    forall|i: int| 0 <= i < s.len() ==> is_space(#[trigger] s[i])
}

/// The text starts and ends with something other than white space.
pub open spec fn is_bare(s: Seq<char>) -> bool {
    s.len() > 0 && !is_space(s[0]) && !is_space(s.last())
}

/// Among ASCII characters, white space is the blank, the tabulators, the line feed, the form
/// feed and the carriage return.
pub proof fn ascii_white_space(c: char)
    requires
        (c as u32) < 128,
    ensures
        is_space(c) <==> c == ' ' || (9 <= c as u32 <= 13),
{
}

proof fn lemma_trim_start(a: Seq<char>, t: Seq<char>)
    requires
        is_blank(a),
        t.len() == 0 || !is_space(t[0]),
    ensures
        trim_start(a + t) == t,
    decreases a.len(),
{
    if a.len() == 0 {
        assert(a + t =~= t);
    } else {
        assert((a + t)[0] == a[0]);
        let rest = a.drop_first();
        assert forall|i: int| 0 <= i < rest.len() implies is_space(#[trigger] rest[i]) by {
            assert(rest[i] == a[i + 1]);
        }
        lemma_trim_start(rest, t);
        assert((a + t).drop_first() =~= rest + t);
    }
}

proof fn lemma_trim_end(t: Seq<char>, b: Seq<char>)
    requires
        is_blank(b),
        t.len() == 0 || !is_space(t.last()),
    ensures
        trim_end(t + b) == t,
    decreases b.len(),
{
    if b.len() == 0 {
        assert(t + b =~= t);
    } else {
        assert((t + b).last() == b.last());
        assert(is_space(b[b.len() - 1]));
        let rest = b.drop_last();
        assert forall|i: int| 0 <= i < rest.len() implies is_space(#[trigger] rest[i]) by {
            assert(rest[i] == b[i]);
        }
        lemma_trim_end(t, rest);
        assert((t + b).drop_last() =~= t + rest);
    }
}

/// Trimming takes away all white space on both sides, and nothing else. Nothing is left of a
/// text that is all white space.
pub proof fn trimming_takes_the_white_space_around(a: Seq<char>, t: Seq<char>, b: Seq<char>)
    requires
        is_blank(a),
        is_blank(b),
        is_bare(t),
    ensures
        trim(a + t + b) == t,
        trim(a) == Seq::<char>::empty(),
{
    assert(a + t + b =~= a + (t + b));
    lemma_trim_start(a, t + b);
    lemma_trim_end(t, b);
    assert(a + Seq::<char>::empty() =~= a);
    lemma_trim_start(a, Seq::<char>::empty());
}

/// Every text is white space, or something bare with white space around it: what trimming
/// leaves.
pub proof fn every_text_is_trimmed(s: Seq<char>) -> (r: (Seq<char>, Seq<char>))
    ensures
        is_blank(r.0),
        is_blank(r.1),
        s == r.0 + trim(s) + r.1,
        trim(s).len() == 0 || is_bare(trim(s)),
{
    let a = lemma_blank_start(s);
    let t = trim_start(s);
    let b = lemma_blank_end(t);
    assert(a + trim(s) + b =~= a + (trim(s) + b));
    if trim(s).len() > 0 {
        assert(trim(s)[0] == t[0]);
    }
    (a, b)
}

proof fn lemma_blank_start(s: Seq<char>) -> (a: Seq<char>)
    ensures
        is_blank(a),
        s == a + trim_start(s),
        trim_start(s).len() == 0 || !is_space(trim_start(s)[0]),
    decreases s.len(),
{
    if s.len() > 0 && is_space(s[0]) {
        let rest = lemma_blank_start(s.drop_first());
        let a = seq![s[0]] + rest;
        let t = trim_start(s);
        assert(s.drop_first() == rest + t);
        assert(s =~= seq![s[0]] + s.drop_first());
        assert(a + t =~= seq![s[0]] + (rest + t));
        a
    } else {
        let a = Seq::<char>::empty();
        assert(s =~= a + trim_start(s));
        a
    }
}

proof fn lemma_blank_end(s: Seq<char>) -> (b: Seq<char>)
    ensures
        is_blank(b),
        s == trim_end(s) + b,
        trim_end(s).len() == 0 || !is_space(trim_end(s).last()),
    decreases s.len(),
{
    if s.len() > 0 && is_space(s.last()) {
        let rest = lemma_blank_end(s.drop_last());
        let b = rest.push(s.last());
        let t = trim_end(s);
        assert(s.drop_last() == t + rest);
        assert(s =~= s.drop_last().push(s.last()));
        assert(t + b =~= (t + rest).push(s.last()));
        b
    } else {
        let b = Seq::<char>::empty();
        assert(s =~= trim_end(s) + b);
        b
    }
}

// ---------------------------------------------------------------------------
// Case
// ---------------------------------------------------------------------------
/// Lower case changes the letters `A` to `Z` into `a` to `z`, one for one, and no other
/// character.
pub proof fn lower_case_changes_capitals_alone(s: Seq<char>, i: int)
    requires
        0 <= i < s.len(),
    ensures
        lower(s).len() == s.len(),
        'A' <= s[i] <= 'Z' ==> lower(s)[i] as u32 == s[i] as u32 + 32,
        !('A' <= s[i] <= 'Z') ==> lower(s)[i] == s[i],
        (forall|k: int| 0 <= k < s.len() ==> (#[trigger] s[k] as u32) < 128) ==> lowered(s)
            == lower(s),
{
}

// ---------------------------------------------------------------------------
// Parts
// ---------------------------------------------------------------------------
/// A separator parts a text: the parts of what stands before it are followed by the parts of
/// what stands behind it. A text without the separator is one part.
pub proof fn splitting_parts_at_every_separator(a: Seq<char>, b: Seq<char>, sep: char)
    ensures
        split(a.push(sep) + b, sep) == split(a, sep) + split(b, sep),
        !a.contains(sep) ==> split(a, sep) == seq![a],
    decreases b.len(),
{
    lemma_split_nonempty(a, sep);
    lemma_split_nonempty(b, sep);
    lemma_split_whole(a, sep);
    let whole = a.push(sep) + b;
    if b.len() == 0 {
        assert(whole =~= a.push(sep));
        assert(whole.drop_last() =~= a);
        assert(split(whole, sep) =~= split(a, sep) + split(b, sep));
    } else {
        let rest = b.drop_last();
        splitting_parts_at_every_separator(a, rest, sep);
        lemma_split_nonempty(rest, sep);
        assert(whole.drop_last() =~= a.push(sep) + rest);
        assert(whole.last() == b.last());
        let before = split(a, sep) + split(rest, sep);
        assert(before.last() == split(rest, sep).last());
        assert(split(whole, sep) =~= split(a, sep) + split(b, sep));
    }
}

proof fn lemma_split_whole(s: Seq<char>, sep: char)
    ensures
        !s.contains(sep) ==> split(s, sep) == seq![s],
    decreases s.len(),
{
    if !s.contains(sep) {
        if s.len() == 0 {
            assert(s =~= Seq::<char>::empty());
        } else {
            let init = s.drop_last();
            assert(!init.contains(sep)) by {
                if init.contains(sep) {
                    assert(s[init.index_of(sep)] == sep);
                }
            }
            lemma_split_whole(init, sep);
            assert(s[s.len() - 1] != sep);
            assert(init.push(s.last()) =~= s);
            assert(split(s, sep) =~= seq![s]);
        }
    }
}

/// A part is found where it stands, and a text that starts or ends with a part is made of it
/// and of the rest.
pub proof fn parts_are_found_where_they_stand(a: Seq<char>, x: Seq<char>, b: Seq<char>)
    ensures
        has_part(a + x + b, x),
        starts_with(x + b, x),
        ends_with(a + x, x),
        has_part(a, x) ==> exists|p: Seq<char>, q: Seq<char>| a == #[trigger] (p + x + q),
        starts_with(a, x) ==> a == x + a.skip(x.len() as int),
        ends_with(a, x) ==> a == a.take(a.len() - x.len()) + x,
{
    let i = a.len() as int;
    assert((a + x + b).subrange(i, i + x.len()) =~= x);
    assert(occurs_at(a + x + b, x, i));
    assert((x + b).subrange(0, x.len() as int) =~= x);
    assert((a + x).subrange(i, i + x.len()) =~= x);
    if has_part(a, x) {
        let k = choose|k: int| occurs_at(a, x, k);
        let p = a.take(k);
        let q = a.skip(k + x.len());
        assert(a =~= p + a.subrange(k, k + x.len()) + q);
    }
    if starts_with(a, x) {
        assert(a =~= a.subrange(0, x.len() as int) + a.skip(x.len() as int));
    }
    if ends_with(a, x) {
        let k = a.len() - x.len();
        assert(a =~= a.take(k) + a.subrange(k, a.len() as int));
    }
}

/// The text holds `from` at no position before `n`.
pub open spec fn first_at_or_behind(s: Seq<char>, from: Seq<char>, n: int) -> bool {
    forall|i: int| 0 <= i < n ==> !#[trigger] occurs_at(s, from, i)
}

/// The first occurrence is replaced, what stands before it stays, and replacing goes on behind
/// it. A text without occurrences stays as it is.
pub proof fn replacing_replaces_every_occurrence(
    a: Seq<char>,
    from: Seq<char>,
    b: Seq<char>,
    to: Seq<char>,
)
    requires
        from.len() > 0,
        first_at_or_behind(a + from + b, from, a.len() as int),
    ensures
        replace_all(a + from + b, from, to) == a + to + replace_all(b, from, to),
        !has_part(b, from) ==> replace_all(b, from, to) == b,
    decreases a.len(),
{
    if !has_part(b, from) {
        crate::text::lemma_replace_absent(b, from, to);
    }
    let whole = a + from + b;
    if a.len() == 0 {
        assert(whole.subrange(0, from.len() as int) =~= from);
        assert(starts_with(whole, from));
        assert(whole.skip(from.len() as int) =~= b);
        assert(a + to + replace_all(b, from, to) =~= to + replace_all(b, from, to));
    } else {
        assert(!occurs_at(whole, from, 0));
        let rest = a.drop_first();
        let tail = rest + from + b;
        assert(whole.drop_first() =~= tail);
        assert forall|i: int| 0 <= i < rest.len() implies !#[trigger] occurs_at(tail, from, i) by {
            assert(!occurs_at(whole, from, i + 1));
            if occurs_at(tail, from, i) {
                assert(whole.subrange(i + 1, i + 1 + from.len()) =~= tail.subrange(
                    i,
                    i + from.len(),
                ));
            }
        }
        replacing_replaces_every_occurrence(rest, from, b, to);
        assert(seq![a[0]] + (rest + to + replace_all(b, from, to)) =~= a + to + replace_all(
            b,
            from,
            to,
        ));
    }
}

// ---------------------------------------------------------------------------
// Numbers
// ---------------------------------------------------------------------------
/// Each further digit multiplies a number by ten and adds its own value.
pub proof fn digits_are_worth_their_place(s: Seq<char>, c: char)
    requires
        '0' <= c <= '9',
    ensures
        digits_value(Seq::empty()) == 0,
        digits_value(s.push(c)) == 10 * digits_value(s) + (c as int - '0' as int),
{
    assert(s.push(c).drop_last() =~= s);
}

/// A number is written with digits that are worth it, and starts with a zero only where it is
/// zero.
pub proof fn numbers_are_written_in_decimal(n: nat)
    ensures
        decimal(n).len() > 0,
        forall|i: int| 0 <= i < decimal(n).len() ==> '0' <= #[trigger] decimal(n)[i] <= '9',
        digits_value(decimal(n)) == n,
        decimal(n)[0] == '0' ==> n == 0 && decimal(n).len() == 1,
    decreases n,
{
    lemma_decimal_value(n);
    if n >= 10 {
        numbers_are_written_in_decimal(n / 10);
        assert(decimal(n)[0] == decimal(n / 10)[0]);
    }
    assert forall|i: int| 0 <= i < decimal(n).len() implies '0' <= #[trigger] decimal(n)[i]
        <= '9' by {
        assert(crate::text::is_digit(decimal(n)[i]));
    }
}

/// A text is a port when it is made of digits, after a plus sign at most, and is worth less
/// than 65536; and it is the port that it is worth.
pub proof fn ports_are_read_from_digits(s: Seq<char>)
    ensures
        s.len() > 0 && (forall|i: int| 0 <= i < s.len() ==> '0' <= #[trigger] s[i] <= '9') ==> {
            &&& port_number(s) is Some <==> digits_value(s) < 65536
            &&& port_number(s) is Some ==> port_number(s)->0 == digits_value(s)
            &&& port_number(seq!['+'] + s) == port_number(s)
        },
        s.len() == 0 ==> port_number(s) is None && port_number(seq!['+'] + s) is None,
        (exists|i: int| 0 <= i < s.len() && !('0' <= #[trigger] s[i] <= '9')) ==> port_number(
            seq!['+'] + s,
        ) is None,
        (exists|i: int| 0 <= i < s.len() && !('0' <= #[trigger] s[i] <= '9')) && s[0] != '+'
            ==> port_number(s) is None,
{
    let plus = seq!['+'] + s;
    assert(plus.drop_first() =~= s);
    if exists|i: int| 0 <= i < s.len() && !('0' <= #[trigger] s[i] <= '9') {
        let i = choose|i: int| 0 <= i < s.len() && !('0' <= #[trigger] s[i] <= '9');
        assert(!crate::text::is_digit(s[i]));
    }
    if s.len() > 0 && (forall|i: int| 0 <= i < s.len() ==> '0' <= #[trigger] s[i] <= '9') {
        assert('0' <= s[0] <= '9');
        assert(crate::text::all_digits(s));
    }
}

} // verus!
