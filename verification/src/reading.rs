//! What it means to read a lock: which texts stand for which locks, and which of the listed record
//! sets a lock is taken from.

use vstd::arithmetic::power::{lemma_pow_adds, lemma_pow0, lemma_pow1, pow};
use vstd::prelude::*;

use crate::decimal::{
    all_digits, decimal, digit, digit_value, is_digit, lemma_decimal, lemma_value_bounds, parsed,
    unsigned, value_of,
};
use crate::identity::is_safe_owner;
use crate::record::{Lock, LockRecord, StoredLock, StoredRecord};
use crate::route53::{
    canonical, current_lock, first_lock, found_lock, ignored_by_names, ignored_texts,
    ignored_values, lock_by_names, lock_of,
};
use crate::text::{
    lowercase, split_once, trim, trim_end, trim_start, white_space, without_prefix, Pattern,
};
use crate::zone::{listed, texts, Listed, RecordSet};

verus! {

/// A pattern covers the one character that it is made of, or the 25 characters that Unicode calls
/// white space.
pub proof fn law_pattern_covers(x: char, c: char)
    ensures
        Pattern::Char(x).covers(c) <==> c == x,
        Pattern::WhiteSpace.covers(c) <==> white_space(c),
        white_space(c) <==> seq![
            '\t',
            '\n',
            '\u{b}',
            '\u{c}',
            '\r',
            ' ',
            '\u{85}',
            '\u{a0}',
            '\u{1680}',
            '\u{2000}',
            '\u{2001}',
            '\u{2002}',
            '\u{2003}',
            '\u{2004}',
            '\u{2005}',
            '\u{2006}',
            '\u{2007}',
            '\u{2008}',
            '\u{2009}',
            '\u{200a}',
            '\u{2028}',
            '\u{2029}',
            '\u{202f}',
            '\u{205f}',
            '\u{3000}',
        ].contains(c),
{
    let all = seq![
        '\t',
        '\n',
        '\u{b}',
        '\u{c}',
        '\r',
        ' ',
        '\u{85}',
        '\u{a0}',
        '\u{1680}',
        '\u{2000}',
        '\u{2001}',
        '\u{2002}',
        '\u{2003}',
        '\u{2004}',
        '\u{2005}',
        '\u{2006}',
        '\u{2007}',
        '\u{2008}',
        '\u{2009}',
        '\u{200a}',
        '\u{2028}',
        '\u{2029}',
        '\u{202f}',
        '\u{205f}',
        '\u{3000}',
    ];
    if white_space(c) {
        let u = c as u32;
        let i: int = if u <= 0x0d {
            u - 0x09
        } else if u == 0x20 {
            5
        } else if u == 0x85 {
            6
        } else if u == 0xa0 {
            7
        } else if u == 0x1680 {
            8
        } else if u <= 0x200a {
            u - 0x2000 + 9
        } else if u == 0x2028 {
            20
        } else if u == 0x2029 {
            21
        } else if u == 0x202f {
            22
        } else if u == 0x205f {
            23
        } else {
            24
        };
        assert(all[i] == c);
    }
}

/// Trimming the end of a text cuts off characters of the pattern only, and leaves none at the end.
pub proof fn law_trim_end_cuts(s: Seq<char>, p: Pattern)
    ensures
        trim_end(s, p).len() <= s.len(),
        trim_end(s, p) == s.take(trim_end(s, p).len() as int),
        forall|i: int| trim_end(s, p).len() <= i < s.len() ==> p.covers(#[trigger] s[i]),
        trim_end(s, p).len() > 0 ==> !p.covers(trim_end(s, p).last()),
    decreases s.len(),
{
    if s.len() > 0 && p.covers(s.last()) {
        law_trim_end_cuts(s.drop_last(), p);
        let n = trim_end(s, p).len() as int;
        assert(s.drop_last().take(n) =~= s.take(n));
        assert forall|i: int| n <= i < s.len() implies p.covers(#[trigger] s[i]) by {
            if i < s.len() - 1 {
                assert(s.drop_last()[i] == s[i]);
            }
        }
    } else {
        assert(s.take(s.len() as int) =~= s);
    }
}

/// Trimming the start of a text cuts off characters of the pattern only, and leaves none at the
/// start.
pub proof fn law_trim_start_cuts(s: Seq<char>, p: Pattern)
    ensures
        trim_start(s, p).len() <= s.len(),
        trim_start(s, p) == s.skip(s.len() - trim_start(s, p).len()),
        forall|i: int| 0 <= i < s.len() - trim_start(s, p).len() ==> p.covers(#[trigger] s[i]),
        trim_start(s, p).len() > 0 ==> !p.covers(trim_start(s, p).first()),
    decreases s.len(),
{
    if s.len() > 0 && p.covers(s.first()) {
        law_trim_start_cuts(s.drop_first(), p);
        let k = s.len() - trim_start(s, p).len();
        assert(s.drop_first().skip(k - 1) =~= s.skip(k));
        assert forall|i: int| 0 <= i < k implies p.covers(#[trigger] s[i]) by {
            if i > 0 {
                assert(s.drop_first()[i - 1] == s[i]);
            }
        }
    } else {
        assert(s.skip(0) =~= s);
    }
}

/// A text without characters of the pattern at its ends is what trimming leaves of it, whatever
/// characters of the pattern stand around it.
pub proof fn law_trim_finds_the_text(left: Seq<char>, s: Seq<char>, right: Seq<char>, p: Pattern)
    requires
        forall|i: int| 0 <= i < left.len() ==> p.covers(#[trigger] left[i]),
        forall|i: int| 0 <= i < right.len() ==> p.covers(#[trigger] right[i]),
        s.len() > 0 ==> !p.covers(s.first()) && !p.covers(s.last()),
    ensures
        trim(left + s + right, p) == s,
{
    let whole = left + s + right;
    let cut = trim_end(whole, p);
    law_trim_end_cuts(whole, p);
    law_trim_start_cuts(cut, p);
    let n = left.len() as int;
    let m = n + s.len();
    let t = trim_start(cut, p);
    let k = cut.len() - t.len();
    assert(forall|i: int| n <= i < m ==> #[trigger] whole[i] == s[i - n]);
    assert(forall|i: int| 0 <= i < n ==> #[trigger] whole[i] == left[i]);
    assert(forall|i: int| m <= i < whole.len() ==> #[trigger] whole[i] == right[i - m]);
    if s.len() > 0 {
        assert(whole[m - 1] == s.last());
        assert(whole[n] == s.first());
        if cut.len() > m {
            assert(cut.last() == whole[cut.len() - 1]);
            assert(p.covers(right[cut.len() - 1 - m]));
        }
        assert(cut.len() == m);
        assert(cut[n] == s.first());
        if k < n {
            assert(t.first() == cut[k]);
            assert(p.covers(left[k]));
        }
        assert(k == n);
        assert(t =~= s);
    } else {
        if cut.len() > 0 {
            let i = cut.len() - 1;
            assert(cut.last() == whole[i]);
            if i < n {
                assert(p.covers(left[i]));
            } else {
                assert(p.covers(right[i - m]));
            }
        }
        assert(t =~= s);
    }
}

/// What trimming leaves of a text stands in it, between characters of the pattern only, and has
/// none at its own ends.
pub proof fn law_trim_cuts_both_ends(s: Seq<char>, p: Pattern) -> (parts: (Seq<char>, Seq<char>))
    ensures
        s == parts.0 + trim(s, p) + parts.1,
        forall|i: int| 0 <= i < parts.0.len() ==> p.covers(#[trigger] parts.0[i]),
        forall|i: int| 0 <= i < parts.1.len() ==> p.covers(#[trigger] parts.1[i]),
        trim(s, p).len() > 0 ==> !p.covers(trim(s, p).first()) && !p.covers(trim(s, p).last()),
{
    let cut = trim_end(s, p);
    law_trim_end_cuts(s, p);
    law_trim_start_cuts(cut, p);
    let k = cut.len() - trim_start(cut, p).len();
    let left = cut.take(k);
    let right = s.skip(cut.len() as int);
    assert(s =~= left + trim(s, p) + right);
    assert forall|i: int| 0 <= i < right.len() implies p.covers(#[trigger] right[i]) by {
        assert(right[i] == s[i + cut.len()]);
    }
    if trim(s, p).len() > 0 {
        assert(trim(s, p).last() == cut.last());
    }
    (left, right)
}

/// A prefix is cut off once; a text that does not start with it is kept.
pub proof fn law_prefix_is_cut_once(prefix: Seq<char>, rest: Seq<char>, other: Seq<char>)
    requires
        forall|tail: Seq<char>| other != #[trigger] (prefix + tail),
    ensures
        without_prefix(prefix + rest, prefix) == rest,
        without_prefix(other, prefix) == other,
{
    let whole = prefix + rest;
    assert(whole.subrange(0, prefix.len() as int) =~= prefix);
    assert(whole.skip(prefix.len() as int) =~= rest);
    if prefix.is_prefix_of(other) {
        let tail = other.skip(prefix.len() as int);
        assert(other.subrange(0, prefix.len() as int) == prefix);
        assert forall|i: int| 0 <= i < prefix.len() implies other[i] == prefix[i] by {
            assert(other.subrange(0, prefix.len() as int)[i] == other[i]);
        }
        assert(other =~= prefix + tail);
    }
}

/// The first separator splits a text; a text without a separator is not split.
pub proof fn law_first_separator_splits(before: Seq<char>, c: char, after: Seq<char>)
    requires
        !before.contains(c),
    ensures
        split_once(before + seq![c] + after, c) == Some((before, after)),
        split_once(before, c) is None,
{
    let whole = before + seq![c] + after;
    let n = before.len() as int;
    before.index_of_first_ensures(c);
    whole.index_of_first_ensures(c);
    assert(whole[n] == c);
    assert(whole.contains(c));
    let i = whole.index_of_first(c)->0;
    if i < n {
        assert(before[i] == whole[i]);
        assert(before.contains(c));
    }
    assert(i == n);
    assert(whole.take(n) =~= before);
    assert(whole.skip(n + 1) =~= after);
}

/// The digits are the ten characters from `0` to `9`, with the values from zero to nine.
pub proof fn law_digits(c: char, d: int)
    requires
        0 <= d < 10,
    ensures
        is_digit(c) <==> seq!['0', '1', '2', '3', '4', '5', '6', '7', '8', '9'].contains(c),
        digit(d) == seq!['0', '1', '2', '3', '4', '5', '6', '7', '8', '9'][d],
        digit_value(digit(d)) == d,
{
    let all = seq!['0', '1', '2', '3', '4', '5', '6', '7', '8', '9'];
    if is_digit(c) {
        let i = c as u32 - '0' as u32;
        assert(all[i] == c);
    }
}

/// Decimal notation is positional: what stands before `n` more digits counts ten to the power of
/// `n` times.
pub proof fn law_decimal_is_positional(a: Seq<char>, b: Seq<char>, c: char)
    ensures
        value_of(Seq::<char>::empty()) == 0,
        value_of(seq![c]) == digit_value(c),
        value_of(a + b) == value_of(a) * pow(10, b.len()) + value_of(b),
    decreases b.len(),
{
    assert(seq![c].drop_last() =~= Seq::<char>::empty());
    assert(seq![c].last() == c);
    assert(value_of(Seq::<char>::empty()) == 0);
    if b.len() == 0 {
        lemma_pow0(10);
        assert(a + b =~= a);
    } else {
        let n = (b.len() - 1) as nat;
        law_decimal_is_positional(a, b.drop_last(), c);
        assert((a + b).drop_last() =~= a + b.drop_last());
        assert((a + b).last() == b.last());
        lemma_pow1(10);
        lemma_pow_adds(10, n, 1);
        let (v, p) = (value_of(a), pow(10, n));
        assert(10 * (v * p) == v * (p * 10)) by (nonlinear_arith);
    }
}

/// A number is written in digits that denote it, without a leading zero.
pub proof fn law_decimal_notation(n: nat)
    ensures
        decimal(n).len() > 0,
        all_digits(decimal(n)),
        value_of(decimal(n)) == n,
        decimal(n)[0] == '0' ==> n == 0 && decimal(n).len() == 1,
    decreases n,
{
    lemma_decimal(n);
    if n >= 10 {
        law_decimal_notation(n / 10);
        assert(decimal(n)[0] == decimal(n / 10)[0]);
    } else {
        assert(decimal(n)[0] as u32 == '0' as u32 + n);
    }
}

/// A number is read exactly from one or more digits, with or without one leading plus sign, that
/// denote a number of at most 64 bits.
pub proof fn law_number_is_read(s: Seq<char>, n: u64)
    ensures
        parsed(s) == Some(n) <==> exists|digits: Seq<char>| #[trigger]
            value_of(digits) == n && digits.len() > 0 && (forall|i: int|
                0 <= i < digits.len() ==> is_digit(#[trigger] digits[i])) && (s == digits || s
                == seq!['+'] + digits),
        parsed(s) is None <==> forall|digits: Seq<char>|
            digits.len() > 0 && (forall|i: int|
                0 <= i < digits.len() ==> is_digit(#[trigger] digits[i])) && (s == digits || s
                == seq!['+'] + digits) ==> #[trigger] value_of(digits) > u64::MAX,
{
    let own = unsigned(s);
    if s.len() > 0 && s[0] == '+' {
        assert(s =~= seq!['+'] + own);
    }
    assert forall|digits: Seq<char>|
        digits.len() > 0 && (forall|i: int|
            0 <= i < digits.len() ==> is_digit(#[trigger] digits[i])) && (s == digits || s
            == seq!['+'] + digits) implies digits == own by {
        assert(is_digit(digits[0]));
        if s == seq!['+'] + digits {
            assert(s[0] == '+');
            assert(s.drop_first() =~= digits);
        }
    }
    if all_digits(own) {
        lemma_value_bounds(own, own.len() as int);
        assert(own.take(own.len() as int) =~= own);
    }
    if parsed(s) == Some(n) {
        assert(value_of(own) == n);
    }
    if parsed(s) is None {
        assert forall|digits: Seq<char>|
            digits.len() > 0 && (forall|i: int|
                0 <= i < digits.len() ==> is_digit(#[trigger] digits[i])) && (s == digits || s
                == seq!['+'] + digits) implies #[trigger] value_of(digits) > u64::MAX by {
            assert(digits == own);
        }
    } else {
        let v = value_of(own);
        assert(own.len() > 0 && all_digits(own) && v <= u64::MAX);
    }
}

/// The text of a lock is its owner, one space, and the digits of its expiry without a leading zero.
pub proof fn law_record_text(lock: Lock)
    ensures
        ({
            let (text, n) = (lock.encoded(), lock.owner.len() as int);
            let digits = text.skip(n + 1);
            &&& text.take(n) == lock.owner
            &&& text[n] == ' '
            &&& digits.len() > 0
            &&& forall|i: int| 0 <= i < digits.len() ==> is_digit(#[trigger] digits[i])
            &&& value_of(digits) == lock.expires_unix
            &&& digits[0] == '0' ==> digits.len() == 1
            &&& text.len() == n + 1 + digits.len()
        }),
{
    let (text, n) = (lock.encoded(), lock.owner.len() as int);
    law_decimal_notation(lock.expires_unix as nat);
    assert(text.take(n) =~= lock.owner);
    assert(text.skip(n + 1) =~= decimal(lock.expires_unix as nat));
}

/// A lock is read from every text that consists of an owner without a space, one space, and a
/// number of at most 64 bits, which may have a plus sign and white space around it.
pub proof fn law_record_is_read(
    owner: Seq<char>,
    left: Seq<char>,
    plus: bool,
    digits: Seq<char>,
    right: Seq<char>,
)
    requires
        !owner.contains(' '),
        forall|i: int| 0 <= i < left.len() ==> white_space(#[trigger] left[i]),
        forall|i: int| 0 <= i < right.len() ==> white_space(#[trigger] right[i]),
        digits.len() > 0,
        forall|i: int| 0 <= i < digits.len() ==> is_digit(#[trigger] digits[i]),
    ensures
        ({
            let number = if plus {
                seq!['+'] + digits
            } else {
                digits
            };
            let lock = Lock::decoded(owner + seq![' '] + (left + number + right));
            &&& value_of(digits) <= u64::MAX ==> (lock matches Some(l) && l.owner == owner
                && l.expires_unix == value_of(digits))
            &&& value_of(digits) > u64::MAX ==> lock is None
        }),
{
    let number = if plus {
        seq!['+'] + digits
    } else {
        digits
    };
    law_first_separator_splits(owner, ' ', left + number + right);
    assert(is_digit(digits[0]));
    assert(is_digit(digits[digits.len() - 1]));
    assert(number.last() == digits.last());
    law_trim_finds_the_text(left, number, right, Pattern::WhiteSpace);
    if plus {
        assert(number.drop_first() =~= digits);
    }
    assert(unsigned(number) == digits);
    assert(all_digits(digits));
    lemma_value_bounds(digits, digits.len() as int);
    assert(digits.take(digits.len() as int) =~= digits);
}

/// A text from which a lock is read consists of the owner, which has no space, one space, and the
/// expiry in digits, which may have a plus sign and white space around it.
pub proof fn law_read_record_has_its_form(text: Seq<char>, lock: Lock) -> (parts: (
    Seq<char>,
    Seq<char>,
    Seq<char>,
))
    requires
        Lock::decoded(text) == Some(lock),
    ensures
        !lock.owner.contains(' '),
        ({
            let (left, digits, right) = parts;
            &&& text == lock.owner + seq![' '] + (left + digits + right) || text == lock.owner
                + seq![' '] + (left + (seq!['+'] + digits) + right)
            &&& forall|i: int| 0 <= i < left.len() ==> white_space(#[trigger] left[i])
            &&& forall|i: int| 0 <= i < right.len() ==> white_space(#[trigger] right[i])
            &&& digits.len() > 0
            &&& forall|i: int| 0 <= i < digits.len() ==> is_digit(#[trigger] digits[i])
            &&& value_of(digits) == lock.expires_unix
        }),
{
    text.index_of_first_ensures(' ');
    let i = text.index_of_first(' ')->0;
    let expiry = text.skip(i + 1);
    assert(text =~= lock.owner + seq![' '] + expiry);
    let (left, right) = law_trim_cuts_both_ends(expiry, Pattern::WhiteSpace);
    assert forall|k: int| 0 <= k < left.len() implies white_space(#[trigger] left[k]) by {
        assert(Pattern::WhiteSpace.covers(left[k]));
    }
    assert forall|k: int| 0 <= k < right.len() implies white_space(#[trigger] right[k]) by {
        assert(Pattern::WhiteSpace.covers(right[k]));
    }
    let number = trim(expiry, Pattern::WhiteSpace);
    let digits = unsigned(number);
    if number.len() > 0 && number[0] == '+' {
        assert(number =~= seq!['+'] + digits);
    }
    lemma_value_bounds(digits, digits.len() as int);
    assert(digits.take(digits.len() as int) =~= digits);
    (left, digits, right)
}

/// Owners without a space and without a quote at the start are safe, and no others.
pub proof fn law_safe_owner(owner: Seq<char>)
    ensures
        is_safe_owner(owner) <==> !owner.contains(' ') && !(owner.len() > 0 && owner[0] == '"'),
{
}

/// A lease is over from its last second on, and not before.
pub proof fn law_lease_ends_at_its_second(lock: Lock, now: u64)
    ensures
        now < lock.expires_unix ==> !lock.expired(now),
        now == lock.expires_unix ==> lock.expired(now),
        now > lock.expires_unix ==> lock.expired(now),
{
}

/// Names are compared in lower case and without the dots at their end.
pub proof fn law_canonical_name(name: Seq<char>)
    ensures
        canonical(name).len() <= lowercase(name).len(),
        canonical(name) == lowercase(name).take(canonical(name).len() as int),
        forall|i: int|
            canonical(name).len() <= i < lowercase(name).len() ==> #[trigger] lowercase(name)[i]
                == '.',
        canonical(name).len() > 0 ==> canonical(name).last() != '.',
{
    law_trim_end_cuts(lowercase(name), Pattern::Char('.'));
    assert forall|i: int|
        canonical(name).len() <= i < lowercase(name).len() implies #[trigger] lowercase(name)[i]
        == '.' by {
        assert(Pattern::Char('.').covers(lowercase(name)[i]));
    }
}

/// The text between the quotes of a value.
pub open spec fn unquoted(value: Seq<char>) -> Seq<char> {
    trim(value, Pattern::Char('"'))
}

/// The first lock among values is the first text between quotes that stands for a lock.
pub proof fn law_first_lock(values: Seq<Seq<char>>)
    ensures
        match first_lock(values) {
            Some(lock) => exists|j: int|
                0 <= j < values.len() && Lock::decoded(unquoted(#[trigger] values[j])) == Some(lock)
                    && forall|l: int|
                    0 <= l < j ==> Lock::decoded(unquoted(#[trigger] values[l])) is None,
            None => forall|l: int|
                0 <= l < values.len() ==> Lock::decoded(unquoted(#[trigger] values[l])) is None,
        },
    decreases values.len(),
{
    if values.len() > 0 {
        let rest = values.drop_first();
        law_first_lock(rest);
        if Lock::decoded(unquoted(values[0])) is Some {
            assert(Lock::decoded(unquoted(values[0])) == first_lock(values));
        } else {
            match first_lock(rest) {
                Some(lock) => {
                    let j = choose|j: int|
                        0 <= j < rest.len() && Lock::decoded(unquoted(#[trigger] rest[j])) == Some(
                            lock,
                        ) && forall|l: int|
                            0 <= l < j ==> Lock::decoded(unquoted(#[trigger] rest[l])) is None;
                    assert(values[j + 1] == rest[j]);
                    assert forall|l: int| 0 <= l < j + 1 implies Lock::decoded(
                        unquoted(#[trigger] values[l]),
                    ) is None by {
                        if l > 0 {
                            assert(rest[l - 1] == values[l]);
                        }
                    }
                },
                None => {
                    assert forall|l: int| 0 <= l < values.len() implies Lock::decoded(
                        unquoted(#[trigger] values[l]),
                    ) is None by {
                        if l > 0 {
                            assert(rest[l - 1] == values[l]);
                        }
                    }
                },
            }
        }
    }
}

/// Whether a record set is a TXT record set whose name, in lower case and without final dots, is
/// that of another name.
pub open spec fn bears(set: Listed, lower: Seq<char>, lower_name: Seq<char>) -> bool {
    set.record_type == "TXT"@ && trim_end(lower, Pattern::Char('.')) == trim_end(
        lower_name,
        Pattern::Char('.'),
    )
}

/// A lock is read, with its TTL, only from a TXT record set whose given name equals the wanted one
/// but for final dots; it is the first lock there, and no such set before it holds one. Where
/// nothing is read, no such set holds a lock.
pub proof fn law_lock_by_names(sets: Seq<Listed>, names: Seq<Seq<char>>, name: Seq<char>)
    requires
        names.len() == sets.len(),
    ensures
        match lock_by_names(sets, names, name) {
            Some(read) => exists|i: int|
                0 <= i < sets.len() && bears(#[trigger] sets[i], names[i], name) && first_lock(
                    sets[i].values,
                ) == Some(read.lock) && sets[i].ttl == read.ttl && forall|k: int|
                    0 <= k < i && bears(#[trigger] sets[k], names[k], name) ==> first_lock(
                        sets[k].values,
                    ) is None,
            None => forall|k: int|
                0 <= k < sets.len() && bears(#[trigger] sets[k], names[k], name) ==> first_lock(
                    sets[k].values,
                ) is None,
        },
    decreases sets.len(),
{
    if sets.len() > 0 {
        let (rest, rest_names) = (sets.drop_first(), names.drop_first());
        law_lock_by_names(rest, rest_names, name);
        if bears(sets[0], names[0], name) && first_lock(sets[0].values) is Some {
            assert(lock_by_names(sets, names, name)->0.lock == first_lock(sets[0].values)->0);
        } else {
            match lock_by_names(rest, rest_names, name) {
                Some(read) => {
                    let i = choose|i: int|
                        0 <= i < rest.len() && bears(#[trigger] rest[i], rest_names[i], name)
                            && first_lock(rest[i].values) == Some(read.lock) && rest[i].ttl
                            == read.ttl && forall|k: int|
                            0 <= k < i && bears(#[trigger] rest[k], rest_names[k], name)
                                ==> first_lock(rest[k].values) is None;
                    assert(sets[i + 1] == rest[i] && names[i + 1] == rest_names[i]);
                    assert forall|k: int|
                        0 <= k < i + 1 && bears(
                            #[trigger] sets[k],
                            names[k],
                            name,
                        ) implies first_lock(sets[k].values) is None by {
                        if k > 0 {
                            assert(rest[k - 1] == sets[k] && rest_names[k - 1] == names[k]);
                        }
                    }
                },
                None => {
                    assert forall|k: int|
                        0 <= k < sets.len() && bears(
                            #[trigger] sets[k],
                            names[k],
                            name,
                        ) implies first_lock(sets[k].values) is None by {
                        if k > 0 {
                            assert(rest[k - 1] == sets[k] && rest_names[k - 1] == names[k]);
                        }
                    }
                },
            }
        }
    }
}

/// Whatever is listed, a lock is read, with its TTL, only from a TXT record set whose name equals
/// the wanted one in lower case and without final dots; it is the first lock there, and no such set
/// before it holds one. Where nothing is read, no such set holds a lock.
pub proof fn law_lock_is_read_under_its_name(sets: Seq<Listed>, name: Seq<char>)
    ensures
        match current_lock(sets, name) {
            Some(read) => exists|i: int|
                0 <= i < sets.len() && bears(
                    #[trigger] sets[i],
                    lowercase(sets[i].name),
                    lowercase(name),
                ) && first_lock(sets[i].values) == Some(read.lock) && sets[i].ttl == read.ttl
                    && forall|k: int|
                    0 <= k < i && bears(
                        #[trigger] sets[k],
                        lowercase(sets[k].name),
                        lowercase(name),
                    ) ==> first_lock(sets[k].values) is None,
            None => forall|k: int|
                0 <= k < sets.len() && bears(
                    #[trigger] sets[k],
                    lowercase(sets[k].name),
                    lowercase(name),
                ) ==> first_lock(sets[k].values) is None,
        },
    decreases sets.len(),
{
    if sets.len() > 0 {
        let rest = sets.drop_first();
        law_lock_is_read_under_its_name(rest, name);
        if bears(sets[0], lowercase(sets[0].name), lowercase(name)) && first_lock(
            sets[0].values,
        ) is Some {
            assert(current_lock(sets, name)->0.lock == first_lock(sets[0].values)->0);
        } else {
            match current_lock(rest, name) {
                Some(read) => {
                    let i = choose|i: int|
                        0 <= i < rest.len() && bears(
                            #[trigger] rest[i],
                            lowercase(rest[i].name),
                            lowercase(name),
                        ) && first_lock(rest[i].values) == Some(read.lock) && rest[i].ttl
                            == read.ttl && forall|k: int|
                            0 <= k < i && bears(
                                #[trigger] rest[k],
                                lowercase(rest[k].name),
                                lowercase(name),
                            ) ==> first_lock(rest[k].values) is None;
                    assert(sets[i + 1] == rest[i]);
                    assert forall|k: int|
                        0 <= k < i + 1 && bears(
                            #[trigger] sets[k],
                            lowercase(sets[k].name),
                            lowercase(name),
                        ) implies first_lock(sets[k].values) is None by {
                        if k > 0 {
                            assert(rest[k - 1] == sets[k]);
                        }
                    }
                },
                None => {
                    assert forall|k: int|
                        0 <= k < sets.len() && bears(
                            #[trigger] sets[k],
                            lowercase(sets[k].name),
                            lowercase(name),
                        ) implies first_lock(sets[k].values) is None by {
                        if k > 0 {
                            assert(rest[k - 1] == sets[k]);
                        }
                    }
                },
            }
        }
    }
}

/// A listing that holds record sets of other names only reads as no lock.
pub proof fn law_other_names_are_no_lock(sets: Seq<Listed>, name: Seq<char>)
    requires
        forall|i: int|
            0 <= i < sets.len() ==> trim_end(
                lowercase((#[trigger] sets[i]).name),
                Pattern::Char('.'),
            ) != trim_end(lowercase(name), Pattern::Char('.')),
    ensures
        current_lock(sets, name) is None,
{
    law_lock_is_read_under_its_name(sets, name);
}

/// The ignored values are those before the first lock, each without its quotes.
pub proof fn law_ignored_values(values: Seq<Seq<char>>)
    ensures
        ignored_values(values).len() <= values.len(),
        forall|i: int|
            0 <= i < ignored_values(values).len() ==> #[trigger] ignored_values(values)[i]
                == unquoted(values[i]) && Lock::decoded(unquoted(values[i])) is None,
        ignored_values(values).len() < values.len() ==> Lock::decoded(
            unquoted(values[ignored_values(values).len() as int]),
        ) is Some,
    decreases values.len(),
{
    if values.len() > 0 && Lock::decoded(unquoted(values[0])) is None {
        let rest = values.drop_first();
        law_ignored_values(rest);
        let all = ignored_values(values);
        assert(all =~= seq![unquoted(values[0])] + ignored_values(rest));
        assert forall|i: int| 0 <= i < all.len() implies #[trigger] all[i] == unquoted(values[i])
            && Lock::decoded(unquoted(values[i])) is None by {
            if i > 0 {
                assert(all[i] == ignored_values(rest)[i - 1]);
                assert(rest[i - 1] == values[i]);
            }
        }
        if all.len() < values.len() {
            assert(rest[all.len() - 1] == values[all.len() as int]);
        }
    }
}

/// What is ignored in a listing is what is ignored in its beginning and, if no lock is found there,
/// what is ignored in the rest; in one record set it is what is ignored among its values, if the
/// set is a TXT record set of the wanted name.
pub proof fn law_ignored_texts(set: Listed, rest: Seq<Listed>, name: Seq<char>)
    ensures
        ignored_texts(Seq::empty(), name).len() == 0,
        bears(set, lowercase(set.name), lowercase(name)) && first_lock(set.values) is Some
            ==> ignored_texts(seq![set] + rest, name) == ignored_values(set.values),
        bears(set, lowercase(set.name), lowercase(name)) && first_lock(set.values) is None
            ==> ignored_texts(seq![set] + rest, name) == ignored_values(set.values)
            + ignored_texts(rest, name),
        !bears(set, lowercase(set.name), lowercase(name)) ==> ignored_texts(seq![set] + rest, name)
            == ignored_texts(rest, name),
{
    let all = seq![set] + rest;
    assert(all.first() == set);
    assert(all.drop_first() =~= rest);
}

/// What is ignored by given lower-case names follows the same rule.
pub proof fn law_ignored_by_names(
    set: Listed,
    lower: Seq<char>,
    rest: Seq<Listed>,
    rest_names: Seq<Seq<char>>,
    name: Seq<char>,
)
    ensures
        ignored_by_names(Seq::empty(), Seq::empty(), name).len() == 0,
        ({
            let ignored = ignored_by_names(seq![set] + rest, seq![lower] + rest_names, name);
            let later = ignored_by_names(rest, rest_names, name);
            &&& bears(set, lower, name) && first_lock(set.values) is Some ==> ignored
                == ignored_values(set.values)
            &&& bears(set, lower, name) && first_lock(set.values) is None ==> ignored
                == ignored_values(set.values) + later
            &&& !bears(set, lower, name) ==> ignored == later
        }),
{
    let (all, names) = (seq![set] + rest, seq![lower] + rest_names);
    assert(all.first() == set && names.first() == lower);
    assert(all.drop_first() =~= rest);
    assert(names.drop_first() =~= rest_names);
}

/// Contracts speak of what the values hold, field by field.
pub proof fn law_read_values_are_seen_whole(
    record: LockRecord,
    stored: StoredRecord,
    set: RecordSet,
    strings: Seq<String>,
    sets: Seq<RecordSet>,
    i: int,
)
    ensures
        record@.owner == record.owner_id@,
        record@.expires_unix == record.expires_unix,
        stored@.lock == stored.record@,
        stored@.ttl == stored.ttl,
        found_lock(Some(stored)) == Some(stored@),
        found_lock(None) == None::<StoredLock>,
        lock_of(Some(&stored)) == Some(stored@),
        lock_of(None) == None::<StoredLock>,
        set@.name == set.name@,
        set@.record_type == set.record_type@,
        set@.ttl == set.ttl,
        set@.values == texts(set.values@),
        texts(strings).len() == strings.len(),
        0 <= i < strings.len() ==> texts(strings)[i] == strings[i]@,
        listed(sets).len() == sets.len(),
        0 <= i < sets.len() ==> listed(sets)[i] == sets[i]@,
{
}

} // verus!
