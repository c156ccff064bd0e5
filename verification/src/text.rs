//! Text as a sequence of characters: prefixes, fields between separators, and
//! decimal numbers.

use vstd::prelude::*;

verus! {

/// An ASCII decimal digit.
pub open spec fn is_digit(c: char) -> bool {
    '0' <= c <= '9'
}

/// The number that a decimal digit stands for.
pub open spec fn digit_value(c: char) -> int {
    c as int - '0' as int
}

/// The digit that stands for a number below ten.
pub open spec fn digit_char(d: int) -> char
    recommends
        0 <= d < 10,
{
    ('0' as int + d) as char
}

/// One or more decimal digits and nothing else.
pub open spec fn is_number(s: Seq<char>) -> bool {
    s.len() > 0 && forall|i: int| 0 <= i < s.len() ==> is_digit(#[trigger] s[i])
}

/// What a run of decimal digits denotes.
pub open spec fn number_value(s: Seq<char>) -> int
    decreases s.len(),
{
    if s.len() == 0 {
        0
    } else {
        10 * number_value(s.drop_last()) + digit_value(s.last())
    }
}

/// The decimal digits of a number that is not negative, without leading zeros.
pub open spec fn digits(n: nat) -> Seq<char>
    decreases n,
{
    if n < 10 {
        seq![digit_char(n as int)]
    } else {
        digits(n / 10).push(digit_char((n % 10) as int))
    }
}

/// A number in decimal notation.
pub open spec fn decimal(n: int) -> Seq<char> {
    if n < 0 {
        seq!['-'] + digits((-n) as nat)
    } else {
        digits(n as nat)
    }
}

/// The number that `s` is a decimal notation of, with an optional sign in
/// front.
pub open spec fn integer_value(s: Seq<char>) -> Option<int> {
    if is_number(s) {
        Some(number_value(s))
    } else if s.len() > 0 && s[0] == '+' && is_number(s.skip(1)) {
        Some(number_value(s.skip(1)))
    } else if s.len() > 0 && s[0] == '-' && is_number(s.skip(1)) {
        Some(-number_value(s.skip(1)))
    } else {
        None
    }
}

/// The pieces of `s` between the occurrences of `sep`, in order. Text without
/// `sep` is one piece; pieces may be empty.
pub open spec fn fields(s: Seq<char>, sep: char) -> Seq<Seq<char>>
    decreases s.len(),
{
    if s.len() == 0 {
        seq![Seq::<char>::empty()]
    } else {
        let before = fields(s.drop_last(), sep);
        if s.last() == sep {
            before.push(Seq::<char>::empty())
        } else {
            before.update(before.len() - 1, before.last().push(s.last()))
        }
    }
}

/// The views of a list of strings.
pub open spec fn views(parts: Seq<String>) -> Seq<Seq<char>> {
    Seq::new(parts.len(), |i: int| parts[i]@)
}

pub proof fn lemma_fields_nonempty(s: Seq<char>, sep: char)
    ensures
        fields(s, sep).len() >= 1,
    decreases s.len(),
{
    if s.len() > 0 {
        lemma_fields_nonempty(s.drop_last(), sep);
    }
}

/// Text that does not hold the separator is its only field.
pub proof fn lemma_fields_without(s: Seq<char>, sep: char)
    requires
        forall|i: int| 0 <= i < s.len() ==> #[trigger] s[i] != sep,
    ensures
        fields(s, sep) == seq![s],
    decreases s.len(),
{
    if s.len() > 0 {
        lemma_fields_without(s.drop_last(), sep);
        assert(s.drop_last().push(s.last()) =~= s);
        assert(seq![s.drop_last()].update(0, s) =~= seq![s]);
    } else {
        assert(s =~= Seq::<char>::empty());
    }
}

/// Text that holds the separator at one place, if at all, has two fields at
/// most.
pub proof fn lemma_fields_around(s: Seq<char>, sep: char, at: int)
    requires
        forall|i: int| 0 <= i < s.len() && i != at ==> #[trigger] s[i] != sep,
    ensures
        fields(s, sep).len() <= 2,
        0 <= at < s.len() && s[at] == sep ==> fields(s, sep) == seq![s.take(at), s.skip(at + 1)],
{
    if 0 <= at < s.len() && s[at] == sep {
        let before = s.take(at);
        let behind = s.skip(at + 1);
        assert(s =~= before.push(sep) + behind);
        lemma_fields_joined(before, behind, sep);
        lemma_fields_without(before, sep);
        lemma_fields_without(behind, sep);
        assert(seq![before] + seq![behind] =~= seq![before, behind]);
    } else {
        lemma_fields_without(s, sep);
    }
}

/// Text that holds the separator at two places has three fields or more.
pub proof fn lemma_fields_of_two(s: Seq<char>, sep: char, i: int, j: int)
    requires
        0 <= i < j < s.len(),
        s[i] == sep,
        s[j] == sep,
    ensures
        fields(s, sep).len() >= 3,
{
    let middle = s.subrange(i + 1, j);
    let front = s.take(i).push(sep) + middle;
    lemma_fields_joined(s.take(i), middle, sep);
    lemma_fields_joined(front, s.skip(j + 1), sep);
    lemma_fields_nonempty(s.take(i), sep);
    lemma_fields_nonempty(middle, sep);
    lemma_fields_nonempty(s.skip(j + 1), sep);
    assert(s =~= front.push(sep) + s.skip(j + 1));
}

/// Every character but the separator is in some field.
pub proof fn lemma_char_in_some_field(s: Seq<char>, sep: char, at: int)
    requires
        0 <= at < s.len(),
        s[at] != sep,
    ensures
        exists|k: int, j: int|
            0 <= k < fields(s, sep).len() && 0 <= j < fields(s, sep)[k].len()
                && #[trigger] fields(s, sep)[k][j] == s[at],
    decreases s.len(),
{
    let before = fields(s.drop_last(), sep);
    let after = fields(s, sep);
    lemma_fields_nonempty(s.drop_last(), sep);
    if at == s.len() - 1 {
        let k = after.len() - 1;
        assert(after[k][after[k].len() - 1] == s[at]);
    } else {
        lemma_char_in_some_field(s.drop_last(), sep, at);
        let (k, j): (int, int) = choose|k: int, j: int|
            0 <= k < before.len() && 0 <= j < before[k].len() && #[trigger] before[k][j]
                == s.drop_last()[at];
        assert(after[k][j] == before[k][j]);
    }
}

/// Two fields of which the second is empty are a text with the separator behind
/// it.
pub proof fn lemma_empty_second_field(s: Seq<char>, sep: char)
    requires
        fields(s, sep).len() == 2,
        fields(s, sep)[1].len() == 0,
    ensures
        s == fields(s, sep)[0].push(sep),
{
    lemma_fields_nonempty(s.drop_last(), sep);
    lemma_single_field(s.drop_last(), sep);
    assert(s =~= s.drop_last().push(s.last()));
    if s.last() != sep {
        assert(fields(s, sep).last().len() > 0);
    }
}

/// A character in front takes no field away.
pub proof fn lemma_fields_behind(c: char, s: Seq<char>, sep: char)
    ensures
        fields(seq![c] + s, sep).len() >= fields(s, sep).len(),
    decreases s.len(),
{
    let whole = seq![c] + s;
    lemma_fields_nonempty(s, sep);
    lemma_fields_nonempty(whole, sep);
    if s.len() > 0 {
        lemma_fields_behind(c, s.drop_last(), sep);
        lemma_fields_nonempty(s.drop_last(), sep);
        lemma_fields_nonempty(whole.drop_last(), sep);
        assert(whole.drop_last() =~= seq![c] + s.drop_last());
    }
}

/// A lone field is the whole text.
pub proof fn lemma_single_field(s: Seq<char>, sep: char)
    ensures
        fields(s, sep).len() == 1 ==> fields(s, sep)[0] == s,
    decreases s.len(),
{
    if s.len() > 0 {
        lemma_fields_nonempty(s.drop_last(), sep);
        lemma_single_field(s.drop_last(), sep);
        assert(s.drop_last().push(s.last()) =~= s);
    } else {
        assert(s =~= Seq::<char>::empty());
    }
}

/// The fields of two texts with a separator between them are those of the one,
/// then those of the other.
pub proof fn lemma_fields_joined(a: Seq<char>, b: Seq<char>, sep: char)
    ensures
        fields(a.push(sep) + b, sep) == fields(a, sep) + fields(b, sep),
    decreases b.len(),
{
    let joined = a.push(sep) + b;
    if b.len() == 0 {
        assert(joined =~= a.push(sep));
        assert(a.push(sep).drop_last() =~= a);
        assert(fields(a, sep).push(Seq::<char>::empty()) =~= fields(a, sep) + seq![
            Seq::<char>::empty(),
        ]);
    } else {
        lemma_fields_joined(a, b.drop_last(), sep);
        lemma_fields_nonempty(b.drop_last(), sep);
        assert(joined.drop_last() =~= a.push(sep) + b.drop_last());
        assert(joined.last() == b.last());
        assert(fields(joined, sep) =~= fields(a, sep) + fields(b, sep));
    }
}

/// The digits of a number are digits, and denote it.
pub proof fn lemma_digits_denote(n: nat)
    ensures
        is_number(digits(n)),
        number_value(digits(n)) == n,
    decreases n,
{
    if n < 10 {
        assert(digits(n).drop_last() =~= Seq::<char>::empty());
        assert(number_value(Seq::<char>::empty()) == 0);
    } else {
        lemma_digits_denote(n / 10);
        assert(digits(n).drop_last() =~= digits(n / 10));
        assert forall|i: int| 0 <= i < digits(n).len() implies is_digit(
            #[trigger] digits(n)[i],
        ) by {
            if i < digits(n).len() - 1 {
                assert(is_digit(digits(n / 10)[i]));
            }
        }
    }
}

/// A run of digits denotes no negative number.
pub proof fn lemma_number_is_not_negative(s: Seq<char>)
    requires
        is_number(s),
    ensures
        number_value(s) >= 0,
{
    lemma_number_grows(s, 0);
    assert(s.take(0) =~= Seq::<char>::empty());
}

/// Reading what was written gives the number back: every number is denoted by
/// its own decimal notation.
pub proof fn law_decimal_reads_back(n: int)
    ensures
        integer_value(decimal(n)) == Some(n),
{
    if n < 0 {
        lemma_digits_denote((-n) as nat);
        assert(decimal(n).skip(1) =~= digits((-n) as nat));
        assert(!is_digit(decimal(n)[0]));
    } else {
        lemma_digits_denote(n as nat);
    }
}

/// Law: a decimal notation has no leading zero, holds nothing but the digits
/// from `0` to `9`, with a minus sign in front of a negative number, and each of
/// its digits counts ten times the one behind it.
pub proof fn law_decimal_notation(n: int)
    ensures
        n >= 0 ==> {
            &&& decimal(n).len() > 0
            &&& forall|i: int| 0 <= i < decimal(n).len() ==> '0' <= #[trigger] decimal(n)[i] <= '9'
            &&& decimal(n).len() > 1 ==> decimal(n)[0] != '0'
            &&& decimal(n).last() as int - 48 == n % 10
            &&& n < 10 ==> decimal(n).len() == 1
            &&& n >= 10 ==> decimal(n).drop_last() == decimal(n / 10)
        },
        n < 0 ==> decimal(n) == seq!['-'] + decimal(-n),
    decreases if n < 0 { 0 } else { n },
{
    if n >= 10 {
        law_decimal_notation(n / 10);
        assert(decimal(n).drop_last() =~= decimal(n / 10));
        assert(decimal(n)[0] == decimal(n / 10)[0]);
        if decimal(n / 10).len() == 1 {
            assert(decimal(n / 10)[0] == decimal(n / 10).last());
        }
        assert forall|i: int| 0 <= i < decimal(n).len() implies '0' <= #[trigger] decimal(n)[i]
            <= '9' by {
            if i < decimal(n).len() - 1 {
                assert(decimal(n)[i] == decimal(n / 10)[i]);
            }
        }
    }
}

/// A decimal notation is made of digits and minus signs, and begins with a minus
/// sign only where the number is negative.
pub proof fn lemma_decimal_chars(n: int)
    ensures
        decimal(n).len() > 0,
        forall|i: int|
            0 <= i < decimal(n).len() ==> '0' <= #[trigger] decimal(n)[i] <= '9' || decimal(n)[i]
                == '-',
        n < 0 ==> decimal(n)[0] == '-',
{
    law_decimal_notation(n);
    law_decimal_notation(-n);
    if n < 0 {
        assert forall|i: int| 0 <= i < decimal(n).len() implies '0' <= #[trigger] decimal(n)[i]
            <= '9' || decimal(n)[i] == '-' by {
            if i > 0 {
                assert(decimal(n)[i] == decimal(-n)[i - 1]);
            }
        }
    }
}

/// Law: a run of digits denotes the number in which each digit counts ten times
/// the one behind it, leading zeros or not.
pub proof fn law_digits_count_by_place(s: Seq<char>, c: char)
    ensures
        number_value(Seq::<char>::empty()) == 0,
        number_value(s.push(c)) == 10 * number_value(s) + (c as int - 48),
{
    assert(s.push(c).drop_last() =~= s);
}

/// Law: a run of digits is read as the number that it denotes, with a plus sign
/// in front or without, and as the negative of that with a minus sign in front.
pub proof fn law_signs_are_read(s: Seq<char>)
    requires
        s.len() > 0,
        forall|i: int| 0 <= i < s.len() ==> '0' <= #[trigger] s[i] <= '9',
    ensures
        is_number(s),
        integer_value(s) == Some(number_value(s)),
        integer_value(seq!['+'] + s) == Some(number_value(s)),
        integer_value(seq!['-'] + s) == Some(-number_value(s)),
{
    assert(is_number(s));
    assert((seq!['+'] + s).skip(1) =~= s);
    assert((seq!['-'] + s).skip(1) =~= s);
    assert(!is_digit((seq!['+'] + s)[0]));
    assert(!is_digit((seq!['-'] + s)[0]));
}

/// Law: text is no number where it is empty or a lone sign, where it begins with
/// anything but a digit or a sign, and where anything but a digit follows.
pub proof fn law_other_text_is_no_number(s: Seq<char>)
    requires
        ({
            ||| s.len() == 0
            ||| s.len() == 1 && !('0' <= s[0] <= '9')
            ||| !('0' <= s[0] <= '9') && s[0] != '+' && s[0] != '-'
            ||| exists|i: int| 1 <= i < s.len() && !('0' <= #[trigger] s[i] <= '9')
        }),
    ensures
        !is_number(s),
        integer_value(s) is None,
{
    if s.len() > 1 && (('0' <= s[0] <= '9') || s[0] == '+' || s[0] == '-') {
        let i: int = choose|i: int| 1 <= i < s.len() && !('0' <= #[trigger] s[i] <= '9');
        assert(!is_digit(s[i]));
        assert(!is_digit(s.skip(1)[i - 1]));
    } else if s.len() > 0 {
        assert(!is_digit(s[0]));
    }
}

/// Pieces of text with `sep` between each two.
pub open spec fn joined(parts: Seq<Seq<char>>, sep: char) -> Seq<char>
    decreases parts.len(),
{
    if parts.len() == 0 {
        Seq::empty()
    } else if parts.len() == 1 {
        parts[0]
    } else {
        joined(parts.drop_last(), sep).push(sep) + parts.last()
    }
}

/// Law: text is cut where the separator stands and nowhere else. Its fields with
/// the separator between them are the text again, and no field holds it.
pub proof fn law_fields_joined_are_the_text(s: Seq<char>, sep: char)
    ensures
        fields(s, sep).len() >= 1,
        joined(fields(s, sep), sep) == s,
        forall|i: int, j: int|
            0 <= i < fields(s, sep).len() && 0 <= j < fields(s, sep)[i].len() ==> #[trigger] fields(
                s,
                sep,
            )[i][j] != sep,
    decreases s.len(),
{
    if s.len() > 0 {
        let before = fields(s.drop_last(), sep);
        let after = fields(s, sep);
        law_fields_joined_are_the_text(s.drop_last(), sep);
        assert(s =~= s.drop_last().push(s.last()));
        if s.last() == sep {
            assert(after.drop_last() =~= before);
            assert(joined(after, sep) =~= s);
        } else {
            assert(after.drop_last() =~= before.drop_last());
            assert(joined(after, sep) =~= s);
        }
        assert forall|i: int, j: int|
            0 <= i < after.len() && 0 <= j < after[i].len() implies #[trigger] after[i][j] != sep by {
            if i < before.len() && j < before[i].len() {
                assert(after[i][j] == before[i][j]);
            }
        }
    } else {
        assert(s =~= Seq::<char>::empty());
    }
}

/// Two fields are the text before and behind the separator.
pub proof fn lemma_two_fields(s: Seq<char>, sep: char)
    requires
        fields(s, sep).len() == 2,
    ensures
        s == fields(s, sep)[0].push(sep) + fields(s, sep)[1],
{
    law_fields_joined_are_the_text(s, sep);
    reveal_with_fuel(joined, 2);
}

/// Law: pieces that do not hold the separator are found again when they are
/// joined by it.
pub proof fn law_joined_pieces_are_the_fields(parts: Seq<Seq<char>>, sep: char)
    requires
        parts.len() >= 1,
        forall|i: int, j: int|
            0 <= i < parts.len() && 0 <= j < parts[i].len() ==> #[trigger] parts[i][j] != sep,
    ensures
        fields(joined(parts, sep), sep) == parts,
    decreases parts.len(),
{
    let last = parts.last();
    assert forall|j: int| 0 <= j < last.len() implies #[trigger] last[j] != sep by {
        assert(parts[parts.len() - 1][j] != sep);
    }
    lemma_fields_without(last, sep);
    if parts.len() == 1 {
        assert(parts =~= seq![last]);
    } else {
        let front = parts.drop_last();
        assert forall|i: int, j: int|
            0 <= i < front.len() && 0 <= j < front[i].len() implies #[trigger] front[i][j] != sep by {
            assert(parts[i][j] != sep);
        }
        law_joined_pieces_are_the_fields(front, sep);
        lemma_fields_joined(joined(front, sep), last, sep);
        assert(front + seq![last] =~= parts);
    }
}

/// Law: a list of strings is seen string by string.
pub proof fn law_views_are_string_by_string(parts: Seq<String>)
    ensures
        views(parts).len() == parts.len(),
        forall|i: int| 0 <= i < parts.len() ==> #[trigger] views(parts)[i] == parts[i]@,
{
}

/// Whether `s` begins with `prefix`.
pub fn starts_with(s: &str, prefix: &str) -> (r: bool)
    ensures
        r == prefix@.is_prefix_of(s@),
{
    let n: usize = prefix.unicode_len();
    if s.unicode_len() < n {
        return false;
    }
    let mut i: usize = 0;
    while i < n
        invariant
            i <= n,
            n == prefix@.len(),
            n <= s@.len(),
            forall|j: int| 0 <= j < i ==> s@[j] == prefix@[j],
        decreases n - i,
    {
        if s.get_char(i) != prefix.get_char(i) {
            assert(s@.subrange(0, n as int)[i as int] != prefix@[i as int]);
            return false;
        }
        i = i + 1;
    }
    assert(prefix@ =~= s@.subrange(0, n as int));
    true
}

/// Cuts `s` at every `sep`.
pub fn split(s: &str, sep: char) -> (parts: Vec<String>)
    ensures
        views(parts@) == fields(s@, sep),
        parts@.len() >= 1,
{
    let n: usize = s.unicode_len();
    let mut parts: Vec<String> = Vec::new();
    let mut start: usize = 0;
    let mut i: usize = 0;
    assert(s@.take(0) =~= Seq::<char>::empty());
    assert(views(parts@).push(s@.subrange(0, 0)) =~= seq![Seq::<char>::empty()]);
    while i < n
        invariant
            start <= i <= n,
            n == s@.len(),
            fields(s@.take(i as int), sep) == views(parts@).push(
                s@.subrange(start as int, i as int),
            ),
        decreases n - i,
    {
        let ghost done = views(parts@);
        proof {
            assert(s@.take(i + 1).drop_last() =~= s@.take(i as int));
        }
        if s.get_char(i) == sep {
            parts.push(s.substring_char(start, i).to_owned());
            start = i + 1;
            proof {
                assert(views(parts@) =~= done.push(parts@.last()@));
                assert(s@.subrange(start as int, start as int) =~= Seq::<char>::empty());
            }
        } else {
            proof {
                assert(s@.subrange(start as int, i + 1) =~= s@.subrange(
                    start as int,
                    i as int,
                ).push(s@[i as int]));
                assert(done.push(s@.subrange(start as int, i as int)).update(
                    done.len() as int,
                    s@.subrange(start as int, i + 1),
                ) =~= done.push(s@.subrange(start as int, i + 1)));
            }
        }
        i = i + 1;
    }
    let ghost done = views(parts@);
    parts.push(s.substring_char(start, n).to_owned());
    proof {
        assert(views(parts@) =~= done.push(parts@.last()@));
        assert(s@.take(n as int) =~= s@);
    }
    parts
}

/// Whether `s`, from the character at `from` on, is a decimal number.
pub fn is_number_from(s: &str, from: usize) -> (r: bool)
    requires
        from <= s@.len(),
    ensures
        r == is_number(s@.skip(from as int)),
{
    let n: usize = s.unicode_len();
    if from == n {
        return false;
    }
    let mut i: usize = from;
    while i < n
        invariant
            from <= i <= n,
            n == s@.len(),
            forall|j: int| from <= j < i ==> is_digit(#[trigger] s@[j]),
        decreases n - i,
    {
        let c: char = s.get_char(i);
        if !('0' <= c && c <= '9') {
            assert(!is_digit(s@.skip(from as int)[i - from]));
            return false;
        }
        i = i + 1;
    }
    true
}

/// The value of the digits of `s` from `from` on, or `None` where it exceeds
/// `limit`.
fn number_up_to(s: &str, from: usize, limit: u32) -> (r: Option<u32>)
    requires
        from <= s@.len(),
        is_number(s@.skip(from as int)),
    ensures
        match r {
            Some(v) => v <= limit && v == number_value(s@.skip(from as int)),
            None => number_value(s@.skip(from as int)) > limit,
        },
{
    let n: usize = s.unicode_len();
    let ghost all = s@.skip(from as int);
    let mut value: u64 = 0;
    let mut i: usize = from;
    assert(all.take(0) =~= Seq::<char>::empty());
    while i < n
        invariant
            from <= i <= n,
            n == s@.len(),
            all == s@.skip(from as int),
            is_number(all),
            value == number_value(all.take(i - from)),
            value <= limit,
        decreases n - i,
    {
        let c: char = s.get_char(i);
        proof {
            assert(c == all[i - from]);
            assert(is_digit(all[i - from]));
            assert(all.take(i + 1 - from).drop_last() =~= all.take(i - from));
        }
        value = 10 * value + (c as u64 - '0' as u64);
        i = i + 1;
        if value > limit as u64 {
            proof {
                lemma_number_grows(all, i - from);
            }
            return None;
        }
    }
    assert(all.take(n - from) =~= all);
    Some(value as u32)
}

/// The number that begins a run of digits is at most the number of the whole
/// run.
proof fn lemma_number_grows(s: Seq<char>, k: int)
    requires
        0 <= k <= s.len(),
        forall|i: int| 0 <= i < s.len() ==> is_digit(#[trigger] s[i]),
    ensures
        0 <= number_value(s.take(k)) <= number_value(s),
    decreases s.len(),
{
    if k == s.len() {
        assert(s.take(k) =~= s);
        if s.len() > 0 {
            assert(is_digit(s[s.len() - 1]));
            assert forall|i: int| 0 <= i < s.drop_last().len() implies is_digit(
                #[trigger] s.drop_last()[i],
            ) by {
                assert(is_digit(s[i]));
            }
            lemma_number_grows(s.drop_last(), s.len() - 1);
            assert(s.drop_last().take(s.len() - 1) =~= s.drop_last());
        }
    } else {
        assert forall|i: int| 0 <= i < s.drop_last().len() implies is_digit(
            #[trigger] s.drop_last()[i],
        ) by {
            assert(is_digit(s[i]));
        }
        lemma_number_grows(s.drop_last(), k);
        assert(s.drop_last().take(k) =~= s.take(k));
        assert(is_digit(s[s.len() - 1]));
    }
}

/// Reads a decimal number with an optional sign, as far as it fits.
pub fn parse_i32(s: &str) -> (r: Option<i32>)
    ensures
        match r {
            Some(v) => integer_value(s@) == Some(v as int),
            None => match integer_value(s@) {
                Some(v) => v < i32::MIN || v > i32::MAX,
                None => true,
            },
        },
{
    if s.unicode_len() == 0 {
        return None;
    }
    assert(s@.skip(0) =~= s@);
    let first: char = s.get_char(0);
    if first == '-' {
        assert(!is_digit(s@[0]));
        if !is_number_from(s, 1) {
            return None;
        }
        match number_up_to(s, 1, 0x8000_0000) {
            Some(v) => Some((0 - v as i64) as i32),
            None => None,
        }
    } else {
        let from: usize = if first == '+' { 1 } else { 0 };
        if first == '+' {
            assert(!is_digit(s@[0]));
        }
        if !is_number_from(s, from) {
            return None;
        }
        match number_up_to(s, from, 0x7fff_ffff) {
            Some(v) => Some(v as i32),
            None => None,
        }
    }
}

/// Whether the digits of `s` denote at most `limit`.
pub fn is_number_up_to(s: &str, limit: u32) -> (r: bool)
    ensures
        r == (is_number(s@) && number_value(s@) <= limit),
{
    assert(s@.skip(0) =~= s@);
    is_number_from(s, 0) && number_up_to(s, 0, limit).is_some()
}

/// The text of one decimal digit.
fn digit_text(d: u32) -> (r: &'static str)
    requires
        d < 10,
    ensures
        r@ == seq![digit_char(d as int)],
{
    proof {
        reveal_strlit("0");
        reveal_strlit("1");
        reveal_strlit("2");
        reveal_strlit("3");
        reveal_strlit("4");
        reveal_strlit("5");
        reveal_strlit("6");
        reveal_strlit("7");
        reveal_strlit("8");
        reveal_strlit("9");
    }
    match d {
        0 => "0",
        1 => "1",
        2 => "2",
        3 => "3",
        4 => "4",
        5 => "5",
        6 => "6",
        7 => "7",
        8 => "8",
        _ => "9",
    }
}

/// Writes the digits of `n` behind `out`.
fn append_digits(out: &mut String, n: u32)
    ensures
        final(out)@ == old(out)@ + digits(n as nat),
    decreases n,
{
    if n >= 10 {
        append_digits(out, n / 10);
    }
    let ghost head = out@;
    out.append(digit_text(n % 10));
    proof {
        if n >= 10 {
            assert(head + seq![digit_char((n % 10) as int)] =~= old(out)@ + digits(
                (n / 10) as nat,
            ).push(digit_char((n % 10) as int)));
        }
    }
}

/// Writes `n` in decimal notation behind `out`.
pub fn append_decimal(out: &mut String, n: i32)
    ensures
        final(out)@ == old(out)@ + decimal(n as int),
{
    if n < 0 {
        proof {
            reveal_strlit("-");
        }
        out.append("-");
        append_digits(out, (0 - n as i64) as u32);
        assert(out@ =~= old(out)@ + (seq!['-'] + digits((-n) as nat)));
    } else {
        append_digits(out, n as u32);
    }
}

} // verus!
