//! What the text routines promise.

use crate::nvstusb::usb;
use crate::text;
use vstd::prelude::*;

verus! {

/// Trimmed text neither begins nor ends with white space, and trimming it again
/// changes nothing.
pub proof fn trimmed_text_has_no_space_around_it(s: Seq<char>)
    ensures
        ({
            let t = text::trimmed(s);
            &&& t.len() > 0 ==> !text::is_space(t[0]) && !text::is_space(t.last())
            &&& text::trimmed(t) == t
            &&& t.len() <= s.len()
        }),
{
    lemma_start(s);
    lemma_end(text::trimmed_start(s));
}

proof fn lemma_start(s: Seq<char>)
    ensures
        text::trimmed_start(s).len() <= s.len(),
        text::trimmed_start(s).len() > 0 ==> !text::is_space(text::trimmed_start(s)[0]),
    decreases s.len(),
{
    if s.len() > 0 && text::is_space(s[0]) {
        lemma_start(s.skip(1));
    }
}

proof fn lemma_end(s: Seq<char>)
    ensures
        text::trimmed_end(s).len() <= s.len(),
        text::trimmed_end(s).len() > 0 ==> !text::is_space(text::trimmed_end(s).last())
            && text::trimmed_end(s)[0] == s[0],
    decreases s.len(),
{
    if s.len() > 0 && text::is_space(s.last()) {
        lemma_end(s.drop_last());
    }
}

/// White space before or after a text makes no difference once it is trimmed.
pub proof fn space_around_makes_no_difference(s: Seq<char>, c: char)
    requires
        text::is_space(c),
    ensures
        text::trimmed(seq![c] + s) == text::trimmed(s),
        text::trimmed(s.push(c)) == text::trimmed(s),
{
    let before = seq![c] + s;
    assert(before.skip(1) =~= s);
    lemma_push_space(s, c);
}

proof fn lemma_push_space(s: Seq<char>, c: char)
    requires
        text::is_space(c),
    ensures
        text::trimmed(s.push(c)) == text::trimmed(s),
    decreases s.len(),
{
    let t = s.push(c);
    if s.len() == 0 {
        assert(t.skip(1) =~= s);
    } else if text::is_space(s[0]) {
        assert(t.skip(1) =~= s.skip(1).push(c));
        lemma_push_space(s.skip(1), c);
    } else {
        assert(t.drop_last() =~= s);
    }
}

/// What white space is: the characters that separate words, and no letter,
/// digit or mark.
pub proof fn printable_ascii_is_no_space(c: char)
    requires
        '!' <= c <= '~',
    ensures
        !text::is_space(c),
        text::is_space(' '),
        text::is_space('\t'),
        text::is_space('\n'),
        text::is_space('\r'),
{
}

/// A number in decimal has no leading zero, and is read back as itself when it
/// is not too large; a plus sign makes no difference.
pub proof fn a_number_reads_back(n: nat, max: int)
    ensures
        text::unsigned(text::decimal(n), max) == (if n <= max {
            Some(n as int)
        } else {
            None
        }),
        text::unsigned(seq!['+'] + text::decimal(n), max) == text::unsigned(
            text::decimal(n),
            max,
        ),
        n > 0 ==> text::decimal(n)[0] != '0',
        text::decimal(0) == seq!['0'],
{
    text::decimal_reads_back(n);
    let d = text::decimal(n);
    assert(text::is_digit(d[0]));
    assert((seq!['+'] + d).skip(1) =~= d);
    lemma_no_leading_zero(n);
    assert(text::decimal(0) =~= seq!['0']);
}

proof fn lemma_no_leading_zero(n: nat)
    ensures
        text::decimal(n).len() > 0,
        n > 0 ==> text::decimal(n)[0] != '0',
    decreases n,
{
    if n >= 10 {
        lemma_no_leading_zero(n / 10);
    }
}

/// Leading zeros make no difference to a number, and a text with anything but
/// digits is none.
pub proof fn leading_zeros_make_no_difference(s: Seq<char>, max: int)
    ensures
        text::all_digits(s) ==> text::unsigned(seq!['0'] + s, max) == text::unsigned(s, max),
        text::unsigned(Seq::<char>::empty(), max) is None,
        forall|i: int|
            0 < i < s.len() && !text::is_digit(#[trigger] s[i]) ==> text::unsigned(s, max) is None,
        s.len() > 0 && s[0] == '-' ==> text::unsigned(s, max) is None,
{
    let t = seq!['0'] + s;
    if text::all_digits(s) {
        assert(text::is_digit(s[0]));
        lemma_leading_zero(s);
        assert forall|i: int| 0 <= i < t.len() implies text::is_digit(#[trigger] t[i]) by {
            if i > 0 {
                assert(t[i] == s[i - 1]);
            }
        }
    }
    assert forall|i: int| 0 < i < s.len() && !text::is_digit(#[trigger] s[i]) implies text::unsigned(
        s,
        max,
    ) is None by {
        if s[0] == '+' {
            assert(s.skip(1)[i - 1] == s[i]);
        }
    }
}

proof fn lemma_leading_zero(s: Seq<char>)
    ensures
        text::digits_value(seq!['0'] + s) == text::digits_value(s),
    decreases s.len(),
{
    let t = seq!['0'] + s;
    if s.len() > 0 {
        assert(t.drop_last() =~= seq!['0'] + s.drop_last());
        lemma_leading_zero(s.drop_last());
    } else {
        assert(t.drop_last() =~= Seq::<char>::empty());
        assert(text::digits_value(Seq::<char>::empty()) == 0);
    }
}

/// Each digit counts ten times the one after it.
pub proof fn a_digit_more_is_ten_times_as_much(s: Seq<char>, d: nat)
    requires
        d < 10,
    ensures
        text::digits_value(s.push(text::digit(d))) == 10 * text::digits_value(s) + d,
        text::is_digit(text::digit(d)),
{
    assert(s.push(text::digit(d)).drop_last() =~= s);
}

/// The sign comes first, and what follows is the amount.
pub proof fn a_signed_number_is_sign_and_amount(n: int)
    ensures
        n < 0 ==> text::signed_decimal(n)[0] == '-' && text::signed_decimal(n).skip(1)
            == text::decimal((-n) as nat),
        n >= 0 ==> text::signed_decimal(n) == text::decimal(n as nat) && text::signed_decimal(n)[0]
            != '-',
{
    if n < 0 {
        assert(text::signed_decimal(n).skip(1) =~= text::decimal((-n) as nat));
    } else {
        text::decimal_reads_back(n as nat);
        assert(text::is_digit(text::decimal(n as nat)[0]));
    }
}

/// Four hexadecimal digits read back as the number they were made of.
pub proof fn four_hex_digits_read_back(n: u16)
    ensures
        usb::hex_u16(text::hex4(n)) == Some(n as int),
        text::hex4(n).len() == 4,
{
    let s = text::hex4(n);
    let a = n as int / 4096;
    let b = n as int / 256 % 16;
    let c = n as int / 16 % 16;
    let d = n as int % 16;
    lemma_hex_digit(a);
    lemma_hex_digit(b);
    lemma_hex_digit(c);
    lemma_hex_digit(d);
    assert(s[0] == text::hex_digit(a) && s[1] == text::hex_digit(b) && s[2] == text::hex_digit(c)
        && s[3] == text::hex_digit(d));
    assert(usb::all_nibbles(s));
    let s3 = s.drop_last();
    let s2 = s3.drop_last();
    let s1 = s2.drop_last();
    assert(s1.drop_last() =~= Seq::<char>::empty());
    assert(usb::hex_value(Seq::<char>::empty()) == 0);
    assert(usb::hex_value(s1) == a);
    assert(usb::hex_value(s2) == a * 16 + b);
    assert(usb::hex_value(s3) == (a * 16 + b) * 16 + c);
    assert(usb::hex_value(s) == ((a * 16 + b) * 16 + c) * 16 + d);
}

proof fn lemma_hex_digit(d: int)
    requires
        0 <= d < 16,
    ensures
        usb::nibble(text::hex_digit(d)) == Some(d),
        usb::nibble(text::small_hex_digit(d as nat)) == Some(d),
        text::hex_digit(d) != '+',
        text::small_hex_digit(d as nat) != '+',
{
}

/// A number in lower-case hexadecimal reads back as itself.
pub proof fn small_hex_reads_back(n: nat)
    ensures
        usb::all_nibbles(text::small_hex(n)),
        usb::hex_value(text::small_hex(n)) == n,
        text::small_hex(n)[0] != '+',
        n <= u16::MAX ==> usb::hex_u16(text::small_hex(n)) == Some(n as int),
    decreases n,
{
    let s = text::small_hex(n);
    if n < 16 {
        lemma_hex_digit(n as int);
        assert(s.drop_last() =~= Seq::<char>::empty());
        assert(usb::hex_value(Seq::<char>::empty()) == 0);
    } else {
        small_hex_reads_back(n / 16);
        lemma_hex_digit(n as int % 16);
        assert(s.drop_last() =~= text::small_hex(n / 16));
        assert forall|i: int| 0 <= i < s.len() implies usb::nibble(#[trigger] s[i]) is Some by {
            if i < s.len() - 1 {
                assert(s[i] == text::small_hex(n / 16)[i]);
            }
        }
        assert(s[0] == text::small_hex(n / 16)[0]);
    }
}

/// Hexadecimal letters count the same in either case.
pub proof fn hex_letters_count_in_either_case(c: char)
    ensures
        usb::nibble(text::ascii_lower(c)) == usb::nibble(c),
        usb::nibble(text::ascii_upper(c)) == usb::nibble(c),
{
}

/// Lower and upper case are each other's inverse on letters, and leave
/// everything else alone.
pub proof fn cases_undo_each_other(c: char)
    ensures
        text::ascii_lower(text::ascii_upper(c)) == text::ascii_lower(c),
        text::ascii_upper(text::ascii_lower(c)) == text::ascii_upper(c),
        text::ascii_lower(text::ascii_lower(c)) == text::ascii_lower(c),
        'a' <= c <= 'z' ==> text::ascii_lower(c) == c && text::ascii_upper(c) as int == c as int
            - 32,
        'A' <= c <= 'Z' ==> text::ascii_upper(c) == c && text::ascii_lower(c) as int == c as int
            + 32,
        !('a' <= c <= 'z') && !('A' <= c <= 'Z') ==> text::ascii_lower(c) == c
            && text::ascii_upper(c) == c,
{
}

/// Being the same but for case is an equivalence, and lower and upper case of a
/// text are the same text in that sense.
pub proof fn sameness_but_for_case_is_an_equivalence(a: Seq<char>, b: Seq<char>, c: Seq<char>)
    ensures
        text::same_letters(a, a),
        text::same_letters(a, b) ==> text::same_letters(b, a),
        text::same_letters(a, b) && text::same_letters(b, c) ==> text::same_letters(a, c),
        text::same_letters(a, text::raised(a)),
        text::same_letters(a, text::lowered(a)),
        text::same_letters(a, b) <==> text::lowered(a) == text::lowered(b),
{
    assert forall|i: int| 0 <= i < a.len() implies text::ascii_lower(#[trigger] a[i])
        == text::ascii_lower(text::raised(a)[i]) by {
        cases_undo_each_other(a[i]);
    }
    if text::same_letters(a, b) {
        assert forall|i: int| 0 <= i < b.len() implies text::ascii_lower(#[trigger] b[i])
            == text::ascii_lower(a[i]) by {
            assert(text::ascii_lower(a[i]) == text::ascii_lower(b[i]));
        }
        assert(text::lowered(a) =~= text::lowered(b));
        if text::same_letters(b, c) {
            assert forall|i: int| 0 <= i < a.len() implies text::ascii_lower(#[trigger] a[i])
                == text::ascii_lower(c[i]) by {
                assert(text::ascii_lower(b[i]) == text::ascii_lower(c[i]));
            }
        }
    }
    if text::lowered(a) == text::lowered(b) {
        assert(a.len() == text::lowered(a).len() && b.len() == text::lowered(b).len());
        assert forall|i: int| 0 <= i < a.len() implies text::ascii_lower(#[trigger] a[i])
            == text::ascii_lower(b[i]) by {
            assert(text::lowered(a)[i] == text::lowered(b)[i]);
        }
    }
}

/// What is stripped does not begin with the prefix any more, and one repetition
/// of it more or less makes no difference.
pub proof fn stripping_takes_every_repetition(s: Seq<char>, p: Seq<char>)
    requires
        p.len() > 0,
    ensures
        !text::has_prefix(text::stripped(s, p), p),
        text::stripped(p + s, p) == text::stripped(s, p),
        !text::has_prefix(s, p) ==> text::stripped(s, p) == s,
    decreases s.len(),
{
    let t = p + s;
    assert(t.take(p.len() as int) =~= p);
    assert(t.skip(p.len() as int) =~= s);
    if text::has_prefix(s, p) {
        stripping_takes_every_repetition(s.skip(p.len() as int), p);
    }
}

/// What follows the first mark is all that follows it, further marks and all; a
/// text without the mark is kept whole.
pub proof fn the_first_mark_splits(a: Seq<char>, b: Seq<char>, c: char)
    requires
        !a.contains(c),
    ensures
        text::after_first(a.push(c) + b, c) == b,
        text::after_first(a, c) == a,
    decreases a.len(),
{
    let s = a.push(c) + b;
    assert(s[a.len() as int] == c);
    assert(s.contains(c));
    lemma_after_present(a, b, c);
}

proof fn lemma_after_present(a: Seq<char>, b: Seq<char>, c: char)
    requires
        !a.contains(c),
    ensures
        text::after_present(a.push(c) + b, c) == b,
    decreases a.len(),
{
    let s = a.push(c) + b;
    if a.len() == 0 {
        assert(s.skip(1) =~= b);
    } else {
        assert(s[0] == a[0]);
        assert(a.contains(a[0]));
        let t = a.skip(1);
        assert forall|i: int| 0 <= i < t.len() implies #[trigger] t[i] != c by {
            assert(t[i] == a[i + 1]);
            assert(a.contains(a[i + 1]));
        }
        assert(s.skip(1) =~= t.push(c) + b);
        lemma_after_present(t, b, c);
    }
}

/// A text has every one of its beginnings as a prefix, and no other.
pub proof fn a_prefix_is_a_beginning(p: Seq<char>, rest: Seq<char>, s: Seq<char>)
    ensures
        text::has_prefix(p + rest, p),
        text::has_prefix(s, p) ==> s == p + s.skip(p.len() as int),
        text::has_prefix(s, Seq::empty()),
{
    assert((p + rest).take(p.len() as int) =~= p);
    assert(s.take(0) =~= Seq::<char>::empty());
    if text::has_prefix(s, p) {
        assert(s =~= s.take(p.len() as int) + s.skip(p.len() as int));
    }
}

/// A number between two texts can be read: texts that differ in it alone are
/// different texts.
pub proof fn a_figure_can_be_read(before: Seq<char>, a: nat, b: nat, after: Seq<char>)
    requires
        before + text::decimal(a) + after == before + text::decimal(b) + after,
    ensures
        a == b,
{
    let s = before + text::decimal(a) + after;
    let t = before + text::decimal(b) + after;
    let n = before.len() as int;
    assert(text::decimal(a).len() == text::decimal(b).len()) by {
        assert(s.len() == n + text::decimal(a).len() + after.len());
        assert(t.len() == n + text::decimal(b).len() + after.len());
    }
    let m = n + text::decimal(a).len();
    assert(s.subrange(n, m) =~= text::decimal(a));
    assert(t.subrange(n, m) =~= text::decimal(b));
    text::decimal_is_injective(a, b);
}

} // verus!
