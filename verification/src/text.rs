//! Text: numbers in decimal, and the words of a command.
use vstd::arithmetic::power::{lemma_pow0, pow};
use vstd::prelude::*;
use vstd::string::*;

verus! {

/// A decimal digit as a character.
pub open spec fn digit(d: nat) -> char
    recommends
        d < 10,
{
    (48 + d) as char
}

/// `c` is a decimal digit.
pub open spec fn is_digit(c: char) -> bool {
    '0' <= c <= '9'
}

/// A number written in decimal, without leading zeros.
pub open spec fn decimal(n: nat) -> Seq<char>
    decreases n,
{
    if n < 10 {
        seq![digit(n)]
    } else {
        decimal(n / 10).push(digit(n % 10))
    }
}

/// The number that a sequence of decimal digits stands for.
pub open spec fn decimal_value(digits: Seq<char>) -> nat
    decreases digits.len(),
{
    if digits.len() == 0 {
        0
    } else {
        decimal_value(digits.drop_last()) * 10 + (digits.last() as nat - 48) as nat
    }
}

/// The text after its sign, if it starts with a plus sign.
pub open spec fn unsigned_part(s: Seq<char>) -> Seq<char> {
    if s.len() > 0 && s[0] == '+' {
        s.skip(1)
    } else {
        s
    }
}

/// The number that a text denotes: an optional plus sign, then one or more decimal
/// digits and nothing else, with a value that fits.
pub open spec fn u32_of_text(s: Seq<char>) -> Option<u32> {
    let digits = unsigned_part(s);
    if digits.len() > 0 && (forall|i: int| 0 <= i < digits.len() ==> is_digit(#[trigger] digits[i]))
        && decimal_value(digits) <= u32::MAX {
        Some(decimal_value(digits) as u32)
    } else {
        None
    }
}

/// The parts of a text between the separators. There is one part more than there
/// are separators; parts may be empty.
pub open spec fn parts(s: Seq<char>, separator: char) -> Seq<Seq<char>>
    decreases s.len(),
{
    if s.len() == 0 {
        seq![s]
    } else {
        let before = parts(s.drop_last(), separator);
        if s.last() == separator {
            before.push(Seq::empty())
        } else {
            before.drop_last().push(before.last().push(s.last()))
        }
    }
}

/// What the words of a list say.
pub open spec fn words(list: Seq<&str>) -> Seq<Seq<char>> {
    list.map_values(|word: &str| word@)
}

/// A digit of a number, as text.
fn digit_text(d: u32) -> (text: &'static str)
    requires
        d < 10,
    ensures
        text@ == seq![digit(d as nat)],
{
    proof {
        reveal_strlit("0");
        reveal_strlit("1");
        reveal_strlit("2");
        reveal_strlit("3");
        reveal_strlit("4");
        reveal_strlit("5");
        reveal_strlit("6");
        reveal_strlit("7");
        reveal_strlit("8");
        reveal_strlit("9");
    }
    match d {
        0 => "0",
        1 => "1",
        2 => "2",
        3 => "3",
        4 => "4",
        5 => "5",
        6 => "6",
        7 => "7",
        8 => "8",
        _ => "9",
    }
}

/// Writes a number in decimal.
pub fn decimal_text(n: u32) -> (text: String)
    ensures
        text@ == decimal(n as nat),
    decreases n,
{
    if n < 10 {
        digit_text(n).to_owned()
    } else {
        let mut text = decimal_text(n / 10);
        text.append(digit_text(n % 10));
        proof {
            assert(text@ =~= decimal((n / 10) as nat).push(digit((n % 10) as nat)));
        }
        text
    }
}

/// Tells whether two texts are the same.
pub fn same_text(a: &str, b: &str) -> (same: bool)
    ensures
        same == (a@ == b@),
{
    a.to_owned() == b.to_owned()
}

/// Joins two texts.
pub fn joined(a: &str, b: &str) -> (text: String)
    ensures
        text@ == a@ + b@,
{
    let mut text = a.to_owned();
    text.append(b);
    text
}

proof fn lemma_decimal_value_grows(digits: Seq<char>, i: int)
    requires
        0 <= i <= digits.len(),
    ensures
        decimal_value(digits.take(i)) <= decimal_value(digits),
    decreases digits.len() - i,
{
    if i < digits.len() {
        lemma_decimal_value_grows(digits, i + 1);
        assert(digits.take(i + 1).drop_last() =~= digits.take(i));
    } else {
        assert(digits.take(i) =~= digits);
    }
}

/// Reads a number in decimal: an optional plus sign, then digits.
pub fn parse_u32(text: &str) -> (number: Option<u32>)
    ensures
        number == u32_of_text(text@),
{
    let len: usize = text.unicode_len();
    let start: usize = if len > 0 && text.get_char(0) == '+' {
        1
    } else {
        0
    };
    let ghost digits = unsigned_part(text@);
    assert(digits =~= text@.skip(start as int));
    if start == len {
        return None;
    }
    let mut value: u32 = 0;
    let mut i: usize = start;
    assert(digits.take(0) =~= Seq::<char>::empty());
    while i < len
        invariant
            start <= i <= len,
            len == text@.len(),
            digits == text@.skip(start as int),
            digits == unsigned_part(text@),
            forall|k: int| 0 <= k < i - start ==> is_digit(#[trigger] digits[k]),
            value == decimal_value(digits.take(i - start)),
        decreases len - i,
    {
        let c: char = text.get_char(i);
        assert(digits[i - start] == c);
        if !('0' <= c && c <= '9') {
            return None;
        }
        let d: u32 = (c as u32) - 48;
        proof {
            assert(digits.take(i - start + 1).drop_last() =~= digits.take(i - start));
            assert(decimal_value(digits.take(i - start + 1)) == value * 10 + d);
            lemma_decimal_value_grows(digits, i - start + 1);
        }
        if value > (u32::MAX - d) / 10 {
            return None;
        }
        value = value * 10 + d;
        i = i + 1;
    }
    assert(digits.take(i - start) =~= digits);
    Some(value)
}

/// Splits a text at each separator.
pub fn split_text<'a>(text: &'a str, separator: char) -> (list: Vec<&'a str>)
    ensures
        words(list@) == parts(text@, separator),
{
    let len: usize = text.unicode_len();
    let mut list: Vec<&'a str> = Vec::new();
    let mut start: usize = 0;
    let mut i: usize = 0;
    assert(text@.take(0) =~= Seq::<char>::empty());
    assert(words(list@).push(text@.subrange(0, 0)) =~= parts(text@.take(0), separator));
    while i < len
        invariant
            start <= i <= len,
            len == text@.len(),
            words(list@).push(text@.subrange(start as int, i as int)) == parts(
                text@.take(i as int),
                separator,
            ),
        decreases len - i,
    {
        let ghost before = words(list@);
        let ghost current = text@.subrange(start as int, i as int);
        let c: char = text.get_char(i);
        assert(text@.take(i + 1).drop_last() =~= text@.take(i as int));
        assert(text@.take(i + 1).last() == c);
        assert(before.push(current).drop_last() =~= before);
        if c == separator {
            let part: &'a str = text.substring_char(start, i);
            list.push(part);
            start = i + 1;
            assert(words(list@) =~= before.push(current));
            assert(text@.subrange(start as int, i + 1) =~= Seq::<char>::empty());
        } else {
            assert(text@.subrange(start as int, i + 1) =~= current.push(c));
        }
        i = i + 1;
    }
    let ghost before = words(list@);
    let last: &'a str = text.substring_char(start, len);
    list.push(last);
    assert(words(list@) =~= before.push(last@));
    assert(text@.take(len as int) =~= text@);
    list
}

/// A number written in decimal reads back as that number.
pub proof fn lemma_decimal_reads_back(n: u32)
    ensures
        u32_of_text(decimal(n as nat)) == Some(n),
{
    lemma_decimal_digits(n as nat);
    let text = decimal(n as nat);
    assert(is_digit(text[0]));
    assert(unsigned_part(text) == text);
}

/// A number written in decimal consists of digits and has its value.
proof fn lemma_decimal_digits(n: nat)
    ensures
        decimal(n).len() > 0,
        forall|i: int| 0 <= i < decimal(n).len() ==> is_digit(#[trigger] decimal(n)[i]),
        decimal_value(decimal(n)) == n,
    decreases n,
{
    reveal_with_fuel(decimal_value, 2);
    let text = decimal(n);
    if n < 10 {
        assert(text.drop_last() =~= Seq::<char>::empty());
    } else {
        lemma_decimal_digits(n / 10);
        assert(text.drop_last() =~= decimal(n / 10));
    }
}

/// A list of parts put together again, with the separator between them.
pub open spec fn put_together(list: Seq<Seq<char>>, separator: char) -> Seq<char>
    decreases list.len(),
{
    if list.len() == 0 {
        Seq::empty()
    } else if list.len() == 1 {
        list[0]
    } else {
        put_together(list.drop_last(), separator).push(separator) + list.last()
    }
}

/// The parts of a text hold no separator, and put together they are the text.
pub proof fn lemma_parts_make_the_text(s: Seq<char>, separator: char)
    ensures
        parts(s, separator).len() > 0,
        forall|i: int|
            0 <= i < parts(s, separator).len() ==> !(#[trigger] parts(s, separator)[i]).contains(
                separator,
            ),
        put_together(parts(s, separator), separator) == s,
    decreases s.len(),
{
    let list = parts(s, separator);
    reveal_with_fuel(put_together, 2);
    if s.len() > 0 {
        let before = parts(s.drop_last(), separator);
        lemma_parts_make_the_text(s.drop_last(), separator);
        assert(s =~= s.drop_last().push(s.last()));
        assert(list.drop_last() =~= (if s.last() == separator {
            before
        } else {
            before.drop_last()
        }));
        if s.last() == separator {
            assert(put_together(list, separator) =~= s);
        } else {
            let last = before.last();
            assert(!before[before.len() - 1].contains(separator));
            assert(!last.push(s.last()).contains(separator)) by {
                if last.push(s.last()).contains(separator) {
                    let i = choose|i: int|
                        0 <= i < last.len() + 1 && last.push(s.last())[i] == separator;
                    assert(last[i] == separator);
                }
            }
            assert(put_together(list, separator) =~= s);
        }
        assert forall|i: int| 0 <= i < list.len() implies !(#[trigger] list[i]).contains(
            separator,
        ) by {
            if i < before.len() {
                assert(!before[i].contains(separator));
            }
        }
    }
}

/// The ten digits, and no other character is one.
pub proof fn lemma_ten_digits(c: char)
    ensures
        is_digit(c) <==> {
            ||| c == '0'
            ||| c == '1'
            ||| c == '2'
            ||| c == '3'
            ||| c == '4'
            ||| c == '5'
            ||| c == '6'
            ||| c == '7'
            ||| c == '8'
            ||| c == '9'
        },
        decimal_value(seq!['0']) == 0,
        decimal_value(seq!['1']) == 1,
        decimal_value(seq!['2']) == 2,
        decimal_value(seq!['3']) == 3,
        decimal_value(seq!['4']) == 4,
        decimal_value(seq!['5']) == 5,
        decimal_value(seq!['6']) == 6,
        decimal_value(seq!['7']) == 7,
        decimal_value(seq!['8']) == 8,
        decimal_value(seq!['9']) == 9,
{
    reveal_with_fuel(decimal_value, 2);
}

/// Digits in front of others count as many times ten as there are others.
pub proof fn lemma_place_value(front: Seq<char>, back: Seq<char>)
    ensures
        decimal_value(Seq::empty()) == 0,
        decimal_value(front + back) == decimal_value(front) * pow(10, back.len())
            + decimal_value(back),
    decreases back.len(),
{
    if back.len() == 0 {
        assert(front + back =~= front);
        lemma_pow0(10);
    } else {
        let less = back.drop_last();
        lemma_place_value(front, less);
        assert((front + back).drop_last() =~= front + less);
        let high = decimal_value(front) as int;
        let weight = pow(10, less.len());
        assert(pow(10, back.len()) == 10 * weight) by {
            reveal(pow);
        }
        assert((high * weight) * 10 == high * (10 * weight)) by (nonlinear_arith);
    }
}

/// A number is written with digits alone, and its first digit is a zero only if it is zero.
/// With [`lemma_ten_digits`] and [`lemma_place_value`] this leaves one way to write it.
pub proof fn lemma_decimal_is_plain(n: nat)
    ensures
        decimal(n).len() > 0,
        forall|i: int| 0 <= i < decimal(n).len() ==> '0' <= #[trigger] decimal(n)[i] <= '9',
        decimal_value(decimal(n)) == n,
        decimal(n)[0] == '0' <==> n == 0,
        n == 0 ==> decimal(n) == seq!['0'],
    decreases n,
{
    lemma_decimal_digits(n);
    let text = decimal(n);
    assert forall|i: int| 0 <= i < text.len() implies '0' <= #[trigger] text[i] <= '9' by {
        assert(is_digit(text[i]));
    }
    if n >= 10 {
        lemma_decimal_is_plain(n / 10);
    }
}

/// What reads as a number: digits alone, of which there is at least one, with a value that fits.
/// A plus sign in front, or zeros, make no difference.
pub proof fn lemma_digits_are_read(digits: Seq<char>)
    requires
        digits.len() > 0,
        forall|i: int| 0 <= i < digits.len() ==> '0' <= #[trigger] digits[i] <= '9',
    ensures
        decimal_value(digits) <= 4294967295 ==> u32_of_text(digits) == Some(
            decimal_value(digits) as u32,
        ),
        decimal_value(digits) > 4294967295 ==> u32_of_text(digits) is None,
        u32_of_text(seq!['+'] + digits) == u32_of_text(digits),
        u32_of_text(seq!['0'] + digits) == u32_of_text(digits),
{
    assert(digits[0] != '+');
    assert(unsigned_part(digits) == digits);
    assert forall|i: int| 0 <= i < digits.len() implies is_digit(#[trigger] digits[i]) by {}
    let signed = seq!['+'] + digits;
    assert(signed[0] == '+');
    assert(signed.skip(1) =~= digits);
    let padded = seq!['0'] + digits;
    assert(padded[0] == '0');
    assert(unsigned_part(padded) == padded);
    lemma_place_value(seq!['0'], digits);
    lemma_ten_digits('0');
    assert(0 * pow(10, digits.len()) == 0);
    assert forall|i: int| 0 <= i < padded.len() implies is_digit(#[trigger] padded[i]) by {
        if i > 0 {
            assert(padded[i] == digits[i - 1]);
        }
    }
}

/// What does not read as a number: nothing, a plus sign alone, and a text with any character that
/// is no digit, unless it is a plus sign in front.
pub proof fn lemma_other_text_is_no_number(text: Seq<char>, i: int)
    requires
        0 <= i < text.len(),
        !('0' <= text[i] <= '9'),
        i > 0 || text[i] != '+' || text.len() == 1,
    ensures
        u32_of_text(text) is None,
        u32_of_text(Seq::empty()) is None,
{
    let digits = unsigned_part(text);
    if text[0] == '+' {
        assert(digits =~= text.skip(1));
        if i > 0 {
            assert(digits[i - 1] == text[i]);
            assert(!is_digit(digits[i - 1]));
        }
    } else {
        assert(!is_digit(digits[i]));
    }
}

/// A word without separators goes on with the last part.
proof fn lemma_parts_of_more(s: Seq<char>, word: Seq<char>, separator: char)
    requires
        !word.contains(separator),
    ensures
        parts(s, separator).len() > 0,
        parts(s + word, separator) == parts(s, separator).drop_last().push(
            parts(s, separator).last() + word,
        ),
    decreases word.len(),
{
    lemma_parts_make_the_text(s, separator);
    let before = parts(s, separator);
    if word.len() == 0 {
        assert(s + word =~= s);
        assert(before.last() + word =~= before.last());
        assert(before.drop_last().push(before.last()) =~= before);
    } else {
        let less = word.drop_last();
        assert(word[word.len() - 1] != separator);
        assert(!less.contains(separator)) by {
            if less.contains(separator) {
                let i = choose|i: int| 0 <= i < less.len() && less[i] == separator;
                assert(word[i] == separator);
            }
        }
        lemma_parts_of_more(s, less, separator);
        assert((s + word).drop_last() =~= s + less);
        assert(before.drop_last().push(before.last() + less).drop_last() =~= before.drop_last());
        assert((before.last() + less).push(word.last()) =~= before.last() + word);
    }
}

/// Words without separators, put together, have these words as their parts, in this order.
pub proof fn lemma_parts_of_words(list: Seq<Seq<char>>, separator: char)
    requires
        list.len() > 0,
        forall|i: int| 0 <= i < list.len() ==> !(#[trigger] list[i]).contains(separator),
    ensures
        parts(put_together(list, separator), separator) == list,
    decreases list.len(),
{
    let last = list.last();
    assert(!list[list.len() - 1].contains(separator));
    if list.len() == 1 {
        let none = Seq::<char>::empty();
        lemma_parts_of_more(none, last, separator);
        assert(none + last =~= last);
        assert(parts(none, separator) =~= seq![none]);
        assert(list =~= seq![none].drop_last().push(none + last));
    } else {
        let less = list.drop_last();
        assert forall|i: int| 0 <= i < less.len() implies !(#[trigger] less[i]).contains(
            separator,
        ) by {
            assert(less[i] == list[i]);
        }
        lemma_parts_of_words(less, separator);
        let front = put_together(less, separator).push(separator);
        assert(front.drop_last() =~= put_together(less, separator));
        assert(parts(front, separator) == less.push(Seq::empty()));
        lemma_parts_of_more(front, last, separator);
        assert(less.push(Seq::<char>::empty()).drop_last() =~= less);
        assert(Seq::<char>::empty() + last =~= last);
        assert(less.push(last) =~= list);
    }
}

/// Words and a separator between them.
pub proof fn lemma_two_words(a: Seq<char>, b: Seq<char>, separator: char)
    ensures
        put_together(seq![a], separator) == a,
        put_together(seq![a, b], separator) == a + seq![separator] + b,
{
    reveal_with_fuel(put_together, 2);
    assert(seq![a, b].drop_last() =~= seq![a]);
    assert(a.push(separator) + b =~= a + seq![separator] + b);
}

} // verus!
