//! Strings as sequences of characters: the conversions and the number
//! formats that the rest of the library builds its texts from.
use vstd::prelude::*;
use vstd::std_specs::iter::IteratorSpec;

verus! {

/// The characters of a string.
pub fn chars_of(text: &str) -> (chars: Vec<char>)
    ensures
        chars@ == text@,
{
    broadcast use vstd::string::group_string_axioms;

    let mut chars: Vec<char> = Vec::new();
    let mut rest = text.chars();
    loop
        invariant
            chars@ + rest.remaining() == text@,
            rest.obeys_prophetic_iter_laws(),
            rest.decrease() is Some,
        decreases rest.decrease()->0,
    {
        let ghost before = rest.remaining();
        match rest.next() {
            Some(c) => {
                chars.push(c);
                assert(chars@ + rest.remaining() =~= text@) by {
                    assert(before =~= seq![before[0]] + before.drop_first());
                }
            },
            None => {
                assert(chars@ =~= text@);
                return chars;
            },
        }
    }
}

/// The string that holds the given characters: `String::from_iter` of std on
/// them, which makes a string of the characters that it is handed, in their
/// order.
#[verifier::external_body]
pub(crate) fn string_of(chars: &Vec<char>) -> (text: String)
    ensures
        text@ == chars@,
{
    String::from_iter(chars.iter())
}

/// Appends the characters of `more`.
pub fn push_all(chars: &mut Vec<char>, more: &Vec<char>)
    ensures
        final(chars)@ == old(chars)@ + more@,
{
    let mut i: usize = 0;
    while i < more.len()
        invariant
            i <= more.len(),
            chars@ == old(chars)@ + more@.take(i as int),
        decreases more.len() - i,
    {
        chars.push(more[i]);
        assert(chars@ =~= old(chars)@ + more@.take(i + 1));
        i += 1;
    }
    assert(more@.take(i as int) =~= more@);
}

/// Appends the characters of a string.
pub fn push_str(chars: &mut Vec<char>, more: &str)
    ensures
        final(chars)@ == old(chars)@ + more@,
{
    let more = chars_of(more);
    push_all(chars, &more);
}

/// Whether two sequences of characters are the same.
pub fn same_chars(left: &Vec<char>, right: &Vec<char>) -> (same: bool)
    ensures
        same == (left@ == right@),
{
    if left.len() != right.len() {
        return false;
    }
    let mut i: usize = 0;
    while i < left.len()
        invariant
            i <= left.len(),
            left.len() == right.len(),
            forall|k: int| 0 <= k < i ==> left[k] == right[k],
        decreases left.len() - i,
    {
        if left[i] != right[i] {
            return false;
        }
        i += 1;
    }
    assert(left@ =~= right@);
    true
}

/// The parts of a text that lie between the occurrences of a character: one
/// part more than there are occurrences, empty parts among them.
pub open spec fn split(text: Seq<char>, at: char) -> Seq<Seq<char>>
    decreases text.len(),
{
    if text.len() == 0 {
        seq![Seq::empty()]
    } else if text.last() == at {
        split(text.drop_last(), at).push(Seq::empty())
    } else {
        let front = split(text.drop_last(), at);
        front.update(front.len() - 1, front.last().push(text.last()))
    }
}

/// Parts as sequences of characters.
pub open spec fn parts_of(parts: Seq<Vec<char>>) -> Seq<Seq<char>> {
    parts.map_values(|part: Vec<char>| part@)
}

/// The parts of a text that lie between the occurrences of a character.
pub fn split_chars(text: &Vec<char>, at: char) -> (parts: Vec<Vec<char>>)
    ensures
        parts_of(parts@) == split(text@, at),
        parts.len() >= 1,
{
    let mut parts: Vec<Vec<char>> = Vec::new();
    let mut part: Vec<char> = Vec::new();
    let mut i: usize = 0;
    proof {
        assert(text@.take(0) =~= Seq::<char>::empty());
        assert(parts_of(parts@).push(part@) =~= split(text@.take(0), at));
    }
    while i < text.len()
        invariant
            i <= text.len(),
            parts_of(parts@).push(part@) == split(text@.take(i as int), at),
        decreases text.len() - i,
    {
        let c = text[i];
        proof {
            let longer = text@.take(i + 1);
            assert(longer.drop_last() =~= text@.take(i as int));
            assert(longer.last() == c);
        }
        let ghost done = parts_of(parts@);
        let ghost open = part@;
        if c == at {
            parts.push(part);
            part = Vec::new();
            proof {
                assert(parts_of(parts@) =~= done.push(open));
                assert(parts_of(parts@).push(part@) =~= done.push(open).push(Seq::empty()));
            }
        } else {
            part.push(c);
            proof {
                let front = done.push(open);
                assert(parts_of(parts@).push(part@) =~= front.update(
                    front.len() - 1,
                    front.last().push(c),
                ));
            }
        }
        i += 1;
    }
    proof {
        assert(text@.take(i as int) =~= text@);
    }
    let ghost done = parts_of(parts@);
    let ghost open = part@;
    parts.push(part);
    proof {
        assert(parts_of(parts@) =~= done.push(open));
    }
    parts
}

/// Whether a character is a decimal digit.
pub open spec fn is_digit(c: char) -> bool {
    '0' <= c <= '9'
}

/// Whether a text holds decimal digits only.
pub open spec fn all_digits(text: Seq<char>) -> bool {
    forall|i: int| 0 <= i < text.len() ==> is_digit(#[trigger] text[i])
}

/// The number that decimal digits stand for.
pub open spec fn digits_value(digits: Seq<char>) -> nat
    decreases digits.len(),
{
    if digits.len() == 0 {
        0
    } else {
        digits_value(digits.drop_last()) * 10 + (digits.last() as nat - 48) as nat
    }
}

/// The number that decimal digits stand for where a `u32` can hold it; none
/// where there is no digit, or something other than digits, or the number is
/// too large.
pub open spec fn digits_u32(digits: Seq<char>) -> Option<u32> {
    if digits.len() == 0 || !all_digits(digits) || digits_value(digits) > u32::MAX {
        None
    } else {
        Some(digits_value(digits) as u32)
    }
}

/// The number that a text stands for where it is read as a `u32`: decimal
/// digits, at least one, with or without a `+` before them, that stand for a
/// number that a `u32` can hold. Any other text stands for none.
pub open spec fn parsed_u32(text: Seq<char>) -> Option<u32> {
    if text.len() > 0 && text[0] == '+' {
        digits_u32(text.skip(1))
    } else {
        digits_u32(text)
    }
}

/// Whether a text does not hold a character.
pub open spec fn free_of(text: Seq<char>, c: char) -> bool {
    forall|i: int| 0 <= i < text.len() ==> #[trigger] text[i] != c
}

/// A text that does not hold the character is its own one part.
pub proof fn lemma_split_whole(text: Seq<char>, at: char)
    requires
        free_of(text, at),
    ensures
        split(text, at) == seq![text],
    decreases text.len(),
{
    if text.len() == 0 {
        assert(text =~= Seq::<char>::empty());
    } else {
        let front = text.drop_last();
        assert(free_of(front, at)) by {
            assert forall|i: int| 0 <= i < front.len() implies #[trigger] front[i] != at by {
                assert(front[i] == text[i]);
            }
        }
        lemma_split_whole(front, at);
        assert(text[text.len() - 1] != at);
        assert(front.push(text.last()) =~= text);
        assert(split(text, at) =~= seq![text]);
    }
}

/// What follows the character, where it does not hold the character itself,
/// is one part more.
pub proof fn lemma_split_more(head: Seq<char>, tail: Seq<char>, at: char)
    requires
        free_of(tail, at),
    ensures
        split(head + seq![at] + tail, at) == split(head, at).push(tail),
    decreases tail.len(),
{
    let whole = head + seq![at] + tail;
    if tail.len() == 0 {
        assert(whole.last() == at);
        assert(whole.drop_last() =~= head);
        assert(tail =~= Seq::<char>::empty());
    } else {
        let shorter = tail.drop_last();
        assert(free_of(shorter, at)) by {
            assert forall|i: int| 0 <= i < shorter.len() implies #[trigger] shorter[i] != at by {
                assert(shorter[i] == tail[i]);
            }
        }
        lemma_split_more(head, shorter, at);
        assert(tail[tail.len() - 1] != at);
        assert(whole.last() == tail.last());
        assert(whole.drop_last() =~= head + seq![at] + shorter);
        assert(shorter.push(tail.last()) =~= tail);
        let front = split(head, at).push(shorter);
        assert(front.update(front.len() - 1, front.last().push(tail.last())) =~= split(
            head,
            at,
        ).push(tail));
    }
}

/// A number in decimal digits holds digits only, at least one, and they stand
/// for the number.
pub proof fn lemma_decimal(value: nat)
    ensures
        decimal(value).len() > 0,
        all_digits(decimal(value)),
        digits_value(decimal(value)) == value,
    decreases value,
{
    if value < 10 {
        let digits = decimal(value);
        assert(digits.len() == 1 && digits[0] == digit(value));
        assert(digits.drop_last() =~= Seq::<char>::empty());
        assert(digits_value(digits.drop_last()) == 0);
    } else {
        lemma_decimal(value / 10);
        let front = decimal(value / 10);
        let digits = front.push(digit(value % 10));
        assert(digits.drop_last() =~= front);
        assert(digits.last() == digit(value % 10));
        assert forall|i: int| 0 <= i < digits.len() implies is_digit(#[trigger] digits[i]) by {
            if i < front.len() {
                assert(digits[i] == front[i]);
            }
        }
    }
}

/// A number that a `u32` can hold is read back from its decimal digits.
pub proof fn lemma_decimal_is_read_back(value: nat)
    requires
        value <= u32::MAX,
    ensures
        parsed_u32(decimal(value)) == Some(value as u32),
        decimal(value).len() > 0,
        free_of(decimal(value), ':'),
{
    lemma_decimal(value);
    let digits = decimal(value);
    assert(is_digit(digits[0]));
    assert forall|i: int| 0 <= i < digits.len() implies #[trigger] digits[i] != ':' by {
        assert(is_digit(digits[i]));
    }
}

/// More digits never stand for a smaller number.
proof fn lemma_digits_value_grows(digits: Seq<char>, upto: int)
    requires
        all_digits(digits),
        0 <= upto <= digits.len(),
    ensures
        digits_value(digits.take(upto)) <= digits_value(digits),
    decreases digits.len() - upto,
{
    if upto == digits.len() {
        assert(digits.take(upto) =~= digits);
    } else {
        let longer = digits.take(upto + 1);
        assert(longer.drop_last() =~= digits.take(upto));
        assert(is_digit(digits[upto]));
        assert(longer.last() == digits[upto]);
        lemma_digits_value_grows(digits, upto + 1);
    }
}

/// The number that a text stands for where it is read as a `u32`.
pub fn parse_u32(text: &Vec<char>) -> (value: Option<u32>)
    ensures
        value == parsed_u32(text@),
{
    let start: usize = if text.len() > 0 && text[0] == '+' {
        1
    } else {
        0
    };
    let ghost digits = text@.skip(start as int);
    proof {
        assert(text@.skip(0) =~= text@);
    }
    if start == text.len() {
        return None;
    }
    let mut i: usize = start;
    while i < text.len()
        invariant
            start <= i <= text.len(),
            digits == text@.skip(start as int),
            parsed_u32(text@) == digits_u32(digits),
            forall|k: int| 0 <= k < i - start ==> is_digit(#[trigger] digits[k]),
        decreases text.len() - i,
    {
        let c = text[i];
        if !('0' <= c && c <= '9') {
            assert(!is_digit(digits[i - start]));
            return None;
        }
        i += 1;
    }
    assert(all_digits(digits));
    let mut value: u64 = 0;
    let mut i: usize = start;
    assert(digits.take(0) =~= Seq::<char>::empty());
    while i < text.len()
        invariant
            start <= i <= text.len(),
            digits == text@.skip(start as int),
            parsed_u32(text@) == digits_u32(digits),
            all_digits(digits),
            value <= u32::MAX,
            value == digits_value(digits.take(i - start)),
        decreases text.len() - i,
    {
        let c = text[i];
        proof {
            let longer = digits.take(i - start + 1);
            assert(longer.drop_last() =~= digits.take(i - start));
            assert(longer.last() == c);
            assert(is_digit(digits[i - start]));
        }
        let next = value * 10 + (c as u32 - 48) as u64;
        if next > u32::MAX as u64 {
            proof {
                lemma_digits_value_grows(digits, i - start + 1);
            }
            return None;
        }
        value = next;
        i += 1;
    }
    assert(digits.take(i - start) =~= digits);
    Some(value as u32)
}

/// The character that stands for a digit below sixteen: `0` to `9`, then `a`
/// to `f`.
pub open spec fn digit(value: nat) -> char {
    if value < 10 {
        (48 + value) as char
    } else {
        (87 + value) as char
    }
}

/// A number in decimal digits, without leading zeros.
pub open spec fn decimal(value: nat) -> Seq<char>
    decreases value,
{
    if value < 10 {
        seq![digit(value)]
    } else {
        decimal(value / 10).push(digit(value % 10))
    }
}

/// A number in hexadecimal digits, the letters among them small, without
/// leading zeros.
pub open spec fn lower_hex(value: nat) -> Seq<char>
    decreases value,
{
    if value < 16 {
        seq![digit(value)]
    } else {
        lower_hex(value / 16).push(digit(value % 16))
    }
}

/// The character that stands for a digit below sixteen.
pub fn digit_char(value: u8) -> (c: char)
    requires
        value < 16,
    ensures
        c == digit(value as nat),
{
    if value < 10 {
        (48 + value) as char
    } else {
        (87 + value) as char
    }
}

/// Appends a number in decimal digits.
pub fn push_decimal(chars: &mut Vec<char>, value: u64)
    ensures
        final(chars)@ == old(chars)@ + decimal(value as nat),
    decreases value,
{
    if value >= 10 {
        push_decimal(chars, value / 10);
    }
    chars.push(digit_char((value % 10) as u8));
    assert(chars@ =~= old(chars)@ + decimal(value as nat));
}

/// Appends a number in hexadecimal digits.
pub fn push_lower_hex(chars: &mut Vec<char>, value: u64)
    ensures
        final(chars)@ == old(chars)@ + lower_hex(value as nat),
    decreases value,
{
    if value >= 16 {
        push_lower_hex(chars, value / 16);
    }
    chars.push(digit_char((value % 16) as u8));
    assert(chars@ =~= old(chars)@ + lower_hex(value as nat));
}

} // verus!
