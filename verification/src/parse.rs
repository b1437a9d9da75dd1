use vstd::prelude::*;

verus! {

/// Why a text is not what it should be.
#[derive(Clone, Copy, Debug, PartialEq, Eq, Structural)]
pub enum ParseError {
    /// The text has the wrong number of fields.
    Shape,
    /// The id is not a single character.
    Id,
    /// A number is missing, holds something other than digits behind its
    /// sign, or is out of range.
    Number,
}

/// The fields of a text: what stands between its commas. A text without a
/// comma is one field, and so is the empty text.
pub open spec fn split(text: Seq<char>) -> Seq<Seq<char>>
    decreases text.len(),
{
    if text.len() == 0 {
        seq![Seq::<char>::empty()]
    } else {
        let before = split(text.drop_last());
        if text.last() == ',' {
            before.push(Seq::<char>::empty())
        } else {
            before.update(before.len() - 1, before.last().push(text.last()))
        }
    }
}

pub open spec fn is_digit(c: char) -> bool {
    '0' <= c && c <= '9'
}

pub open spec fn all_digits(text: Seq<char>) -> bool {
    forall|i: int| 0 <= i < text.len() ==> is_digit(#[trigger] text[i])
}

/// The number that a digit stands for.
pub open spec fn digit_value(c: char) -> nat {
    (c as u32 - '0' as u32) as nat
}

/// The number that a row of digits stands for, read in base ten.
pub open spec fn decimal(digits: Seq<char>) -> nat
    decreases digits.len(),
{
    if digits.len() == 0 {
        0
    } else {
        decimal(digits.drop_last()) * 10 + digit_value(digits.last())
    }
}

/// The number that a text without a sign stands for: at least one digit,
/// nothing but digits, and no more than `max`.
pub open spec fn magnitude(text: Seq<char>, max: nat) -> Option<nat> {
    if text.len() > 0 && all_digits(text) && decimal(text) <= max {
        Some(decimal(text))
    } else {
        None
    }
}

/// The number that a text stands for where no number is below zero: a
/// plus sign may stand before the digits.
pub open spec fn unsigned(text: Seq<char>, max: nat) -> Option<nat> {
    if text.len() > 0 && text[0] == '+' {
        magnitude(text.drop_first(), max)
    } else {
        magnitude(text, max)
    }
}

/// The number that a text stands for where numbers run from `-below` to
/// `above`: a plus or a minus sign may stand before the digits.
pub open spec fn signed(text: Seq<char>, below: nat, above: nat) -> Option<int> {
    if text.len() > 0 && text[0] == '-' {
        match magnitude(text.drop_first(), below) {
            Some(m) => Some(-(m as int)),
            None => None,
        }
    } else {
        match unsigned(text, above) {
            Some(m) => Some(m as int),
            None => None,
        }
    }
}

/// The character that a text of one character is.
pub open spec fn single(text: Seq<char>) -> Option<char> {
    if text.len() == 1 {
        Some(text[0])
    } else {
        None
    }
}

/// What each of the fields holds.
pub open spec fn texts(fields: Seq<Vec<char>>) -> Seq<Seq<char>> {
    Seq::new(fields.len(), |i: int| fields[i]@)
}

/// A row of digits stands for no less than any of its beginnings.
proof fn decimal_grows(digits: Seq<char>, upto: int)
    requires
        0 <= upto <= digits.len(),
    ensures
        decimal(digits.subrange(0, upto)) <= decimal(digits),
    decreases digits.len() - upto,
{
    if upto < digits.len() {
        decimal_grows(digits, upto + 1);
        assert(digits.subrange(0, upto + 1).drop_last() =~= digits.subrange(0, upto));
    } else {
        assert(digits.subrange(0, upto) =~= digits);
    }
}

/// The characters of a text.
pub fn chars_of(s: &str) -> (text: Vec<char>)
    ensures
        text@ == s@,
{
    let n = s.unicode_len();
    let mut text: Vec<char> = Vec::new();
    let mut i: usize = 0;
    while i < n
        invariant
            i <= n,
            n == s@.len(),
            text@ == s@.subrange(0, i as int),
        decreases n - i,
    {
        text.push(s.get_char(i));
        assert(text@ =~= s@.subrange(0, i + 1));
        i += 1;
    }
    assert(text@ =~= s@);
    text
}

/// Cuts a text at its commas.
pub fn split_fields(text: &Vec<char>) -> (fields: Vec<Vec<char>>)
    ensures
        texts(fields@) == split(text@),
{
    let n = text.len();
    let mut fields: Vec<Vec<char>> = Vec::new();
    let mut current: Vec<char> = Vec::new();
    let mut i: usize = 0;
    assert(texts(fields@).push(current@) =~= split(text@.subrange(0, 0)));
    while i < n
        invariant
            i <= n,
            n == text@.len(),
            texts(fields@).push(current@) == split(text@.subrange(0, i as int)),
        decreases n - i,
    {
        let ghost seen = text@.subrange(0, i as int);
        let ghost next = text@.subrange(0, i + 1);
        assert(next.drop_last() =~= seen);
        assert(next.last() == text@[i as int]);
        let c = text[i];
        if c == ',' {
            let ghost before = texts(fields@);
            fields.push(current);
            current = Vec::new();
            assert(texts(fields@).push(current@) =~= split(seen).push(Seq::<char>::empty()));
        } else {
            let ghost before = current@;
            current.push(c);
            assert(texts(fields@).push(current@) =~= split(seen).update(
                split(seen).len() - 1,
                split(seen).last().push(c),
            ));
        }
        i += 1;
    }
    assert(text@.subrange(0, n as int) =~= text@);
    fields.push(current);
    assert(texts(fields@) =~= split(text@));
    fields
}

/// Reads a number without a sign from `text`, starting at `from`.
fn read_magnitude(text: &Vec<char>, from: usize, max: u64) -> (value: Option<u64>)
    requires
        from <= text@.len(),
    ensures
        value matches Some(n) ==> magnitude(text@.subrange(from as int, text@.len() as int), max as nat)
            == Some(n as nat),
        value is None ==> magnitude(text@.subrange(from as int, text@.len() as int), max as nat)
            is None,
{
    let n = text.len();
    let ghost digits = text@.subrange(from as int, n as int);
    if from == n {
        return None;
    }
    let mut value: u64 = 0;
    let mut i: usize = from;
    assert(digits.subrange(0, 0) =~= Seq::<char>::empty());
    while i < n
        invariant
            from <= i <= n,
            n == text@.len(),
            digits == text@.subrange(from as int, n as int),
            value == decimal(digits.subrange(0, i - from)),
            value <= max,
            forall|j: int| 0 <= j < i - from ==> is_digit(#[trigger] digits[j]),
        decreases n - i,
    {
        let c = text[i];
        assert(digits[i - from] == c);
        if !(c >= '0' && c <= '9') {
            return None;
        }
        let d: u64 = (c as u32 - '0' as u32) as u64;
        proof {
            assert(digits.subrange(0, i - from + 1).drop_last() =~= digits.subrange(0, i - from));
            assert(decimal(digits.subrange(0, i - from + 1)) == value * 10 + d);
            decimal_grows(digits, i - from + 1);
        }
        if d > max || value > (max - d) / 10 {
            assert(value * 10 + d > max);
            return None;
        }
        value = value * 10 + d;
        i += 1;
    }
    assert(digits.subrange(0, n - from) =~= digits);
    Some(value)
}

/// Reads a number that is not below zero and not above `max`.
pub fn read_unsigned(text: &Vec<char>, max: u64) -> (value: Option<u64>)
    ensures
        value matches Some(n) ==> unsigned(text@, max as nat) == Some(n as nat),
        value is None ==> unsigned(text@, max as nat) is None,
{
    if text.len() > 0 && text[0] == '+' {
        assert(text@.drop_first() =~= text@.subrange(1, text@.len() as int));
        read_magnitude(text, 1, max)
    } else {
        assert(text@ =~= text@.subrange(0, text@.len() as int));
        read_magnitude(text, 0, max)
    }
}

/// Reads a number between `-below` and `above`.
pub fn read_signed(text: &Vec<char>, below: u64, above: u64) -> (value: Option<i64>)
    requires
        below <= 0x7fff_ffff_ffff_ffff,
        above <= 0x7fff_ffff_ffff_ffff,
    ensures
        value matches Some(n) ==> signed(text@, below as nat, above as nat) == Some(n as int),
        value is None ==> signed(text@, below as nat, above as nat) is None,
{
    if text.len() > 0 && text[0] == '-' {
        assert(text@.drop_first() =~= text@.subrange(1, text@.len() as int));
        match read_magnitude(text, 1, below) {
            Some(m) => Some(-(m as i64)),
            None => None,
        }
    } else {
        match read_unsigned(text, above) {
            Some(m) => Some(m as i64),
            None => None,
        }
    }
}

/// Reads an id: the one character of the text.
pub fn read_single(text: &Vec<char>) -> (id: Option<char>)
    ensures
        id == single(text@),
{
    if text.len() == 1 {
        Some(text[0])
    } else {
        None
    }
}

} // verus!
