//! Text built one character at a time: decimal and hexadecimal numbers, joined lists.
use vstd::prelude::*;

verus! {

/// `String::push` appends one character and changes nothing else.
pub assume_specification[ String::push ](s: &mut String, ch: char)
    ensures
        final(s)@ == old(s)@.push(ch),
;

/// The character of a decimal digit.
pub open spec fn digit_char(d: nat) -> char {
    ('0' as u32 + d) as char
}

/// A number in base ten, without leading zeros.
pub open spec fn decimal(n: nat) -> Seq<char>
    decreases n,
{
    if n < 10 {
        seq![digit_char(n)]
    } else {
        decimal(n / 10).push(digit_char(n % 10))
    }
}

/// The character of a hexadecimal digit, in lower case.
pub open spec fn hex_char(d: nat) -> char {
    if d < 10 {
        digit_char(d)
    } else {
        ('a' as u32 + (d - 10)) as char
    }
}

/// A byte as two hexadecimal digits.
pub open spec fn hex_byte(b: u8) -> Seq<char> {
    seq![hex_char((b / 16) as nat), hex_char((b % 16) as nat)]
}

/// The parts one after the other, with the separator between two neighbours.
pub open spec fn joined(parts: Seq<Seq<char>>, separator: Seq<char>) -> Seq<char>
    decreases parts.len(),
{
    if parts.len() == 0 {
        Seq::empty()
    } else if parts.len() == 1 {
        parts[0]
    } else {
        joined(parts.drop_last(), separator) + separator + parts.last()
    }
}

/// Appends a number in base ten.
pub fn push_decimal(output: &mut String, n: u64)
    ensures
        final(output)@ == old(output)@ + decimal(n as nat),
    decreases n,
{
    if n >= 10 {
        push_decimal(output, n / 10);
    }
    let digit: u8 = (n % 10) as u8;
    let ch: char = (48u8 + digit) as char;
    output.push(ch);
    assert(output@ =~= old(output)@ + decimal(n as nat));
}

fn push_hex_digit(output: &mut String, d: u8)
    requires
        d < 16,
    ensures
        final(output)@ == old(output)@.push(hex_char(d as nat)),
{
    let code: u8 = if d < 10 {
        48u8 + d
    } else {
        97u8 + (d - 10)
    };
    output.push(code as char);
}

/// Appends a byte as two hexadecimal digits.
pub fn push_hex_byte(output: &mut String, b: u8)
    ensures
        final(output)@ == old(output)@ + hex_byte(b),
{
    push_hex_digit(output, b / 16);
    push_hex_digit(output, b % 16);
    assert(output@ =~= old(output)@ + hex_byte(b));
}

/// The characters that each string of a list holds.
pub open spec fn string_views(parts: Seq<String>) -> Seq<Seq<char>> {
    parts.map_values(|part: String| part@)
}

/// Joins the parts with a separator between two neighbours.
pub fn join(parts: &Vec<String>, separator: &str) -> (r: String)
    ensures
        r@ == joined(string_views(parts@), separator@),
{
    let mut output = String::new();
    let ghost views = string_views(parts@);
    let mut i: usize = 0;
    assert(views.take(0) =~= Seq::empty());
    while i < parts.len()
        invariant
            i <= parts.len(),
            views == string_views(parts@),
            output@ == joined(views.take(i as int), separator@),
        decreases parts.len() - i,
    {
        if i > 0 {
            output.append(separator);
        }
        output.append(parts[i].as_str());
        assert(views.take(i + 1).drop_last() =~= views.take(i as int));
        assert(views.take(i + 1).last() == parts[i as int]@);
        i = i + 1;
    }
    assert(views.take(i as int) =~= views);
    output
}

/// A text behind another one.
pub fn prefixed(before: &str, inner: &str) -> (r: String)
    ensures
        r@ == before@ + inner@,
{
    let mut output = before.to_owned();
    output.append(inner);
    output
}

/// A text between two others.
pub fn enclosed(before: &str, inner: &str, after: &str) -> (r: String)
    ensures
        r@ == before@ + inner@ + after@,
{
    let mut output = before.to_owned();
    output.append(inner);
    output.append(after);
    output
}

/// The number that decimal digits spell.
pub open spec fn decimal_value(digits: Seq<char>) -> int
    decreases digits.len(),
{
    if digits.len() == 0 {
        0
    } else {
        10 * decimal_value(digits.drop_last()) + (digits.last() as int - 48)
    }
}

/// A number in base ten is made of digits that spell the number, and it starts with a zero only
/// where the number is zero.
pub proof fn a_decimal_spells_its_number(n: nat)
    ensures
        decimal_value(decimal(n)) == n,
        decimal(n).len() >= 1,
        forall|i: int| 0 <= i < decimal(n).len() ==> 48 <= #[trigger] decimal(n)[i] as int <= 57,
        decimal(n)[0] as int == 48 ==> n == 0 && decimal(n).len() == 1,
    decreases n,
{
    if n < 10 {
        let one = decimal(n);
        assert(one.drop_last() =~= Seq::empty());
        assert(decimal_value(one.drop_last()) == 0);
    } else {
        a_decimal_spells_its_number(n / 10);
        let front = decimal(n / 10);
        assert(decimal(n).drop_last() =~= front);
        assert(decimal(n)[0] == front[0]);
        assert forall|i: int| 0 <= i < decimal(n).len() implies 48 <= #[trigger] decimal(
            n,
        )[i] as int <= 57 by {
            if i < front.len() {
                assert(decimal(n)[i] == front[i]);
            }
        }
    }
}

/// The number that a hexadecimal digit in lower case stands for.
pub open spec fn hex_value(ch: char) -> int {
    if 48 <= ch as int <= 57 {
        ch as int - 48
    } else if 97 <= ch as int <= 102 {
        ch as int - 87
    } else {
        -1
    }
}

/// The two digits of a byte spell the byte, the more significant one first.
pub proof fn hexadecimal_digits_spell_their_byte(b: u8)
    ensures
        hex_byte(b).len() == 2,
        0 <= hex_value(hex_byte(b)[0]) < 16,
        0 <= hex_value(hex_byte(b)[1]) < 16,
        16 * hex_value(hex_byte(b)[0]) + hex_value(hex_byte(b)[1]) == b,
{
}

/// One part alone is joined to itself, and two lists are joined to what each is joined to, with
/// the separator between them.
pub proof fn joining_puts_one_separator_between_neighbours(
    a: Seq<Seq<char>>,
    b: Seq<Seq<char>>,
    separator: Seq<char>,
)
    requires
        a.len() > 0,
        b.len() > 0,
    ensures
        joined(Seq::empty(), separator) == Seq::<char>::empty(),
        a.len() == 1 ==> joined(a, separator) == a[0],
        joined(a + b, separator) == joined(a, separator) + separator + joined(b, separator),
    decreases b.len(),
{
    let both = a + b;
    assert(both.last() == b.last());
    if b.len() == 1 {
        assert(both.drop_last() =~= a);
    } else {
        joining_puts_one_separator_between_neighbours(a, b.drop_last(), separator);
        assert(both.drop_last() =~= a + b.drop_last());
        assert(joined(both, separator) =~= joined(a, separator) + separator + joined(b, separator));
    }
}

/// The views of some strings are what each of them holds, in the same order.
pub proof fn each_string_has_its_view(parts: Seq<String>)
    ensures
        string_views(parts).len() == parts.len(),
        forall|i: int| 0 <= i < parts.len() ==> #[trigger] string_views(parts)[i] == parts[i]@,
{
}

} // verus!
