use vstd::prelude::*;
use vstd::string::StringExecFns;

verus! {

/// Relies on `String::push`: appends the given character to the end of the
/// string, and does nothing else to it.
pub assume_specification[ String::push ](s: &mut String, ch: char)
    ensures
        final(s)@ == old(s)@.push(ch),
;

/// The character for one decimal digit value.
pub open spec fn digit_char(d: int) -> char
    recommends
        0 <= d <= 9,
{
    (48 + d) as char
}

/// The decimal digits of a non-negative number, most significant first,
/// without leading zeros (the number zero is the single digit `0`).
pub open spec fn decimal_digits(n: int) -> Seq<char>
    recommends
        n >= 0,
    decreases n,
{
    if n < 10 {
        seq![digit_char(n)]
    } else {
        decimal_digits(n / 10).push(digit_char(n % 10))
    }
}

/// An ordinal as it appears at the front of a new filename: its decimal
/// digits, padded with one leading zero to a minimum width of two. Numbers
/// of three or more digits keep all their digits.
pub open spec fn padded_ordinal(n: int) -> Seq<char>
    recommends
        n >= 0,
{
    if n < 10 {
        seq![digit_char(0)] + decimal_digits(n)
    } else {
        decimal_digits(n)
    }
}

/// The new filename for one file: the padded ordinal, then the separator
/// prefix, then the original filename.
pub open spec fn spec_new_filename(ordinal: int, prefix: Seq<char>, name: Seq<char>) -> Seq<
    char,
> {
    padded_ordinal(ordinal) + prefix + name
}

/// Appends the decimal digits of `n` to `s`.
fn push_decimal(s: &mut String, n: usize)
    ensures
        final(s)@ == old(s)@ + decimal_digits(n as int),
    decreases n,
{
    if n >= 10 {
        push_decimal(s, n / 10);
    }
    let d: u8 = (n % 10) as u8;
    s.push((48 + d) as char);
    proof {
        assert(s@ =~= old(s)@ + decimal_digits(n as int));
    }
}

/// Renders an ordinal with a minimum width of two digits, as it stands at
/// the front of a new filename: `1` becomes `01`, `42` stays `42`, `100`
/// stays `100`.
pub fn format_ordinal(n: usize) -> (r: String)
    ensures
        r@ == padded_ordinal(n as int),
{
    let mut s = String::new();
    if n < 10 {
        s.push('0');
        proof {
            assert(s@ =~= seq![digit_char(0)]);
        }
    }
    push_decimal(&mut s, n);
    proof {
        assert(s@ =~= padded_ordinal(n as int));
    }
    s
}

/// Builds the new filename for one file from its 1-based sorted position,
/// the separator prefix, and its original name.
pub fn new_filename(ordinal: usize, prefix: &str, name: &str) -> (r: String)
    ensures
        r@ == spec_new_filename(ordinal as int, prefix@, name@),
{
    let mut s = format_ordinal(ordinal);
    s.append(prefix);
    s.append(name);
    proof {
        assert(s@ =~= spec_new_filename(ordinal as int, prefix@, name@));
    }
    s
}

/// The padded ordinal of the first file is the two characters `01`.
pub proof fn lemma_first_ordinal_is_01()
    ensures
        padded_ordinal(1) == seq!['0', '1'],
{
    assert(decimal_digits(1) == seq![digit_char(1)]);
    assert(padded_ordinal(1) =~= seq!['0', '1']);
}

} // verus!
