use vstd::prelude::*;

verus! {

/// Relies on `String::push`: appends one character to the string.
pub assume_specification[ String::push ](string: &mut String, ch: char)
    ensures
        final(string)@ == old(string)@.push(ch),
;

/// Relies on `String::push_str`: appends a string slice to the string.
pub assume_specification[ String::push_str ](string: &mut String, s: &str)
    ensures
        final(string)@ == old(string)@ + s@,
;

/// The decimal digit for `d` (meaningful for `d < 10`).
pub open spec fn digit_char(d: nat) -> char {
    seq!['0', '1', '2', '3', '4', '5', '6', '7', '8', '9'][d as int]
}

/// The decimal writing of `n`, with no leading zeros.
pub open spec fn decimal_digits(n: nat) -> Seq<char>
    decreases n,
{
    if n < 10 {
        seq![digit_char(n)]
    } else {
        decimal_digits(n / 10).push(digit_char(n % 10))
    }
}

/// Relies on `u64`'s `Display` through `ToString::to_string`: the number in decimal, with no
/// sign, no padding and no leading zeros.
#[verifier::external_body]
pub(crate) fn decimal_text(n: u64) -> (r: String)
    ensures
        r@ == decimal_digits(n as nat),
{
    n.to_string()
}

/// The characters of `s`, in order.
pub(crate) fn chars_of(s: &str) -> (r: Vec<char>)
    ensures
        r@ == s@,
{
    let mut out: Vec<char> = Vec::new();
    for c in it: s.chars()
        invariant
            out@ == it.seq().take(it.index() as int),
    {
        out.push(c);
    }
    out
}

/// A string holding `chars[from..to]`.
pub(crate) fn string_of(chars: &Vec<char>, from: usize, to: usize) -> (r: String)
    requires
        from <= to <= chars@.len(),
    ensures
        r@ == chars@.subrange(from as int, to as int),
{
    let mut out = String::new();
    let mut i: usize = from;
    while i < to
        invariant
            from <= i <= to <= chars@.len(),
            out@ == chars@.subrange(from as int, i as int),
        decreases to - i,
    {
        out.push(chars[i]);
        i = i + 1;
        assert(out@ =~= chars@.subrange(from as int, i as int));
    }
    out
}

/// Splits off the first character of a string; `None` for the empty string.
pub fn split_first_char(string: &str) -> (r: Option<(char, String)>)
    ensures
        r is None <==> string@.len() == 0,
        r matches Some((first, rest)) ==> first == string@[0] && rest@ == string@.drop_first(),
{
    let chars = chars_of(string);
    if chars.len() == 0 {
        return None;
    }
    let rest = string_of(&chars, 1, chars.len());
    Some((chars[0], rest))
}

/// Splits off the last character of a string; `None` for the empty string.
pub fn split_last_char(string: &str) -> (r: Option<(String, char)>)
    ensures
        r is None <==> string@.len() == 0,
        r matches Some((rest, last)) ==> last == string@.last() && rest@ == string@.drop_last(),
{
    let chars = chars_of(string);
    if chars.len() == 0 {
        return None;
    }
    let n = chars.len() - 1;
    let rest = string_of(&chars, 0, n);
    Some((rest, chars[n]))
}

} // verus!
