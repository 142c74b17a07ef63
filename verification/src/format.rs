use vstd::prelude::*;

verus! {

/// The character of decimal or hexadecimal digit `d` (`0`-`9`, then `a`-`f`).
pub open spec fn digit_char(d: int) -> char {
    if d < 10 {
        (48 + d) as char
    } else {
        (87 + d) as char
    }
}

/// The decimal digits of `n`, without leading zeros (`0` for zero).
pub open spec fn decimal(n: nat) -> Seq<char>
    decreases n,
{
    if n < 10 {
        seq![digit_char(n as int)]
    } else {
        decimal(n / 10).push(digit_char((n % 10) as int))
    }
}

/// The last `count` hexadecimal digits of `n`, lower case, with leading zeros.
pub open spec fn hex_digits(n: nat, count: nat) -> Seq<char>
    decreases count,
{
    if count == 0 {
        Seq::<char>::empty()
    } else {
        hex_digits(n / 16, (count - 1) as nat).push(digit_char((n % 16) as int))
    }
}

/// `n` as sixteen lower-case hexadecimal digits, as `format!("{:016x}", n)` writes it.
pub open spec fn hex16(n: u64) -> Seq<char> {
    hex_digits(n as nat, 16)
}

fn digit(d: u8) -> (c: char)
    requires
        d < 16,
    ensures
        c == digit_char(d as int),
{
    if d < 10 {
        (48u8 + d) as char
    } else {
        (87u8 + d) as char
    }
}

/// Appends the decimal digits of `n`.
pub fn push_decimal(out: &mut Vec<char>, n: u128)
    ensures
        final(out)@ == old(out)@ + decimal(n as nat),
    decreases n,
{
    if n >= 10 {
        push_decimal(out, n / 10);
    }
    out.push(digit((n % 10) as u8));
    assert(final(out)@ =~= old(out)@ + decimal(n as nat));
}

/// Appends the last `count` hexadecimal digits of `n`.
pub fn push_hex_digits(out: &mut Vec<char>, n: u64, count: u8)
    ensures
        final(out)@ == old(out)@ + hex_digits(n as nat, count as nat),
    decreases count,
{
    if count > 0 {
        push_hex_digits(out, n / 16, count - 1);
        out.push(digit((n % 16) as u8));
    }
    assert(final(out)@ =~= old(out)@ + hex_digits(n as nat, count as nat));
}

/// Appends characters.
pub fn push_chars(out: &mut Vec<char>, s: &[char])
    ensures
        final(out)@ == old(out)@ + s@,
{
    let mut i: usize = 0;
    while i < s.len()
        invariant
            i <= s@.len(),
            out@ == old(out)@ + s@.take(i as int),
        decreases s.len() - i,
    {
        out.push(s[i]);
        i = i + 1;
        assert(out@ =~= old(out)@ + s@.take(i as int));
    }
    assert(s@.take(s@.len() as int) =~= s@);
}

/// The SQL `LIKE` pattern that finds history entries containing `query`: the query between
/// two `%` signs.
pub fn like_pattern(query: &str) -> (r: String)
    ensures
        r@ == seq!['%'] + query@ + seq!['%'],
{
    let mut pattern = String::from_str("%");
    pattern.append(query);
    pattern.append("%");
    proof {
        reveal_strlit("%");
    }
    assert(pattern@ =~= seq!['%'] + query@ + seq!['%']);
    pattern
}

} // verus!
