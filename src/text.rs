use vstd::prelude::*;

verus! {

/// Relies on `String::push`: the character is appended at the end.
#[verifier::external_body]
pub(crate) fn push_char(s: &mut String, c: char)
    ensures
        final(s)@ == old(s)@.push(c),
{
    s.push(c);
}

/// The ASCII digit of value `d`.
pub open spec fn digit_char(d: nat) -> char {
    ((d + 48) as u8) as char
}

/// The decimal form of `n`, without leading zeros.
pub open spec fn decimal(n: nat) -> Seq<char>
    decreases n,
{
    if n < 10 {
        seq![digit_char(n)]
    } else {
        decimal(n / 10).push(digit_char(n % 10))
    }
}

/// The decimal form of a signed value: a minus sign before the magnitude of a
/// negative one.
pub open spec fn signed_decimal(v: int) -> Seq<char> {
    if v < 0 {
        seq!['-'] + decimal((-v) as nat)
    } else {
        decimal(v as nat)
    }
}

/// Appends the decimal form of `n` to `s`.
pub fn push_decimal(s: &mut String, n: u32)
    ensures
        final(s)@ == old(s)@ + decimal(n as nat),
{
    // digits from the least significant up
    let mut digits: Vec<char> = Vec::new();
    let mut m: u32 = n;
    while m >= 10
        invariant
            decimal(n as nat) == decimal(m as nat) + digits@.reverse(),
        decreases m,
    {
        let d = m % 10;
        let c = ((d as u8) + 48) as char;
        proof {
            assert(digits@.push(c).reverse() =~= seq![c] + digits@.reverse());
            assert(decimal(m as nat) == decimal((m / 10) as nat).push(digit_char((m % 10) as nat)));
            assert(decimal(m as nat) + digits@.reverse() =~= decimal((m / 10) as nat) + (seq![c]
                + digits@.reverse()));
        }
        digits.push(c);
        m = m / 10;
    }
    let ghost start = s@;
    push_char(s, ((m as u8) + 48) as char);
    let ghost rev = digits@.reverse();
    let mut k: usize = digits.len();
    while k > 0
        invariant
            k <= digits@.len(),
            rev == digits@.reverse(),
            decimal(n as nat) == seq![digit_char(m as nat)] + rev,
            s@ == start + seq![digit_char(m as nat)] + rev.subrange(0, digits@.len() - k),
        decreases k,
    {
        k = k - 1;
        push_char(s, digits[k]);
        proof {
            let done = (digits@.len() - k) as int;
            assert(rev[done - 1] == digits@[k as int]);
            assert(rev.subrange(0, done) =~= rev.subrange(0, done - 1).push(rev[done - 1]));
        }
    }
    assert(rev.subrange(0, digits@.len() as int) =~= rev);
    assert(s@ =~= start + decimal(n as nat));
}

/// Appends the decimal form of `v` to `s`, with a minus sign where it is negative.
pub fn push_signed_decimal(s: &mut String, v: i32)
    ensures
        final(s)@ == old(s)@ + signed_decimal(v as int),
{
    if v < 0 {
        let ghost start = s@;
        push_char(s, '-');
        let magnitude: u32 = if v == i32::MIN {
            2147483648u32
        } else {
            (-v) as u32
        };
        push_decimal(s, magnitude);
        assert(s@ =~= start + (seq!['-'] + decimal((-v) as nat)));
    } else {
        push_decimal(s, v as u32);
    }
}

} // verus!
