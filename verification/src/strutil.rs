use vstd::prelude::*;

verus! {

/// Collects the characters of `v` into a `String`.
///
/// Relies on `String`'s `FromIterator<char>` implementation: collecting an
/// iterator of characters yields the string holding exactly those characters
/// in order.
#[verifier::external_body]
pub fn string_from_chars(v: &Vec<char>) -> (r: String)
    ensures
        r@ == v@,
{
    v.iter().collect()
}

/// The characters of `s`, gathered into a vector.
pub fn str_chars(s: &str) -> (r: Vec<char>)
    ensures
        r@ == s@,
{
    let n = s.unicode_len();
    let mut r: Vec<char> = Vec::new();
    let mut i: usize = 0;
    while i < n
        invariant
            i <= n,
            n == s@.len(),
            r@ == s@.take(i as int),
        decreases n - i,
    {
        let c = s.get_char(i);
        r.push(c);
        i = i + 1;
        proof {
            assert(r@ =~= s@.take(i as int));
        }
    }
    proof {
        assert(r@ =~= s@);
    }
    r
}

/// The decimal digit character for `d`.
pub open spec fn digit_char(d: nat) -> char
    recommends
        d < 10,
{
    ((48 + d) as u8) as char
}

/// The decimal rendering of `n`, most significant digit first.
pub open spec fn dec_chars(n: nat) -> Seq<char>
    decreases n,
{
    if n < 10 {
        seq![digit_char(n)]
    } else {
        dec_chars(n / 10).push(digit_char(n % 10))
    }
}

/// Renders `n` in decimal.
pub fn usize_to_string(n: usize) -> (r: String)
    ensures
        r@ == dec_chars(n as nat),
{
    let mut digits: Vec<char> = Vec::new();
    if n == 0 {
        digits.push('0');
        proof {
            assert('0' == digit_char(0));
            assert(digits@ =~= dec_chars(0));
        }
        return string_from_chars(&digits);
    }
    let mut m: usize = n;
    while m > 0
        invariant
            m > 0 ==> dec_chars(n as nat) == dec_chars(m as nat) + digits@,
            m == 0 ==> dec_chars(n as nat) == digits@,
        decreases m,
    {
        let ghost m0 = m as nat;
        let ghost pre = digits@;
        let d: usize = m % 10;
        digits.insert(0, ((48 + d) as u8) as char);
        m = m / 10;
        proof {
            assert(digits@ =~= seq![digit_char(m0 % 10)] + pre);
            if m0 >= 10 {
                assert(dec_chars(m0) == dec_chars(m0 / 10).push(digit_char(m0 % 10)));
                assert(dec_chars(m0) + pre =~= dec_chars(m0 / 10) + digits@);
            } else {
                assert(dec_chars(m0) =~= seq![digit_char(m0)]);
                assert(dec_chars(m0) + pre =~= digits@);
            }
        }
    }
    string_from_chars(&digits)
}

} // verus!
