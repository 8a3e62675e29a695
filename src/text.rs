use vstd::prelude::*;

verus! {

/// The decimal digit character for `d` (0..=9).
pub open spec fn digit_char(d: nat) -> char {
    seq!['0', '1', '2', '3', '4', '5', '6', '7', '8', '9'][d as int]
}

/// Decimal digits of a natural number, most significant first, without leading zeros.
pub open spec fn digits_of(n: nat) -> Seq<char>
    decreases n,
{
    if n < 10 {
        seq![digit_char(n)]
    } else {
        digits_of(n / 10).push(digit_char(n % 10))
    }
}

/// Decimal text of an integer, with a leading `-` when negative.
pub open spec fn decimal_of(n: int) -> Seq<char> {
    if n < 0 {
        seq!['-'] + digits_of((-n) as nat)
    } else {
        digits_of(n as nat)
    }
}

/// Relies on the `Display` impl of `u64` (through `to_string`): plain decimal notation,
/// no sign, no leading zeros.
#[verifier::external_body]
pub(crate) fn decimal_u64(n: u64) -> (r: String)
    ensures
        r@ == digits_of(n as nat),
{
    n.to_string()
}

/// Decimal text of a signed integer.
pub fn decimal(n: i64) -> (r: String)
    ensures
        r@ == decimal_of(n as int),
{
    if n < 0 {
        let magnitude: u64 = ((-(n + 1)) as u64) + 1;
        let digits = decimal_u64(magnitude);
        proof {
            reveal_strlit("-");
        }
        let r = join2("-", digits.as_str());
        assert(r@ =~= decimal_of(n as int));
        r
    } else {
        decimal_u64(n as u64)
    }
}

/// Code of the character after ASCII lowercasing.
pub open spec fn lower_code(c: char) -> u32 {
    if 65 <= c as u32 <= 90 {
        (c as u32 + 32) as u32
    } else {
        c as u32
    }
}

/// `s` lowercased in ASCII equals `lower`.
pub open spec fn equals_lowercased(s: Seq<char>, lower: Seq<char>) -> bool {
    &&& s.len() == lower.len()
    &&& forall|i: int| 0 <= i < s.len() ==> lower_code(#[trigger] s[i]) == lower[i] as u32
}

/// Compares `s`, lowercased in ASCII, with `lower`.
pub fn eq_lowercased(s: &str, lower: &str) -> (r: bool)
    ensures
        r == equals_lowercased(s@, lower@),
{
    let n = s.unicode_len();
    if n != lower.unicode_len() {
        return false;
    }
    let mut i: usize = 0;
    while i < n
        invariant
            n == s@.len(),
            n == lower@.len(),
            i <= n,
            forall|j: int| 0 <= j < i ==> lower_code(#[trigger] s@[j]) == lower@[j] as u32,
        decreases n - i,
    {
        let c = s.get_char(i) as u32;
        let code: u32 = if 65 <= c && c <= 90 {
            c + 32
        } else {
            c
        };
        if code != lower.get_char(i) as u32 {
            return false;
        }
        i = i + 1;
    }
    true
}

/// `a` followed by `b`.
pub fn join2(a: &str, b: &str) -> (r: String)
    ensures
        r@ == a@ + b@,
{
    let mut r = String::from_str(a);
    r.append(b);
    r
}

} // verus!
