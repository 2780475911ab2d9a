//! Small text helpers shared by the device modules.
use vstd::prelude::*;
use vstd::string::StringExecFns;
use vstd::utf8::encode_utf8;

verus! {

broadcast use vstd::string::group_string_axioms;

/// Whether two texts hold the same characters.
pub fn same_text(a: &str, b: &str) -> (r: bool)
    ensures
        r == (a@ == b@),
{
    let x = a.as_bytes();
    let y = b.as_bytes();
    proof {
        vstd::utf8::encode_utf8_decode_utf8(a@);
        vstd::utf8::encode_utf8_decode_utf8(b@);
    }
    if x.len() != y.len() {
        return false;
    }
    let mut i: usize = 0;
    while i < x.len()
        invariant
            x.len() == y.len(),
            i <= x.len(),
            x@ == encode_utf8(a@),
            y@ == encode_utf8(b@),
            forall|k: int| 0 <= k < i ==> x@[k] == y@[k],
        decreases x.len() - i,
    {
        if x[i] != y[i] {
            return false;
        }
        i = i + 1;
    }
    assert(x@ =~= y@);
    true
}

/// Decimal digits of `n`, most significant first, without leading zeros.
pub open spec fn decimal_chars(n: nat) -> Seq<char>
    decreases n,
{
    if n < 10 {
        seq![digit_char(n)]
    } else {
        decimal_chars(n / 10).push(digit_char(n % 10))
    }
}

pub open spec fn digit_char(d: nat) -> char {
    if d == 0 { '0' } else if d == 1 { '1' } else if d == 2 { '2' } else if d == 3 { '3' }
    else if d == 4 { '4' } else if d == 5 { '5' } else if d == 6 { '6' } else if d == 7 { '7' }
    else if d == 8 { '8' } else { '9' }
}

/// The one-character text of the digit `d`.
fn digit_str(d: u8) -> (r: &'static str)
    requires
        d < 10,
    ensures
        r@ == seq![digit_char(d as nat)],
{
    proof {
        reveal_strlit("0");
        reveal_strlit("1");
        reveal_strlit("2");
        reveal_strlit("3");
        reveal_strlit("4");
        reveal_strlit("5");
        reveal_strlit("6");
        reveal_strlit("7");
        reveal_strlit("8");
        reveal_strlit("9");
    }
    let r = if d == 0 { "0" } else if d == 1 { "1" } else if d == 2 { "2" } else if d == 3 { "3" }
    else if d == 4 { "4" } else if d == 5 { "5" } else if d == 6 { "6" } else if d == 7 { "7" }
    else if d == 8 { "8" } else { "9" };
    assert(r@ =~= seq![digit_char(d as nat)]);
    r
}

/// Decimal digits of `n`, without leading zeros.
pub fn decimal(n: u8) -> (r: String)
    ensures
        r@ == decimal_chars(n as nat),
{
    if n >= 100 {
        let mut s = digit_str(n / 100).to_owned();
        s.append(digit_str(n / 10 % 10));
        s.append(digit_str(n % 10));
        let ghost m = n as nat;
        let ghost a = digit_char(m / 100);
        let ghost b = digit_char((m / 10) % 10);
        let ghost c = digit_char(m % 10);
        assert(m / 10 / 10 == m / 100);
        assert(decimal_chars(m / 10 / 10) == seq![a]);
        assert(decimal_chars(m / 10) =~= seq![a, b]);
        assert(decimal_chars(m) =~= seq![a, b, c]);
        assert(s@ =~= seq![a, b, c]);
        s
    } else if n >= 10 {
        let mut s = digit_str(n / 10).to_owned();
        s.append(digit_str(n % 10));
        let ghost m = n as nat;
        assert(decimal_chars(m / 10) == seq![digit_char(m / 10)]);
        assert(decimal_chars(m) =~= seq![digit_char(m / 10), digit_char(m % 10)]);
        assert(s@ =~= decimal_chars(n as nat));
        s
    } else {
        digit_str(n).to_owned()
    }
}

/// Relies on uuid's `Uuid::new_v4` and its hyphenated text form: 36 characters.
#[verifier::external_body]
pub(crate) fn fresh_id() -> (r: String)
    ensures
        r@.len() == 36,
{
    uuid::Uuid::new_v4().to_string()
}

} // verus!
