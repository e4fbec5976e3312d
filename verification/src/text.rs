//! Numbers written out for error messages: decimal, and lower-case
//! hexadecimal, as Rust's formatting writes them.
use vstd::prelude::*;

verus! {

/// The character of digit `d` (below 16): `0`-`9`, then `a`-`f`.
pub open spec fn digit_char(d: nat) -> char {
    if d < 10 {
        (48 + d) as char
    } else {
        (87 + d) as char
    }
}

/// The digits of `n` in base `b` (2 to 16), most significant first, without
/// leading zeros; `0` is written as one digit.
pub open spec fn digits(n: nat, b: nat) -> Seq<char>
    decreases n,
{
    if b < 2 || n < b {
        seq![digit_char(n % 16)]
    } else {
        proof {
            assert(n / b < n) by (nonlinear_arith)
                requires
                    b >= 2,
                    n >= b,
            ;
        }
        digits(n / b, b) + seq![digit_char(n % b)]
    }
}

/// `n` in decimal.
pub open spec fn dec(n: nat) -> Seq<char> {
    digits(n, 10)
}

/// `n` in decimal, with a minus sign when negative.
pub open spec fn signed_dec(n: int) -> Seq<char> {
    if n < 0 {
        seq!['-'] + dec((-n) as nat)
    } else {
        dec(n as nat)
    }
}

/// `n` in lower-case hexadecimal.
pub open spec fn hex(n: nat) -> Seq<char> {
    digits(n, 16)
}

/// `s` padded on the left with zeros to `w` characters.
pub open spec fn zero_pad(s: Seq<char>, w: nat) -> Seq<char> {
    if s.len() >= w {
        s
    } else {
        Seq::new((w - s.len()) as nat, |i: int| '0') + s
    }
}

fn digit_str(d: u64) -> (r: &'static str)
    requires
        d < 16,
    ensures
        r@ == seq![digit_char(d as nat)],
{
    proof {
        reveal_strlit("0");
        reveal_strlit("1");
        reveal_strlit("2");
        reveal_strlit("3");
        reveal_strlit("4");
        reveal_strlit("5");
        reveal_strlit("6");
        reveal_strlit("7");
        reveal_strlit("8");
        reveal_strlit("9");
        reveal_strlit("a");
        reveal_strlit("b");
        reveal_strlit("c");
        reveal_strlit("d");
        reveal_strlit("e");
        reveal_strlit("f");
    }
    let r = match d {
        0 => "0",
        1 => "1",
        2 => "2",
        3 => "3",
        4 => "4",
        5 => "5",
        6 => "6",
        7 => "7",
        8 => "8",
        9 => "9",
        10 => "a",
        11 => "b",
        12 => "c",
        13 => "d",
        14 => "e",
        _ => "f",
    };
    assert(r@ =~= seq![digit_char(d as nat)]);
    r
}

/// Appends the digits of `n` in base `b` to `out`.
fn push_digits(out: String, n: u64, b: u64) -> (r: String)
    requires
        2 <= b <= 16,
    ensures
        r@ == out@ + digits(n as nat, b as nat),
    decreases n,
{
    if n < b {
        out.concat(digit_str(n))
    } else {
        assert(n / b < n) by (nonlinear_arith)
            requires
                b >= 2,
                n >= b,
        ;
        let head = push_digits(out, n / b, b);
        let r = head.concat(digit_str(n % b));
        assert(r@ =~= out@ + digits(n as nat, b as nat));
        r
    }
}

/// Appends `n` in decimal.
pub fn push_dec(out: String, n: u64) -> (r: String)
    ensures
        r@ == out@ + dec(n as nat),
{
    push_digits(out, n, 10)
}

/// Appends `n` in decimal, with a minus sign when negative.
pub fn push_signed_dec(out: String, n: i64) -> (r: String)
    ensures
        r@ == out@ + signed_dec(n as int),
{
    proof {
        reveal_strlit("-");
    }
    if n < 0 {
        let magnitude: u64 = if n == i64::MIN {
            0x8000_0000_0000_0000u64
        } else {
            (-n) as u64
        };
        let r = push_dec(out.concat("-"), magnitude);
        assert(r@ =~= out@ + signed_dec(n as int));
        r
    } else {
        push_dec(out, n as u64)
    }
}

/// Appends `n` in lower-case hexadecimal, padded with zeros to `w` digits.
pub fn push_hex(out: String, n: u64, w: usize) -> (r: String)
    ensures
        r@ == out@ + zero_pad(hex(n as nat), w as nat),
{
    let digits_out = push_digits(String::new(), n, 16);
    let mut padded = out;
    let mut k: usize = digits_out.unicode_len();
    proof {
        reveal_strlit("0");
    }
    let ghost h = hex(n as nat);
    assert(digits_out@ =~= h);
    while k < w
        invariant
            k <= w || k == h.len(),
            h.len() <= k,
            padded@ == out@ + Seq::new((k - h.len()) as nat, |i: int| '0'),
        decreases w - k,
    {
        proof {
            reveal_strlit("0");
        }
        padded = padded.concat("0");
        proof {
            assert(padded@ =~= out@ + Seq::new((k + 1 - h.len()) as nat, |i: int| '0'));
        }
        k = k + 1;
    }
    let r = padded.concat(digits_out.as_str());
    proof {
        if h.len() >= w {
            assert(k == h.len());
            assert(r@ =~= out@ + zero_pad(h, w as nat));
        } else {
            assert(k == w);
            assert(r@ =~= out@ + zero_pad(h, w as nat));
        }
    }
    r
}

} // verus!
