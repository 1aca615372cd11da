use vstd::prelude::*;
use vstd::string::*;

verus! {

/// Character-wise string equality, usable where contracts compare views.
pub fn str_eq(a: &str, b: &str) -> (r: bool)
    ensures
        r == (a@ == b@),
{
    let la = a.unicode_len();
    let lb = b.unicode_len();
    if la != lb {
        proof {
            if a@ == b@ {
                assert(a@.len() == b@.len());
            }
        }
        return false;
    }
    let mut i: usize = 0;
    while i < la
        invariant
            i <= la,
            la == a@.len(),
            la == b@.len(),
            forall|j: int| 0 <= j < i ==> a@[j] == b@[j],
        decreases la - i,
    {
        if a.get_char(i) != b.get_char(i) {
            return false;
        }
        i = i + 1;
    }
    proof {
        assert(a@ =~= b@);
    }
    true
}

/// The decimal digit character for `d` (`d < 10`).
pub open spec fn dec_digit(d: nat) -> char {
    if d == 0 {
        '0'
    } else if d == 1 {
        '1'
    } else if d == 2 {
        '2'
    } else if d == 3 {
        '3'
    } else if d == 4 {
        '4'
    } else if d == 5 {
        '5'
    } else if d == 6 {
        '6'
    } else if d == 7 {
        '7'
    } else if d == 8 {
        '8'
    } else {
        '9'
    }
}

/// The decimal rendering of `n`, without sign or leading zeros
/// (`0` renders as `"0"`).
pub open spec fn spec_dec(n: nat) -> Seq<char>
    decreases n,
{
    if n < 10 {
        seq![dec_digit(n)]
    } else {
        spec_dec(n / 10).push(dec_digit(n % 10))
    }
}

/// The single decimal digit `d` as a string.
fn digit_str(d: u64) -> (r: &'static str)
    requires
        d < 10,
    ensures
        r@ == seq![dec_digit(d as nat)],
{
    proof {
        reveal_strlit("0");
        reveal_strlit("1");
        reveal_strlit("2");
        reveal_strlit("3");
        reveal_strlit("4");
        reveal_strlit("5");
        reveal_strlit("6");
        reveal_strlit("7");
        reveal_strlit("8");
        reveal_strlit("9");
    }
    let r = if d == 0 {
        "0"
    } else if d == 1 {
        "1"
    } else if d == 2 {
        "2"
    } else if d == 3 {
        "3"
    } else if d == 4 {
        "4"
    } else if d == 5 {
        "5"
    } else if d == 6 {
        "6"
    } else if d == 7 {
        "7"
    } else if d == 8 {
        "8"
    } else {
        "9"
    };
    proof {
        assert(r@ =~= seq![dec_digit(d as nat)]);
    }
    r
}

/// Renders `n` in decimal.
pub fn u64_to_dec(n: u64) -> (r: String)
    ensures
        r@ == spec_dec(n as nat),
    decreases n,
{
    if n < 10 {
        let s = digit_str(n).to_owned();
        s
    } else {
        let mut s = u64_to_dec(n / 10);
        s.append(digit_str(n % 10));
        proof {
            assert(s@ =~= spec_dec((n / 10) as nat).push(dec_digit((n % 10) as nat)));
        }
        s
    }
}

/// A three-digit, zero-padded decimal rendering of `n` (`n < 1000`),
/// as used for the millisecond fraction of a playlist duration.
pub open spec fn spec_frac3(n: nat) -> Seq<char> {
    if n < 10 {
        seq!['0', '0'].add(spec_dec(n))
    } else if n < 100 {
        seq!['0'].add(spec_dec(n))
    } else {
        spec_dec(n)
    }
}

/// Renders `n < 1000` as exactly three decimal digits.
pub fn frac3(n: u64) -> (r: String)
    requires
        n < 1000,
    ensures
        r@ == spec_frac3(n as nat),
{
    proof {
        reveal_strlit("00");
        reveal_strlit("0");
        reveal_strlit("");
    }
    let mut s = if n < 10 {
        "00".to_owned()
    } else if n < 100 {
        "0".to_owned()
    } else {
        "".to_owned()
    };
    let d = u64_to_dec(n);
    s.append(d.as_str());
    proof {
        if n < 10 {
            assert(s@ =~= seq!['0', '0'].add(spec_dec(n as nat)));
        } else if n < 100 {
            assert(s@ =~= seq!['0'].add(spec_dec(n as nat)));
        } else {
            assert(s@ =~= spec_dec(n as nat));
        }
    }
    s
}

} // verus!
