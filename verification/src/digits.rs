//! Decimal text: reading a 16-bit port number out of a string and writing
//! one back, with the round trip between the two.

use vstd::prelude::*;
use vstd::string::{StrSliceExecFns, StringExecFns};

verus! {

pub open spec fn is_digit(c: char) -> bool {
    '0' <= c && c <= '9'
}

pub open spec fn digit_val(c: char) -> nat {
    (c as nat - '0' as nat) as nat
}

pub open spec fn digit_char(d: nat) -> char {
    if d == 0 {
        '0'
    } else if d == 1 {
        '1'
    } else if d == 2 {
        '2'
    } else if d == 3 {
        '3'
    } else if d == 4 {
        '4'
    } else if d == 5 {
        '5'
    } else if d == 6 {
        '6'
    } else if d == 7 {
        '7'
    } else if d == 8 {
        '8'
    } else {
        '9'
    }
}

pub open spec fn all_digits(s: Seq<char>) -> bool {
    forall|i: int| 0 <= i < s.len() ==> is_digit(#[trigger] s[i])
}

/// The number a string of decimal digits denotes.
pub open spec fn dec_val(s: Seq<char>) -> nat
    decreases s.len(),
{
    if s.len() == 0 {
        0
    } else {
        dec_val(s.drop_last()) * 10 + digit_val(s.last())
    }
}

/// The shortest decimal text for `n`: no sign, no leading zero except for 0
/// itself.
pub open spec fn dec_digits(n: nat) -> Seq<char>
    decreases n,
{
    if n < 10 {
        seq![digit_char(n)]
    } else {
        dec_digits(n / 10).push(digit_char(n % 10))
    }
}

/// Whether the standard 16-bit integer parse accepts `s`: an optional plus
/// sign, then at least one digit, denoting at most 65535.
pub open spec fn parses_u16(s: Seq<char>) -> bool {
    let body = if s.len() > 0 && s[0] == '+' {
        s.drop_first()
    } else {
        s
    };
    body.len() > 0 && all_digits(body) && dec_val(body) <= 65535
}

/// The port a string accepted by `parses_u16` denotes.
pub open spec fn u16_value(s: Seq<char>) -> u16 {
    let body = if s.len() > 0 && s[0] == '+' {
        s.drop_first()
    } else {
        s
    };
    dec_val(body) as u16
}

pub proof fn lemma_dec_digits(n: nat)
    ensures
        dec_digits(n).len() >= 1,
        all_digits(dec_digits(n)),
        dec_val(dec_digits(n)) == n,
    decreases n,
{
    if n < 10 {
        let s = dec_digits(n);
        assert(s =~= seq![digit_char(n)]);
        assert(s.drop_last() =~= Seq::<char>::empty());
        assert(dec_val(Seq::<char>::empty()) == 0);
        assert(s.last() == digit_char(n));
        assert(is_digit(digit_char(n)));
        assert(digit_val(digit_char(n)) == n);
        assert(dec_val(s) == digit_val(digit_char(n)));
    } else {
        lemma_dec_digits(n / 10);
        let p = dec_digits(n / 10);
        let s = dec_digits(n);
        assert(s == p.push(digit_char(n % 10)));
        assert(s.drop_last() =~= p);
        assert(s.last() == digit_char(n % 10));
        assert(is_digit(digit_char(n % 10)));
        assert(digit_val(digit_char(n % 10)) == n % 10);
        assert forall|i: int| 0 <= i < s.len() implies is_digit(#[trigger] s[i]) by {
            if i < p.len() {
                assert(s[i] == p[i]);
            }
        }
        assert(dec_val(s) == (n / 10) * 10 + n % 10);
        assert((n / 10) * 10 + n % 10 == n) by (nonlinear_arith);
    }
}

/// Reads `s` as a 16-bit number exactly where the standard parse would.
pub fn parse_u16_str(s: &str) -> (r: Option<u16>)
    ensures
        match r {
            Some(p) => parses_u16(s@) && p == u16_value(s@),
            None => !parses_u16(s@),
        },
{
    let n = s.unicode_len();
    let start: usize = if n > 0 && s.get_char(0) == '+' {
        1
    } else {
        0
    };
    let ghost body = if s@.len() > 0 && s@[0] == '+' {
        s@.drop_first()
    } else {
        s@
    };
    assert(body =~= s@.skip(start as int));
    if n == start {
        return None;
    }
    let mut acc: u32 = 0;
    let mut i: usize = start;
    while i < n
        invariant
            start <= i <= n,
            n == s@.len(),
            body == (if s@.len() > 0 && s@[0] == '+' {
                s@.drop_first()
            } else {
                s@
            }),
            body == s@.skip(start as int),
            body.len() == n - start,
            forall|j: int| start <= j < i ==> is_digit(#[trigger] s@[j]),
            acc <= 65536,
            dec_val(body.take(i - start)) <= 65535 ==> acc == dec_val(body.take(i - start)),
            dec_val(body.take(i - start)) > 65535 ==> acc == 65536,
        decreases n - i,
    {
        let c = s.get_char(i);
        let d: u32 = match c {
            '0' => 0,
            '1' => 1,
            '2' => 2,
            '3' => 3,
            '4' => 4,
            '5' => 5,
            '6' => 6,
            '7' => 7,
            '8' => 8,
            '9' => 9,
            _ => {
                assert(!is_digit(c));
                assert(body[i - start] == s@[i as int]);
                assert(!all_digits(body));
                assert(!parses_u16(s@));
                return None;
            },
        };
        assert(is_digit(c) && digit_val(c) == d);
        let ghost pre = body.take(i - start);
        acc = acc * 10 + d;
        if acc > 65535 {
            acc = 65536;
        }
        i += 1;
        proof {
            let ext = body.take(i - start);
            assert(ext =~= pre.push(s@[i - 1]));
            assert(ext.drop_last() =~= pre);
            assert(dec_val(ext) == dec_val(pre) * 10 + d);
        }
    }
    assert(body.take(i - start) =~= body);
    if acc <= 65535 {
        assert(parses_u16(s@));
        Some(acc as u16)
    } else {
        None
    }
}

/// Appends one decimal digit to `out`.
fn append_digit(out: &mut String, d: u16)
    requires
        d < 10,
    ensures
        final(out)@ == old(out)@ + seq![digit_char(d as nat)],
{
    proof {
        reveal_strlit("0");
        reveal_strlit("1");
        reveal_strlit("2");
        reveal_strlit("3");
        reveal_strlit("4");
        reveal_strlit("5");
        reveal_strlit("6");
        reveal_strlit("7");
        reveal_strlit("8");
        reveal_strlit("9");
    }
    if d == 0 {
        out.append("0");
        assert("0"@ =~= seq![digit_char(d as nat)]);
    } else if d == 1 {
        out.append("1");
        assert("1"@ =~= seq![digit_char(d as nat)]);
    } else if d == 2 {
        out.append("2");
        assert("2"@ =~= seq![digit_char(d as nat)]);
    } else if d == 3 {
        out.append("3");
        assert("3"@ =~= seq![digit_char(d as nat)]);
    } else if d == 4 {
        out.append("4");
        assert("4"@ =~= seq![digit_char(d as nat)]);
    } else if d == 5 {
        out.append("5");
        assert("5"@ =~= seq![digit_char(d as nat)]);
    } else if d == 6 {
        out.append("6");
        assert("6"@ =~= seq![digit_char(d as nat)]);
    } else if d == 7 {
        out.append("7");
        assert("7"@ =~= seq![digit_char(d as nat)]);
    } else if d == 8 {
        out.append("8");
        assert("8"@ =~= seq![digit_char(d as nat)]);
    } else {
        out.append("9");
        assert("9"@ =~= seq![digit_char(d as nat)]);
    }
}

/// Appends the decimal text of `n` to `out`.
pub fn append_dec(out: &mut String, n: u16)
    ensures
        final(out)@ == old(out)@ + dec_digits(n as nat),
    decreases n,
{
    if n < 10 {
        append_digit(out, n);
    } else {
        append_dec(out, n / 10);
        append_digit(out, n % 10);
        assert(old(out)@ + dec_digits((n / 10) as nat) + seq![digit_char((n % 10) as nat)]
            =~= old(out)@ + dec_digits(n as nat));
    }
}

} // verus!
