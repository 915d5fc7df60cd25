//! Character-exact rendering of numbers, used for flow keys, addresses and
//! alert descriptions.

use vstd::prelude::*;

verus! {

use vstd::string::StrSliceExecFns;

/// Character for one decimal digit value.
pub open spec fn digit_char(d: int) -> char {
    if d == 0 {
        '0'
    } else if d == 1 {
        '1'
    } else if d == 2 {
        '2'
    } else if d == 3 {
        '3'
    } else if d == 4 {
        '4'
    } else if d == 5 {
        '5'
    } else if d == 6 {
        '6'
    } else if d == 7 {
        '7'
    } else if d == 8 {
        '8'
    } else {
        '9'
    }
}

/// Decimal rendering of a number: most significant digit first, a single
/// '0' for zero, no leading zeros otherwise.
pub open spec fn dec_text(n: nat) -> Seq<char>
    decreases n,
{
    if n < 10 {
        seq![digit_char(n as int)]
    } else {
        dec_text(n / 10) + seq![digit_char((n % 10) as int)]
    }
}

/// Character for one hexadecimal digit value, lower case.
pub open spec fn hex_char(d: int) -> char {
    if d < 10 {
        digit_char(d)
    } else if d == 10 {
        'a'
    } else if d == 11 {
        'b'
    } else if d == 12 {
        'c'
    } else if d == 13 {
        'd'
    } else if d == 14 {
        'e'
    } else {
        'f'
    }
}

/// Fixed-width rendering of a 16-bit group as four hexadecimal characters.
pub open spec fn hex4_text(g: nat) -> Seq<char> {
    seq![
        hex_char((g / 4096 % 16) as int),
        hex_char((g / 256 % 16) as int),
        hex_char((g / 16 % 16) as int),
        hex_char((g % 16) as int),
    ]
}

/// Fixed-width three-digit decimal rendering (thousandths of a score).
pub open spec fn pad3_text(n: nat) -> Seq<char> {
    seq![
        digit_char((n / 100 % 10) as int),
        digit_char((n / 10 % 10) as int),
        digit_char((n % 10) as int),
    ]
}

/// Append the character for one decimal digit value.
fn push_digit(s: &mut String, d: u64)
    requires
        d <= 9,
    ensures
        final(s)@ == old(s)@ + seq![digit_char(d as int)],
{
    proof {
        reveal_strlit("0");
        reveal_strlit("1");
        reveal_strlit("2");
        reveal_strlit("3");
        reveal_strlit("4");
        reveal_strlit("5");
        reveal_strlit("6");
        reveal_strlit("7");
        reveal_strlit("8");
        reveal_strlit("9");
    }
    if d == 0 {
        s.append("0");
    } else if d == 1 {
        s.append("1");
    } else if d == 2 {
        s.append("2");
    } else if d == 3 {
        s.append("3");
    } else if d == 4 {
        s.append("4");
    } else if d == 5 {
        s.append("5");
    } else if d == 6 {
        s.append("6");
    } else if d == 7 {
        s.append("7");
    } else if d == 8 {
        s.append("8");
    } else {
        s.append("9");
    }
    proof {
        assert(s@ =~= old(s)@ + seq![digit_char(d as int)]);
    }
}

/// Append the character for one hexadecimal digit value.
fn push_hex_digit(s: &mut String, d: u64)
    requires
        d <= 15,
    ensures
        final(s)@ == old(s)@ + seq![hex_char(d as int)],
{
    if d <= 9 {
        push_digit(s, d);
    } else {
        proof {
            reveal_strlit("a");
            reveal_strlit("b");
            reveal_strlit("c");
            reveal_strlit("d");
            reveal_strlit("e");
            reveal_strlit("f");
        }
        if d == 10 {
            s.append("a");
        } else if d == 11 {
            s.append("b");
        } else if d == 12 {
            s.append("c");
        } else if d == 13 {
            s.append("d");
        } else if d == 14 {
            s.append("e");
        } else {
            s.append("f");
        }
        proof {
            assert(s@ =~= old(s)@ + seq![hex_char(d as int)]);
        }
    }
}

/// Append the decimal rendering of a number.
pub fn push_dec(s: &mut String, n: u64)
    ensures
        final(s)@ == old(s)@ + dec_text(n as nat),
    decreases n,
{
    if n >= 10 {
        push_dec(s, n / 10);
        push_digit(s, n % 10);
        proof {
            assert(s@ =~= old(s)@ + dec_text(n as nat));
        }
    } else {
        push_digit(s, n);
    }
}

/// Append the fixed-width four-character hexadecimal rendering of a group.
pub fn push_hex4(s: &mut String, g: u16)
    ensures
        final(s)@ == old(s)@ + hex4_text(g as nat),
{
    let g64 = g as u64;
    push_hex_digit(s, g64 / 4096 % 16);
    push_hex_digit(s, g64 / 256 % 16);
    push_hex_digit(s, g64 / 16 % 16);
    push_hex_digit(s, g64 % 16);
    proof {
        assert(s@ =~= old(s)@ + hex4_text(g as nat));
    }
}

/// Append the fixed-width three-digit decimal rendering of a number.
pub fn push_pad3(s: &mut String, n: u64)
    ensures
        final(s)@ == old(s)@ + pad3_text(n as nat),
{
    push_digit(s, n / 100 % 10);
    push_digit(s, n / 10 % 10);
    push_digit(s, n % 10);
    proof {
        assert(s@ =~= old(s)@ + pad3_text(n as nat));
    }
}

/// Decimal text of a number as an owned string.
pub fn u64_to_text(n: u64) -> (r: String)
    ensures
        r@ == dec_text(n as nat),
{
    let mut s = String::new();
    push_dec(&mut s, n);
    proof {
        assert(s@ =~= dec_text(n as nat));
    }
    s
}


/// True when `needle` occurs as a contiguous run inside `hay`.
pub open spec fn text_contains(hay: Seq<char>, needle: Seq<char>) -> bool {
    exists|i: int|
        #![trigger hay.subrange(i, i + needle.len())]
        0 <= i && i + needle.len() <= hay.len() && hay.subrange(i, i + needle.len()) == needle
}

/// Whether one string occurs inside another, by characters.
pub fn str_contains(hay: &str, needle: &str) -> (r: bool)
    ensures
        r == text_contains(hay@, needle@),
{
    let h = hay.unicode_len();
    let n = needle.unicode_len();
    if n > h {
        proof {
            assert forall|i: int|
                #![trigger hay@.subrange(i, i + needle@.len())]
                !(0 <= i && i + needle@.len() <= hay@.len() && hay@.subrange(
                    i,
                    i + needle@.len(),
                ) == needle@) by {}
        }
        return false;
    }
    let mut i: usize = 0;
    while i <= h - n
        invariant
            n <= h,
            h == hay@.len(),
            n == needle@.len(),
            i <= h - n + 1,
            forall|x: int|
                #![trigger hay@.subrange(x, x + needle@.len())]
                0 <= x < i ==> hay@.subrange(x, x + needle@.len()) != needle@,
        decreases h - n - i + 1,
    {
        let mut k: usize = 0;
        let mut matched = true;
        while k < n && matched
            invariant
                n <= h,
                h == hay@.len(),
                n == needle@.len(),
                i + n <= h,
                k <= n,
                matched ==> forall|y: int| 0 <= y < k ==> hay@[i + y] == needle@[y],
                !matched ==> exists|y: int| 0 <= y < n && hay@[i + y] != needle@[y],
            decreases n - k,
        {
            let ghost k0 = k as int;
            if hay.get_char(i + k) != needle.get_char(k) {
                matched = false;
                proof {
                    assert(0 <= k0 < n && hay@[i + k0] != needle@[k0]);
                }
            }
            k = k + 1;
        }
        if matched {
            proof {
                assert(hay@.subrange(i as int, i + needle@.len()) =~= needle@);
            }
            return true;
        }
        proof {
            let y = choose|y: int| 0 <= y < n && hay@[i + y] != needle@[y];
            assert(hay@.subrange(i as int, i + needle@.len())[y] == hay@[i + y]);
            assert(hay@.subrange(i as int, i + needle@.len()) != needle@);
        }
        i = i + 1;
    }
    proof {
        assert forall|x: int|
            #![trigger hay@.subrange(x, x + needle@.len())]
            !(0 <= x && x + needle@.len() <= hay@.len() && hay@.subrange(x, x + needle@.len())
                == needle@) by {
            if 0 <= x && x + needle@.len() <= hay@.len() {
                assert(x < i);
            }
        }
    }
    false
}


} // verus!
