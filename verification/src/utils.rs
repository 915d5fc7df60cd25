//! Utility functions: human-readable formatting of byte counts and
//! durations, port validation, clamping, wall-clock access and random
//! identifiers.

use vstd::prelude::*;

use crate::rng::rand_below;
use crate::text::{dec_text, push_dec};
use crate::types::IdsError;

verus! {

use vstd::string::StringExecFns;

/// The unit suffix for a byte magnitude.
pub open spec fn unit_text(k: int) -> Seq<char> {
    if k == 0 {
        "B"@
    } else if k == 1 {
        "KB"@
    } else if k == 2 {
        "MB"@
    } else if k == 3 {
        "GB"@
    } else {
        "TB"@
    }
}

/// The magnitude of a byte count: how many times it can be divided by
/// 1024 while staying at least one, capped at terabytes.
pub open spec fn byte_unit(bytes: nat) -> int {
    if bytes < 1024 {
        0
    } else if bytes < 1048576 {
        1
    } else if bytes < 1073741824 {
        2
    } else if bytes < 1099511627776 {
        3
    } else {
        4
    }
}

/// The divisor belonging to a magnitude.
pub open spec fn unit_div(k: int) -> int {
    if k == 0 {
        1
    } else if k == 1 {
        1024
    } else if k == 2 {
        1048576
    } else if k == 3 {
        1073741824
    } else {
        1099511627776
    }
}

/// Decimal places shown: none from 100 up, one from 10 up, else two.
pub open spec fn byte_decimals(bytes: nat) -> int {
    let d = unit_div(byte_unit(bytes));
    if bytes >= 100 * d {
        0
    } else if bytes >= 10 * d {
        1
    } else {
        2
    }
}

/// Rounding to the nearest integer, ties to even.
pub open spec fn round_half_even(num: int, den: int) -> int {
    let q = num / den;
    let r = num % den;
    if 2 * r < den {
        q
    } else if 2 * r > den {
        q + 1
    } else if q % 2 == 0 {
        q
    } else {
        q + 1
    }
}

/// A byte count in human-readable form: scaled into its unit and shown
/// with up to two decimals, rounded to nearest with ties to even.
pub open spec fn spec_format_bytes(bytes: nat) -> Seq<char> {
    if bytes == 0 {
        "0 B"@
    } else {
        let k = byte_unit(bytes);
        let den = unit_div(k);
        let d = byte_decimals(bytes);
        let scale: int = if d == 0 {
            1
        } else if d == 1 {
            10
        } else {
            100
        };
        let n = round_half_even(bytes * scale, den);
        let digits = if d == 0 {
            dec_text(n as nat)
        } else if d == 1 {
            dec_text((n / 10) as nat) + "."@ + dec_text((n % 10) as nat)
        } else {
            dec_text((n / 100) as nat) + "."@ + dec_text((n / 10 % 10) as nat) + dec_text(
                (n % 10) as nat,
            )
        };
        digits + " "@ + unit_text(k)
    }
}

/// Format bytes into a human-readable string.
#[verifier::rlimit(100)]
pub fn format_bytes(bytes: u64) -> (r: String)
    ensures
        r@ == spec_format_bytes(bytes as nat),
{
    if bytes == 0 {
        return String::from_str("0 B");
    }
    let (k, den): (u64, u64) = if bytes < 1024 {
        (0, 1)
    } else if bytes < 1048576 {
        (1, 1024)
    } else if bytes < 1073741824 {
        (2, 1048576)
    } else if bytes < 1099511627776 {
        (3, 1073741824)
    } else {
        (4, 1099511627776)
    };
    let d: u64 = if bytes / den >= 100 {
        0
    } else if bytes / den >= 10 {
        1
    } else {
        2
    };
    proof {
        assert(k as int == byte_unit(bytes as nat));
        assert(den as int == unit_div(k as int));
        assert(bytes / den >= 100 <==> bytes >= 100 * (den as int)) by (nonlinear_arith)
            requires
                den > 0,
        ;
        assert(bytes / den >= 10 <==> bytes >= 10 * (den as int)) by (nonlinear_arith)
            requires
                den > 0,
        ;
        assert(d as int == byte_decimals(bytes as nat));
    }
    let scale: u64 = if d == 0 {
        1
    } else if d == 1 {
        10
    } else {
        100
    };
    let num: u128 = (bytes as u128) * (scale as u128);
    let q: u128 = num / (den as u128);
    let rem: u128 = num % (den as u128);
    let n128: u128 = if 2 * rem < den as u128 {
        q
    } else if 2 * rem > den as u128 {
        q + 1
    } else if q % 2 == 0 {
        q
    } else {
        q + 1
    };
    proof {
        assert(n128 as int == round_half_even(bytes as int * scale as int, den as int));
        if d == 0 {
            assert(q <= num);
            assert(num == bytes as u128);
            assert(n128 <= u64::MAX as u128);
        } else {
            assert(bytes < 100 * den);
            assert(num < 1000 * (den as u128)) by (nonlinear_arith)
                requires
                    (bytes as u128) < 100 * (den as u128),
                    scale <= 10 || (scale == 100 && (bytes as u128) < 10 * (den as u128)),
                    den > 0,
                    num == (bytes as u128) * (scale as u128),
            ;
            assert(q < 1000) by (nonlinear_arith)
                requires
                    num < 1000 * (den as u128),
                    q == num / (den as u128),
                    den > 0,
            ;
            assert(n128 <= u64::MAX as u128);
        }
    }
    let n: u64 = n128 as u64;
    let mut s = String::new();
    if d == 0 {
        push_dec(&mut s, n);
    } else if d == 1 {
        push_dec(&mut s, n / 10);
        s.append(".");
        push_dec(&mut s, n % 10);
    } else {
        push_dec(&mut s, n / 100);
        s.append(".");
        push_dec(&mut s, n / 10 % 10);
        push_dec(&mut s, n % 10);
    }
    s.append(" ");
    if k == 0 {
        s.append("B");
    } else if k == 1 {
        s.append("KB");
    } else if k == 2 {
        s.append("MB");
    } else if k == 3 {
        s.append("GB");
    } else {
        s.append("TB");
    }
    proof {
        assert(s@ =~= spec_format_bytes(bytes as nat));
    }
    s
}

/// A duration in human-readable form: its two most significant units
/// among days, hours, minutes and seconds, the second unit omitted when
/// zero.
pub open spec fn spec_format_duration(seconds: nat) -> Seq<char> {
    if seconds < 60 {
        dec_text(seconds) + "s"@
    } else if seconds < 3600 {
        let m = seconds / 60;
        let sec = seconds % 60;
        if sec == 0 {
            dec_text(m) + "m"@
        } else {
            dec_text(m) + "m "@ + dec_text(sec) + "s"@
        }
    } else if seconds < 86400 {
        let h = seconds / 3600;
        let m = (seconds % 3600) / 60;
        if m == 0 {
            dec_text(h) + "h"@
        } else {
            dec_text(h) + "h "@ + dec_text(m) + "m"@
        }
    } else {
        let days = seconds / 86400;
        let h = (seconds % 86400) / 3600;
        if h == 0 {
            dec_text(days) + "d"@
        } else {
            dec_text(days) + "d "@ + dec_text(h) + "h"@
        }
    }
}

/// Format a duration in a human-readable way.
pub fn format_duration(seconds: u64) -> (r: String)
    ensures
        r@ == spec_format_duration(seconds as nat),
{
    let mut s = String::new();
    if seconds < 60 {
        push_dec(&mut s, seconds);
        s.append("s");
    } else if seconds < 3600 {
        let minutes = seconds / 60;
        let secs = seconds % 60;
        push_dec(&mut s, minutes);
        if secs == 0 {
            s.append("m");
        } else {
            s.append("m ");
            push_dec(&mut s, secs);
            s.append("s");
        }
    } else if seconds < 86400 {
        let hours = seconds / 3600;
        let minutes = (seconds % 3600) / 60;
        push_dec(&mut s, hours);
        if minutes == 0 {
            s.append("h");
        } else {
            s.append("h ");
            push_dec(&mut s, minutes);
            s.append("m");
        }
    } else {
        let days = seconds / 86400;
        let hours = (seconds % 86400) / 3600;
        push_dec(&mut s, days);
        if hours == 0 {
            s.append("d");
        } else {
            s.append("d ");
            push_dec(&mut s, hours);
            s.append("h");
        }
    }
    proof {
        assert(s@ =~= spec_format_duration(seconds as nat));
    }
    s
}

/// Validate a port number: values above the 16-bit range are rejected.
pub fn validate_port(port: u32) -> (r: Result<u16, IdsError>)
    ensures
        port <= 65535 <==> r is Ok,
        r matches Ok(p) ==> p == port,
        r matches Err(e) ==> e == IdsError::InvalidPort(port),
{
    if port > 65535 {
        return Err(IdsError::InvalidPort(port));
    }
    Ok(port as u16)
}

/// Clamp a value between a lower and an upper bound, the lower bound
/// winning below it and the upper above it.
pub fn clamp(value: u64, min_value: u64, max_value: u64) -> (r: u64)
    ensures
        value < min_value ==> r == min_value,
        value >= min_value && value > max_value ==> r == max_value,
        min_value <= value <= max_value ==> r == value,
{
    if value < min_value {
        min_value
    } else if value > max_value {
        max_value
    } else {
        value
    }
}

/// Relies on std::time::SystemTime::now and its distance from
/// UNIX_EPOCH, taken as milliseconds: the current wall clock. The value
/// depends on the machine's clock, so nothing is promised of it.
#[verifier::external_body]
pub fn current_timestamp_ms() -> u64 {
    std::time::SystemTime::now().duration_since(std::time::UNIX_EPOCH).unwrap_or_default()
        .as_millis() as u64
}

/// Generate a random string of the given length over the alphanumeric
/// alphabet.
pub fn random_string(length: usize) -> (r: String)
    ensures
        r@.len() == length,
        forall|i: int|
            0 <= i < r@.len() ==> "ABCDEFGHIJKLMNOPQRSTUVWXYZabcdefghijklmnopqrstuvwxyz0123456789"@
                .contains(#[trigger] r@[i]),
{
    let charset = "ABCDEFGHIJKLMNOPQRSTUVWXYZabcdefghijklmnopqrstuvwxyz0123456789";
    proof {
        reveal_strlit("ABCDEFGHIJKLMNOPQRSTUVWXYZabcdefghijklmnopqrstuvwxyz0123456789");
    }
    let mut s = String::new();
    let mut i: usize = 0;
    while i < length
        invariant
            i <= length,
            s@.len() == i,
            charset@ == "ABCDEFGHIJKLMNOPQRSTUVWXYZabcdefghijklmnopqrstuvwxyz0123456789"@,
            charset@.len() == 62,
            charset.is_ascii(),
            forall|j: int| 0 <= j < i ==> charset@.contains(#[trigger] s@[j]),
        decreases length - i,
    {
        let idx = rand_below(62) as usize;
        let c = charset.substring_ascii(idx, idx + 1);
        s.append(c);
        proof {
            assert(s@.last() == charset@[idx as int]);
            assert(charset@.contains(s@[i as int]));
        }
        i = i + 1;
    }
    s
}

} // verus!
