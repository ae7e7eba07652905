//! Root resolution and display helpers.

use vstd::prelude::*;

verus! {

/// Which application-data root a scan targets.
#[derive(Clone, Copy, Debug, PartialEq, Eq, Structural)]
pub enum ScanTarget {
    Roaming,
    Local,
    LocalLow,
}

#[verifier::external_type_specification]
#[verifier::external_body]
pub struct ExPathBuf(std::path::PathBuf);

/// Relies on dirs_next::data_dir: the platform's per-user data root. What it
/// finds depends on the environment, so nothing is promised of the result.
#[verifier::external_body]
fn data_dir() -> Option<std::path::PathBuf> {
    dirs_next::data_dir()
}

/// Relies on dirs_next::cache_dir: the platform's per-user cache root. What
/// it finds depends on the environment, so nothing is promised of the result.
#[verifier::external_body]
fn cache_dir() -> Option<std::path::PathBuf> {
    dirs_next::cache_dir()
}

/// Relies on std's `PathBuf::from` to turn a path string into an owned path.
#[verifier::external_body]
fn path_from_str(s: &str) -> std::path::PathBuf {
    std::path::PathBuf::from(s)
}

/// Resolve the root directory a scan target names. `LocalLow` has a fixed
/// location; the other two come from the platform lookup, which may find
/// nothing — a missing root is a valid state and leads to an empty scan.
pub fn get_appdata_dir(folder_type: ScanTarget) -> (dir: Option<std::path::PathBuf>)
    ensures
        folder_type is LocalLow ==> dir is Some,
{
    match folder_type {
        ScanTarget::Roaming => data_dir(),
        ScanTarget::Local => cache_dir(),
        ScanTarget::LocalLow => Some(path_from_str("C:/Users/Default/AppData/LocalLow")),
    }
}

/// The display character of one decimal digit.
pub open spec fn digit_char(d: nat) -> char {
    if d == 0 {
        '0'
    } else if d == 1 {
        '1'
    } else if d == 2 {
        '2'
    } else if d == 3 {
        '3'
    } else if d == 4 {
        '4'
    } else if d == 5 {
        '5'
    } else if d == 6 {
        '6'
    } else if d == 7 {
        '7'
    } else if d == 8 {
        '8'
    } else {
        '9'
    }
}

/// The decimal digits of `n`, most significant first, no leading zeros
/// except for `n == 0` itself.
pub open spec fn dec_digits(n: nat) -> Seq<char>
    decreases n,
{
    if n < 10 {
        seq![digit_char(n)]
    } else {
        dec_digits(n / 10) + seq![digit_char(n % 10)]
    }
}

/// The 1024-based unit a byte count is displayed in: bytes up to terabytes.
pub open spec fn size_unit(size: nat) -> nat {
    if size < 1024 {
        0
    } else if size < 1048576 {
        1
    } else if size < 1073741824 {
        2
    } else if size < 1099511627776 {
        3
    } else {
        4
    }
}

/// Bytes per unit.
pub open spec fn unit_divisor(u: nat) -> nat {
    if u == 0 {
        1
    } else if u == 1 {
        1024
    } else if u == 2 {
        1048576
    } else if u == 3 {
        1073741824
    } else {
        1099511627776
    }
}

/// The unit's display label.
pub open spec fn unit_chars(u: nat) -> Seq<char> {
    if u == 0 {
        seq!['B']
    } else if u == 1 {
        seq!['K', 'B']
    } else if u == 2 {
        seq!['M', 'B']
    } else if u == 3 {
        seq!['G', 'B']
    } else {
        seq!['T', 'B']
    }
}

/// The nearest integer to `q / d`, ties going to the even neighbour, as a
/// two-decimal rendering rounds its last place.
pub open spec fn round_half_even(q: nat, d: nat) -> nat {
    let quot = q / d;
    let rem = q % d;
    if 2 * rem < d {
        quot
    } else if 2 * rem > d {
        quot + 1
    } else if quot % 2 == 0 {
        quot
    } else {
        quot + 1
    }
}

/// A byte count in hundredths of its display unit: `size / 1024^u` rounded
/// to the nearest hundredth, ties to even.
pub open spec fn size_hundredths(size: nat) -> nat {
    round_half_even(size * 100, unit_divisor(size_unit(size)))
}

/// The rendered form of a byte count: the whole units, a dot, two decimal
/// places, a space, and the unit label.
pub open spec fn format_size_chars(size: nat) -> Seq<char> {
    dec_digits(size_hundredths(size) / 100) + seq![
        '.',
        digit_char((size_hundredths(size) % 100) / 10),
        digit_char(size_hundredths(size) % 10),
        ' ',
    ] + unit_chars(size_unit(size))
}

/// One decimal digit as a string slice.
fn digit_str(d: u64) -> (s: &'static str)
    requires
        d < 10,
    ensures
        s@ == seq![digit_char(d as nat)],
{
    if d == 0 {
        proof {
            reveal_strlit("0");
            assert("0"@ =~= seq![digit_char(0)]);
        }
        "0"
    } else if d == 1 {
        proof {
            reveal_strlit("1");
            assert("1"@ =~= seq![digit_char(1)]);
        }
        "1"
    } else if d == 2 {
        proof {
            reveal_strlit("2");
            assert("2"@ =~= seq![digit_char(2)]);
        }
        "2"
    } else if d == 3 {
        proof {
            reveal_strlit("3");
            assert("3"@ =~= seq![digit_char(3)]);
        }
        "3"
    } else if d == 4 {
        proof {
            reveal_strlit("4");
            assert("4"@ =~= seq![digit_char(4)]);
        }
        "4"
    } else if d == 5 {
        proof {
            reveal_strlit("5");
            assert("5"@ =~= seq![digit_char(5)]);
        }
        "5"
    } else if d == 6 {
        proof {
            reveal_strlit("6");
            assert("6"@ =~= seq![digit_char(6)]);
        }
        "6"
    } else if d == 7 {
        proof {
            reveal_strlit("7");
            assert("7"@ =~= seq![digit_char(7)]);
        }
        "7"
    } else if d == 8 {
        proof {
            reveal_strlit("8");
            assert("8"@ =~= seq![digit_char(8)]);
        }
        "8"
    } else {
        proof {
            reveal_strlit("9");
            assert("9"@ =~= seq![digit_char(9)]);
        }
        "9"
    }
}

/// Render `n` in decimal.
fn u64_to_decimal(n: u64) -> (s: String)
    ensures
        s@ == dec_digits(n as nat),
    decreases n,
{
    if n < 10 {
        digit_str(n).to_owned()
    } else {
        let mut s = u64_to_decimal(n / 10);
        s.append(digit_str(n % 10));
        s
    }
}

/// The unit label a byte count is displayed with.
fn unit_label(size: u64) -> (s: &'static str)
    ensures
        s@ == unit_chars(size_unit(size as nat)),
{
    if size < 1024 {
        proof {
            reveal_strlit("B");
            assert("B"@ =~= unit_chars(0));
        }
        "B"
    } else if size < 1048576 {
        proof {
            reveal_strlit("KB");
            assert("KB"@ =~= unit_chars(1));
        }
        "KB"
    } else if size < 1073741824 {
        proof {
            reveal_strlit("MB");
            assert("MB"@ =~= unit_chars(2));
        }
        "MB"
    } else if size < 1099511627776 {
        proof {
            reveal_strlit("GB");
            assert("GB"@ =~= unit_chars(3));
        }
        "GB"
    } else {
        proof {
            reveal_strlit("TB");
            assert("TB"@ =~= unit_chars(4));
        }
        "TB"
    }
}

/// Render a byte count for display: the largest unit it reaches, with two
/// decimal places rounded to nearest (ties to even), as in a size column.
pub fn format_size(size: u64) -> (s: String)
    ensures
        s@ == format_size_chars(size as nat),
{
    let div: u64 = if size < 1024 {
        1
    } else if size < 1048576 {
        1024
    } else if size < 1073741824 {
        1048576
    } else if size < 1099511627776 {
        1073741824
    } else {
        1099511627776
    };
    proof {
        assert(div == unit_divisor(size_unit(size as nat)));
    }
    let q: u128 = size as u128 * 100;
    let d: u128 = div as u128;
    let quot: u128 = q / d;
    let rem: u128 = q % d;
    let rounded: u128 = if 2 * rem < d {
        quot
    } else if 2 * rem > d {
        quot + 1
    } else if quot % 2 == 0 {
        quot
    } else {
        quot + 1
    };
    proof {
        assert(q == (size as nat) * 100);
        assert(rounded == size_hundredths(size as nat));
        assert(quot + 1 <= u64::MAX) by {
            vstd::arithmetic::div_mod::lemma_div_is_ordered(
                (size as int) * 100,
                u64::MAX * 100,
                div as int,
            );
        }
    }
    let hundredths: u64 = rounded as u64;
    let mut s = u64_to_decimal(hundredths / 100);
    proof {
        reveal_strlit(".");
        reveal_strlit(" ");
    }
    s.append(".");
    s.append(digit_str((hundredths % 100) / 10));
    s.append(digit_str(hundredths % 10));
    s.append(" ");
    s.append(unit_label(size));
    proof {
        assert(s@ =~= format_size_chars(size as nat));
    }
    s
}

} // verus!
