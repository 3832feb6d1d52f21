//! Display formatting of values shown in the table: sizes, cell text with a
//! transitional-state marker, and truncation.

use vstd::prelude::*;
use vstd::string::{StrSliceExecFns, StringExecFns, StringSliceAdditionalSpecFns};
use crate::canonical::{lower_bytes, spec_lower};
use crate::timefmt::{spec_decimal, spec_digit_char, u64_to_decimal};
use crate::textutil::chars_to_string;

verus! {

/// `num / den` rounded to the nearest integer, ties to the even neighbour.
pub open spec fn spec_round_half_even(num: int, den: int) -> int {
    let q = num / den;
    let r = num % den;
    if 2 * r > den {
        q + 1
    } else if 2 * r < den {
        q
    } else if q % 2 == 0 {
        q
    } else {
        q + 1
    }
}

/// A size scaled to a unit: the whole part and one rounded decimal digit,
/// the digit's carry folded into the whole part.
pub open spec fn spec_scaled(bytes: u64, unit: u64) -> (int, int) {
    let w = bytes as int / unit as int;
    let f = spec_round_half_even((bytes as int % unit as int) * 10, unit as int);
    if f == 10 {
        (w + 1, 0)
    } else {
        (w, f)
    }
}

/// A scaled size rendered as `whole.frac` followed by the unit's name.
pub open spec fn spec_scaled_text(bytes: u64, unit: u64, suffix: Seq<char>) -> Seq<char> {
    let (w, f) = spec_scaled(bytes, unit);
    spec_decimal(w) + seq!['.'] + seq![spec_digit_char(f)] + suffix
}

/// A byte count in human-readable form: scaled to the largest unit it
/// reaches, with one decimal digit; bare counts below a kibibyte.
pub open spec fn spec_format_bytes(bytes: u64) -> Seq<char> {
    if bytes >= 0x10000000000 {
        spec_scaled_text(bytes, 0x10000000000, " TB"@)
    } else if bytes >= 0x40000000 {
        spec_scaled_text(bytes, 0x40000000, " GB"@)
    } else if bytes >= 0x100000 {
        spec_scaled_text(bytes, 0x100000, " MB"@)
    } else if bytes >= 0x400 {
        spec_scaled_text(bytes, 0x400, " KB"@)
    } else {
        spec_decimal(bytes as int) + " B"@
    }
}

/// Renders one scaled size.
fn scaled_text(bytes: u64, unit: u64, suffix: &str) -> (r: Vec<char>)
    requires
        1024 <= unit <= 0x10000000000,
    ensures
        r@ == spec_scaled_text(bytes, unit, suffix@),
{
    let mut w = bytes / unit;
    let rem = bytes % unit;
    let num = rem * 10;
    let q = num / unit;
    let rm = num % unit;
    let mut f: u64 = if 2 * rm > unit {
        q + 1
    } else if 2 * rm < unit {
        q
    } else if q % 2 == 0 {
        q
    } else {
        q + 1
    };
    if f == 10 {
        proof {
            vstd::arithmetic::div_mod::lemma_div_is_ordered_by_denominator(
                bytes as int,
                1024,
                unit as int,
            );
        }
        w = w + 1;
        f = 0;
    }
    let mut r = u64_to_decimal(w);
    r.push('.');
    r.push(frac_digit(f));
    let schars = crate::textutil::str_to_chars(suffix);
    let mut sc = schars;
    r.append(&mut sc);
    proof {
        assert(r@ =~= spec_scaled_text(bytes, unit, suffix@));
    }
    r
}

/// The digit character of a fraction digit.
fn frac_digit(f: u64) -> (c: char)
    ensures
        c == spec_digit_char(f as int),
{
    let d = f % 10;
    if d == 0 {
        '0'
    } else if d == 1 {
        '1'
    } else if d == 2 {
        '2'
    } else if d == 3 {
        '3'
    } else if d == 4 {
        '4'
    } else if d == 5 {
        '5'
    } else if d == 6 {
        '6'
    } else if d == 7 {
        '7'
    } else if d == 8 {
        '8'
    } else {
        '9'
    }
}

/// Formats a byte count for display, scaled to its largest unit.
pub fn format_bytes(bytes: u64) -> (r: String)
    ensures
        r@ == spec_format_bytes(bytes),
{
    let chars: Vec<char> = if bytes >= 0x10000000000 {
        scaled_text(bytes, 0x10000000000, " TB")
    } else if bytes >= 0x40000000 {
        scaled_text(bytes, 0x40000000, " GB")
    } else if bytes >= 0x100000 {
        scaled_text(bytes, 0x100000, " MB")
    } else if bytes >= 0x400 {
        scaled_text(bytes, 0x400, " KB")
    } else {
        let mut v = u64_to_decimal(bytes);
        let mut suffix = crate::textutil::str_to_chars(" B");
        v.append(&mut suffix);
        proof {
            assert(v@ =~= spec_decimal(bytes as int) + " B"@);
        }
        v
    };
    chars_to_string(&chars)
}

/// Whether `needle` occurs contiguously inside `hay`.
pub open spec fn spec_contains_sub(hay: Seq<u8>, needle: Seq<u8>) -> bool {
    exists|i: int|
        0 <= i <= hay.len() - needle.len() && #[trigger] hay.subrange(i, i + needle.len())
            == needle
}

/// Decides whether `needle` occurs inside `hay`.
pub fn contains_sub(hay: &[u8], needle: &[u8]) -> (r: bool)
    ensures
        r == spec_contains_sub(hay@, needle@),
{
    let hn = hay.len();
    let nn = needle.len();
    if nn > hn {
        proof {
            assert(!spec_contains_sub(hay@, needle@));
        }
        return false;
    }
    if nn == 0 {
        proof {
            assert(hay@.subrange(0, 0 + needle@.len() as int) =~= needle@);
        }
        return true;
    }
    let mut i: usize = 0;
    while i <= hn - nn
        invariant
            1 <= nn <= hn,
            hn == hay@.len(),
            nn == needle@.len(),
            i <= hn - nn + 1,
            forall|k: int| 0 <= k < i ==> #[trigger] hay@.subrange(k, k + nn) != needle@,
        decreases hn - nn - i + 1,
    {
        let mut j: usize = 0;
        let mut matched = true;
        while j < nn
            invariant
                i + nn <= hn,
                hn == hay@.len(),
                nn == needle@.len(),
                j <= nn,
                matched ==> forall|k: int| 0 <= k < j ==> hay@[i + k] == #[trigger] needle@[k],
                !matched ==> hay@.subrange(i as int, i + nn) != needle@,
            decreases nn - j,
        {
            if hay[i + j] != needle[j] {
                proof {
                    assert(hay@.subrange(i as int, i + nn)[j as int] != needle@[j as int]);
                }
                matched = false;
                j = nn;
            } else {
                j = j + 1;
            }
        }
        if matched {
            proof {
                assert(hay@.subrange(i as int, i + nn) =~= needle@);
            }
            return true;
        }
        i = i + 1;
    }
    proof {
        assert forall|k: int|
            0 <= k <= hay@.len() - needle@.len() implies #[trigger] hay@.subrange(
            k,
            k + needle@.len(),
        ) != needle@ by {
            assert(k < i);
        }
    }
    false
}

/// A state text naming work in progress, tested on its lowercased bytes.
pub open spec fn spec_is_transitional(low: Seq<u8>) -> bool {
    ||| spec_contains_sub(low, ("pending").spec_bytes())
    ||| spec_contains_sub(low, ("starting").spec_bytes())
    ||| spec_contains_sub(low, ("stopping").spec_bytes())
    ||| spec_contains_sub(low, ("creating").spec_bytes())
    ||| spec_contains_sub(low, ("deleting").spec_bytes())
    ||| spec_contains_sub(low, ("updating").spec_bytes())
    ||| spec_contains_sub(low, ("modifying").spec_bytes())
    ||| spec_contains_sub(low, ("provisioning").spec_bytes())
    ||| spec_contains_sub(low, ("shutting-down").spec_bytes())
    ||| spec_contains_sub(low, ("terminating").spec_bytes())
    ||| spec_contains_sub(low, ("in-progress").spec_bytes())
    ||| spec_contains_sub(low, ("initializing").spec_bytes())
}

/// Formats a cell's text: a value in a colour-mapped column that names a
/// transitional state gains a spinning-arrow marker.
pub fn format_cell_value(value: &str, has_color_map: bool) -> (r: String)
    ensures
        r@ == if has_color_map && spec_is_transitional(spec_lower(value.spec_bytes())) {
            value@ + " \u{21bb}"@
        } else {
            value@
        },
{
    if has_color_map {
        let low = lower_bytes(value.as_bytes());
        let transitional = contains_sub(low.as_slice(), "pending".as_bytes()) || contains_sub(
            low.as_slice(),
            "starting".as_bytes(),
        ) || contains_sub(low.as_slice(), "stopping".as_bytes()) || contains_sub(
            low.as_slice(),
            "creating".as_bytes(),
        ) || contains_sub(low.as_slice(), "deleting".as_bytes()) || contains_sub(
            low.as_slice(),
            "updating".as_bytes(),
        ) || contains_sub(low.as_slice(), "modifying".as_bytes()) || contains_sub(
            low.as_slice(),
            "provisioning".as_bytes(),
        ) || contains_sub(low.as_slice(), "shutting-down".as_bytes()) || contains_sub(
            low.as_slice(),
            "terminating".as_bytes(),
        ) || contains_sub(low.as_slice(), "in-progress".as_bytes()) || contains_sub(
            low.as_slice(),
            "initializing".as_bytes(),
        );
        if transitional {
            let mut r = value.to_owned();
            r.append(" \u{21bb}");
            return r;
        }
        value.to_owned()
    } else {
        value.to_owned()
    }
}

/// A display string cut to `max_len` characters: a longer one keeps its
/// leading characters and gains an ellipsis.
pub open spec fn spec_truncate(s: Seq<char>, max_len: int) -> Seq<char> {
    if s.len() > max_len {
        s.take(if max_len >= 3 {
            max_len - 3
        } else {
            0
        }) + ("...")@
    } else {
        s
    }
}

/// Truncates a string for display.
pub fn truncate_string(s: &str, max_len: usize) -> (r: String)
    ensures
        r@ == spec_truncate(s@, max_len as int),
{
    let n = s.unicode_len();
    if n > max_len {
        let keep = if max_len >= 3 {
            max_len - 3
        } else {
            0
        };
        let prefix = s.substring_char(0, keep);
        let mut r = prefix.to_owned();
        r.append("...");
        r
    } else {
        s.to_owned()
    }
}

} // verus!
