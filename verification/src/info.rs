//! Informational lookups over the registry records: where a distribution
//! is installed, and the display form of the host's UTC offset. Reading the
//! registry and asking the clock are I/O and live outside the crate.

use vstd::prelude::*;

use crate::lifecycle::{first_name_match, lemma_first_name_match, view_opt_string};
use crate::models::WslRegInfo;
use crate::text::{spec_u64_digits, str_eq, u64_to_string};

verus! {

/// The named distribution's install location: the first registry record
/// with that name, when it carries a non-blank base path.
pub open spec fn spec_install_location(reg: Seq<WslRegInfo>, name: Seq<char>) -> Option<
    Seq<char>,
> {
    let i = first_name_match(reg, name);
    if i < reg.len() && reg[i].base_path@.len() > 0 {
        Some(reg[i].base_path@)
    } else {
        None
    }
}

/// Looks up the named distribution's install location in the registry
/// records.
pub fn find_install_location(reg: &Vec<WslRegInfo>, name: &str) -> (r: Option<String>)
    ensures
        view_opt_string(r) == spec_install_location(reg@, name@),
{
    let len = reg.len();
    let mut k: usize = 0;
    while k < len
        invariant
            k <= len,
            len == reg@.len(),
            forall|j: int| 0 <= j < k ==> (#[trigger] reg@[j]).name@ != name@,
        decreases len - k,
    {
        if str_eq(reg[k].name.as_str(), name) {
            proof {
                lemma_first_name_match(reg@, name@);
                let fnm = first_name_match(reg@, name@);
                if fnm < k {
                    assert(reg@[fnm].name@ == name@);
                    assert(false);
                }
                if fnm > k {
                    assert(reg@[k as int].name@ != name@);
                    assert(false);
                }
            }
            if reg[k].base_path.as_str().unicode_len() > 0 {
                return Some(reg[k].base_path.clone());
            } else {
                return None;
            }
        }
        k = k + 1;
    }
    proof {
        lemma_first_name_match(reg@, name@);
        if first_name_match(reg@, name@) < len {
            assert(reg@[first_name_match(reg@, name@)].name@ == name@);
            assert(false);
        }
    }
    None
}

/// A number under one hundred rendered as exactly two decimal digits.
pub open spec fn spec_two_digits(n: nat) -> Seq<char>
    recommends
        n < 100,
{
    if n < 10 {
        seq!['0'] + spec_u64_digits(n)
    } else {
        spec_u64_digits(n)
    }
}

/// Renders a number under one hundred as exactly two decimal digits.
fn two_digits(n: u64) -> (r: String)
    requires
        n < 100,
    ensures
        r@ == spec_two_digits(n as nat),
{
    if n < 10 {
        let mut s = String::from_str("0");
        proof {
            reveal_strlit("0");
            assert("0"@ =~= seq!['0']);
        }
        let d = u64_to_string(n);
        s.append(d.as_str());
        s
    } else {
        u64_to_string(n)
    }
}

/// The display form of a UTC offset given in seconds:
/// `UTC±HH:MM`, with a `+` for the zero offset.
pub open spec fn spec_utc_offset(total_secs: int) -> Seq<char> {
    let a = if total_secs >= 0 {
        total_secs
    } else {
        -total_secs
    };
    "UTC"@ + (if total_secs >= 0 {
        "+"@
    } else {
        "-"@
    }) + spec_two_digits((a / 3600) as nat) + ":"@ + spec_two_digits(((a % 3600) / 60) as nat)
}

/// Renders the host's UTC offset for display. An offset is strictly less
/// than a day in either direction.
pub fn format_utc_offset(total_secs: i32) -> (r: String)
    requires
        -86400 < total_secs < 86400,
    ensures
        r@ == spec_utc_offset(total_secs as int),
{
    let mut s = String::from_str("UTC");
    let a: u64 = if total_secs >= 0 {
        s.append("+");
        total_secs as u64
    } else {
        s.append("-");
        (-(total_secs as i64)) as u64
    };
    let hours = two_digits(a / 3600);
    s.append(hours.as_str());
    s.append(":");
    let mins = two_digits((a % 3600) / 60);
    s.append(mins.as_str());
    s
}

} // verus!
