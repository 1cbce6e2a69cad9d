//! Decisions that the command-line front end takes on plain values.
use vstd::prelude::*;

use crate::provide::string_views;
use crate::text::{contains, occurs};

verus! {

/// The value of a run of decimal digits.
pub open spec fn digits_value(s: Seq<char>) -> nat
    decreases s.len(),
{
    if s.len() == 0 {
        0
    } else {
        digits_value(s.drop_last()) * 10 + ((s.last() as u32) - ('0' as u32)) as nat
    }
}

/// A non-empty run of decimal digits.
pub open spec fn all_digits(s: Seq<char>) -> bool {
    s.len() > 0 && forall|i: int| 0 <= i < s.len() ==> '0' <= #[trigger] s[i] <= '9'
}

/// The `usize` that a text denotes: an optional `+` followed by decimal
/// digits, whose value fits.
pub open spec fn parsed_usize(s: Seq<char>) -> Option<nat> {
    let d = if s.len() > 0 && s[0] == '+' {
        s.drop_first()
    } else {
        s
    };
    if all_digits(d) && digits_value(d) <= usize::MAX {
        Some(digits_value(d))
    } else {
        None
    }
}

/// Relies on `str::parse::<usize>`: an optional `+` sign followed by
/// decimal digits, an error for anything else or for a value that overflows.
#[verifier::external_body]
fn parse_usize(s: &str) -> (r: Option<usize>)
    ensures
        match r {
            Some(n) => parsed_usize(s@) == Some(n as nat),
            None => parsed_usize(s@) is None,
        },
{
    s.parse::<usize>().ok()
}

/// The choice that an answer makes among `max` numbered entries: the index
/// (counted from 0) of the entry whose number (counted from 1) was given,
/// or `None`, upon which the question is asked again.
pub fn get_valid_selection(response: &str, max: usize) -> (r: Option<usize>)
    ensures
        match parsed_usize(response@) {
            Some(n) => if 0 < n <= max {
                r == Some((n - 1) as usize)
            } else {
                r is None
            },
            None => r is None,
        },
{
    match parse_usize(response) {
        Some(n) => if n > 0 && n <= max {
            Some(n - 1)
        } else {
            None
        },
        None => None,
    }
}

/// Some note of the list holds the given marker text.
pub open spec fn any_note_holds(notes: Seq<Seq<char>>, marker: Seq<char>) -> bool {
    exists|i: int| 0 <= i < notes.len() && occurs(notes[i], marker)
}

/// A package gets no desktop integration when its repository has it turned
/// off, or when one of its notes says `NO_DESKTOP_INTEGRATION`.
pub fn has_no_desktop_integration(repo_integration: bool, notes: Option<&[String]>) -> (r: bool)
    ensures
        r == (!repo_integration || match notes {
            Some(all) => any_note_holds(string_views(all@), "NO_DESKTOP_INTEGRATION"@),
            None => false,
        }),
{
    if !repo_integration {
        return true;
    }
    match notes {
        None => false,
        Some(all) => {
            let mut i: usize = 0;
            while i < all.len()
                invariant
                    notes == Some(all),
                    repo_integration,
                    i <= all@.len(),
                    forall|k: int|
                        0 <= k < i ==> !occurs(#[trigger] all@[k]@, "NO_DESKTOP_INTEGRATION"@),
                decreases all@.len() - i,
            {
                if contains(all[i].as_str(), "NO_DESKTOP_INTEGRATION") {
                    assert(string_views(all@)[i as int] == all@[i as int]@);
                    assert(string_views(all@).len() == all@.len());
                    assert(any_note_holds(string_views(all@), "NO_DESKTOP_INTEGRATION"@));
                    return true;
                }
                i += 1;
            }
            proof {
                assert forall|k: int| 0 <= k < string_views(all@).len() implies !occurs(
                    #[trigger] string_views(all@)[k],
                    "NO_DESKTOP_INTEGRATION"@,
                ) by {
                    assert(string_views(all@)[k] == all@[k]@);
                }
            }
            false
        },
    }
}

/// The download size of a package: its alternate-registry size when known,
/// else its size, else nothing.
pub open spec fn package_size(ghcr_size: Option<u64>, size: Option<u64>) -> nat {
    match ghcr_size {
        Some(g) => g as nat,
        None => match size {
            Some(s) => s as nat,
            None => 0,
        },
    }
}

/// The summed download size of the packages, from the last backwards.
pub open spec fn sizes_total(sizes: Seq<(Option<u64>, Option<u64>)>) -> nat
    decreases sizes.len(),
{
    if sizes.len() == 0 {
        0
    } else {
        sizes_total(sizes.drop_last()) + package_size(sizes.last().0, sizes.last().1)
    }
}

/// The estimated download size of a set of packages, each given by its
/// alternate-registry size and its size; `u64::MAX` when the sum does not fit.
pub fn estimated_download_size(sizes: &Vec<(Option<u64>, Option<u64>)>) -> (r: u64)
    ensures
        r == if sizes_total(sizes@) <= u64::MAX {
            sizes_total(sizes@)
        } else {
            u64::MAX as nat
        },
{
    let mut total: u64 = 0;
    let mut i: usize = 0;
    while i < sizes.len()
        invariant
            i <= sizes.len(),
            total == if sizes_total(sizes@.take(i as int)) <= u64::MAX {
                sizes_total(sizes@.take(i as int))
            } else {
                u64::MAX as nat
            },
        decreases sizes.len() - i,
    {
        proof {
            assert(sizes@.take(i + 1).drop_last() =~= sizes@.take(i as int));
            assert(sizes@.take(i + 1).last() == sizes@[i as int]);
        }
        let (ghcr, plain) = sizes[i];
        let s: u64 = match ghcr {
            Some(g) => g,
            None => match plain {
                Some(p) => p,
                None => 0,
            },
        };
        total = total.saturating_add(s);
        i += 1;
    }
    assert(sizes@.take(i as int) =~= sizes@);
    total
}

} // verus!
