//! Small pieces of the speedtest reporter: the host's name from the output of
//! `hostname`, and the application directory among the host's RRD directories.

use vstd::prelude::*;
use crate::text::{chars_of, occurs_at, starts_with, sub_string, trim, trim_bounds};

verus! {

/// The host name that `hostname` printed: its output trimmed, when not blank.
pub fn get_hostname(output: &str) -> (r: Option<String>)
    ensures
        r is Some == (trim(output@).len() > 0),
        r is Some ==> r->0@ == trim(output@),
{
    let cs = chars_of(output);
    let (a, b) = trim_bounds(&cs, 0, cs.len());
    assert(cs@.subrange(0, cs@.len() as int) =~= output@);
    if a < b {
        Some(sub_string(output, a, b))
    } else {
        None
    }
}

/// The first of `names` that starts with `prefix`.
pub open spec fn first_with_prefix(names: Seq<String>, prefix: Seq<char>) -> Option<Seq<char>>
    decreases names.len(),
{
    if names.len() == 0 {
        None
    } else if starts_with(names[0]@, prefix) {
        Some(names[0]@)
    } else {
        first_with_prefix(names.drop_first(), prefix)
    }
}

/// The first directory entry named `app-speedtest-...`.
pub fn find_app_speedtest_dir(entries: &Vec<String>) -> (r: Option<String>)
    ensures
        r is Some == first_with_prefix(entries@, "app-speedtest-"@) is Some,
        r is Some ==> r->0@ == first_with_prefix(entries@, "app-speedtest-"@)->0,
{
    let p = chars_of("app-speedtest-");
    let mut k: usize = 0;
    assert(entries@.subrange(0, entries@.len() as int) =~= entries@);
    while k < entries.len()
        invariant
            p@ == "app-speedtest-"@,
            k <= entries@.len(),
            first_with_prefix(entries@, p@) == first_with_prefix(
                entries@.subrange(k as int, entries@.len() as int),
                p@,
            ),
        decreases entries@.len() - k,
    {
        let ghost rest = entries@.subrange(k as int, entries@.len() as int);
        assert(rest.drop_first() =~= entries@.subrange(k + 1, entries@.len() as int));
        assert(rest[0] == entries@[k as int]);
        let cs = chars_of(entries[k].as_str());
        let hit = occurs_at(&cs, 0, cs.len(), &p);
        proof {
            if p@.len() <= cs@.len() {
                assert(cs@.subrange(0, p@.len() as int) == entries@[k as int]@.subrange(0, p@.len() as int));
            }
        }
        if hit {
            return Some(entries[k].clone());
        }
        k += 1;
    }
    None
}

} // verus!
