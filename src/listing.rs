//! Reading the host's listings: VM names, and the block devices of a VM as
//! `domblklist` prints them (a target column and a source column).

use vstd::prelude::*;
use crate::text::{
    chars_of, ends_with, line_bounds, lines, occurs_at, starts_with, sub_string, trim, trim_bounds,
    word_bounds, words,
};

verus! {

/// The non-blank lines of `ls`, trimmed, in order.
pub open spec fn trimmed_names(ls: Seq<Seq<char>>) -> Seq<Seq<char>>
    decreases ls.len(),
{
    if ls.len() == 0 {
        seq![]
    } else {
        let rest = trimmed_names(ls.drop_last());
        if trim(ls.last()).len() > 0 {
            rest.push(trim(ls.last()))
        } else {
            rest
        }
    }
}

/// A device line of a CD-ROM drive: its target starts with `hd`.
pub open spec fn cdrom_line(l: Seq<char>) -> bool {
    words(l).len() > 0 && starts_with(words(l)[0], "hd"@)
}

/// A device line with an ISO image inserted: a target and a source ending in `.iso`.
pub open spec fn iso_line(l: Seq<char>) -> bool {
    words(l).len() == 2 && ends_with(words(l)[1], ".iso"@)
}

/// The target of the first CD-ROM line of `ls`.
pub open spec fn first_cdrom(ls: Seq<Seq<char>>) -> Option<Seq<char>>
    decreases ls.len(),
{
    if ls.len() == 0 {
        None
    } else if cdrom_line(ls[0]) {
        Some(words(ls[0])[0])
    } else {
        first_cdrom(ls.drop_first())
    }
}

/// The source of the first line of `ls` with an ISO image.
pub open spec fn first_iso(ls: Seq<Seq<char>>) -> Option<Seq<char>>
    decreases ls.len(),
{
    if ls.len() == 0 {
        None
    } else if iso_line(ls[0]) {
        Some(words(ls[0])[1])
    } else {
        first_iso(ls.drop_first())
    }
}

/// The VM names of a `list --name` listing: its non-blank lines, trimmed.
pub fn vm_names(listing: &str) -> (r: Vec<String>)
    ensures
        r@.len() == trimmed_names(lines(listing@)).len(),
        forall|k: int| 0 <= k < r@.len() ==> (#[trigger] r@[k])@ == trimmed_names(lines(listing@))[k],
{
    let cs = chars_of(listing);
    let lb = line_bounds(&cs);
    let ghost ls = lines(listing@);
    let mut out: Vec<String> = Vec::new();
    let mut k: usize = 0;
    while k < lb.len()
        invariant
            cs@ == listing@,
            ls == lines(cs@),
            lb@.len() == ls.len(),
            forall|j: int| 0 <= j < lb@.len() ==> (#[trigger] lb@[j]).0 <= lb@[j].1 <= cs@.len()
                && cs@.subrange(lb@[j].0 as int, lb@[j].1 as int) == ls[j],
            k <= lb@.len(),
            out@.len() == trimmed_names(ls.subrange(0, k as int)).len(),
            forall|j: int| 0 <= j < out@.len() ==> (#[trigger] out@[j])@ == trimmed_names(
                ls.subrange(0, k as int),
            )[j],
        decreases lb@.len() - k,
    {
        let (a, b) = lb[k];
        let (ta, tb) = trim_bounds(&cs, a, b);
        let ghost pre = ls.subrange(0, k as int);
        let ghost next = ls.subrange(0, k + 1);
        assert(next.drop_last() =~= pre);
        assert(next.last() == ls[k as int]);
        if ta < tb {
            out.push(sub_string(listing, ta, tb));
        }
        k += 1;
    }
    assert(ls.subrange(0, lb@.len() as int) =~= ls);
    out
}

/// The target of the first CD-ROM drive in a `domblklist` listing.
pub fn find_cdrom(listing: &str) -> (r: Option<String>)
    ensures
        r is Some == first_cdrom(lines(listing@)) is Some,
        r is Some ==> r->0@ == first_cdrom(lines(listing@))->0,
{
    let cs = chars_of(listing);
    let lb = line_bounds(&cs);
    let hd = chars_of("hd");
    proof {
        reveal_strlit("hd");
    }
    let ghost ls = lines(listing@);
    let mut k: usize = 0;
    assert(ls.subrange(0, ls.len() as int) =~= ls);
    while k < lb.len()
        invariant
            cs@ == listing@,
            ls == lines(cs@),
            hd@ == "hd"@,
            lb@.len() == ls.len(),
            forall|j: int| 0 <= j < lb@.len() ==> (#[trigger] lb@[j]).0 <= lb@[j].1 <= cs@.len()
                && cs@.subrange(lb@[j].0 as int, lb@[j].1 as int) == ls[j],
            k <= lb@.len(),
            first_cdrom(ls) == first_cdrom(ls.subrange(k as int, ls.len() as int)),
        decreases lb@.len() - k,
    {
        let ghost rest = ls.subrange(k as int, ls.len() as int);
        assert(rest.drop_first() =~= ls.subrange(k + 1, ls.len() as int));
        assert(rest[0] == ls[k as int]);
        let (a, b) = lb[k];
        let wb = word_bounds(&cs, a, b);
        if wb.len() > 0 {
            let (wa, we) = wb[0];
            let ghost w = cs@.subrange(wa as int, we as int);
            let hit = occurs_at(&cs, wa, we, &hd);
            proof {
                reveal_strlit("hd");
                assert(lb@[k as int] == (a, b));
                assert(cs@.subrange(a as int, b as int) == ls[k as int]);
                assert(wb@[0] == (wa, we));
                assert(w == words(ls[k as int])[0]);
                if wa + 2 <= we {
                    assert(w.subrange(0, 2) =~= cs@.subrange(wa as int, wa + 2));
                }
            }
            if hit {
                assert(words(ls[k as int]).len() > 0);
                assert(first_cdrom(rest) == Some(w));
                return Some(sub_string(listing, wa, we));
            }
        }
        k += 1;
    }
    None
}

/// The source of the first ISO image in a `domblklist` listing.
pub fn find_mounted_iso(listing: &str) -> (r: Option<String>)
    ensures
        r is Some == first_iso(lines(listing@)) is Some,
        r is Some ==> r->0@ == first_iso(lines(listing@))->0,
{
    let cs = chars_of(listing);
    let lb = line_bounds(&cs);
    let iso = chars_of(".iso");
    proof {
        reveal_strlit(".iso");
    }
    let ghost ls = lines(listing@);
    let mut k: usize = 0;
    assert(ls.subrange(0, ls.len() as int) =~= ls);
    while k < lb.len()
        invariant
            cs@ == listing@,
            ls == lines(cs@),
            iso@ == ".iso"@,
            lb@.len() == ls.len(),
            forall|j: int| 0 <= j < lb@.len() ==> (#[trigger] lb@[j]).0 <= lb@[j].1 <= cs@.len()
                && cs@.subrange(lb@[j].0 as int, lb@[j].1 as int) == ls[j],
            k <= lb@.len(),
            first_iso(ls) == first_iso(ls.subrange(k as int, ls.len() as int)),
        decreases lb@.len() - k,
    {
        let ghost rest = ls.subrange(k as int, ls.len() as int);
        assert(rest.drop_first() =~= ls.subrange(k + 1, ls.len() as int));
        assert(rest[0] == ls[k as int]);
        let (a, b) = lb[k];
        let wb = word_bounds(&cs, a, b);
        proof {
            reveal_strlit(".iso");
            assert(lb@[k as int] == (a, b));
            assert(cs@.subrange(a as int, b as int) == ls[k as int]);
        }
        if wb.len() == 2 {
            let (wa, we) = wb[1];
            let ghost w = cs@.subrange(wa as int, we as int);
            assert(wb@[1] == (wa, we));
            assert(w == words(ls[k as int])[1]);
            if we - wa >= 4 {
                let hit = occurs_at(&cs, we - 4, we, &iso);
                assert(w.subrange(w.len() - 4, w.len() as int) =~= cs@.subrange(we - 4, we as int));
                if hit {
                    return Some(sub_string(listing, wa, we));
                }
            }
        }
        k += 1;
    }
    None
}

/// Arguments of the control-plane command that inserts `iso` into `device` of a
/// running `vm`.
pub fn change_media_args(vm: &str, device: &str, iso: &str) -> (r: Vec<String>)
    ensures
        r@.len() == 6,
        r@[0]@ == "change-media"@,
        r@[1]@ == vm@,
        r@[2]@ == device@,
        r@[3]@ == "--insert"@,
        r@[4]@ == iso@,
        r@[5]@ == "--live"@,
{
    let mut r: Vec<String> = Vec::new();
    r.push(String::from_str("change-media"));
    r.push(String::from_str(vm));
    r.push(String::from_str(device));
    r.push(String::from_str("--insert"));
    r.push(String::from_str(iso));
    r.push(String::from_str("--live"));
    r
}

} // verus!
