//! Which drive a path lies on. Measuring the drives is the caller's
//! business.

use vstd::prelude::*;
use vstd::string::*;
use vstd::utf8::*;
use crate::text::{matches_at, occurs_at, str_to_lowercase, string_views, to_chars, unicode_lowercase};

verus! {

/// The length in bytes of the lower-case form of a mount point.
pub open spec fn mount_len(mount: Seq<char>) -> nat {
    encode_utf8(unicode_lowercase(mount)).len()
}

/// Whether `path` lies under `mount`, without regard to case.
pub open spec fn lies_under(path: Seq<char>, mount: Seq<char>) -> bool {
    occurs_at(unicode_lowercase(path), unicode_lowercase(mount), 0)
}

/// The mount point among `mounts` that `path` lies under and that is
/// longest; of several equally long ones the first. The second part is
/// that mount point's length.
pub open spec fn best_mount(path: Seq<char>, mounts: Seq<Seq<char>>) -> (Option<int>, nat)
    decreases mounts.len(),
{
    if mounts.len() == 0 {
        (None, 0)
    } else {
        let (best, len) = best_mount(path, mounts.drop_last());
        let m = mounts.last();
        if lies_under(path, m) && mount_len(m) > len {
            (Some(mounts.len() - 1), mount_len(m))
        } else {
            (best, len)
        }
    }
}

/// The index of the drive that `path` lies on: of the mount points that
/// the path begins with, without regard to case, the longest.
pub fn get_drive_space_for_path(path: &str, mount_points: &Vec<String>) -> (r: Option<usize>)
    ensures
        match r {
            Some(i) => best_mount(path@, string_views(mount_points@)).0 == Some(i as int) && i
                < mount_points.len(),
            None => best_mount(path@, string_views(mount_points@)).0 is None,
        },
{
    let lower_path = str_to_lowercase(path);
    let p = to_chars(lower_path.as_str());
    let mut best: Option<usize> = None;
    let mut best_len: usize = 0;
    let ghost all = string_views(mount_points@);
    let mut i: usize = 0;
    assert(all.take(0) =~= Seq::<Seq<char>>::empty());
    while i < mount_points.len()
        invariant
            i <= mount_points.len(),
            all == string_views(mount_points@),
            p@ == unicode_lowercase(path@),
            best_mount(path@, all.take(i as int)).1 == best_len,
            match best {
                Some(b) => best_mount(path@, all.take(i as int)).0 == Some(b as int) && b < i,
                None => best_mount(path@, all.take(i as int)).0 is None,
            },
        decreases mount_points.len() - i,
    {
        proof {
            assert(all.take(i + 1).drop_last() =~= all.take(i as int));
            assert(all.take(i + 1).last() == mount_points@[i as int]@);
        }
        let lower = str_to_lowercase(mount_points[i].as_str());
        let m = to_chars(lower.as_str());
        let len = lower.as_str().as_bytes().len();
        assert(len == mount_len(mount_points@[i as int]@));
        if matches_at(&p, &m, 0) && len > best_len {
            best_len = len;
            best = Some(i);
        }
        i += 1;
    }
    assert(all.take(mount_points.len() as int) =~= all);
    best
}

} // verus!
