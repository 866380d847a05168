//! Network destinations: a destination on a mapped drive letter is turned
//! into the share path that `net use` lists for that drive, and the drive
//! is reconnected where `net use` does not report it `OK`.
use vstd::prelude::*;
use crate::text::{
    concat, contains_exec, contains_seq, find_exec, find_spec, lemma_find_at, lemma_find_char,
    lemma_rfind_char, occurs_at, rfind_exec, rfind_spec, slice_chars,
};

verus! {

/// The first two characters of the destination (its drive, such as `Z:`).
pub open spec fn drive_part(destination: Seq<char>) -> Seq<char> {
    destination.take(2)
}

/// What follows the drive in the destination.
pub open spec fn after_drive(destination: Seq<char>) -> Seq<char> {
    destination.skip(2)
}

/// The destination is already a share path: it starts with `\\` and holds no `:`.
pub open spec fn is_share_path(destination: Seq<char>) -> bool {
    drive_part(destination) == seq!['\\', '\\'] && !contains_seq(destination, seq![':'])
}

/// `net use` lists the destination's drive.
pub open spec fn listed_by_net_use(destination: Seq<char>, listing: Seq<char>) -> bool {
    !is_share_path(destination) && contains_seq(listing, drive_part(destination))
}

/// Where the backup goes and whether the drive must be reconnected first.
pub struct NetworkTarget {
    /// The path the copies are made to.
    pub unc: Vec<char>,
    /// `net use` reports the drive as other than `OK`.
    pub reconnect: bool,
}

/// The share path and reconnection need of a drive that `net use` lists:
/// from where the drive is first named, the text from the next `\\` up to
/// the next space, followed by the rest of the destination; and a
/// reconnection where the text from the last line break before the drive's
/// name does not hold `OK`. `None` where one of these marks is missing.
pub open spec fn listed_target(destination: Seq<char>, listing: Seq<char>) -> Option<(Seq<char>, bool)> {
    let p = find_spec(listing, drive_part(destination))->0;
    let from_drive = listing.skip(p);
    match find_spec(from_drive, seq!['\\', '\\']) {
        Some(q) => {
            let from_share = from_drive.skip(q);
            match find_spec(from_share, seq![' ']) {
                Some(r) => {
                    let unc = from_share.take(r) + after_drive(destination);
                    let before = listing.take(p);
                    match rfind_spec(before, seq!['\n']) {
                        Some(n) => Some((unc, !contains_seq(before.skip(n), "OK"@))),
                        None => None,
                    }
                },
                None => None,
            }
        },
        None => None,
    }
}

/// The target of the copies for a destination, given what `net use` printed.
/// `None` where the destination is shorter than three characters or where
/// a listed drive's line lacks one of the marks it is read by.
pub open spec fn network_target_spec(destination: Seq<char>, listing: Seq<char>) -> Option<(Seq<char>, bool)> {
    if destination.len() < 3 {
        None
    } else if listed_by_net_use(destination, listing) {
        listed_target(destination, listing)
    } else {
        Some((destination, false))
    }
}

/// Works out the target of the copies.
pub fn network_target(destination: &[char], listing: &[char]) -> (res: Option<NetworkTarget>)
    ensures
        res is None <==> network_target_spec(destination@, listing@) is None,
        res matches Some(t) ==> network_target_spec(destination@, listing@) == Some(
            (t.unc@, t.reconnect),
        ),
{
    if destination.len() < 3 {
        return None;
    }
    let drive = slice_chars(destination, 0, 2);
    let rest = slice_chars(destination, 2, destination.len());
    assert(destination@.subrange(0, 2) == drive_part(destination@));
    assert(destination@.subrange(2, destination@.len() as int) == after_drive(destination@));
    let two_backslashes: Vec<char> = vec!['\\', '\\'];
    assert(two_backslashes@ =~= seq!['\\', '\\']);
    let colon: Vec<char> = vec![':'];
    assert(colon@ =~= seq![':']);
    let share = drive.len() == 2 && drive[0] == '\\' && drive[1] == '\\' && !contains_exec(
        destination,
        colon.as_slice(),
    );
    assert(share == is_share_path(destination@)) by {
        if drive.len() == 2 && drive[0] == '\\' && drive[1] == '\\' {
            assert(drive@ =~= seq!['\\', '\\']);
        }
    }
    if share {
        return Some(NetworkTarget { unc: slice_chars(destination, 0, destination.len()), reconnect: false });
    }
    let p = match find_exec(listing, drive.as_slice()) {
        Some(p) => p,
        None => {
            assert(destination@.subrange(0, destination@.len() as int) == destination@);
            return Some(NetworkTarget { unc: slice_chars(destination, 0, destination.len()), reconnect: false });
        },
    };
    let from_drive = slice_chars(listing, p, listing.len());
    assert(from_drive@ == listing@.skip(p as int));
    let q = match find_exec(from_drive.as_slice(), two_backslashes.as_slice()) {
        Some(q) => q,
        None => {
            return None;
        },
    };
    let from_share = slice_chars(from_drive.as_slice(), q, from_drive.len());
    assert(from_share@ == from_drive@.skip(q as int));
    let space: Vec<char> = vec![' '];
    assert(space@ =~= seq![' ']);
    let r = match find_exec(from_share.as_slice(), space.as_slice()) {
        Some(r) => r,
        None => {
            return None;
        },
    };
    let share_path = slice_chars(from_share.as_slice(), 0, r);
    assert(share_path@ == from_share@.take(r as int));
    let unc = concat(share_path.as_slice(), rest.as_slice());
    let before = slice_chars(listing, 0, p);
    assert(before@ == listing@.take(p as int));
    let newline: Vec<char> = vec!['\n'];
    assert(newline@ =~= seq!['\n']);
    let n = match rfind_exec(before.as_slice(), newline.as_slice()) {
        Some(n) => n,
        None => {
            return None;
        },
    };
    let status = slice_chars(before.as_slice(), n, before.len());
    assert(status@ == before@.skip(n as int));
    let ok: Vec<char> = vec!['O', 'K'];
    proof {
        reveal_strlit("OK");
    }
    assert(ok@ =~= "OK"@);
    let reconnect = !contains_exec(status.as_slice(), ok.as_slice());
    Some(NetworkTarget { unc, reconnect })
}

/// `net use` names the drive `drive` first at `p`.
pub open spec fn first_named_at(listing: Seq<char>, drive: Seq<char>, p: int) -> bool {
    &&& 0 <= p
    &&& p + 2 <= listing.len()
    &&& listing.subrange(p, p + 2) == drive
    &&& forall|q: int| 0 <= q < p && q + 2 <= listing.len() ==> #[trigger] listing.subrange(q, q + 2) != drive
}

proof fn lemma_first_named(listing: Seq<char>, destination: Seq<char>, p: int)
    requires
        destination.len() >= 3,
        first_named_at(listing, drive_part(destination), p),
    ensures
        find_spec(listing, drive_part(destination)) == Some(p),
{
    let drive = drive_part(destination);
    assert(drive.len() == 2);
    assert forall|q: int| 0 <= q < p implies !#[trigger] occurs_at(listing, drive, q) by {
        if q + 2 <= listing.len() {
            assert(listing.subrange(q, q + 2) != drive);
        }
    }
    lemma_find_at(listing, drive, p);
}

/// A destination whose drive `net use` does not name is kept as it is, and
/// the drive is not reconnected.
pub proof fn lemma_unlisted_destination_kept(destination: Seq<char>, listing: Seq<char>)
    requires
        destination.len() >= 3,
        forall|q: int| 0 <= q && q + 2 <= listing.len() ==> #[trigger] listing.subrange(q, q + 2) != drive_part(destination),
    ensures
        network_target_spec(destination, listing) == Some((destination, false)),
{
    let drive = drive_part(destination);
    assert forall|q: int| !#[trigger] occurs_at(listing, drive, q) by {
        if 0 <= q && q + 2 <= listing.len() {
            assert(listing.subrange(q, q + 2) != drive);
        }
    }
}

/// For a drive that `net use` names (first at `p`), the reconnection is
/// decided by the drive's own line alone: from the last line break `n`
/// before the name, the drive is reconnected exactly when that stretch does
/// not hold `OK`; and the share path is the text from the first `\\` after
/// the name (at `q`) up to the next space (at `r`), followed by the rest of
/// the destination.
pub proof fn lemma_listed_drive(destination: Seq<char>, listing: Seq<char>, p: int, n: int, q: int, r: int)
    requires
        destination.len() >= 3,
        !is_share_path(destination),
        first_named_at(listing, drive_part(destination), p),
        0 <= n < p,
        listing[n] == '\n',
        forall|j: int| n < j < p ==> listing[j] != '\n',
        p <= q,
        q + 2 <= listing.len(),
        listing.subrange(q, q + 2) == seq!['\\', '\\'],
        forall|j: int| p <= j < q ==> #[trigger] listing.subrange(j, j + 2) != seq!['\\', '\\'],
        q <= r < listing.len(),
        listing[r] == ' ',
        forall|j: int| q <= j < r ==> listing[j] != ' ',
    ensures
        network_target_spec(destination, listing) == Some(
            (
                listing.subrange(q, r) + after_drive(destination),
                !contains_seq(listing.subrange(n, p), "OK"@),
            ),
        ),
{
    let drive = drive_part(destination);
    lemma_first_named(listing, destination, p);
    assert(occurs_at(listing, drive, p));
    assert(listed_by_net_use(destination, listing));
    let from_drive = listing.skip(p);
    let bs = seq!['\\', '\\'];
    assert(from_drive.subrange(q - p, q - p + 2) =~= listing.subrange(q, q + 2));
    assert forall|j: int| 0 <= j < q - p implies !#[trigger] occurs_at(from_drive, bs, j) by {
        assert(from_drive.subrange(j, j + 2) =~= listing.subrange(j + p, j + p + 2));
    }
    lemma_find_at(from_drive, bs, q - p);
    let from_share = from_drive.skip(q - p);
    assert(from_share =~= listing.skip(q));
    assert forall|j: int| 0 <= j < r - q implies from_share[j] != ' ' by {
        assert(from_share[j] == listing[q + j]);
    }
    lemma_find_char(from_share, ' ', r - q);
    assert(from_share.take(r - q) =~= listing.subrange(q, r));
    let before = listing.take(p);
    assert forall|j: int| n < j < before.len() implies before[j] != '\n' by {
        assert(before[j] == listing[j]);
    }
    lemma_rfind_char(before, '\n', n);
    assert(before.skip(n) =~= listing.subrange(n, p));
}

} // verus!
