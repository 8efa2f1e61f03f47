//! The entries of a remote directory as they are listed: `.` and `..`
//! left out, directories first, then by lower-cased name, entries that
//! compare equal kept in the order in which the server gave them.
use vstd::prelude::*;
use crate::contracts::file_transfer::{RemoteFileEntry, RemoteFileEntryType};
use crate::services::file_transfer_service::{is_entry_for, listed_name, to_remote_file_entry};
use crate::text::{chars_le, chars_of, lemma_lex_le_total, lemma_lex_le_transitive, lex_le, to_lowercase, unicode_lowercase};

verus! {

pub open spec fn is_directory_entry(e: RemoteFileEntry) -> bool {
    e.entry_type == RemoteFileEntryType::Directory
}

/// `a` may be listed before `b`: a directory before anything else, else
/// by lower-cased name.
pub open spec fn listed_no_later(a: RemoteFileEntry, b: RemoteFileEntry) -> bool {
    ||| is_directory_entry(a) && !is_directory_entry(b)
    ||| is_directory_entry(a) == is_directory_entry(b) && lex_le(
        unicode_lowercase(a.name@),
        unicode_lowercase(b.name@),
    )
}

/// The entries are in listing order.
pub open spec fn in_listing_order(s: Seq<RemoteFileEntry>) -> bool {
    forall|i: int, j: int| 0 <= i < j < s.len() ==> listed_no_later(#[trigger] s[i], #[trigger] s[j])
}

/// `out` holds the entries of `input` rearranged by `p` (`out[k]` is
/// `input[p[k]]`), entries that may come in either order keeping their
/// order in `input`.
pub open spec fn stable_rearrangement(input: Seq<RemoteFileEntry>, out: Seq<RemoteFileEntry>, p: Seq<int>) -> bool {
    &&& p.len() == input.len()
    &&& out.len() == input.len()
    &&& forall|k: int| 0 <= k < p.len() ==> 0 <= #[trigger] p[k] < input.len() && out[k] == input[p[k]]
    &&& forall|k: int, l: int| 0 <= k < l < p.len() ==> #[trigger] p[k] != #[trigger] p[l]
    &&& forall|k: int, l: int|
        0 <= k < l < p.len() && listed_no_later(#[trigger] out[l], #[trigger] out[k]) ==> p[k] < p[l]
}

proof fn lemma_listed_total(a: RemoteFileEntry, b: RemoteFileEntry)
    ensures
        listed_no_later(a, b) || listed_no_later(b, a),
{
    lemma_lex_le_total(unicode_lowercase(a.name@), unicode_lowercase(b.name@));
}

proof fn lemma_listed_transitive(a: RemoteFileEntry, b: RemoteFileEntry, c: RemoteFileEntry)
    requires
        listed_no_later(a, b),
        listed_no_later(b, c),
    ensures
        listed_no_later(a, c),
{
    if is_directory_entry(a) == is_directory_entry(b) && is_directory_entry(b) == is_directory_entry(c) {
        lemma_lex_le_transitive(
            unicode_lowercase(a.name@),
            unicode_lowercase(b.name@),
            unicode_lowercase(c.name@),
        );
    }
}

/// A field-by-field copy of an entry.
fn copy_entry(e: &RemoteFileEntry) -> (r: RemoteFileEntry)
    ensures
        r == *e,
{
    RemoteFileEntry {
        name: e.name.clone(),
        path: e.path.clone(),
        entry_type: e.entry_type,
        size: e.size,
        modified_at: e.modified_at,
    }
}

/// The listing order on keys computed once per entry.
fn key_no_later(a_dir: bool, a_name: &Vec<char>, b_dir: bool, b_name: &Vec<char>) -> (r: bool)
    ensures
        r == ((a_dir && !b_dir) || (a_dir == b_dir && lex_le(a_name@, b_name@))),
{
    if a_dir != b_dir {
        a_dir
    } else {
        chars_le(a_name, b_name)
    }
}

/// The entries in listing order; a stable sort.
#[verifier::spinoff_prover]
pub fn sort_directory_entries(items: Vec<RemoteFileEntry>) -> (r: Vec<RemoteFileEntry>)
    ensures
        in_listing_order(r@),
        exists|p: Seq<int>| stable_rearrangement(items@, r@, p),
{
    let n = items.len();
    let mut dirs: Vec<bool> = Vec::new();
    let mut names: Vec<Vec<char>> = Vec::new();
    let mut i: usize = 0;
    while i < n
        invariant
            n == items.len(),
            i <= n,
            dirs.len() == i,
            names.len() == i,
            forall|k: int| 0 <= k < i ==> #[trigger] dirs@[k] == is_directory_entry(items@[k]),
            forall|k: int| 0 <= k < i ==> (#[trigger] names@[k])@ == unicode_lowercase(items@[k].name@),
        decreases n - i,
    {
        let is_dir = match items[i].entry_type {
            RemoteFileEntryType::Directory => true,
            _ => false,
        };
        dirs.push(is_dir);
        let lowered = to_lowercase(items[i].name.as_str());
        names.push(chars_of(lowered.as_str()));
        i = i + 1;
    }
    let ghost s = items@;
    let mut order: Vec<usize> = Vec::new();
    i = 0;
    while i < n
        invariant
            n == items.len(),
            s == items@,
            i <= n,
            dirs.len() == n,
            names.len() == n,
            forall|k: int| 0 <= k < n ==> #[trigger] dirs@[k] == is_directory_entry(s[k]),
            forall|k: int| 0 <= k < n ==> (#[trigger] names@[k])@ == unicode_lowercase(s[k].name@),
            order.len() == i,
            forall|k: int| 0 <= k < order.len() ==> #[trigger] order@[k] < i,
            forall|k: int, l: int| 0 <= k < l < order.len() ==> #[trigger] order@[k] != #[trigger] order@[l],
            forall|k: int, l: int|
                0 <= k < l < order.len() ==> listed_no_later(
                    s[#[trigger] order@[k] as int],
                    s[#[trigger] order@[l] as int],
                ),
            forall|k: int, l: int|
                0 <= k < l < order.len() && listed_no_later(
                    s[#[trigger] order@[l] as int],
                    s[#[trigger] order@[k] as int],
                ) ==> order@[k] < order@[l],
        decreases n - i,
    {
        let mut pos: usize = order.len();
        while pos > 0 && !key_no_later(
            dirs[order[pos - 1]],
            &names[order[pos - 1]],
            dirs[i],
            &names[i],
        )
            invariant
                n == items.len(),
                s == items@,
                i < n,
                dirs.len() == n,
                names.len() == n,
                forall|k: int| 0 <= k < n ==> #[trigger] dirs@[k] == is_directory_entry(s[k]),
                forall|k: int| 0 <= k < n ==> (#[trigger] names@[k])@ == unicode_lowercase(s[k].name@),
                order.len() == i,
                forall|k: int| 0 <= k < order.len() ==> #[trigger] order@[k] < i,
                pos <= order.len(),
                forall|q: int| pos <= q < order.len() ==> !listed_no_later(s[#[trigger] order@[q] as int], s[i as int]),
            decreases pos,
        {
            pos = pos - 1;
        }
        let ghost old_order = order@;
        proof {
            if pos > 0 {
                let x = s[i as int];
                let y = s[old_order[pos - 1] as int];
                assert(listed_no_later(y, x));
            }
        }
        order.insert(pos, i);
        proof {
            let o = order@;
            let x = s[i as int];
            assert(o == old_order.insert(pos as int, i));
            assert forall|k: int| 0 <= k < o.len() implies #[trigger] o[k] == (if k < pos {
                old_order[k]
            } else if k == pos {
                i
            } else {
                old_order[k - 1]
            }) by {}
            assert forall|k: int| 0 <= k < o.len() implies #[trigger] o[k] < i + 1 by {
                if k < pos {
                    assert(o[k] == old_order[k]);
                } else if k > pos {
                    assert(o[k] == old_order[k - 1]);
                }
            }
            assert forall|k: int, l: int| 0 <= k < l < o.len() implies #[trigger] o[k] != #[trigger] o[l] by {
                if k != pos && l != pos {
                    let k0 = if k < pos { k } else { k - 1 };
                    let l0 = if l < pos { l } else { l - 1 };
                    assert(o[k] == old_order[k0] && o[l] == old_order[l0]);
                } else if k == pos {
                    assert(o[l] == old_order[l - 1]);
                } else {
                    if k < pos {
                        assert(o[k] == old_order[k]);
                    } else {
                        assert(o[k] == old_order[k - 1]);
                    }
                }
            }
            assert forall|k: int, l: int| 0 <= k < l < o.len() implies listed_no_later(
                s[#[trigger] o[k] as int],
                s[#[trigger] o[l] as int],
            ) by {
                if k != pos && l != pos {
                    let k0 = if k < pos { k } else { k - 1 };
                    let l0 = if l < pos { l } else { l - 1 };
                    assert(o[k] == old_order[k0] && o[l] == old_order[l0]);
                } else if l == pos {
                    assert(o[k] == old_order[k]);
                    let y = s[old_order[pos - 1] as int];
                    assert(listed_no_later(y, x));
                    if k < pos - 1 {
                        assert(listed_no_later(s[old_order[k] as int], y));
                        lemma_listed_transitive(s[old_order[k] as int], y, x);
                    }
                } else {
                    assert(o[l] == old_order[l - 1]);
                    let z = s[old_order[l - 1] as int];
                    assert(!listed_no_later(z, x));
                    lemma_listed_total(x, z);
                }
            }
            assert forall|k: int, l: int|
                0 <= k < l < o.len() && listed_no_later(
                    s[#[trigger] o[l] as int],
                    s[#[trigger] o[k] as int],
                ) implies o[k] < o[l] by {
                if k != pos && l != pos {
                    let k0 = if k < pos { k } else { k - 1 };
                    let l0 = if l < pos { l } else { l - 1 };
                    assert(o[k] == old_order[k0] && o[l] == old_order[l0]);
                } else if l == pos {
                    assert(o[k] == old_order[k]);
                } else {
                    assert(o[l] == old_order[l - 1]);
                    let z = s[old_order[l - 1] as int];
                    assert(!listed_no_later(z, x));
                }
            }
        }
        i = i + 1;
    }
    let mut out: Vec<RemoteFileEntry> = Vec::new();
    let mut k: usize = 0;
    while k < n
        invariant
            n == items.len(),
            s == items@,
            order.len() == n,
            forall|j: int| 0 <= j < n ==> #[trigger] order@[j] < n,
            k <= n,
            out.len() == k,
            forall|j: int| 0 <= j < k ==> #[trigger] out@[j] == s[order@[j] as int],
        decreases n - k,
    {
        out.push(copy_entry(&items[order[k]]));
        k = k + 1;
    }
    let ghost p = order@.map_values(|v: usize| v as int);
    proof {
        assert forall|a: int, b: int| 0 <= a < b < n implies listed_no_later(#[trigger] out@[a], #[trigger] out@[b]) by {
            assert(out@[a] == s[order@[a] as int] && out@[b] == s[order@[b] as int]);
        }
        assert forall|a: int, b: int|
            0 <= a < b < n && listed_no_later(#[trigger] out@[b], #[trigger] out@[a]) implies p[a] < p[b] by {
            assert(out@[a] == s[order@[a] as int] && out@[b] == s[order@[b] as int]);
        }
        assert forall|a: int, b: int| 0 <= a < b < p.len() implies #[trigger] p[a] != #[trigger] p[b] by {
            assert(p[a] == order@[a] as int && p[b] == order@[b] as int);
        }
        assert(stable_rearrangement(items@, out@, p));
    }
    out
}


/// What the server reports of one directory entry: its path and the
/// parts of its attributes that the listing shows.
pub struct RemoteDirEntry {
    pub path: String,
    pub perm: Option<u32>,
    pub size: Option<u64>,
    pub mtime: Option<u64>,
}

/// A modification time whose milliseconds fit an `i64`.
pub open spec fn mtime_in_range(raw: RemoteDirEntry) -> bool {
    raw.mtime matches Some(m) ==> i64::MIN <= (m as i64) * 1000 <= i64::MAX
}

/// `kept` is what the interface shows of the reported entries, in the
/// server's order, those without a listed name left out.
pub open spec fn kept_entries(parent_path: Seq<char>, raw: Seq<RemoteDirEntry>, kept: Seq<RemoteFileEntry>) -> bool
    decreases raw.len(),
{
    if raw.len() == 0 {
        kept.len() == 0
    } else {
        let last = raw.last();
        match listed_name(last.path@) {
            Some(_) => {
                &&& kept.len() > 0
                &&& is_entry_for(kept.last(), parent_path, last.path@, last.perm, last.size, last.mtime)
                &&& kept_entries(parent_path, raw.drop_last(), kept.drop_last())
            },
            None => kept_entries(parent_path, raw.drop_last(), kept),
        }
    }
}

/// The listing of a directory from what the server reported: the entries
/// with a listed name, in listing order.
pub fn list_directory_entries(parent_path: &str, raw: &Vec<RemoteDirEntry>) -> (r: Vec<RemoteFileEntry>)
    requires
        forall|i: int| 0 <= i < raw.len() ==> mtime_in_range(#[trigger] raw@[i]),
    ensures
        in_listing_order(r@),
        exists|kept: Seq<RemoteFileEntry>, p: Seq<int>|
            kept_entries(parent_path@, raw@, kept) && stable_rearrangement(kept, r@, p),
{
    let mut kept: Vec<RemoteFileEntry> = Vec::new();
    let mut i: usize = 0;
    assert(raw@.subrange(0, 0) =~= Seq::<RemoteDirEntry>::empty());
    while i < raw.len()
        invariant
            i <= raw.len(),
            forall|j: int| 0 <= j < raw.len() ==> mtime_in_range(#[trigger] raw@[j]),
            kept_entries(parent_path@, raw@.subrange(0, i as int), kept@),
        decreases raw.len() - i,
    {
        let item = &raw[i];
        assert(mtime_in_range(raw@[i as int]));
        let ghost before = kept@;
        match to_remote_file_entry(parent_path, item.path.as_str(), item.perm, item.size, item.mtime) {
            Some(e) => {
                kept.push(e);
                assert(kept@.drop_last() =~= before);
            },
            None => {},
        }
        proof {
            let pre = raw@.subrange(0, i + 1);
            assert(pre.drop_last() =~= raw@.subrange(0, i as int));
            assert(pre.last() == raw@[i as int]);
        }
        i = i + 1;
    }
    assert(raw@.subrange(0, raw.len() as int) =~= raw@);
    let ghost kept_view = kept@;
    let r = sort_directory_entries(kept);
    assert(kept_entries(parent_path@, raw@, kept_view));
    r
}

} // verus!
