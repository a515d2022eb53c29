//! The save path: merge the caller's items with the authoritative
//! read-only override set found on disk, serialize the result, and splice
//! it into the file buffer — replacing the standard trailing block or
//! inserting at the fallback point, and always removing a nonstandard
//! leading block. Both ranges are original, pre-edit offsets; the trailing
//! edit is applied first, which is sound because the leading range lies
//! entirely before it. Nothing is mutated unless every prior step
//! succeeded.

use vstd::prelude::*;

use crate::ape::{items_view, ApeTag, TagItem, TagItemModel};
use crate::ape_bytes::{bytes_eq, spec_items_bytes, spec_tag_bytes};
use crate::ape_locate::{locate_tags, spec_locate, Located};
use crate::ape_serialize::create_ape_tag;
use crate::error::LoftyError;

verus! {

/// Whether some item of `s` has the key `k`.
pub open spec fn spec_has_key(s: Seq<TagItemModel>, k: Seq<u8>) -> bool {
    exists|j: int| 0 <= j < s.len() && s[j].key == k
}

/// The caller's items that no override key matches, in order.
pub open spec fn spec_keep_unmatched(
    caller: Seq<TagItemModel>,
    overrides: Seq<TagItemModel>,
) -> Seq<TagItemModel> {
    caller.filter(|it: TagItemModel| !spec_has_key(overrides, it.key))
}

/// The final item set of a save: every caller item except those whose key
/// an override matches, then every override item verbatim. Read-only
/// protection survives regardless of caller intent.
pub open spec fn spec_merge(
    caller: Seq<TagItemModel>,
    overrides: Seq<TagItemModel>,
) -> Seq<TagItemModel> {
    spec_keep_unmatched(caller, overrides) + overrides
}

/// Keeping one more caller item depends only on whether an override key
/// matches it.
pub proof fn lemma_keep_unmatched_push(
    s: Seq<TagItemModel>,
    overrides: Seq<TagItemModel>,
    x: TagItemModel,
)
    ensures
        spec_keep_unmatched(s.push(x), overrides) == if !spec_has_key(overrides, x.key) {
            spec_keep_unmatched(s, overrides).push(x)
        } else {
            spec_keep_unmatched(s, overrides)
        },
{
    reveal(Seq::filter);
    assert(s.push(x).drop_last() =~= s);
    assert(s.push(x).last() == x);
}

/// Whether some item of `items` has the key `key`.
pub fn contains_key(items: &Vec<TagItem>, key: &Vec<u8>) -> (r: bool)
    ensures
        r == spec_has_key(items_view(items@), key@),
{
    let ghost iv = items_view(items@);
    let mut i: usize = 0;
    while i < items.len()
        invariant
            0 <= i <= items@.len(),
            iv == items_view(items@),
            forall|j: int| 0 <= j < i ==> iv[j].key != key@,
        decreases items@.len() - i,
    {
        if bytes_eq(items[i].key.as_slice(), key.as_slice()) {
            proof {
                assert(iv[i as int].key == key@);
            }
            return true;
        }
        i += 1;
    }
    proof {
        assert(!spec_has_key(iv, key@));
    }
    false
}

/// Merges the caller's items with the override set, as `spec_merge` says.
pub fn merge_items(caller: &Vec<TagItem>, overrides: &Vec<TagItem>) -> (r: Vec<TagItem>)
    ensures
        items_view(r@) == spec_merge(items_view(caller@), items_view(overrides@)),
{
    let ghost cv = items_view(caller@);
    let ghost ov = items_view(overrides@);
    let mut out: Vec<TagItem> = Vec::new();
    let mut i: usize = 0;
    proof {
        assert(items_view(out@) =~= spec_keep_unmatched(cv.take(0), ov));
    }
    while i < caller.len()
        invariant
            0 <= i <= caller@.len(),
            cv == items_view(caller@),
            ov == items_view(overrides@),
            items_view(out@) == spec_keep_unmatched(cv.take(i as int), ov),
        decreases caller@.len() - i,
    {
        proof {
            assert(cv.take(i + 1) =~= cv.take(i as int).push(cv[i as int]));
            lemma_keep_unmatched_push(cv.take(i as int), ov, cv[i as int]);
            assert(cv[i as int] == caller@[i as int]@);
        }
        let it = &caller[i];
        if !contains_key(overrides, &it.key) {
            let ghost prev = items_view(out@);
            out.push(it.duplicate());
            proof {
                assert(items_view(out@) =~= prev.push(cv[i as int]));
            }
        }
        i += 1;
    }
    proof {
        assert(cv.take(caller@.len() as int) =~= cv);
    }
    let mut j: usize = 0;
    while j < overrides.len()
        invariant
            0 <= j <= overrides@.len(),
            cv == items_view(caller@),
            ov == items_view(overrides@),
            items_view(out@) == spec_keep_unmatched(cv, ov) + ov.take(j as int),
        decreases overrides@.len() - j,
    {
        let ghost prev = items_view(out@);
        out.push(overrides[j].duplicate());
        proof {
            assert(ov[j as int] == overrides@[j as int]@);
            assert(items_view(out@) =~= prev.push(ov[j as int]));
            assert(ov.take(j + 1) =~= ov.take(j as int).push(ov[j as int]));
            assert(spec_keep_unmatched(cv, ov) + ov.take(j + 1) =~= (spec_keep_unmatched(cv, ov)
                + ov.take(j as int)).push(ov[j as int]));
        }
        j += 1;
    }
    proof {
        assert(ov.take(overrides@.len() as int) =~= ov);
    }
    out
}

/// The buffer with `b[s..e]` replaced by `insert`.
pub open spec fn spec_splice(b: Seq<u8>, s: int, e: int, insert: Seq<u8>) -> Seq<u8>
    recommends
        0 <= s <= e <= b.len(),
{
    b.take(s) + insert + b.skip(e)
}

/// Both range edits applied to the buffer, from original offsets: the new
/// tag replaces the trailing range (or is inserted at the fallback point
/// when there is none), and the leading range is removed. The trailing
/// edit goes first; the leading range lies strictly before it, so the
/// earlier offsets do not shift.
pub open spec fn spec_apply_edits(
    b: Seq<u8>,
    leading: Option<(int, int)>,
    trailing: Option<(int, int)>,
    insert_at: int,
    tag: Seq<u8>,
) -> Seq<u8> {
    let (ts, te) = match trailing {
        Some(range) => range,
        None => (insert_at, insert_at),
    };
    let (ls, le) = match leading {
        Some(range) => range,
        None => (0int, 0int),
    };
    spec_splice(spec_splice(b, ts, te, tag), ls, le, Seq::empty())
}

/// Applies both edits to a copy of the buffer.
pub fn apply_edits(
    file: &Vec<u8>,
    leading: Option<(usize, usize)>,
    trailing: Option<(usize, usize)>,
    insert_at: usize,
    tag: &Vec<u8>,
) -> (r: Vec<u8>)
    requires
        insert_at <= file@.len(),
        (trailing matches Some((ts, te)) ==> ts <= te <= file@.len()),
        (leading matches Some((ls, le)) ==> ls <= le && le <= (match trailing {
            Some((ts, _)) => ts as int,
            None => insert_at as int,
        })),
    ensures
        r@ == spec_apply_edits(
            file@,
            crate::ape_locate::spec_range_view(leading),
            crate::ape_locate::spec_range_view(trailing),
            insert_at as int,
            tag@,
        ),
{
    let (ts, te) = match trailing {
        Some(range) => range,
        None => (insert_at, insert_at),
    };
    let (ls, le) = match leading {
        Some(range) => range,
        None => (0usize, 0usize),
    };
    let flen = file.len();
    let mut out: Vec<u8> = Vec::new();
    out.extend_from_slice(&file.as_slice()[0..ls]);
    out.extend_from_slice(&file.as_slice()[le..ts]);
    out.extend_from_slice(tag.as_slice());
    out.extend_from_slice(&file.as_slice()[te..flen]);
    proof {
        assert(out@ =~= spec_apply_edits(
            file@,
            crate::ape_locate::spec_range_view(leading),
            crate::ape_locate::spec_range_view(trailing),
            insert_at as int,
            tag@,
        ));
    }
    out
}

/// The whole save pipeline over a file buffer: locate both blocks and the
/// override set, merge, serialize, splice. `region_start` is where the
/// caller's leading-container-tag skip left off; `legacy_len` is how many
/// bytes of trailing legacy blocks the skip collaborators reported. On
/// any failure the buffer is left untouched — file mutation happens only
/// after every prior step succeeds.
pub fn write_to(file: &mut Vec<u8>, region_start: usize, legacy_len: usize, tag: &ApeTag) -> (r:
    Result<(), LoftyError>)
    requires
        legacy_len <= old(file)@.len(),
    ensures
        r is Err ==> final(file)@ == old(file)@,
        match spec_locate(old(file)@, region_start as int, legacy_len as int) {
            Err(e) => r == Result::<(), LoftyError>::Err(e),
            Ok(m) => {
                let merged = spec_merge(items_view(tag.items@), m.read_only_items);
                if merged.len() == 0 || spec_items_bytes(merged).len() + 32 <= u32::MAX {
                    &&& r is Ok
                    &&& final(file)@ == spec_apply_edits(
                        old(file)@,
                        m.leading,
                        m.trailing,
                        m.insert_at,
                        spec_tag_bytes(merged, tag.read_only),
                    )
                } else {
                    r == Result::<(), LoftyError>::Err(LoftyError::TooMuchData)
                }
            },
        },
{
    let loc = match locate_tags(&*file, region_start, legacy_len) {
        Ok(l) => l,
        Err(e) => {
            return Err(e);
        },
    };
    let merged_items = merge_items(&tag.items, &loc.read_only_items);
    let merged = ApeTag { items: merged_items, read_only: tag.read_only };
    let bytes = match create_ape_tag(&merged) {
        Ok(b) => b,
        Err(e) => {
            return Err(e);
        },
    };
    let out = apply_edits(&*file, loc.leading, loc.trailing, loc.insert_at, &bytes);
    *file = out;
    Ok(())
}

} // verus!
