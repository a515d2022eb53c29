//! Locating tag blocks in a file buffer: at most one nonstandard block at
//! the start of the search region (identified by its header record) and at
//! most one standard block ending at the fallback insertion point, which
//! sits just before any trailing legacy blocks. Each located block yields
//! its absolute byte range and its read-only items; the union of the
//! read-only items of both blocks is the authoritative override set.

use vstd::prelude::*;

use crate::ape::{items_view, spec_flag_has_header, TagItem, TagItemModel};
use crate::ape_parse::{
    parse_items, preamble_at, read_block_fields, spec_fields_at, spec_parse_items,
    spec_preamble_at, BlockFields,
};
use crate::error::LoftyError;

verus! {

/// The read-only items of an item sequence, in order.
pub open spec fn spec_read_only_filter(items: Seq<TagItemModel>) -> Seq<TagItemModel> {
    items.filter(|it: TagItemModel| it.read_only)
}

/// Filtering one more item keeps it exactly when it is read-only.
pub proof fn lemma_read_only_filter_push(s: Seq<TagItemModel>, x: TagItemModel)
    ensures
        spec_read_only_filter(s.push(x)) == if x.read_only {
            spec_read_only_filter(s).push(x)
        } else {
            spec_read_only_filter(s)
        },
{
    reveal(Seq::filter);
    assert(s.push(x).drop_last() =~= s);
    assert(s.push(x).last() == x);
}

/// The whole extent of a block whose record declares `f`: the size field
/// counts the items and the footer; the 32-byte header is added exactly
/// when the flag word says the block carries one.
pub open spec fn spec_block_total(f: BlockFields) -> int {
    f.size + (if spec_flag_has_header(f.flags) {
        32int
    } else {
        0int
    })
}

/// What locating the nonstandard leading block at `rs` yields: nothing
/// when the preamble is absent there; otherwise the block's absolute range
/// and its read-only items. Short data fails with `EndOfStream`; a size
/// field below the record size, or a block running past the buffer, with
/// `MalformedSize`.
pub open spec fn spec_locate_leading(b: Seq<u8>, rs: int) -> Result<
    Option<((int, int), Seq<TagItemModel>)>,
    LoftyError,
> {
    if rs + 8 > b.len() {
        Err(LoftyError::EndOfStream)
    } else if !spec_preamble_at(b, rs) {
        Ok(None)
    } else if rs + 32 > b.len() {
        Err(LoftyError::EndOfStream)
    } else {
        let f = spec_fields_at(b, rs);
        if f.size < 32 {
            Err(LoftyError::MalformedSize)
        } else if rs + spec_block_total(f) > b.len() {
            Err(LoftyError::MalformedSize)
        } else {
            match spec_parse_items(b.subrange(rs + 32, rs + f.size), f.item_count as int) {
                Ok(items) => Ok(
                    Some(((rs, rs + spec_block_total(f)), spec_read_only_filter(items))),
                ),
                Err(e) => Err(e),
            }
        }
    }
}

/// What locating the standard block ending at the fallback point `ia`
/// yields: the record is sought 32 bytes back from `ia`; the block's start
/// is `ia` minus its whole extent, and computing it must not underflow.
pub open spec fn spec_locate_trailing(b: Seq<u8>, ia: int) -> Result<
    Option<((int, int), Seq<TagItemModel>)>,
    LoftyError,
> {
    if ia < 32 {
        Err(LoftyError::EndOfStream)
    } else if !spec_preamble_at(b, ia - 32) {
        Ok(None)
    } else {
        let f = spec_fields_at(b, ia - 32);
        if f.size < 32 {
            Err(LoftyError::MalformedSize)
        } else if spec_block_total(f) > ia {
            Err(LoftyError::MalformedSize)
        } else {
            match spec_parse_items(b.subrange(ia - f.size, ia - 32), f.item_count as int) {
                Ok(items) => Ok(
                    Some(((ia - spec_block_total(f), ia), spec_read_only_filter(items))),
                ),
                Err(e) => Err(e),
            }
        }
    }
}

/// Everything the locator finds: the two optional block ranges, the
/// fallback insertion point, and the override set.
#[verifier::ext_equal]
pub struct LocatedModel {
    pub leading: Option<(int, int)>,
    pub trailing: Option<(int, int)>,
    pub insert_at: int,
    pub read_only_items: Seq<TagItemModel>,
}

/// The locator's result over the whole buffer: the leading block is
/// sought at the region start, the trailing block at the fallback point —
/// the buffer's end minus the trailing legacy blocks — and a leading
/// block that would reach past the trailing block's start (or past the
/// fallback point) is rejected as malformed.
pub open spec fn spec_locate(b: Seq<u8>, region_start: int, legacy_len: int) -> Result<
    LocatedModel,
    LoftyError,
>
    recommends
        0 <= region_start,
        0 <= legacy_len <= b.len(),
{
    let ia = b.len() - legacy_len;
    match spec_locate_leading(b, region_start) {
        Err(e) => Err(e),
        Ok(lead) => match spec_locate_trailing(b, ia) {
            Err(e) => Err(e),
            Ok(trail) => {
                let lead_range = match lead {
                    Some((range, _)) => Some(range),
                    None => None,
                };
                let lead_ro = match lead {
                    Some((_, ro)) => ro,
                    None => Seq::empty(),
                };
                let trail_range = match trail {
                    Some((range, _)) => Some(range),
                    None => None,
                };
                let trail_ro = match trail {
                    Some((_, ro)) => ro,
                    None => Seq::empty(),
                };
                let bound = match trail_range {
                    Some((ts, _)) => ts,
                    None => ia,
                };
                let lead_end_ok = match lead_range {
                    Some((_, le)) => le <= bound,
                    None => true,
                };
                if !lead_end_ok {
                    Err(LoftyError::MalformedSize)
                } else {
                    Ok(LocatedModel {
                        leading: lead_range,
                        trailing: trail_range,
                        insert_at: ia,
                        read_only_items: lead_ro + trail_ro,
                    })
                }
            },
        },
    }
}

/// The locator's findings: the optional leading and trailing block
/// ranges (absolute, end-exclusive), the fallback insertion point, and
/// the read-only items of every located block.
pub struct Located {
    pub leading: Option<(usize, usize)>,
    pub trailing: Option<(usize, usize)>,
    pub insert_at: usize,
    pub read_only_items: Vec<TagItem>,
}

/// An optional byte range as mathematical integers.
pub open spec fn spec_range_view(o: Option<(usize, usize)>) -> Option<(int, int)> {
    match o {
        Some((s, e)) => Some((s as int, e as int)),
        None => None,
    }
}

impl View for Located {
    type V = LocatedModel;

    open spec fn view(&self) -> LocatedModel {
        LocatedModel {
            leading: spec_range_view(self.leading),
            trailing: spec_range_view(self.trailing),
            insert_at: self.insert_at as int,
            read_only_items: items_view(self.read_only_items@),
        }
    }
}

/// The read-only items of `items`, copied in order.
pub fn retain_read_only(items: &Vec<TagItem>) -> (r: Vec<TagItem>)
    ensures
        items_view(r@) == spec_read_only_filter(items_view(items@)),
{
    let ghost iv = items_view(items@);
    let mut out: Vec<TagItem> = Vec::new();
    let mut i: usize = 0;
    proof {
        assert(items_view(out@) =~= spec_read_only_filter(iv.take(0)));
    }
    while i < items.len()
        invariant
            0 <= i <= items@.len(),
            iv == items_view(items@),
            items_view(out@) == spec_read_only_filter(iv.take(i as int)),
        decreases items@.len() - i,
    {
        proof {
            assert(iv.take(i + 1).drop_last() =~= iv.take(i as int));
            assert(iv.take(i + 1).last() == iv[i as int]);
            assert(iv[i as int] == items@[i as int]@);
        }
        let it = &items[i];
        proof {
            assert(iv.take(i + 1) =~= iv.take(i as int).push(iv[i as int]));
            lemma_read_only_filter_push(iv.take(i as int), iv[i as int]);
        }
        if it.read_only {
            let ghost prev = items_view(out@);
            out.push(it.duplicate());
            proof {
                assert(items_view(out@) =~= prev.push(iv[i as int]));
            }
        } else {
            proof {
                assert(!iv[i as int].read_only);
            }
        }
        i += 1;
    }
    proof {
        assert(iv.take(items@.len() as int) =~= iv);
    }
    out
}

/// Scans the buffer for the two tag blocks. `region_start` is where the
/// caller's leading-container-tag skip left off; `legacy_len` is how many
/// bytes the two trailing legacy-block skips consumed at the end of the
/// buffer. The result and every failure agree exactly with `spec_locate`.
pub fn locate_tags(file: &Vec<u8>, region_start: usize, legacy_len: usize) -> (r: Result<
    Located,
    LoftyError,
>)
    requires
        legacy_len <= file@.len(),
    ensures
        match spec_locate(file@, region_start as int, legacy_len as int) {
            Ok(m) => r is Ok && (r matches Ok(l) ==> l@ == m),
            Err(e) => r == Result::<Located, LoftyError>::Err(e),
        },
        r matches Ok(l) ==> {
            &&& l.insert_at <= file@.len()
            &&& (l.trailing matches Some((ts, te)) ==> ts <= te && te == l.insert_at)
            &&& (l.leading matches Some((ls, le)) ==> ls <= le && le <= (match l.trailing {
                Some((ts, _)) => ts as int,
                None => l.insert_at as int,
            }))
        },
{
    let flen = file.len();
    let ia = flen - legacy_len;

    // The nonstandard leading placement.
    if region_start > flen || flen - region_start < 8 {
        return Err(LoftyError::EndOfStream);
    }
    let mut leading: Option<(usize, usize)> = None;
    let mut read_only_items: Vec<TagItem> = Vec::new();
    if preamble_at(file, region_start) {
        let f = match read_block_fields(file, region_start) {
            Ok(f) => f,
            Err(e) => {
                return Err(e);
            },
        };
        if f.size < 32 {
            return Err(LoftyError::MalformedSize);
        }
        let total64: u64 = (f.size as u64) + (if crate::ape::flag_has_header(f.flags) {
            32u64
        } else {
            0u64
        });
        if total64 > (flen as u64) - (region_start as u64) {
            return Err(LoftyError::MalformedSize);
        }
        let total = total64 as usize;
        let items = match parse_items(
            file,
            region_start + 32,
            region_start + (f.size as usize),
            f.item_count,
        ) {
            Ok(v) => v,
            Err(e) => {
                return Err(e);
            },
        };
        let mut kept = retain_read_only(&items);
        read_only_items.append(&mut kept);
        leading = Some((region_start, region_start + total));
    }

    // The standard trailing placement, sought back from the fallback point.
    if ia < 32 {
        return Err(LoftyError::EndOfStream);
    }
    let mut trailing: Option<(usize, usize)> = None;
    if preamble_at(file, ia - 32) {
        let f = match read_block_fields(file, ia - 32) {
            Ok(f) => f,
            Err(e) => {
                return Err(e);
            },
        };
        if f.size < 32 {
            return Err(LoftyError::MalformedSize);
        }
        let total64: u64 = (f.size as u64) + (if crate::ape::flag_has_header(f.flags) {
            32u64
        } else {
            0u64
        });
        if total64 > (ia as u64) {
            return Err(LoftyError::MalformedSize);
        }
        let total = total64 as usize;
        let items = match parse_items(file, ia - (f.size as usize), ia - 32, f.item_count) {
            Ok(v) => v,
            Err(e) => {
                return Err(e);
            },
        };
        let mut kept = retain_read_only(&items);
        read_only_items.append(&mut kept);
        trailing = Some((ia - total, ia));
    }

    // The nonstandard block must lie entirely before where the new tag
    // goes, or the ranges cannot be edited from original offsets.
    let bound = match trailing {
        Some((s, _)) => s,
        None => ia,
    };
    match leading {
        Some((_, le)) => {
            if le > bound {
                return Err(LoftyError::MalformedSize);
            }
        },
        None => {},
    }
    let out = Located { leading, trailing, insert_at: ia, read_only_items };
    proof {
        let m = spec_locate(file@, region_start as int, legacy_len as int)->Ok_0;
        assert(out@.read_only_items =~= m.read_only_items);
        assert(out@ =~= m);
    }
    Ok(out)
}

} // verus!
