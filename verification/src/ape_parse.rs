//! Parsing tag blocks back out of bytes: single items, item runs, the
//! 32-byte header/footer records, and a whole serialized block. The spec
//! functions here are the reference the round-trip law is proved against.

use vstd::prelude::*;

use vstd::bytes::spec_u32_from_le_bytes;
use vstd::utf8::valid_utf8;

use crate::ape::{
    items_view, spec_flag_read_only, spec_kind_of_flags, ItemKind, TagItem, TagItemModel,
};
use crate::ape_bytes::{bytes_eq, preamble, spec_preamble};
use crate::byte_order::read_u32_le;
use crate::error::LoftyError;
use crate::text::is_valid_utf8;

verus! {

/// The position of the first NUL byte at or after `i`, if any.
pub open spec fn spec_find_nul(b: Seq<u8>, i: int) -> Option<int>
    decreases b.len() - i,
{
    if i >= b.len() {
        None
    } else if b[i] == 0 {
        Some(i)
    } else {
        spec_find_nul(b, i + 1)
    }
}

/// `spec_find_nul` finds exactly the first NUL: a run of nonzero bytes
/// from `i` up to `j` is skipped, and what stands at `j` decides.
pub proof fn lemma_find_nul_characterize(b: Seq<u8>, i: int, j: int)
    requires
        0 <= i <= j <= b.len(),
        forall|m: int| i <= m < j ==> b[m] != 0,
        j == b.len() || b[j] == 0,
    ensures
        spec_find_nul(b, i) == if j == b.len() {
            Option::<int>::None
        } else {
            Option::<int>::Some(j)
        },
    decreases j - i,
{
    if i < j {
        lemma_find_nul_characterize(b, i + 1, j);
    }
}

/// One item parsed from the front of `b`: the item and how many bytes it
/// used. Fails with `EndOfStream` when the fixed fields, the key's NUL
/// terminator or the declared value length run past the data; with
/// `InvalidEncoding` on the unassigned value kind or on a text or locator
/// value that is not valid UTF-8.
pub open spec fn spec_parse_item(b: Seq<u8>) -> Result<(TagItemModel, int), LoftyError> {
    if b.len() < 8 {
        Err(LoftyError::EndOfStream)
    } else {
        let vlen = spec_u32_from_le_bytes(b.subrange(0, 4)) as int;
        let flags = spec_u32_from_le_bytes(b.subrange(4, 8));
        match spec_find_nul(b, 8) {
            Option::Some(k) => {
                if vlen > b.len() - (k + 1) {
                    Err(LoftyError::EndOfStream)
                } else {
                    match spec_kind_of_flags(flags) {
                        Option::Some(kind) => {
                            let it = TagItemModel {
                                key: b.subrange(8, k),
                                value: b.subrange(k + 1, k + 1 + vlen),
                                kind,
                                read_only: spec_flag_read_only(flags),
                            };
                            if (kind == ItemKind::Text || kind == ItemKind::Locator)
                                && !valid_utf8(it.value) {
                                Err(LoftyError::InvalidEncoding)
                            } else {
                                Ok((it, k + 1 + vlen))
                            }
                        },
                        Option::None => Err(LoftyError::InvalidEncoding),
                    }
                }
            },
            Option::None => Err(LoftyError::EndOfStream),
        }
    }
}

/// Exactly `count` items parsed from all of `b`: fails with
/// `MalformedSize` when the items do not use the region exactly.
pub open spec fn spec_parse_items(b: Seq<u8>, count: int) -> Result<Seq<TagItemModel>, LoftyError>
    decreases count,
{
    if count <= 0 {
        if b.len() == 0 {
            Ok(Seq::empty())
        } else {
            Err(LoftyError::MalformedSize)
        }
    } else {
        match spec_parse_item(b) {
            Ok((it, used)) => match spec_parse_items(b.skip(used), count - 1) {
                Ok(rest) => Ok(seq![it] + rest),
                Err(e) => Err(e),
            },
            Err(e) => Err(e),
        }
    }
}

/// The four fields of a 32-byte header/footer record, read past its
/// eight-byte preamble.
#[derive(Clone, Copy, Debug, PartialEq, Eq, Structural)]
pub struct BlockFields {
    pub version: u32,
    pub size: u32,
    pub item_count: u32,
    pub flags: u32,
}

/// The record fields held at offset `at` of `b`.
pub open spec fn spec_fields_at(b: Seq<u8>, at: int) -> BlockFields
    recommends
        0 <= at,
        at + 32 <= b.len(),
{
    BlockFields {
        version: spec_u32_from_le_bytes(b.subrange(at + 8, at + 12)),
        size: spec_u32_from_le_bytes(b.subrange(at + 12, at + 16)),
        item_count: spec_u32_from_le_bytes(b.subrange(at + 16, at + 20)),
        flags: spec_u32_from_le_bytes(b.subrange(at + 20, at + 24)),
    }
}

/// Whether the eight-byte magic preamble stands at offset `at` of `b`.
pub open spec fn spec_preamble_at(b: Seq<u8>, at: int) -> bool {
    &&& 0 <= at
    &&& at + 8 <= b.len()
    &&& b.subrange(at, at + 8) == spec_preamble()
}

/// Whether the magic preamble stands at offset `at`.
pub fn preamble_at(b: &Vec<u8>, at: usize) -> (r: bool)
    requires
        at + 8 <= b@.len(),
    ensures
        r == spec_preamble_at(b@, at as int),
{
    let n = b.len();
    proof {
        assert(at + 8 <= n);
    }
    let magic = preamble();
    bytes_eq(&b.as_slice()[at..at + 8], magic.as_slice())
}

/// Reads the four record fields at offset `at`. Fails with `EndOfStream`
/// when fewer than 32 bytes remain there.
pub fn read_block_fields(b: &Vec<u8>, at: usize) -> (r: Result<BlockFields, LoftyError>)
    ensures
        r is Ok <==> at + 32 <= b@.len(),
        r matches Ok(f) ==> f == spec_fields_at(b@, at as int),
        r matches Err(e) ==> e == LoftyError::EndOfStream,
{
    if b.len() < 32 || at > b.len() - 32 {
        return Err(LoftyError::EndOfStream);
    }
    let version = read_u32_le(&b.as_slice()[at + 8..at + 12]);
    let size = read_u32_le(&b.as_slice()[at + 12..at + 16]);
    let item_count = read_u32_le(&b.as_slice()[at + 16..at + 20]);
    let flags = read_u32_le(&b.as_slice()[at + 20..at + 24]);
    Ok(BlockFields { version, size, item_count, flags })
}

/// The model of a whole tag: the items in order and the whole-block
/// read-only flag.
#[verifier::ext_equal]
pub struct TagModel {
    pub items: Seq<TagItemModel>,
    pub read_only: bool,
}

/// A whole serialized tag block parsed back: empty bytes are the empty
/// tag; otherwise the block must carry the preamble at both ends, a footer
/// size field counting everything but the header, and exactly the declared
/// items between the two records. The whole-block read-only flag is bit 0
/// of the footer's flag word.
pub open spec fn spec_parse_tag(b: Seq<u8>) -> Result<TagModel, LoftyError> {
    if b.len() == 0 {
        Ok(TagModel { items: Seq::empty(), read_only: false })
    } else if b.len() < 64 {
        Err(LoftyError::EndOfStream)
    } else {
        let fb = b.len() - 32;
        if !spec_preamble_at(b, 0) || !spec_preamble_at(b, fb) {
            Err(LoftyError::MalformedSize)
        } else {
            let f = spec_fields_at(b, fb);
            if f.size != b.len() - 32 {
                Err(LoftyError::MalformedSize)
            } else {
                match spec_parse_items(b.subrange(32, fb), f.item_count as int) {
                    Ok(items) => Ok(
                        TagModel { items, read_only: spec_flag_read_only(f.flags) },
                    ),
                    Err(e) => Err(e),
                }
            }
        }
    }
}

/// Parses a whole serialized tag block. The result and every failure
/// agree exactly with `spec_parse_tag`.
pub fn parse_tag(b: &Vec<u8>) -> (r: Result<(Vec<TagItem>, bool), LoftyError>)
    ensures
        match spec_parse_tag(b@) {
            Ok(m) => {
                &&& r is Ok
                &&& r matches Ok((items, read_only)) ==> items_view(items@) == m.items
                    && read_only == m.read_only
            },
            Err(e) => r == Result::<(Vec<TagItem>, bool), LoftyError>::Err(e),
        },
{
    let n = b.len();
    if n == 0 {
        let out: Vec<TagItem> = Vec::new();
        proof {
            assert(items_view(out@) =~= Seq::<TagItemModel>::empty());
        }
        return Ok((out, false));
    }
    if n < 64 {
        return Err(LoftyError::EndOfStream);
    }
    let fb = n - 32;
    if !preamble_at(b, 0) || !preamble_at(b, fb) {
        return Err(LoftyError::MalformedSize);
    }
    let f = match read_block_fields(b, fb) {
        Ok(f) => f,
        Err(e) => {
            return Err(e);
        },
    };
    if !(f.size as u64 == (n as u64) - 32) {
        return Err(LoftyError::MalformedSize);
    }
    let items = match parse_items(b, 32, fb, f.item_count) {
        Ok(v) => v,
        Err(e) => {
            return Err(e);
        },
    };
    Ok((items, crate::ape::flag_read_only(f.flags)))
}

/// Parses one item from `b` at absolute offset `start`, stopping at `end`.
/// Returns the item and the absolute offset just past it; the result and
/// every failure agree exactly with `spec_parse_item` on that region.
pub fn parse_item(b: &Vec<u8>, start: usize, end: usize) -> (r: Result<(TagItem, usize), LoftyError>)
    requires
        start <= end <= b@.len(),
    ensures
        match spec_parse_item(b@.subrange(start as int, end as int)) {
            Ok((it, used)) => {
                &&& r is Ok
                &&& r matches Ok((rit, rnext)) ==> rit@ == it && rnext == start + used && start
                    < rnext <= end
            },
            Err(e) => r == Result::<(TagItem, usize), LoftyError>::Err(e),
        },
    {
    let ghost sub = b@.subrange(start as int, end as int);
    if end - start < 8 {
        return Err(LoftyError::EndOfStream);
    }
    let vlen = read_u32_le(&b.as_slice()[start..start + 4]);
    let flags = read_u32_le(&b.as_slice()[start + 4..start + 8]);
    proof {
        assert(b@.subrange(start as int, start + 4) =~= sub.subrange(0, 4));
        assert(b@.subrange(start + 4, start + 8) =~= sub.subrange(4, 8));
    }
    // Scan for the key's NUL terminator.
    let mut k: usize = start + 8;
    while k < end && b.as_slice()[k] != 0
        invariant
            start + 8 <= k <= end <= b@.len(),
            forall|m: int| start + 8 <= m < k ==> b@[m] != 0,
        decreases end - k,
    {
        k += 1;
    }
    proof {
        assert forall|m: int| 8 <= m < k - start implies sub[m] != 0 by {
            assert(sub[m] == b@[start + m]);
        }
        if k < end {
            assert(sub[k - start] == b@[k as int]);
        }
        lemma_find_nul_characterize(sub, 8, k - start);
    }
    if k == end {
        return Err(LoftyError::EndOfStream);
    }
    if (vlen as usize) > end - (k + 1) {
        return Err(LoftyError::EndOfStream);
    }
    let kind = if (flags >> 1) & 3 == 0 {
        ItemKind::Text
    } else if (flags >> 1) & 3 == 1 {
        ItemKind::Binary
    } else if (flags >> 1) & 3 == 2 {
        ItemKind::Locator
    } else {
        return Err(LoftyError::InvalidEncoding);
    };
    let key = vstd::slice::slice_to_vec(&b.as_slice()[start + 8..k]);
    let vend = k + 1 + (vlen as usize);
    let value = vstd::slice::slice_to_vec(&b.as_slice()[k + 1..vend]);
    proof {
        assert(key@ =~= sub.subrange(8, k - start));
        assert(value@ =~= sub.subrange(k - start + 1, k - start + 1 + vlen));
    }
    let read_only = flags & 1 == 1;
    if matches!(kind, ItemKind::Text) || matches!(kind, ItemKind::Locator) {
        if !is_valid_utf8(&value) {
            return Err(LoftyError::InvalidEncoding);
        }
    }
    Ok((TagItem { key, value, kind, read_only }, vend))
}

/// Parses exactly `count` items out of `b[start..end]`. The result and
/// every failure agree exactly with `spec_parse_items` on that region.
pub fn parse_items(b: &Vec<u8>, start: usize, end: usize, count: u32) -> (r: Result<
    Vec<TagItem>,
    LoftyError,
>)
    requires
        start <= end <= b@.len(),
    ensures
        match spec_parse_items(b@.subrange(start as int, end as int), count as int) {
            Ok(models) => {
                &&& r is Ok
                &&& r matches Ok(v) ==> items_view(v@) == models
            },
            Err(e) => r == Result::<Vec<TagItem>, LoftyError>::Err(e),
        },
{
    let ghost full = b@.subrange(start as int, end as int);
    let mut out: Vec<TagItem> = Vec::new();
    let mut pos: usize = start;
    let mut i: u32 = 0;
    proof {
        assert(items_view(out@) =~= Seq::<TagItemModel>::empty());
    }
    while i < count
        invariant
            start <= pos <= end <= b@.len(),
            0 <= i <= count,
            full == b@.subrange(start as int, end as int),
            i as int == items_view(out@).len(),
            spec_parse_items(full, count as int) == match spec_parse_items(
                b@.subrange(pos as int, end as int),
                count - i,
            ) {
                Ok(rest) => Ok::<Seq<TagItemModel>, LoftyError>(items_view(out@) + rest),
                Err(e) => Err::<Seq<TagItemModel>, LoftyError>(e),
            },
        decreases count - i,
    {
        let ghost rem = b@.subrange(pos as int, end as int);
        let parsed = parse_item(b, pos, end);
        match parsed {
            Ok((it, next)) => {
                proof {
                    let used = (spec_parse_item(rem)->Ok_0).1;
                    assert(rem.skip(used) =~= b@.subrange(pos + used, end as int));
                }
                let ghost prev = items_view(out@);
                out.push(it);
                proof {
                    assert(items_view(out@) =~= prev.push(it@));
                    let rest_r = spec_parse_items(
                        b@.subrange(next as int, end as int),
                        count - i - 1,
                    );
                    if rest_r is Ok {
                        assert(prev + (seq![it@] + rest_r->Ok_0) =~= items_view(out@)
                            + rest_r->Ok_0);
                    }
                }
                pos = next;
                i += 1;
            },
            Err(e) => {
                return Err(e);
            },
        }
    }
    if pos != end {
        proof {
            assert(b@.subrange(pos as int, end as int).len() != 0);
        }
        return Err(LoftyError::MalformedSize);
    }
    proof {
        assert(b@.subrange(pos as int, end as int).len() == 0);
        assert(items_view(out@) + Seq::<TagItemModel>::empty() =~= items_view(out@));
    }
    Ok(out)
}

} // verus!
