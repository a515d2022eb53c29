//! Serializing a final item set into the exact on-disk byte sequence:
//! items in order, a 32-byte footer, and the header copy prepended. An
//! empty item set serializes to no bytes at all, which is how a tag is
//! removed on rewrite; an item set whose size field would overflow 32 bits
//! is rejected before any byte is produced.

use vstd::prelude::*;

use crate::ape::{items_view, spec_item_flags, ApeTag, ItemKind};
use crate::ape_bytes::{
    lemma_block_record_len, lemma_item_bytes_len, lemma_items_bytes_len_lower,
    lemma_items_bytes_push, lemma_items_bytes_split, preamble, spec_block_record,
    spec_footer_bytes, spec_footer_flags, spec_header_bytes, spec_header_flags, spec_item_bytes,
    spec_items_bytes, spec_tag_bytes, APE_VERSION,
};
use crate::byte_order::{u32_to_le_vec, u64_to_le_vec};
use crate::error::LoftyError;

verus! {

/// The flag word of one item: bit 0 the read-only flag, bits 1-2 the
/// value kind.
pub fn item_flags(kind: ItemKind, read_only: bool) -> (r: u32)
    ensures
        r == spec_item_flags(kind, read_only),
{
    let base: u32 = match kind {
        ItemKind::Text => 0u32,
        ItemKind::Binary => 2u32,
        ItemKind::Locator => 4u32,
    };
    base | (if read_only {
        1u32
    } else {
        0u32
    })
}

/// The flag word of the footer copy of a block.
pub fn footer_flags(read_only: bool) -> (r: u32)
    ensures
        r == spec_footer_flags(read_only),
{
    (1u32 << 30) | (1u32 << 31) | (if read_only {
        1u32
    } else {
        0u32
    })
}

/// The flag word of the header copy of a block.
pub fn header_flags(read_only: bool) -> (r: u32)
    ensures
        r == spec_header_flags(read_only),
{
    (1u32 << 29) | (1u32 << 30) | (1u32 << 31) | (if read_only {
        1u32
    } else {
        0u32
    })
}

/// One 32-byte header/footer record.
fn block_record(size_field: u32, count: u32, flags: u32) -> (r: Vec<u8>)
    ensures
        r@ == spec_block_record(size_field, count, flags),
        r@.len() == 32,
{
    let mut out = preamble();
    let mut version = u32_to_le_vec(APE_VERSION);
    out.append(&mut version);
    let mut size = u32_to_le_vec(size_field);
    out.append(&mut size);
    let mut cnt = u32_to_le_vec(count);
    out.append(&mut cnt);
    let mut flg = u32_to_le_vec(flags);
    out.append(&mut flg);
    let mut reserved = u64_to_le_vec(0);
    out.append(&mut reserved);
    proof {
        lemma_block_record_len(size_field, count, flags);
        assert(out@ =~= spec_block_record(size_field, count, flags));
    }
    out
}

/// Serializes the item set into the exact tag bytes: nothing for an empty
/// set; otherwise header, items in order, footer. Fails with
/// `TooMuchData`, producing nothing, exactly when the size field — the
/// serialized items plus the 32-byte footer — would exceed the largest
/// 32-bit value.
pub fn create_ape_tag(tag: &ApeTag) -> (r: Result<Vec<u8>, LoftyError>)
    ensures
        r is Ok <==> (tag.items@.len() == 0 || spec_items_bytes(items_view(tag.items@)).len() + 32
            <= u32::MAX),
        r matches Ok(v) ==> v@ == spec_tag_bytes(items_view(tag.items@), tag.read_only),
        r matches Err(e) ==> e == LoftyError::TooMuchData,
{
    let ghost iv = items_view(tag.items@);
    let n = tag.items.len();
    if n == 0 {
        let out: Vec<u8> = Vec::new();
        proof {
            assert(out@ =~= spec_tag_bytes(iv, tag.read_only));
        }
        return Ok(out);
    }
    // First pass: the exact serialized size of the items, so that the
    // overflow guard fires before any byte is produced.
    let mut total: u64 = 0;
    let mut i: usize = 0;
    while i < n
        invariant
            0 <= i <= n,
            n == tag.items@.len(),
            iv == items_view(tag.items@),
            total == spec_items_bytes(iv.take(i as int)).len(),
        decreases n - i,
    {
        let it = &tag.items[i];
        proof {
            lemma_items_bytes_split(iv, i as int);
            lemma_items_bytes_push(iv.take(i as int), iv[i as int]);
            lemma_item_bytes_len(iv[i as int]);
            assert(iv.take(i + 1) =~= iv.take(i as int).push(iv[i as int]));
        }
        let step_ok = match total.checked_add(9) {
            Some(t) => match t.checked_add(it.key.len() as u64) {
                Some(t2) => match t2.checked_add(it.value.len() as u64) {
                    Some(t3) => {
                        total = t3;
                        true
                    },
                    None => false,
                },
                None => false,
            },
            None => false,
        };
        if !step_ok {
            proof {
                lemma_items_bytes_split(iv, i + 1);
                assert(spec_items_bytes(iv).len() >= spec_items_bytes(iv.take(i + 1)).len());
            }
            return Err(LoftyError::TooMuchData);
        }
        i += 1;
    }
    proof {
        assert(iv.take(n as int) =~= iv);
    }
    if total > 0xFFFF_FFFFu64 - 32 {
        return Err(LoftyError::TooMuchData);
    }
    let size_field: u32 = (total as u32) + 32;
    proof {
        lemma_items_bytes_len_lower(iv);
    }
    let count: u32 = n as u32;

    // Second pass: emit the items.
    let mut body: Vec<u8> = Vec::new();
    let mut j: usize = 0;
    while j < n
        invariant
            0 <= j <= n,
            n == tag.items@.len(),
            iv == items_view(tag.items@),
            spec_items_bytes(iv).len() + 32 <= u32::MAX,
            body@ == spec_items_bytes(iv.take(j as int)),
        decreases n - j,
    {
        let it = &tag.items[j];
        proof {
            lemma_items_bytes_split(iv, j as int);
            assert(iv.skip(j as int)[0] == iv[j as int]);
            lemma_item_bytes_len(iv[j as int]);
        }
        let vlen: u32 = it.value.len() as u32;
        let mut le = u32_to_le_vec(vlen);
        body.append(&mut le);
        let flags = item_flags(it.kind, it.read_only);
        let mut fe = u32_to_le_vec(flags);
        body.append(&mut fe);
        let mut kb = it.key.clone();
        proof {
            assert(kb@ =~= it.key@);
        }
        body.append(&mut kb);
        body.push(0);
        let mut vb = it.value.clone();
        proof {
            assert(vb@ =~= it.value@);
        }
        body.append(&mut vb);
        proof {
            lemma_items_bytes_push(iv.take(j as int), iv[j as int]);
            assert(iv.take(j + 1) =~= iv.take(j as int).push(iv[j as int]));
            assert(body@ =~= spec_items_bytes(iv.take(j + 1)));
        }
        j += 1;
    }
    proof {
        assert(iv.take(n as int) =~= iv);
    }

    let mut out = block_record(size_field, count, header_flags(tag.read_only));
    out.append(&mut body);
    let mut footer = block_record(size_field, count, footer_flags(tag.read_only));
    out.append(&mut footer);
    proof {
        assert(out@ =~= spec_tag_bytes(iv, tag.read_only));
    }
    Ok(out)
}

} // verus!
