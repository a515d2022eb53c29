//! The exact on-disk byte layout of an APE-style tag block, as spec
//! functions: per item a four-byte little-endian value length, a four-byte
//! flag word, the key bytes, one NUL, the value bytes; then a 32-byte
//! footer, and the same 32 bytes prepended as a header with only the
//! header bit differing.

use vstd::prelude::*;

use vstd::bytes::{spec_u32_to_le_bytes, spec_u64_to_le_bytes};

use crate::ape::{spec_item_flags, ItemKind, TagItemModel};

verus! {

/// The tag version the serializer always writes: an on-disk older version
/// is upgraded on rewrite.
pub const APE_VERSION: u32 = 2000;

/// The fixed eight-byte magic preamble that identifies both the header and
/// the footer copy of a tag block.
pub open spec fn spec_preamble() -> Seq<u8> {
    seq![65u8, 80u8, 69u8, 84u8, 65u8, 71u8, 69u8, 88u8]
}

/// The magic preamble, `APETAGEX`, as bytes.
pub fn preamble() -> (r: Vec<u8>)
    ensures
        r@ == spec_preamble(),
{
    let mut v: Vec<u8> = Vec::new();
    v.push(65);
    v.push(80);
    v.push(69);
    v.push(84);
    v.push(65);
    v.push(71);
    v.push(69);
    v.push(88);
    proof {
        assert(v@ =~= spec_preamble());
    }
    v
}

/// The flag word of the footer copy: bits 30 (has footer) and 31 (has
/// header) set, bit 29 clear, bit 0 the whole-block read-only flag.
pub open spec fn spec_footer_flags(read_only: bool) -> u32 {
    (1u32 << 30) | (1u32 << 31) | (if read_only {
        1u32
    } else {
        0u32
    })
}

/// The flag word of the header copy: byte-identical to the footer's except
/// that bit 29 (this copy is the header) is also set.
pub open spec fn spec_header_flags(read_only: bool) -> u32 {
    (1u32 << 29) | (1u32 << 30) | (1u32 << 31) | (if read_only {
        1u32
    } else {
        0u32
    })
}

/// The serialized bytes of one item.
pub open spec fn spec_item_bytes(it: TagItemModel) -> Seq<u8>
    recommends
        it.value.len() <= u32::MAX,
{
    spec_u32_to_le_bytes(it.value.len() as u32) + spec_u32_to_le_bytes(
        spec_item_flags(it.kind, it.read_only),
    ) + it.key + seq![0u8] + it.value
}

/// The serialized bytes of an item sequence, in order.
pub open spec fn spec_items_bytes(items: Seq<TagItemModel>) -> Seq<u8>
    decreases items.len(),
{
    if items.len() == 0 {
        Seq::empty()
    } else {
        spec_item_bytes(items[0]) + spec_items_bytes(items.drop_first())
    }
}

/// One 32-byte header/footer record: preamble, version, size field, item
/// count, flag word, eight reserved zero bytes.
pub open spec fn spec_block_record(size_field: u32, count: u32, flags: u32) -> Seq<u8> {
    spec_preamble() + spec_u32_to_le_bytes(APE_VERSION) + spec_u32_to_le_bytes(size_field)
        + spec_u32_to_le_bytes(count) + spec_u32_to_le_bytes(flags) + spec_u64_to_le_bytes(0)
}

/// The footer of a tag whose items serialize to `items_len` bytes: its
/// size field counts the items plus the footer itself, never the header.
pub open spec fn spec_footer_bytes(items_len: int, count: int, read_only: bool) -> Seq<u8> {
    spec_block_record((items_len + 32) as u32, count as u32, spec_footer_flags(read_only))
}

/// The header of the same tag: identical to the footer except bit 29 of
/// the flag word.
pub open spec fn spec_header_bytes(items_len: int, count: int, read_only: bool) -> Seq<u8> {
    spec_block_record((items_len + 32) as u32, count as u32, spec_header_flags(read_only))
}

/// The complete serialized tag: nothing at all for an empty item set,
/// else header, items, footer.
pub open spec fn spec_tag_bytes(items: Seq<TagItemModel>, read_only: bool) -> Seq<u8> {
    if items.len() == 0 {
        Seq::empty()
    } else {
        let body = spec_items_bytes(items);
        spec_header_bytes(body.len() as int, items.len() as int, read_only) + body
            + spec_footer_bytes(body.len() as int, items.len() as int, read_only)
    }
}

/// Whether two byte slices hold the same bytes.
pub fn bytes_eq(a: &[u8], b: &[u8]) -> (r: bool)
    ensures
        r == (a@ == b@),
{
    if a.len() != b.len() {
        proof {
            assert(a@.len() != b@.len());
        }
        return false;
    }
    let n = a.len();
    let mut i: usize = 0;
    while i < n
        invariant
            0 <= i <= n,
            n == a@.len(),
            n == b@.len(),
            forall|m: int| 0 <= m < i ==> a@[m] == b@[m],
        decreases n - i,
    {
        if a[i] != b[i] {
            return false;
        }
        i += 1;
    }
    proof {
        assert(a@ =~= b@);
    }
    true
}

/// A 32-byte record is 32 bytes long.
pub proof fn lemma_block_record_len(size_field: u32, count: u32, flags: u32)
    ensures
        spec_block_record(size_field, count, flags).len() == 32,
{
    vstd::bytes::lemma_auto_spec_u32_to_from_le_bytes();
    vstd::bytes::lemma_auto_spec_u64_to_from_le_bytes();
}

/// The serialized bytes of one well-sized item: nine fixed bytes plus the
/// key and the value.
pub proof fn lemma_item_bytes_len(it: TagItemModel)
    ensures
        spec_item_bytes(it).len() == 9 + it.key.len() + it.value.len(),
{
    vstd::bytes::lemma_auto_spec_u32_to_from_le_bytes();
}

/// Serializing one more item appends its bytes.
pub proof fn lemma_items_bytes_push(items: Seq<TagItemModel>, it: TagItemModel)
    ensures
        spec_items_bytes(items.push(it)) == spec_items_bytes(items) + spec_item_bytes(it),
    decreases items.len(),
{
    let p = items.push(it);
    assert(p[0] == if items.len() == 0 {
        it
    } else {
        items[0]
    });
    if items.len() == 0 {
        assert(p.drop_first() =~= Seq::<TagItemModel>::empty());
        assert(spec_items_bytes(p) == spec_item_bytes(it) + spec_items_bytes(
            Seq::<TagItemModel>::empty(),
        ));
        assert(spec_items_bytes(p) =~= spec_items_bytes(items) + spec_item_bytes(it));
    } else {
        lemma_items_bytes_push(items.drop_first(), it);
        assert(p.drop_first() =~= items.drop_first().push(it));
        assert(spec_items_bytes(p) == spec_item_bytes(items[0]) + (spec_items_bytes(
            items.drop_first(),
        ) + spec_item_bytes(it)));
        assert(spec_items_bytes(p) =~= spec_items_bytes(items) + spec_item_bytes(it));
    }
}

/// The serialized items split anywhere into the bytes of the prefix
/// followed by the bytes of the rest.
pub proof fn lemma_items_bytes_split(items: Seq<TagItemModel>, i: int)
    requires
        0 <= i <= items.len(),
    ensures
        spec_items_bytes(items) == spec_items_bytes(items.take(i)) + spec_items_bytes(
            items.skip(i),
        ),
    decreases i,
{
    if i == 0 {
        assert(items.take(0) =~= Seq::<TagItemModel>::empty());
        assert(items.skip(0) =~= items);
        assert(spec_items_bytes(items) =~= spec_items_bytes(items.take(0)) + spec_items_bytes(
            items.skip(0),
        ));
    } else {
        lemma_items_bytes_split(items.drop_first(), i - 1);
        assert(items.take(i).drop_first() =~= items.drop_first().take(i - 1));
        assert(items.skip(i) =~= items.drop_first().skip(i - 1));
        assert(items.take(i).len() != 0);
        assert(items.take(i)[0] == items[0]);
        assert(spec_items_bytes(items.take(i)) == spec_item_bytes(items[0]) + spec_items_bytes(
            items.drop_first().take(i - 1),
        ));
        assert(spec_items_bytes(items) =~= spec_items_bytes(items.take(i)) + spec_items_bytes(
            items.skip(i),
        ));
    }
}

/// Every item contributes at least its nine fixed bytes, so the item count
/// is bounded by a ninth of the serialized length.
pub proof fn lemma_items_bytes_len_lower(items: Seq<TagItemModel>)
    ensures
        spec_items_bytes(items).len() >= 9 * items.len(),
    decreases items.len(),
{
    if items.len() != 0 {
        lemma_item_bytes_len(items[0]);
        lemma_items_bytes_len_lower(items.drop_first());
    }
}

} // verus!
