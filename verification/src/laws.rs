//! The laws of the library, proved once and for all: serializing then
//! parsing is the identity on well-formed item sets; read-only overrides
//! survive every merge; saving an empty item set removes the trailing tag;
//! and a nonstandard leading block never survives a save.

use vstd::prelude::*;

use vstd::bytes::{spec_u32_from_le_bytes, spec_u32_to_le_bytes};

use crate::ape::{
    item_model_wf, spec_flag_has_footer, spec_flag_has_header, spec_flag_is_header,
    spec_flag_read_only, spec_item_flags, spec_kind_of_flags, ItemKind, TagItemModel,
};
use crate::ape_bytes::{
    lemma_block_record_len, lemma_item_bytes_len, lemma_items_bytes_len_lower, spec_block_record,
    spec_footer_bytes, spec_footer_flags, spec_header_bytes, spec_header_flags, spec_item_bytes,
    spec_items_bytes, spec_preamble, spec_tag_bytes, APE_VERSION,
};
use crate::ape_parse::{
    lemma_find_nul_characterize, spec_fields_at, spec_parse_item, spec_parse_items, spec_parse_tag,
    spec_preamble_at, BlockFields, TagModel,
};
use crate::ape_locate::{lemma_read_only_filter_push, spec_read_only_filter};
use crate::ape_write::{
    lemma_keep_unmatched_push, spec_apply_edits, spec_has_key, spec_keep_unmatched, spec_merge,
};
use crate::error::LoftyError;

verus! {

/// An item's flag word decodes back to exactly its kind and its read-only
/// flag.
pub proof fn lemma_item_flags_round_trip(kind: ItemKind, read_only: bool)
    ensures
        spec_kind_of_flags(spec_item_flags(kind, read_only)) == Some(kind),
        spec_flag_read_only(spec_item_flags(kind, read_only)) == read_only,
{
    let base: u32 = match kind {
        ItemKind::Text => 0u32,
        ItemKind::Binary => 2u32,
        ItemKind::Locator => 4u32,
    };
    let r: u32 = if read_only {
        1u32
    } else {
        0u32
    };
    assert(spec_item_flags(kind, read_only) == (base | r));
    assert((base == 0 || base == 2 || base == 4) && r <= 1 ==> (((base | r) >> 1) & 3 == base >> 1
        && (base | r) & 1 == r)) by (bit_vector);
    assert(0u32 >> 1 == 0 && 2u32 >> 1 == 1 && 4u32 >> 1 == 2) by (bit_vector);
}

/// What the named bit predicates say of the footer and header flag words:
/// both carry the has-header and has-footer bits and the read-only bit as
/// given, and they differ exactly in the header bit.
pub proof fn lemma_block_flags_facts(read_only: bool)
    ensures
        spec_flag_read_only(spec_footer_flags(read_only)) == read_only,
        spec_flag_has_header(spec_footer_flags(read_only)),
        spec_flag_has_footer(spec_footer_flags(read_only)),
        !spec_flag_is_header(spec_footer_flags(read_only)),
        spec_flag_read_only(spec_header_flags(read_only)) == read_only,
        spec_flag_has_header(spec_header_flags(read_only)),
        spec_flag_has_footer(spec_header_flags(read_only)),
        spec_flag_is_header(spec_header_flags(read_only)),
{
    let r: u32 = if read_only {
        1u32
    } else {
        0u32
    };
    assert(r <= 1 ==> {
        &&& ((1u32 << 30) | (1u32 << 31) | r) & 1 == r
        &&& ((1u32 << 30) | (1u32 << 31) | r) & 0x8000_0000 != 0
        &&& ((1u32 << 30) | (1u32 << 31) | r) & 0x4000_0000 != 0
        &&& ((1u32 << 30) | (1u32 << 31) | r) & 0x2000_0000 == 0
        &&& ((1u32 << 29) | (1u32 << 30) | (1u32 << 31) | r) & 1 == r
        &&& ((1u32 << 29) | (1u32 << 30) | (1u32 << 31) | r) & 0x8000_0000 != 0
        &&& ((1u32 << 29) | (1u32 << 30) | (1u32 << 31) | r) & 0x4000_0000 != 0
        &&& ((1u32 << 29) | (1u32 << 30) | (1u32 << 31) | r) & 0x2000_0000 != 0
    }) by (bit_vector);
}

/// A 32-byte record embedded in a buffer yields back its preamble and its
/// four fields.
pub proof fn lemma_record_fields(b: Seq<u8>, at: int, size_field: u32, count: u32, flags: u32)
    requires
        0 <= at,
        at + 32 <= b.len(),
        b.subrange(at, at + 32) == spec_block_record(size_field, count, flags),
    ensures
        spec_preamble_at(b, at),
        spec_fields_at(b, at) == (BlockFields {
            version: APE_VERSION,
            size: size_field,
            item_count: count,
            flags,
        }),
{
    vstd::bytes::lemma_auto_spec_u32_to_from_le_bytes();
    vstd::bytes::lemma_auto_spec_u64_to_from_le_bytes();
    let rec = spec_block_record(size_field, count, flags);
    assert(spec_u32_to_le_bytes(APE_VERSION).len() == 4);
    assert(spec_u32_to_le_bytes(size_field).len() == 4);
    assert(spec_u32_to_le_bytes(count).len() == 4);
    assert(spec_u32_to_le_bytes(flags).len() == 4);
    assert(vstd::bytes::spec_u64_to_le_bytes(0).len() == 8);
    assert(b.subrange(at, at + 8) =~= rec.subrange(0, 8));
    assert(b.subrange(at + 8, at + 12) =~= rec.subrange(8, 12));
    assert(b.subrange(at + 12, at + 16) =~= rec.subrange(12, 16));
    assert(b.subrange(at + 16, at + 20) =~= rec.subrange(16, 20));
    assert(b.subrange(at + 20, at + 24) =~= rec.subrange(20, 24));
    assert(rec.subrange(0, 8) =~= spec_preamble());
    assert(rec.subrange(8, 12) =~= spec_u32_to_le_bytes(APE_VERSION));
    assert(rec.subrange(12, 16) =~= spec_u32_to_le_bytes(size_field));
    assert(rec.subrange(16, 20) =~= spec_u32_to_le_bytes(count));
    assert(rec.subrange(20, 24) =~= spec_u32_to_le_bytes(flags));
}

/// Parsing the serialized bytes of one well-formed item, whatever follows
/// them, yields that item back and consumes exactly its bytes.
pub proof fn lemma_parse_item_round_trip(it: TagItemModel, rest: Seq<u8>)
    requires
        item_model_wf(it),
    ensures
        spec_parse_item(spec_item_bytes(it) + rest) == Ok::<(TagItemModel, int), LoftyError>(
            (it, spec_item_bytes(it).len() as int),
        ),
{
    vstd::bytes::lemma_auto_spec_u32_to_from_le_bytes();
    lemma_item_bytes_len(it);
    let ib = spec_item_bytes(it);
    let b = ib + rest;
    let klen = it.key.len() as int;
    let vlen = it.value.len() as int;
    assert(spec_u32_to_le_bytes(it.value.len() as u32).len() == 4);
    assert(spec_u32_to_le_bytes(spec_item_flags(it.kind, it.read_only)).len() == 4);
    assert(b.subrange(0, 4) =~= spec_u32_to_le_bytes(it.value.len() as u32));
    assert(b.subrange(4, 8) =~= spec_u32_to_le_bytes(spec_item_flags(it.kind, it.read_only)));
    assert(spec_u32_from_le_bytes(b.subrange(0, 4)) == it.value.len() as u32);
    assert forall|m: int| 8 <= m < 8 + klen implies b[m] != 0 by {
        assert(b[m] == it.key[m - 8]);
        if it.key[m - 8] == 0 {
            assert(it.key.contains(0u8));
        }
    }
    assert(b[8 + klen] == 0);
    lemma_find_nul_characterize(b, 8, 8 + klen);
    let k = 8 + klen;
    assert(b.subrange(8, k) =~= it.key);
    assert(b.subrange(k + 1, k + 1 + vlen) =~= it.value);
    lemma_item_flags_round_trip(it.kind, it.read_only);
    assert(spec_parse_item(b) == Ok::<(TagItemModel, int), LoftyError>((it, ib.len() as int)));
}

/// Parsing the serialized bytes of a well-formed item sequence, with its
/// own count, yields exactly that sequence.
pub proof fn lemma_parse_items_round_trip(items: Seq<TagItemModel>)
    requires
        forall|i: int| 0 <= i < items.len() ==> item_model_wf(#[trigger] items[i]),
    ensures
        spec_parse_items(spec_items_bytes(items), items.len() as int) == Ok::<
            Seq<TagItemModel>,
            LoftyError,
        >(items),
    decreases items.len(),
{
    if items.len() == 0 {
        assert(spec_parse_items(spec_items_bytes(items), 0) == Ok::<Seq<TagItemModel>, LoftyError>(
            Seq::empty(),
        ));
        assert(Seq::<TagItemModel>::empty() =~= items);
    } else {
        let b = spec_items_bytes(items);
        let first = items[0];
        let rest_items = items.drop_first();
        assert(b == spec_item_bytes(first) + spec_items_bytes(rest_items));
        lemma_parse_item_round_trip(first, spec_items_bytes(rest_items));
        lemma_item_bytes_len(first);
        let used = spec_item_bytes(first).len() as int;
        assert(b.skip(used) =~= spec_items_bytes(rest_items));
        assert(forall|i: int| 0 <= i < rest_items.len() ==> item_model_wf(
            #[trigger] rest_items[i],
        ));
        lemma_parse_items_round_trip(rest_items);
        assert(seq![first] + rest_items =~= items);
    }
}

/// Round trip: for any item set the serializer can produce, parsing the
/// serialized bytes yields an identical item set — same items, same
/// order, same read-only flags — and, when there are items at all, the
/// same whole-block read-only flag.
pub proof fn lemma_tag_round_trip(items: Seq<TagItemModel>, read_only: bool)
    requires
        forall|i: int| 0 <= i < items.len() ==> item_model_wf(#[trigger] items[i]),
        spec_items_bytes(items).len() + 32 <= u32::MAX,
    ensures
        spec_parse_tag(spec_tag_bytes(items, read_only)) == Ok::<TagModel, LoftyError>(
            TagModel {
                items,
                read_only: if items.len() == 0 {
                    false
                } else {
                    read_only
                },
            },
        ),
{
    let b = spec_tag_bytes(items, read_only);
    if items.len() == 0 {
        assert(b.len() == 0);
        assert(spec_parse_tag(b)->Ok_0 =~= (TagModel { items, read_only: false }));
    } else {
        let body = spec_items_bytes(items);
        let ghost count = items.len() as u32;
        let size_field = (body.len() + 32) as u32;
        lemma_items_bytes_len_lower(items);
        lemma_block_record_len(size_field, count, spec_header_flags(read_only));
        lemma_block_record_len(size_field, count, spec_footer_flags(read_only));
        assert(b == spec_header_bytes(body.len() as int, items.len() as int, read_only) + body
            + spec_footer_bytes(body.len() as int, items.len() as int, read_only));
        assert(b.len() == 64 + body.len());
        let fb = b.len() - 32;
        assert(b.subrange(0, 32) =~= spec_block_record(size_field, count, spec_header_flags(
            read_only,
        )));
        lemma_record_fields(b, 0, size_field, count, spec_header_flags(read_only));
        assert(b.subrange(fb, fb + 32) =~= spec_block_record(size_field, count, spec_footer_flags(
            read_only,
        )));
        lemma_record_fields(b, fb, size_field, count, spec_footer_flags(read_only));
        assert(b.subrange(32, fb) =~= body);
        lemma_parse_items_round_trip(items);
        lemma_block_flags_facts(read_only);
        assert(spec_fields_at(b, fb).size == b.len() - 32);
        assert(spec_fields_at(b, fb).item_count as int == items.len());
        assert(spec_parse_tag(b)->Ok_0 =~= (TagModel { items, read_only }));
    }
}

/// With nothing read-only, the override filter keeps nothing.
pub proof fn lemma_ro_filter_empty(s: Seq<TagItemModel>)
    requires
        forall|i: int| 0 <= i < s.len() ==> !(#[trigger] s[i]).read_only,
    ensures
        spec_read_only_filter(s) == Seq::<TagItemModel>::empty(),
    decreases s.len(),
{
    reveal(Seq::filter);
    if s.len() > 0 {
        assert(s.drop_last() =~= s.take(s.len() - 1));
        lemma_ro_filter_empty(s.drop_last());
    }
}

/// When no override key matches any item, the merge keeps every item.
pub proof fn lemma_keep_unmatched_all(s: Seq<TagItemModel>, overrides: Seq<TagItemModel>)
    requires
        forall|i: int| 0 <= i < s.len() ==> !spec_has_key(overrides, (#[trigger] s[i]).key),
    ensures
        spec_keep_unmatched(s, overrides) == s,
    decreases s.len(),
{
    reveal(Seq::filter);
    if s.len() > 0 {
        lemma_keep_unmatched_all(s.drop_last(), overrides);
        assert(s.drop_last().push(s.last()) =~= s);
    }
}

/// Two override sets that match the same items of `s` keep the same items.
pub proof fn lemma_keep_unmatched_agrees(
    s: Seq<TagItemModel>,
    ov1: Seq<TagItemModel>,
    ov2: Seq<TagItemModel>,
)
    requires
        forall|i: int| 0 <= i < s.len() ==> spec_has_key(ov1, (#[trigger] s[i]).key) == spec_has_key(
            ov2,
            s[i].key,
        ),
    ensures
        spec_keep_unmatched(s, ov1) == spec_keep_unmatched(s, ov2),
    decreases s.len(),
{
    reveal(Seq::filter);
    if s.len() > 0 {
        lemma_keep_unmatched_agrees(s.drop_last(), ov1, ov2);
    }
}

/// A read-only item stands in the read-only filter of its sequence.
pub proof fn lemma_ro_filter_contains(s: Seq<TagItemModel>, i: int)
    requires
        0 <= i < s.len(),
        s[i].read_only,
    ensures
        spec_read_only_filter(s).contains(s[i]),
    decreases s.len(),
{
    lemma_read_only_filter_push(s.drop_last(), s.last());
    assert(s.drop_last().push(s.last()) =~= s);
    if i == s.len() - 1 {
        let f = spec_read_only_filter(s);
        assert(f.last() == s[i]);
    } else {
        lemma_ro_filter_contains(s.drop_last(), i);
        let f_rest = spec_read_only_filter(s.drop_last());
        let j = choose|j: int| 0 <= j < f_rest.len() && f_rest[j] == s[i];
        if s.last().read_only {
            assert(spec_read_only_filter(s)[j] == s[i]);
        }
    }
}

/// One more override matches a key exactly when an old one does or its own
/// key is that key.
pub proof fn lemma_has_key_push(ov: Seq<TagItemModel>, x: TagItemModel, k: Seq<u8>)
    ensures
        spec_has_key(ov.push(x), k) == (spec_has_key(ov, k) || x.key == k),
{
    if spec_has_key(ov.push(x), k) {
        let j = choose|j: int| 0 <= j < ov.push(x).len() && ov.push(x)[j].key == k;
        if j < ov.len() {
            assert(ov[j].key == k);
        }
    }
    if spec_has_key(ov, k) {
        let j = choose|j: int| 0 <= j < ov.len() && ov[j].key == k;
        assert(ov.push(x)[j].key == k);
    }
    if x.key == k {
        assert(ov.push(x)[ov.len() as int].key == k);
    }
}

/// Appending a read-only item does not change which keys of the remaining
/// items the override set matches.
proof fn lemma_step_agreement(rest: Seq<TagItemModel>, last: TagItemModel)
    requires
        last.read_only,
        forall|i: int|
            0 <= i < rest.len() && !(#[trigger] rest[i]).read_only ==> rest[i].key != last.key,
    ensures
        forall|i: int|
            0 <= i < rest.len() ==> spec_has_key(
                spec_read_only_filter(rest).push(last),
                (#[trigger] rest[i]).key,
            ) == spec_has_key(spec_read_only_filter(rest), rest[i].key),
{
    let ov_rest = spec_read_only_filter(rest);
    assert forall|i: int| 0 <= i < rest.len() implies spec_has_key(
        ov_rest.push(last),
        (#[trigger] rest[i]).key,
    ) == spec_has_key(ov_rest, rest[i].key) by {
        lemma_has_key_push(ov_rest, last, rest[i].key);
        if rest[i].read_only {
            lemma_ro_filter_contains(rest, i);
            let m = choose|m: int| 0 <= m < ov_rest.len() && ov_rest[m] == rest[i];
            assert(ov_rest[m].key == rest[i].key);
            assert(spec_has_key(ov_rest, rest[i].key));
        } else {
            assert(rest[i].key != last.key);
        }
    }
}

/// One inductive step of the merge-identity proof: appending one more
/// read-only item, whose key no writable item shares, extends the
/// override set by it and keeps the kept items unchanged.
proof fn lemma_merge_identity_step(rest: Seq<TagItemModel>, last: TagItemModel)
    requires
        last.read_only,
        forall|i: int|
            0 <= i < rest.len() && !(#[trigger] rest[i]).read_only ==> rest[i].key != last.key,
    ensures
        spec_read_only_filter(rest.push(last)) == spec_read_only_filter(rest).push(last),
        spec_keep_unmatched(rest.push(last), spec_read_only_filter(rest.push(last)))
            == spec_keep_unmatched(rest, spec_read_only_filter(rest)),
{
    let items = rest.push(last);
    lemma_read_only_filter_push(rest, last);
    let ov = spec_read_only_filter(items);
    let ov_rest = spec_read_only_filter(rest);
    assert(ov == ov_rest.push(last));
    lemma_step_agreement(rest, last);
    lemma_keep_unmatched_agrees(rest, ov, ov_rest);
    lemma_keep_unmatched_push(rest, ov, last);
    assert(spec_has_key(ov, last.key)) by {
        assert(ov[ov.len() - 1].key == last.key);
    }
    assert(spec_keep_unmatched(items, ov) == spec_keep_unmatched(rest, ov_rest));
}

/// Re-saving without item changes is the identity: when the read-only
/// items stand after every writable item and share no key with one, the
/// merge of the item set with its own read-only overrides is the item set
/// itself, so the serialized tag bytes come out byte-identical.
pub proof fn lemma_resave_preserves_tag_bytes(items: Seq<TagItemModel>, read_only: bool)
    requires
        forall|i: int, j: int|
            0 <= i < j < items.len() && (#[trigger] items[i]).read_only ==> (
            #[trigger] items[j]).read_only,
        forall|i: int, j: int|
            0 <= i < items.len() && 0 <= j < items.len() && !(#[trigger] items[i]).read_only && (
            #[trigger] items[j]).read_only ==> items[i].key != items[j].key,
    ensures
        spec_merge(items, spec_read_only_filter(items)) == items,
        spec_tag_bytes(spec_merge(items, spec_read_only_filter(items)), read_only)
            == spec_tag_bytes(items, read_only),
    decreases items.len(),
{
    if items.len() == 0 {
        lemma_ro_filter_empty(items);
        lemma_keep_unmatched_all(items, spec_read_only_filter(items));
        assert(spec_merge(items, spec_read_only_filter(items)) =~= items);
    } else {
        let last = items.last();
        let rest = items.drop_last();
        assert(rest.push(last) =~= items);
        assert(forall|i: int| 0 <= i < rest.len() ==> rest[i] == items[i]);
        if last.read_only {
            lemma_resave_preserves_tag_bytes(rest, read_only);
            assert forall|i: int|
                0 <= i < rest.len() && !(#[trigger] rest[i]).read_only implies rest[i].key
                != last.key by {
                assert(items[i].key != items[items.len() - 1].key);
            }
            lemma_merge_identity_step(rest, last);
            let ov = spec_read_only_filter(items);
            let ov_rest = spec_read_only_filter(rest);
            let kept = spec_keep_unmatched(rest, ov_rest);
            assert(spec_merge(items, ov) == kept + ov_rest.push(last));
            assert(kept + ov_rest.push(last) =~= (kept + ov_rest).push(last));
            assert(spec_merge(items, ov) =~= items);
        } else {
            // No item after a writable one may be read-only, so nothing is.
            assert forall|i: int| 0 <= i < items.len() implies !(
            #[trigger] items[i]).read_only by {
                if items[i].read_only {
                    assert(items[items.len() - 1].read_only);
                }
            }
            lemma_ro_filter_empty(items);
            let ov = spec_read_only_filter(items);
            assert(forall|i: int| 0 <= i < items.len() ==> !spec_has_key(
                ov,
                (#[trigger] items[i]).key,
            ));
            lemma_keep_unmatched_all(items, ov);
            assert(spec_merge(items, ov) =~= items);
        }
    }
}

/// Read-only protection: every override item stands verbatim, in order,
/// at the tail of the merged item set, whatever the caller supplied.
pub proof fn lemma_read_only_survives_merge(
    caller: Seq<TagItemModel>,
    overrides: Seq<TagItemModel>,
)
    ensures
        spec_merge(caller, overrides).len() >= overrides.len(),
        spec_merge(caller, overrides).skip(
            spec_merge(caller, overrides).len() - overrides.len(),
        ) == overrides,
        forall|x: TagItemModel| overrides.contains(x) ==> #[trigger] spec_merge(
            caller,
            overrides,
        ).contains(x),
{
    let kept = spec_keep_unmatched(caller, overrides);
    let merged = spec_merge(caller, overrides);
    assert(merged.skip(kept.len() as int) =~= overrides);
    assert forall|x: TagItemModel| overrides.contains(x) implies #[trigger] merged.contains(
        x,
    ) by {
        let j = choose|j: int| 0 <= j < overrides.len() && overrides[j] == x;
        assert(merged[kept.len() + j] == x);
    }
}

/// Removing a tag: zero items serialize to zero bytes, and saving that
/// over a file with an existing trailing block leaves exactly the file
/// without the block.
pub proof fn lemma_empty_save_removes_tag(b: Seq<u8>, ts: int, te: int, read_only: bool)
    requires
        0 <= ts <= te <= b.len(),
    ensures
        spec_tag_bytes(Seq::empty(), read_only).len() == 0,
        spec_apply_edits(b, None, Some((ts, te)), te, spec_tag_bytes(Seq::empty(), read_only))
            == b.take(ts) + b.skip(te),
{
    assert(spec_apply_edits(b, None, Some((ts, te)), te, spec_tag_bytes(Seq::empty(), read_only))
        =~= b.take(ts) + b.skip(te));
}

/// A block found at the nonstandard leading position is absent from the
/// rewritten buffer: the result is exactly the bytes before it, the bytes
/// between it and the insertion point, the new tag, and the bytes after —
/// even when no trailing tag existed beforehand.
pub proof fn lemma_leading_block_removed(b: Seq<u8>, ls: int, le: int, ia: int, tag: Seq<u8>)
    requires
        0 <= ls <= le <= ia <= b.len(),
    ensures
        spec_apply_edits(b, Some((ls, le)), None, ia, tag) == b.take(ls) + b.subrange(le, ia) + tag
            + b.skip(ia),
{
    assert(spec_apply_edits(b, Some((ls, le)), None, ia, tag) =~= b.take(ls) + b.subrange(le, ia)
        + tag + b.skip(ia));
}

} // verus!
