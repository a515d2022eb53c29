//! The data model of an APE-style tag block: items with a key, a typed
//! value and a read-only flag; the whole-block read-only flag; and the
//! named bit predicates of the header/footer flag word, where the header
//! copy differs from the footer by exactly one bit.

use vstd::prelude::*;

use vstd::utf8::valid_utf8;

verus! {

/// What an item's value is: UTF-8 text, a raw binary payload, or a UTF-8
/// locator/URI string. The kind is stored in bits 1-2 of the item's flag
/// word: 0 text, 1 binary, 2 locator.
#[derive(Clone, Copy, Debug, PartialEq, Eq, Structural)]
pub enum ItemKind {
    Text,
    Binary,
    Locator,
}

/// One tag item: a key (arbitrary bytes excluding NUL), a value, the
/// value's kind, and a read-only flag. Once a key is read-only on disk it
/// survives any rewrite regardless of what the caller supplies for it.
#[derive(Debug)]
pub struct TagItem {
    pub key: Vec<u8>,
    pub value: Vec<u8>,
    pub kind: ItemKind,
    pub read_only: bool,
}

/// The mathematical model of a tag item.
#[verifier::ext_equal]
pub struct TagItemModel {
    pub key: Seq<u8>,
    pub value: Seq<u8>,
    pub kind: ItemKind,
    pub read_only: bool,
}

impl View for TagItem {
    type V = TagItemModel;

    open spec fn view(&self) -> TagItemModel {
        TagItemModel { key: self.key@, value: self.value@, kind: self.kind, read_only: self.read_only }
    }
}

/// The models of a sequence of items.
pub open spec fn items_view(s: Seq<TagItem>) -> Seq<TagItemModel> {
    s.map_values(|t: TagItem| t@)
}

/// A well-formed item: the key holds no NUL (the on-disk key is
/// NUL-terminated), the value fits the four-byte length field, and a text
/// or locator value is valid UTF-8.
pub open spec fn item_model_wf(it: TagItemModel) -> bool {
    &&& !it.key.contains(0u8)
    &&& it.value.len() <= u32::MAX
    &&& (it.kind == ItemKind::Text || it.kind == ItemKind::Locator) ==> valid_utf8(it.value)
}

/// An ordered item set with the whole-block read-only flag. Ephemeral:
/// built per scan, consumed by merging and serialization.
#[derive(Debug)]
pub struct ApeTag {
    pub items: Vec<TagItem>,
    pub read_only: bool,
}

impl ApeTag {
    /// Every item is well-formed.
    pub open spec fn wf(&self) -> bool {
        forall|i: int| 0 <= i < self.items@.len() ==> item_model_wf(#[trigger] self.items@[i]@)
    }
}

impl TagItem {
    /// A text item. Fails with `InvalidEncoding` unless the value is
    /// valid UTF-8.
    pub fn text(key: Vec<u8>, value: Vec<u8>, read_only: bool) -> (r: Result<
        TagItem,
        crate::error::LoftyError,
    >)
        requires
            !key@.contains(0u8),
            value@.len() <= u32::MAX,
        ensures
            r is Ok <==> valid_utf8(value@),
            r matches Ok(it) ==> it@ == (TagItemModel {
                key: key@,
                value: value@,
                kind: ItemKind::Text,
                read_only,
            }) && item_model_wf(it@),
    {
        if crate::text::is_valid_utf8(&value) {
            Ok(TagItem { key, value, kind: ItemKind::Text, read_only })
        } else {
            Err(crate::error::LoftyError::InvalidEncoding)
        }
    }

    /// A binary item.
    pub fn binary(key: Vec<u8>, value: Vec<u8>, read_only: bool) -> (r: TagItem)
        requires
            !key@.contains(0u8),
            value@.len() <= u32::MAX,
        ensures
            r@ == (TagItemModel { key: key@, value: value@, kind: ItemKind::Binary, read_only }),
            item_model_wf(r@),
    {
        TagItem { key, value, kind: ItemKind::Binary, read_only }
    }

    /// A locator item. Fails with `InvalidEncoding` unless the value is
    /// valid UTF-8.
    pub fn locator(key: Vec<u8>, value: Vec<u8>, read_only: bool) -> (r: Result<
        TagItem,
        crate::error::LoftyError,
    >)
        requires
            !key@.contains(0u8),
            value@.len() <= u32::MAX,
        ensures
            r is Ok <==> valid_utf8(value@),
            r matches Ok(it) ==> it@ == (TagItemModel {
                key: key@,
                value: value@,
                kind: ItemKind::Locator,
                read_only,
            }) && item_model_wf(it@),
    {
        if crate::text::is_valid_utf8(&value) {
            Ok(TagItem { key, value, kind: ItemKind::Locator, read_only })
        } else {
            Err(crate::error::LoftyError::InvalidEncoding)
        }
    }

    /// An exact copy of the item.
    pub fn duplicate(&self) -> (r: TagItem)
        ensures
            r@ == self@,
    {
        let key = self.key.clone();
        let value = self.value.clone();
        proof {
            assert(key@ =~= self.key@);
            assert(value@ =~= self.value@);
        }
        TagItem { key, value, kind: self.kind, read_only: self.read_only }
    }
}

/// The flag bits of an item: bit 0 read-only, bits 1-2 the value kind.
pub open spec fn spec_item_flags(kind: ItemKind, read_only: bool) -> u32 {
    (match kind {
        ItemKind::Text => 0u32,
        ItemKind::Binary => 2u32,
        ItemKind::Locator => 4u32,
    }) | (if read_only {
        1u32
    } else {
        0u32
    })
}

/// The value kind named by bits 1-2 of an item flag word; `None` for the
/// unassigned kind 3.
pub open spec fn spec_kind_of_flags(flags: u32) -> Option<ItemKind> {
    if (flags >> 1) & 3 == 0 {
        Some(ItemKind::Text)
    } else if (flags >> 1) & 3 == 1 {
        Some(ItemKind::Binary)
    } else if (flags >> 1) & 3 == 2 {
        Some(ItemKind::Locator)
    } else {
        None
    }
}

/// Bit 0 of a flag word: the item or block is read-only.
pub open spec fn spec_flag_read_only(flags: u32) -> bool {
    flags & 1 == 1
}

/// Bit 29 of a block flag word: this copy is the header, not the footer.
pub open spec fn spec_flag_is_header(flags: u32) -> bool {
    flags & 0x2000_0000 != 0
}

/// Bit 30 of a block flag word: the block carries a footer.
pub open spec fn spec_flag_has_footer(flags: u32) -> bool {
    flags & 0x4000_0000 != 0
}

/// Bit 31 of a block flag word: the block carries a header.
pub open spec fn spec_flag_has_header(flags: u32) -> bool {
    flags & 0x8000_0000 != 0
}

/// Whether bit 31 of a block flag word is set.
pub fn flag_has_header(flags: u32) -> (r: bool)
    ensures
        r == spec_flag_has_header(flags),
{
    flags & 0x8000_0000 != 0
}

/// Whether bit 0 of a flag word is set.
pub fn flag_read_only(flags: u32) -> (r: bool)
    ensures
        r == spec_flag_read_only(flags),
{
    flags & 1 == 1
}

} // verus!
