//! Metadata engine for IFF/RIFF-style audio containers and APE-style
//! trailer tag blocks: a byte-order-parameterized chunk cursor over an
//! in-memory stream, a locator for tag blocks in a file buffer, a
//! read-only item merger, a byte-exact tag serializer and parser, and a
//! buffer rewriter that applies the computed range edits. The laws the
//! pieces obey — round trip, read-only survival, idempotent re-save,
//! removal semantics — are stated and proved in `laws`.

pub mod ape;
pub mod ape_bytes;
pub mod ape_locate;
pub mod ape_parse;
pub mod ape_serialize;
pub mod ape_write;
pub mod byte_order;
pub mod chunk;
pub mod error;
pub mod laws;
pub mod stream;
pub mod text;
