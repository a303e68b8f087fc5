//! A data-driven XML serializer.
//!
//! A record type is described once by a [`schema::RecordSchema`]: an element
//! tag plus an ordered list of fields, each field being an attribute, a text
//! body, a flattened text element, or a nested child record.  A value of such
//! a type is a [`value::RecordInstance`].  The emitter in [`emit`] drives an
//! [`writer::XmlWriter`] through the exact call sequence that the schema
//! dictates: attributes first, then either a self-closing end, a text body,
//! or the nested children followed by the flattened text elements.
//!
//! Every emission function carries a contract that pins the produced
//! characters down to a specification-level rendering function, so the shape
//! rules (when an element may self-close, in which order fields appear, how
//! scalars are printed) are proved, not just tested.

pub mod emit;
pub mod schema;
pub mod value;
pub mod writer;
