//! The schema side of the serializer: how a record type is described.
//!
//! A [`RecordSchema`] holds the record's element tag and its fields in
//! declaration order.  Each field carries a role — attribute, text body,
//! flattened text element, or nested child — and, for the scalar roles, a
//! [`TypeDescriptor`] pairing a scalar kind with a cardinality.  A schema is
//! validated once, at construction: an attribute cannot repeat, and a child
//! must nest a record, not a scalar.  The element-shape predicates
//! ([`is_leaf`], [`is_text_bearing`], [`can_self_close`]) are derived from
//! the field set alone and drive the emitter's choice between the
//! self-closing, text-bearing and structural element forms.

use vstd::prelude::*;

verus! {

/// How one scalar value is turned into text.
#[derive(Clone, Copy, Debug, PartialEq, Eq, Structural)]
pub enum ScalarKind {
    /// The value is already text and is emitted verbatim (then escaped by
    /// the writer).
    StringLike,
    /// The value is a truth value, emitted as `true` or `false`.
    Boolean,
    /// The value carries its own canonical rendering, supplied by the
    /// caller, emitted verbatim (then escaped by the writer).
    Displayable,
}

/// How many values a field holds.
#[derive(Clone, Copy, Debug, PartialEq, Eq, Structural)]
pub enum Cardinality {
    /// Always exactly one value.
    Singular,
    /// Zero or one value.
    Optional,
    /// Zero or more values, kept in order.
    Repeated,
}

/// A scalar kind crossed with a cardinality.
#[derive(Clone, Copy, Debug, PartialEq, Eq, Structural)]
pub struct TypeDescriptor {
    pub kind: ScalarKind,
    pub card: Cardinality,
}

/// What a child field nests: either a scalar (which validation rejects) or
/// another record described by its own schema.
pub enum FieldContent {
    Scalar(ScalarKind),
    Record(Box<RecordSchema>),
}

/// One declared field of a record, with its role.
pub enum FieldSchema {
    /// Emitted inline in the start tag as `name="value"`.
    Attribute { name: String, tag: String, ty: TypeDescriptor },
    /// Emitted as the element's character data; the record's own tag closes
    /// it.
    Text { name: String, ty: TypeDescriptor },
    /// Each value emitted as a complete sibling element `<tag>value</tag>`.
    FlattenText { name: String, tag: String, ty: TypeDescriptor },
    /// Each value emitted as a nested element driven by the child's own
    /// schema.
    Child { name: String, card: Cardinality, content: FieldContent },
}

/// The full description of a record type: its element tag and its fields in
/// declaration order.
pub struct RecordSchema {
    pub tag: String,
    pub fields: Vec<FieldSchema>,
}

/// A schema was rejected at construction.
#[derive(Clone, Copy, Debug, PartialEq, Eq, Structural)]
pub enum SchemaError {
    /// An attribute field was declared with `Repeated` cardinality;
    /// attributes cannot repeat.
    InvalidCardinality,
    /// A child field was declared over a scalar; a child must nest a
    /// record.
    InvalidChildType,
}

/// The rule one field must satisfy on its own, not counting nested schemas:
/// the error it breaks, if any.
pub open spec fn field_error(f: FieldSchema) -> Option<SchemaError> {
    match f {
        FieldSchema::Attribute { ty, .. } => if ty.card is Repeated {
            Option::Some(SchemaError::InvalidCardinality)
        } else {
            Option::None
        },
        FieldSchema::Child { content, .. } => match content {
            FieldContent::Scalar(_) => Option::Some(SchemaError::InvalidChildType),
            FieldContent::Record(_) => Option::None,
        },
        _ => Option::None,
    }
}

/// The first error in a schema, walking the fields in declaration order and
/// descending into each child's schema right after checking the child field
/// itself.
pub open spec fn schema_error_of(s: RecordSchema) -> Option<SchemaError>
    decreases s, 0int,
{
    fields_error_of(s.fields, 0)
}

/// The first error among the fields from position `n` on, in order.
pub open spec fn fields_error_of(fields: Vec<FieldSchema>, n: int) -> Option<SchemaError>
    decreases fields, fields.len() - n,
{
    if n < 0 || n >= fields.len() {
        Option::None
    } else {
        match field_error(fields[n]) {
            Option::Some(e) => Option::Some(e),
            Option::None => match fields[n] {
                FieldSchema::Child { content: FieldContent::Record(sub), .. } => match schema_error_of(
                    *sub,
                ) {
                    Option::Some(e) => Option::Some(e),
                    Option::None => fields_error_of(fields, n + 1),
                },
                _ => fields_error_of(fields, n + 1),
            },
        }
    }
}

/// A schema is valid when no field breaks a rule, at any nesting depth.
pub open spec fn schema_valid(s: RecordSchema) -> bool {
    schema_error_of(s) is None
}

/// Whether the schema a record-typed child field nests is itself valid;
/// vacuously true of every other field.
pub open spec fn nested_schema_valid(f: FieldSchema) -> bool {
    match f {
        FieldSchema::Child { content: FieldContent::Record(sub), .. } => schema_valid(*sub),
        _ => true,
    }
}

/// The induction behind [`lemma_valid_field`]: if no error is found from
/// position `k` on, every later field obeys its rule and nests a valid
/// schema.
proof fn lemma_fields_error_none(fields: Vec<FieldSchema>, k: int, i: int)
    requires
        fields_error_of(fields, k) is None,
        0 <= k <= i < fields.len(),
    ensures
        field_error(fields[i]) is None,
        nested_schema_valid(fields[i]),
    decreases i - k,
{
    if i > k {
        lemma_fields_error_none(fields, k + 1, i);
    }
}

/// Validity descends: in a valid schema, every field obeys its rule, and
/// every record-typed child field nests a valid schema.
pub proof fn lemma_valid_field(s: RecordSchema, i: int)
    requires
        schema_valid(s),
        0 <= i < s.fields.len(),
    ensures
        field_error(s.fields[i]) is None,
        nested_schema_valid(s.fields[i]),
{
    lemma_fields_error_none(s.fields, 0, i);
}

/// Whether every field of the record is an attribute: such a record is a
/// leaf element and always self-closes.
pub open spec fn is_leaf(s: RecordSchema) -> bool {
    forall|i: int| 0 <= i < s.fields@.len() ==> (#[trigger] s.fields@[i]) is Attribute
}

/// Whether some field is a text body: such a record is a text element.
pub open spec fn is_text_bearing(s: RecordSchema) -> bool {
    exists|i: int| 0 <= i < s.fields@.len() && (#[trigger] s.fields@[i]) is Text
}

/// Whether one field permits the element to self-close: only a singular
/// child or singular flattened text forces the element open.
pub open spec fn field_allows_self_close(f: FieldSchema) -> bool {
    match f {
        FieldSchema::Child { card, .. } => card is Optional || card is Repeated,
        FieldSchema::FlattenText { ty, .. } => ty.card is Optional || ty.card is Repeated,
        _ => true,
    }
}

/// Whether the record's shape permits the self-closing form when all its
/// content is absent.
pub open spec fn can_self_close(s: RecordSchema) -> bool {
    forall|i: int|
        0 <= i < s.fields@.len() ==> field_allows_self_close(#[trigger] s.fields@[i])
}

/// The resolved shape of a record type, derived once from its field set.
#[derive(Clone, Copy, Debug, PartialEq, Eq, Structural)]
pub struct ElementShape {
    pub is_leaf: bool,
    pub is_text_bearing: bool,
    pub can_self_close: bool,
}

/// A record cannot be a leaf and text-bearing at once: a text field is not
/// an attribute, so the two predicates exclude each other by construction.
pub proof fn lemma_leaf_excludes_text(s: RecordSchema)
    requires
        is_leaf(s),
    ensures
        !is_text_bearing(s),
{
}

impl RecordSchema {
    /// Builds a schema after checking every field, at every nesting depth:
    /// the result is `Err` exactly on the first broken rule in declaration
    /// order, and a schema is only ever handed out valid.
    pub fn new(tag: String, fields: Vec<FieldSchema>) -> (r: Result<RecordSchema, SchemaError>)
        ensures
            match r {
                Result::Ok(s) => {
                    &&& s.tag == tag
                    &&& s.fields == fields
                    &&& schema_valid(s)
                    &&& schema_error_of(RecordSchema { tag, fields }) is None
                },
                Result::Err(e) => schema_error_of(RecordSchema { tag, fields })
                    == Option::Some(e),
            },
    {
        let s = RecordSchema { tag, fields };
        match s.validate() {
            Result::Ok(()) => Result::Ok(s),
            Result::Err(e) => Result::Err(e),
        }
    }

    /// Re-checks an already-built schema; `Err` carries the first broken
    /// rule in declaration order.
    pub fn validate(&self) -> (r: Result<(), SchemaError>)
        ensures
            match r {
                Result::Ok(()) => schema_error_of(*self) is None,
                Result::Err(e) => schema_error_of(*self) == Option::Some(e),
            },
        decreases *self, 1int,
    {
        let n = self.fields.len();
        let mut i: usize = 0;
        while i < n
            invariant
                n == self.fields@.len(),
                i <= n,
                fields_error_of(self.fields, 0) == fields_error_of(self.fields, i as int),
            decreases n - i,
        {
            let f = &self.fields[i];
            match f {
                FieldSchema::Attribute { ty, .. } => {
                    if matches!(ty.card, Cardinality::Repeated) {
                        return Result::Err(SchemaError::InvalidCardinality);
                    }
                },
                FieldSchema::Child { content, .. } => {
                    match content {
                        FieldContent::Scalar(_) => {
                            return Result::Err(SchemaError::InvalidChildType);
                        },
                        FieldContent::Record(sub) => {
                            match sub.validate() {
                                Result::Ok(()) => {},
                                Result::Err(e) => {
                                    return Result::Err(e);
                                },
                            }
                        },
                    }
                },
                _ => {},
            }
            i = i + 1;
        }
        Result::Ok(())
    }

    /// Derives the three shape predicates from the field set.
    pub fn resolve_shape(&self) -> (sh: ElementShape)
        ensures
            sh.is_leaf == is_leaf(*self),
            sh.is_text_bearing == is_text_bearing(*self),
            sh.can_self_close == can_self_close(*self),
    {
        let n = self.fields.len();
        let mut leaf = true;
        let mut text = false;
        let mut closeable = true;
        let mut i: usize = 0;
        while i < n
            invariant
                n == self.fields@.len(),
                i <= n,
                leaf == (forall|j: int|
                    0 <= j < i ==> (#[trigger] self.fields@[j]) is Attribute),
                text == (exists|j: int| 0 <= j < i && (#[trigger] self.fields@[j]) is Text),
                closeable == (forall|j: int|
                    0 <= j < i ==> field_allows_self_close(#[trigger] self.fields@[j])),
            decreases n - i,
        {
            let f = &self.fields[i];
            if !matches!(f, FieldSchema::Attribute { .. }) {
                leaf = false;
            }
            if matches!(f, FieldSchema::Text { .. }) {
                text = true;
            }
            match f {
                FieldSchema::Child { card, .. } => {
                    if matches!(card, Cardinality::Singular) {
                        closeable = false;
                    }
                },
                FieldSchema::FlattenText { ty, .. } => {
                    if matches!(ty.card, Cardinality::Singular) {
                        closeable = false;
                    }
                },
                _ => {},
            }
            i = i + 1;
        }
        ElementShape { is_leaf: leaf, is_text_bearing: text, can_self_close: closeable }
    }
}

} // verus!
