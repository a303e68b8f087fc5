//! The value side of the serializer: the record instances being emitted.
//!
//! An instance mirrors its schema position by position: field `i` of a
//! [`RecordInstance`] holds the values of field `i` of the schema.  A field
//! holds its values as a plain ordered list, whatever its cardinality: a
//! singular field holds exactly one value, an optional field zero or one,
//! a repeated field any number.  [`instance_matches`] states that
//! correspondence; the emitter requires it and tests can check it at run
//! time through [`RecordInstance::matches`].

use vstd::prelude::*;
use vstd::string::StringExecFns;

verus! {

use crate::schema::Cardinality;
use crate::schema::FieldContent;
use crate::schema::FieldSchema;
use crate::schema::RecordSchema;
use crate::schema::ScalarKind;

/// One scalar value, tagged with how it is turned into text.
pub enum Scalar {
    /// Text emitted verbatim.
    StringLike(String),
    /// A truth value, emitted as `true` or `false`.
    Boolean(bool),
    /// A value whose canonical rendering the caller has already produced.
    Displayable(String),
}

/// The values one field holds in one instance: scalars for the attribute,
/// text and flattened-text roles, nested instances for the child role.
pub enum FieldValue {
    Scalars(Vec<Scalar>),
    Records(Vec<RecordInstance>),
}

/// One record value, its fields in schema order.
pub struct RecordInstance {
    pub values: Vec<FieldValue>,
}

/// The text of one scalar value.  A truth value prints as the literal
/// `true` or `false`; the other kinds are the text they hold.
pub open spec fn scalar_text(v: Scalar) -> Seq<char> {
    match v {
        Scalar::StringLike(s) => s@,
        Scalar::Boolean(b) => if b {
            "true"@
        } else {
            "false"@
        },
        Scalar::Displayable(s) => s@,
    }
}

/// Whether a scalar value carries the kind its descriptor declares.
pub open spec fn scalar_has_kind(v: Scalar, k: ScalarKind) -> bool {
    match v {
        Scalar::StringLike(_) => k is StringLike,
        Scalar::Boolean(_) => k is Boolean,
        Scalar::Displayable(_) => k is Displayable,
    }
}

/// Whether `n` values are admissible under a cardinality: a singular field
/// holds exactly one, an optional field at most one, a repeated field any
/// number.
pub open spec fn count_matches(card: Cardinality, n: nat) -> bool {
    match card {
        Cardinality::Singular => n == 1,
        Cardinality::Optional => n <= 1,
        Cardinality::Repeated => true,
    }
}

/// Whether one field's values conform to that field's declaration.
pub open spec fn value_matches_field(f: FieldSchema, v: FieldValue) -> bool
    decreases f, 0int,
{
    match f {
        FieldSchema::Attribute { ty, .. } | FieldSchema::Text { ty, .. } | FieldSchema::FlattenText {
            ty,
            ..
        } => match v {
            FieldValue::Scalars(vs) => count_matches(ty.card, vs.len() as nat) && (forall|i: int|
                0 <= i < vs.len() ==> scalar_has_kind(#[trigger] vs[i], ty.kind)),
            FieldValue::Records(_) => false,
        },
        FieldSchema::Child { card, content, .. } => match content {
            FieldContent::Scalar(_) => false,
            FieldContent::Record(sub) => match v {
                FieldValue::Scalars(_) => false,
                FieldValue::Records(rs) => count_matches(card, rs.len() as nat) && (forall|
                    i: int,
                |
                    0 <= i < rs.len() ==> instance_matches(*sub, #[trigger] rs[i])),
            },
        },
    }
}

/// Whether an instance conforms to a schema: one value list per field, each
/// conforming to its field, children recursively.
pub open spec fn instance_matches(s: RecordSchema, inst: RecordInstance) -> bool
    decreases s, 1int,
{
    inst.values.len() == s.fields.len() && (forall|i: int|
        0 <= i < s.fields.len() ==> value_matches_field(
            #[trigger] s.fields[i],
            #[trigger] inst.values[i],
        ))
}

/// Whether this instance's content is empty, so that a structural element
/// whose shape permits it may self-close: every child and flattened-text
/// field holds no value.  A singular such field always forces content, so
/// any singular child or flattened text makes this false.
pub open spec fn content_is_empty(s: RecordSchema, inst: RecordInstance) -> bool {
    forall|i: int|
        0 <= i < s.fields.len() ==> field_content_empty(
            #[trigger] s.fields[i],
            #[trigger] inst.values[i],
        )
}

/// The per-field emptiness predicate behind [`content_is_empty`]: fields of
/// the attribute and text roles never hold element content and count as
/// empty; a child or flattened-text field is empty when it is not singular
/// and holds no value.
pub open spec fn field_content_empty(f: FieldSchema, v: FieldValue) -> bool {
    match f {
        FieldSchema::Child { card, .. } => !(card is Singular) && value_count(v) == 0,
        FieldSchema::FlattenText { ty, .. } => !(ty.card is Singular) && value_count(v) == 0,
        _ => true,
    }
}

/// How many values a field value holds.
pub open spec fn value_count(v: FieldValue) -> nat {
    match v {
        FieldValue::Scalars(vs) => vs.len() as nat,
        FieldValue::Records(rs) => rs.len() as nat,
    }
}

/// A truth value always prints as the literal `true` or `false`, never as
/// a number or any other form.
pub proof fn lemma_boolean_text(b: bool)
    ensures
        scalar_text(Scalar::Boolean(b)) == if b {
            "true"@
        } else {
            "false"@
        },
{
}

impl Scalar {
    /// Renders this scalar as text, per [`scalar_text`].
    pub fn to_str(&self) -> (r: String)
        ensures
            r@ == scalar_text(*self),
    {
        match self {
            Scalar::StringLike(s) => s.clone(),
            Scalar::Boolean(b) => if *b {
                String::from_str("true")
            } else {
                String::from_str("false")
            },
            Scalar::Displayable(s) => s.clone(),
        }
    }
}

impl RecordInstance {
    /// Checks at run time that this instance conforms to `s`, per
    /// [`instance_matches`].
    pub fn matches(&self, s: &RecordSchema) -> (b: bool)
        ensures
            b == instance_matches(*s, *self),
        decreases *s, 2int,
    {
        let n = s.fields.len();
        if self.values.len() != n {
            return false;
        }
        let mut i: usize = 0;
        while i < n
            invariant
                n == s.fields.len(),
                self.values.len() == n,
                i <= n,
                forall|j: int|
                    0 <= j < i ==> value_matches_field(
                        #[trigger] s.fields[j],
                        #[trigger] self.values[j],
                    ),
            decreases n - i,
        {
            if !field_value_matches(&s.fields[i], &self.values[i]) {
                proof {
                    assert(!value_matches_field(s.fields[i as int], self.values[i as int]));
                }
                return false;
            }
            i = i + 1;
        }
        true
    }
}

/// Checks at run time that one field's values conform to the field's
/// declaration, per [`value_matches_field`].
#[verifier::loop_isolation(false)]
pub fn field_value_matches(f: &FieldSchema, v: &FieldValue) -> (b: bool)
    ensures
        b == value_matches_field(*f, *v),
    decreases *f, 1int,
{
    match f {
        FieldSchema::Attribute { ty, .. } | FieldSchema::Text { ty, .. } | FieldSchema::FlattenText {
            ty,
            ..
        } => match v {
            FieldValue::Scalars(vs) => scalars_match(ty, vs),
            FieldValue::Records(_) => false,
        },
        FieldSchema::Child { card, content, .. } => match content {
            FieldContent::Scalar(_) => false,
            FieldContent::Record(sub) => match v {
                FieldValue::Scalars(_) => false,
                FieldValue::Records(rs) => {
                    proof {
                        assert(decreases_to!(*f => **sub));
                    }
                    if !count_ok(card, rs.len()) {
                        return false;
                    }
                    let n = rs.len();
                    let mut i: usize = 0;
                    while i < n
                        invariant
                            n == rs.len(),
                            i <= n,
                            forall|j: int|
                                0 <= j < i ==> instance_matches(**sub, #[trigger] rs[j]),
                        decreases n - i,
                    {
                        if !rs[i].matches(&**sub) {
                            proof {
                                assert(!instance_matches(**sub, rs[i as int]));
                            }
                            return false;
                        }
                        i = i + 1;
                    }
                    true
                },
            },
        },
    }
}

/// Checks at run time whether an instance's content is empty, per
/// [`content_is_empty`].
pub fn content_empty(s: &RecordSchema, inst: &RecordInstance) -> (b: bool)
    requires
        inst.values.len() == s.fields.len(),
    ensures
        b == content_is_empty(*s, *inst),
{
    let n = s.fields.len();
    let mut i: usize = 0;
    while i < n
        invariant
            n == s.fields.len(),
            inst.values.len() == n,
            i <= n,
            forall|j: int|
                0 <= j < i ==> field_content_empty(#[trigger] s.fields[j], #[trigger] inst.values[j]),
        decreases n - i,
    {
        if !field_empty(&s.fields[i], &inst.values[i]) {
            proof {
                assert(!field_content_empty(s.fields[i as int], inst.values[i as int]));
            }
            return false;
        }
        i = i + 1;
    }
    true
}

/// Checks one field's emptiness, per [`field_content_empty`].
fn field_empty(f: &FieldSchema, v: &FieldValue) -> (b: bool)
    ensures
        b == field_content_empty(*f, *v),
{
    match f {
        FieldSchema::Child { card, .. } => !matches!(card, Cardinality::Singular) && holds_none(v),
        FieldSchema::FlattenText { ty, .. } => !matches!(ty.card, Cardinality::Singular)
            && holds_none(v),
        _ => true,
    }
}

/// Whether a field value holds no value at all.
fn holds_none(v: &FieldValue) -> (b: bool)
    ensures
        b == (value_count(*v) == 0),
{
    match v {
        FieldValue::Scalars(vs) => vs.len() == 0,
        FieldValue::Records(rs) => rs.len() == 0,
    }
}

/// Checks a value count against a cardinality, per [`count_matches`].
fn count_ok(card: &Cardinality, n: usize) -> (b: bool)
    ensures
        b == count_matches(*card, n as nat),
{
    match card {
        Cardinality::Singular => n == 1,
        Cardinality::Optional => n <= 1,
        Cardinality::Repeated => true,
    }
}

/// Checks a scalar list against its descriptor: the count fits the
/// cardinality and every element carries the declared kind.
fn scalars_match(ty: &crate::schema::TypeDescriptor, vs: &Vec<Scalar>) -> (b: bool)
    ensures
        b == (count_matches(ty.card, vs.len() as nat) && (forall|i: int|
            0 <= i < vs.len() ==> scalar_has_kind(#[trigger] vs[i], ty.kind))),
{
    if !count_ok(&ty.card, vs.len()) {
        return false;
    }
    let n = vs.len();
    let mut i: usize = 0;
    while i < n
        invariant
            n == vs.len(),
            i <= n,
            forall|j: int| 0 <= j < i ==> scalar_has_kind(#[trigger] vs[j], ty.kind),
        decreases n - i,
    {
        let ok = match (&vs[i], &ty.kind) {
            (Scalar::StringLike(_), ScalarKind::StringLike) => true,
            (Scalar::Boolean(_), ScalarKind::Boolean) => true,
            (Scalar::Displayable(_), ScalarKind::Displayable) => true,
            _ => false,
        };
        if !ok {
            proof {
                assert(!scalar_has_kind(vs[i as int], ty.kind));
            }
            return false;
        }
        i = i + 1;
    }
    true
}

} // verus!
