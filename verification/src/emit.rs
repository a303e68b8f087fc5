//! The emitter: drives a writer through the call sequence a schema
//! dictates, and the rendering functions that pin down every character it
//! produces.
//!
//! For one record the output is: the start tag; one attribute per present
//! attribute value, in declared order; then one of three endings.  A record
//! whose fields are all attributes self-closes.  A record with a text field
//! closes the start tag, emits the escaped text and the end tag.  Any other
//! record self-closes when its shape permits and all its content is absent,
//! and otherwise emits its child elements in declared order, then its
//! flattened text elements in declared order, then the end tag.  Repeated
//! values are emitted in their list's order, each complete before the next
//! begins.  [`render_record`] states all of this as one function from
//! schema and instance to the produced characters, and [`write`] is proved
//! to append exactly that.

use vstd::prelude::*;

verus! {

use crate::schema::FieldContent;
use crate::schema::FieldSchema;
use crate::schema::RecordSchema;
use crate::schema::can_self_close;
use crate::schema::schema_valid;
use crate::schema::is_leaf;
use crate::schema::is_text_bearing;
use crate::value::FieldValue;
use crate::value::RecordInstance;
use crate::value::Scalar;
use crate::value::content_is_empty;
use crate::value::instance_matches;
use crate::value::scalar_text;
use crate::writer::WriteError;
use crate::writer::XmlWriter;
use crate::writer::escaped;
use crate::writer::fits;

/// One attribute as it appears inside a start tag.
pub open spec fn attr_item(tag: Seq<char>, v: Scalar) -> Seq<char> {
    " "@ + tag + "=\""@ + escaped(scalar_text(v)) + "\""@
}

/// The first `n` attribute values of one field, rendered in order.
pub open spec fn attr_items_upto(tag: Seq<char>, vs: Seq<Scalar>, n: int) -> Seq<char>
    decreases n,
{
    if n <= 0 {
        Seq::empty()
    } else {
        attr_items_upto(tag, vs, n - 1) + attr_item(tag, vs[n - 1])
    }
}

/// What one field contributes inside the start tag: its attribute values in
/// order for an attribute field, nothing for any other field.
pub open spec fn attrs_part(f: FieldSchema, v: FieldValue) -> Seq<char> {
    match f {
        FieldSchema::Attribute { tag, .. } => match v {
            FieldValue::Scalars(vs) => attr_items_upto(tag@, vs@, vs.len() as int),
            FieldValue::Records(_) => Seq::empty(),
        },
        _ => Seq::empty(),
    }
}

/// The attribute text of the first `n` fields, in declared order.
pub open spec fn render_attrs_upto(
    fields: Vec<FieldSchema>,
    values: Vec<FieldValue>,
    n: int,
) -> Seq<char>
    decreases n,
{
    if n <= 0 {
        Seq::empty()
    } else {
        render_attrs_upto(fields, values, n - 1) + attrs_part(fields[n - 1], values[n - 1])
    }
}

/// The escaped text of the first `n` values of one text field, in order.
pub open spec fn text_items_upto(vs: Seq<Scalar>, n: int) -> Seq<char>
    decreases n,
{
    if n <= 0 {
        Seq::empty()
    } else {
        text_items_upto(vs, n - 1) + escaped(scalar_text(vs[n - 1]))
    }
}

/// What one field contributes to a text element's character data: its
/// escaped values in order for a text field, nothing for any other field.
pub open spec fn texts_part(f: FieldSchema, v: FieldValue) -> Seq<char> {
    match f {
        FieldSchema::Text { .. } => match v {
            FieldValue::Scalars(vs) => text_items_upto(vs@, vs.len() as int),
            FieldValue::Records(_) => Seq::empty(),
        },
        _ => Seq::empty(),
    }
}

/// The character data of the first `n` fields, in declared order.
pub open spec fn render_texts_upto(
    fields: Vec<FieldSchema>,
    values: Vec<FieldValue>,
    n: int,
) -> Seq<char>
    decreases n,
{
    if n <= 0 {
        Seq::empty()
    } else {
        render_texts_upto(fields, values, n - 1) + texts_part(fields[n - 1], values[n - 1])
    }
}

/// One flattened text element: a complete `<tag>value</tag>`.
pub open spec fn flatten_item(tag: Seq<char>, v: Scalar) -> Seq<char> {
    "<"@ + tag + ">"@ + escaped(scalar_text(v)) + "</"@ + tag + ">"@
}

/// The first `n` flattened text values of one field, rendered in order.
pub open spec fn flatten_items_upto(tag: Seq<char>, vs: Seq<Scalar>, n: int) -> Seq<char>
    decreases n,
{
    if n <= 0 {
        Seq::empty()
    } else {
        flatten_items_upto(tag, vs, n - 1) + flatten_item(tag, vs[n - 1])
    }
}

/// What one field contributes as flattened text elements.
pub open spec fn flattens_part(f: FieldSchema, v: FieldValue) -> Seq<char> {
    match f {
        FieldSchema::FlattenText { tag, .. } => match v {
            FieldValue::Scalars(vs) => flatten_items_upto(tag@, vs@, vs.len() as int),
            FieldValue::Records(_) => Seq::empty(),
        },
        _ => Seq::empty(),
    }
}

/// The flattened text elements of the first `n` fields, in declared order.
pub open spec fn render_flattens_upto(
    fields: Vec<FieldSchema>,
    values: Vec<FieldValue>,
    n: int,
) -> Seq<char>
    decreases n,
{
    if n <= 0 {
        Seq::empty()
    } else {
        render_flattens_upto(fields, values, n - 1) + flattens_part(fields[n - 1], values[n - 1])
    }
}

/// The first `n` nested instances of one child field, each rendered in full
/// by the child's own schema, in order.
pub open spec fn child_items_upto(sub: RecordSchema, insts: Vec<RecordInstance>, n: int) -> Seq<
    char,
>
    decreases sub, 2int, n,
{
    if n <= 0 {
        Seq::empty()
    } else {
        child_items_upto(sub, insts, n - 1) + render_record(sub, insts[n - 1])
    }
}

/// What one field contributes as nested child elements.
pub open spec fn children_part(f: FieldSchema, v: FieldValue) -> Seq<char>
    decreases f, 2int, 0int,
{
    match f {
        FieldSchema::Child { content: FieldContent::Record(sub), .. } => match v {
            FieldValue::Scalars(_) => Seq::empty(),
            FieldValue::Records(rs) => child_items_upto(*sub, rs, rs.len() as int),
        },
        _ => Seq::empty(),
    }
}

/// The nested child elements of the first `n` fields, in declared order.
pub open spec fn render_children_upto(
    fields: Vec<FieldSchema>,
    values: Vec<FieldValue>,
    n: int,
) -> Seq<char>
    decreases fields, 2int, n,
{
    if n <= 0 || n > fields.len() {
        Seq::empty()
    } else {
        render_children_upto(fields, values, n - 1) + children_part(fields[n - 1], values[n - 1])
    }
}

/// The ending a record's shape selects, after the start tag and the
/// attributes: self-closing for a leaf, the text body for a text element,
/// self-closing for a structural element whose shape permits it and whose
/// content is absent, and otherwise the children, the flattened text and
/// the end tag.
pub open spec fn render_ending(s: RecordSchema, inst: RecordInstance) -> Seq<char>
    decreases s, 1int, 0int,
{
    if is_leaf(s) {
        "/>"@
    } else if is_text_bearing(s) {
        ">"@ + render_texts_upto(s.fields, inst.values, s.fields.len() as int) + "</"@ + s.tag@
            + ">"@
    } else if can_self_close(s) && content_is_empty(s, inst) {
        "/>"@
    } else {
        ">"@ + render_children_upto(s.fields, inst.values, s.fields.len() as int)
            + render_flattens_upto(s.fields, inst.values, s.fields.len() as int) + "</"@ + s.tag@
            + ">"@
    }
}

/// Every character one record emits: the start tag, the attributes in
/// declared order, then the ending its shape selects, per
/// [`render_ending`].
pub open spec fn render_record(s: RecordSchema, inst: RecordInstance) -> Seq<char>
    decreases s, 1int, 1int,
{
    "<"@ + s.tag@ + render_attrs_upto(s.fields, inst.values, s.fields.len() as int)
        + render_ending(s, inst)
}

/// The rendered attribute items only grow with their count.
proof fn lemma_attr_items_len(tag: Seq<char>, vs: Seq<Scalar>, i: int, j: int)
    requires
        0 <= i <= j,
    ensures
        attr_items_upto(tag, vs, i).len() <= attr_items_upto(tag, vs, j).len(),
    decreases j - i,
{
    if i < j {
        lemma_attr_items_len(tag, vs, i, j - 1);
    }
}

/// The rendered text items only grow with their count.
proof fn lemma_text_items_len(vs: Seq<Scalar>, i: int, j: int)
    requires
        0 <= i <= j,
    ensures
        text_items_upto(vs, i).len() <= text_items_upto(vs, j).len(),
    decreases j - i,
{
    if i < j {
        lemma_text_items_len(vs, i, j - 1);
    }
}

/// The rendered flattened-text items only grow with their count.
proof fn lemma_flatten_items_len(tag: Seq<char>, vs: Seq<Scalar>, i: int, j: int)
    requires
        0 <= i <= j,
    ensures
        flatten_items_upto(tag, vs, i).len() <= flatten_items_upto(tag, vs, j).len(),
    decreases j - i,
{
    if i < j {
        lemma_flatten_items_len(tag, vs, i, j - 1);
    }
}

/// The rendered child items only grow with their count.
proof fn lemma_child_items_len(sub: RecordSchema, insts: Vec<RecordInstance>, i: int, j: int)
    requires
        0 <= i <= j,
    ensures
        child_items_upto(sub, insts, i).len() <= child_items_upto(sub, insts, j).len(),
    decreases j - i,
{
    if i < j {
        lemma_child_items_len(sub, insts, i, j - 1);
    }
}

/// The rendered attribute text only grows with the field count.
proof fn lemma_render_attrs_len(fields: Vec<FieldSchema>, values: Vec<FieldValue>, i: int, j: int)
    requires
        0 <= i <= j,
    ensures
        render_attrs_upto(fields, values, i).len() <= render_attrs_upto(fields, values, j).len(),
    decreases j - i,
{
    if i < j {
        lemma_render_attrs_len(fields, values, i, j - 1);
    }
}

/// The rendered character data only grows with the field count.
proof fn lemma_render_texts_len(fields: Vec<FieldSchema>, values: Vec<FieldValue>, i: int, j: int)
    requires
        0 <= i <= j,
    ensures
        render_texts_upto(fields, values, i).len() <= render_texts_upto(fields, values, j).len(),
    decreases j - i,
{
    if i < j {
        lemma_render_texts_len(fields, values, i, j - 1);
    }
}

/// The rendered child elements only grow with the field count.
proof fn lemma_render_children_len(
    fields: Vec<FieldSchema>,
    values: Vec<FieldValue>,
    i: int,
    j: int,
)
    requires
        0 <= i <= j <= fields.len(),
    ensures
        render_children_upto(fields, values, i).len() <= render_children_upto(
            fields,
            values,
            j,
        ).len(),
    decreases j - i,
{
    if i < j {
        lemma_render_children_len(fields, values, i, j - 1);
    }
}

/// The rendered flattened text only grows with the field count.
proof fn lemma_render_flattens_len(
    fields: Vec<FieldSchema>,
    values: Vec<FieldValue>,
    i: int,
    j: int,
)
    requires
        0 <= i <= j,
    ensures
        render_flattens_upto(fields, values, i).len() <= render_flattens_upto(
            fields,
            values,
            j,
        ).len(),
    decreases j - i,
{
    if i < j {
        lemma_render_flattens_len(fields, values, i, j - 1);
    }
}

/// What a failed emission leaves behind: the text that stood before, with
/// an unbroken prefix of `full` appended — nothing else was written.
pub open spec fn wrote_prefix(before: Seq<char>, after: Seq<char>, full: Seq<char>) -> bool {
    exists|k: int| 0 <= k <= full.len() && after == before + full.subrange(0, k)
}

/// A prefix of a sequence is a prefix of any right extension of it.
proof fn lemma_prefix_right_extend(a: Seq<char>, b: Seq<char>, c: Seq<char>)
    requires
        a.is_prefix_of(b),
    ensures
        a.is_prefix_of(b + c),
{
    assert(a =~= (b + c).subrange(0, a.len() as int));
}

/// Appending the same text on the left keeps a prefix a prefix.
proof fn lemma_prefix_left_cat(h: Seq<char>, a: Seq<char>, b: Seq<char>)
    requires
        a.is_prefix_of(b),
    ensures
        (h + a).is_prefix_of(h + b),
{
    assert(h + a =~= (h + b).subrange(0, (h + a).len() as int));
}

/// Composes partial writes: if the writer already held `before + p`, grew
/// by a prefix of `q`, and `p + q` is itself a prefix of `full`, then all
/// that stands after `before` is a prefix of `full`.
proof fn lemma_prefix_compose(
    before: Seq<char>,
    p: Seq<char>,
    q: Seq<char>,
    full: Seq<char>,
    after: Seq<char>,
)
    requires
        (p + q).is_prefix_of(full),
        wrote_prefix(before + p, after, q),
    ensures
        wrote_prefix(before, after, full),
{
    let k = choose|k: int| 0 <= k <= q.len() && after == (before + p) + q.subrange(0, k);
    assert(full.subrange(0, p.len() + k) =~= p + q.subrange(0, k)) by {
        assert(p + q =~= full.subrange(0, (p + q).len() as int));
    }
    assert(after =~= before + full.subrange(0, p.len() + k));
}

/// A writer that holds `before` plus the whole of `full` in particular
/// holds `before` plus a prefix of it.
proof fn lemma_wrote_whole(before: Seq<char>, after: Seq<char>, full: Seq<char>)
    requires
        after == before + full,
    ensures
        wrote_prefix(before, after, full),
{
    assert(full =~= full.subrange(0, full.len() as int));
    assert(after =~= before + full.subrange(0, full.len() as int));
}

/// The rendered attribute items of a shorter count are a prefix of those
/// of a longer one.
proof fn lemma_attr_items_prefix(tag: Seq<char>, vs: Seq<Scalar>, i: int, j: int)
    requires
        0 <= i <= j,
    ensures
        attr_items_upto(tag, vs, i).is_prefix_of(attr_items_upto(tag, vs, j)),
    decreases j - i,
{
    if i < j {
        lemma_attr_items_prefix(tag, vs, i, j - 1);
        lemma_prefix_right_extend(
            attr_items_upto(tag, vs, i),
            attr_items_upto(tag, vs, j - 1),
            attr_item(tag, vs[j - 1]),
        );
    } else {
        assert(attr_items_upto(tag, vs, i) =~= attr_items_upto(tag, vs, j).subrange(
            0,
            attr_items_upto(tag, vs, i).len() as int,
        ));
    }
}

/// The rendered text items of a shorter count are a prefix of those of a
/// longer one.
proof fn lemma_text_items_prefix(vs: Seq<Scalar>, i: int, j: int)
    requires
        0 <= i <= j,
    ensures
        text_items_upto(vs, i).is_prefix_of(text_items_upto(vs, j)),
    decreases j - i,
{
    if i < j {
        lemma_text_items_prefix(vs, i, j - 1);
        lemma_prefix_right_extend(
            text_items_upto(vs, i),
            text_items_upto(vs, j - 1),
            escaped(scalar_text(vs[j - 1])),
        );
    } else {
        assert(text_items_upto(vs, i) =~= text_items_upto(vs, j).subrange(
            0,
            text_items_upto(vs, i).len() as int,
        ));
    }
}

/// The rendered flattened-text items of a shorter count are a prefix of
/// those of a longer one.
proof fn lemma_flatten_items_prefix(tag: Seq<char>, vs: Seq<Scalar>, i: int, j: int)
    requires
        0 <= i <= j,
    ensures
        flatten_items_upto(tag, vs, i).is_prefix_of(flatten_items_upto(tag, vs, j)),
    decreases j - i,
{
    if i < j {
        lemma_flatten_items_prefix(tag, vs, i, j - 1);
        lemma_prefix_right_extend(
            flatten_items_upto(tag, vs, i),
            flatten_items_upto(tag, vs, j - 1),
            flatten_item(tag, vs[j - 1]),
        );
    } else {
        assert(flatten_items_upto(tag, vs, i) =~= flatten_items_upto(tag, vs, j).subrange(
            0,
            flatten_items_upto(tag, vs, i).len() as int,
        ));
    }
}

/// The rendered child items of a shorter count are a prefix of those of a
/// longer one.
proof fn lemma_child_items_prefix(sub: RecordSchema, insts: Vec<RecordInstance>, i: int, j: int)
    requires
        0 <= i <= j,
    ensures
        child_items_upto(sub, insts, i).is_prefix_of(child_items_upto(sub, insts, j)),
    decreases j - i,
{
    if i < j {
        lemma_child_items_prefix(sub, insts, i, j - 1);
        lemma_prefix_right_extend(
            child_items_upto(sub, insts, i),
            child_items_upto(sub, insts, j - 1),
            render_record(sub, insts[j - 1]),
        );
    } else {
        assert(child_items_upto(sub, insts, i) =~= child_items_upto(sub, insts, j).subrange(
            0,
            child_items_upto(sub, insts, i).len() as int,
        ));
    }
}

/// The attribute text of fewer fields is a prefix of that of more fields.
proof fn lemma_render_attrs_prefix(
    fields: Vec<FieldSchema>,
    values: Vec<FieldValue>,
    i: int,
    j: int,
)
    requires
        0 <= i <= j,
    ensures
        render_attrs_upto(fields, values, i).is_prefix_of(render_attrs_upto(fields, values, j)),
    decreases j - i,
{
    if i < j {
        lemma_render_attrs_prefix(fields, values, i, j - 1);
        lemma_prefix_right_extend(
            render_attrs_upto(fields, values, i),
            render_attrs_upto(fields, values, j - 1),
            attrs_part(fields[j - 1], values[j - 1]),
        );
    } else {
        assert(render_attrs_upto(fields, values, i) =~= render_attrs_upto(
            fields,
            values,
            j,
        ).subrange(0, render_attrs_upto(fields, values, i).len() as int));
    }
}

/// The character data of fewer fields is a prefix of that of more fields.
proof fn lemma_render_texts_prefix(
    fields: Vec<FieldSchema>,
    values: Vec<FieldValue>,
    i: int,
    j: int,
)
    requires
        0 <= i <= j,
    ensures
        render_texts_upto(fields, values, i).is_prefix_of(render_texts_upto(fields, values, j)),
    decreases j - i,
{
    if i < j {
        lemma_render_texts_prefix(fields, values, i, j - 1);
        lemma_prefix_right_extend(
            render_texts_upto(fields, values, i),
            render_texts_upto(fields, values, j - 1),
            texts_part(fields[j - 1], values[j - 1]),
        );
    } else {
        assert(render_texts_upto(fields, values, i) =~= render_texts_upto(
            fields,
            values,
            j,
        ).subrange(0, render_texts_upto(fields, values, i).len() as int));
    }
}

/// The child elements of fewer fields are a prefix of those of more
/// fields.
proof fn lemma_render_children_prefix(
    fields: Vec<FieldSchema>,
    values: Vec<FieldValue>,
    i: int,
    j: int,
)
    requires
        0 <= i <= j <= fields.len(),
    ensures
        render_children_upto(fields, values, i).is_prefix_of(
            render_children_upto(fields, values, j),
        ),
    decreases j - i,
{
    if i < j {
        lemma_render_children_prefix(fields, values, i, j - 1);
        lemma_prefix_right_extend(
            render_children_upto(fields, values, i),
            render_children_upto(fields, values, j - 1),
            children_part(fields[j - 1], values[j - 1]),
        );
    } else {
        assert(render_children_upto(fields, values, i) =~= render_children_upto(
            fields,
            values,
            j,
        ).subrange(0, render_children_upto(fields, values, i).len() as int));
    }
}

/// The flattened text of fewer fields is a prefix of that of more fields.
proof fn lemma_render_flattens_prefix(
    fields: Vec<FieldSchema>,
    values: Vec<FieldValue>,
    i: int,
    j: int,
)
    requires
        0 <= i <= j,
    ensures
        render_flattens_upto(fields, values, i).is_prefix_of(
            render_flattens_upto(fields, values, j),
        ),
    decreases j - i,
{
    if i < j {
        lemma_render_flattens_prefix(fields, values, i, j - 1);
        lemma_prefix_right_extend(
            render_flattens_upto(fields, values, i),
            render_flattens_upto(fields, values, j - 1),
            flattens_part(fields[j - 1], values[j - 1]),
        );
    } else {
        assert(render_flattens_upto(fields, values, i) =~= render_flattens_upto(
            fields,
            values,
            j,
        ).subrange(0, render_flattens_upto(fields, values, i).len() as int));
    }
}

/// Emits the attribute values of one attribute field, in order.
#[verifier::loop_isolation(false)]
fn write_attrs(w: &mut XmlWriter, tag: &String, vs: &Vec<Scalar>) -> (r: Result<(), WriteError>)
    requires
        fits(old(w).cap(), old(w).out().len()),
    ensures
        final(w).cap() == old(w).cap(),
        r is Ok <==> fits(
            old(w).cap(),
            old(w).out().len() + attr_items_upto(tag@, vs@, vs.len() as int).len(),
        ),
        r is Ok ==> final(w).out() == old(w).out() + attr_items_upto(tag@, vs@, vs.len() as int),
        r is Err ==> (final(w).cap() matches Option::Some(c) && final(w).out().len() > c),
        r is Err ==> wrote_prefix(
            old(w).out(),
            final(w).out(),
            attr_items_upto(tag@, vs@, vs.len() as int),
        ),
{
    let n = vs.len();
    let mut i: usize = 0;
    while i < n
        invariant
            n == vs.len(),
            i <= n,
            w.cap() == old(w).cap(),
            w.out() == old(w).out() + attr_items_upto(tag@, vs@, i as int),
            fits(w.cap(), w.out().len()),
        decreases n - i,
    {
        let text = vs[i].to_str();
        let res = w.write_attribute(tag.as_str(), text.as_str());
        proof {
            assert(w.out() =~= old(w).out() + attr_items_upto(tag@, vs@, i + 1));
            lemma_attr_items_len(tag@, vs@, i + 1, n as int);
            lemma_attr_items_prefix(tag@, vs@, i + 1, n as int);
            assert(wrote_prefix(old(w).out(), w.out(), attr_items_upto(tag@, vs@, n as int)));
        }
        if let Result::Err(e) = res {
            return Result::Err(e);
        }
        i = i + 1;
    }
    Result::Ok(())
}

/// Emits the character data of one text field: each present value
/// escaped, in order, inside the already-open element.
#[verifier::loop_isolation(false)]
fn write_text(w: &mut XmlWriter, vs: &Vec<Scalar>) -> (r: Result<(), WriteError>)
    requires
        fits(old(w).cap(), old(w).out().len()),
    ensures
        final(w).cap() == old(w).cap(),
        r is Ok <==> fits(
            old(w).cap(),
            old(w).out().len() + text_items_upto(vs@, vs.len() as int).len(),
        ),
        r is Ok ==> final(w).out() == old(w).out() + text_items_upto(vs@, vs.len() as int),
        r is Err ==> (final(w).cap() matches Option::Some(c) && final(w).out().len() > c),
        r is Err ==> wrote_prefix(
            old(w).out(),
            final(w).out(),
            text_items_upto(vs@, vs.len() as int),
        ),
{
    let n = vs.len();
    let mut i: usize = 0;
    while i < n
        invariant
            n == vs.len(),
            i <= n,
            w.cap() == old(w).cap(),
            w.out() == old(w).out() + text_items_upto(vs@, i as int),
            fits(w.cap(), w.out().len()),
        decreases n - i,
    {
        let text = vs[i].to_str();
        let res = w.write_text(text.as_str());
        proof {
            assert(w.out() =~= old(w).out() + text_items_upto(vs@, i + 1));
            lemma_text_items_len(vs@, i + 1, n as int);
            lemma_text_items_prefix(vs@, i + 1, n as int);
            assert(wrote_prefix(old(w).out(), w.out(), text_items_upto(vs@, n as int)));
        }
        if let Result::Err(e) = res {
            return Result::Err(e);
        }
        i = i + 1;
    }
    Result::Ok(())
}

/// Emits the flattened text elements of one field, one complete
/// `<tag>value</tag>` per value, in order.
#[verifier::loop_isolation(false)]
fn write_flatten_text(w: &mut XmlWriter, tag: &String, vs: &Vec<Scalar>) -> (r: Result<
    (),
    WriteError,
>)
    requires
        fits(old(w).cap(), old(w).out().len()),
    ensures
        final(w).cap() == old(w).cap(),
        r is Ok <==> fits(
            old(w).cap(),
            old(w).out().len() + flatten_items_upto(tag@, vs@, vs.len() as int).len(),
        ),
        r is Ok ==> final(w).out() == old(w).out() + flatten_items_upto(
            tag@,
            vs@,
            vs.len() as int,
        ),
        r is Err ==> (final(w).cap() matches Option::Some(c) && final(w).out().len() > c),
        r is Err ==> wrote_prefix(
            old(w).out(),
            final(w).out(),
            flatten_items_upto(tag@, vs@, vs.len() as int),
        ),
{
    let n = vs.len();
    let mut i: usize = 0;
    while i < n
        invariant
            n == vs.len(),
            i <= n,
            w.cap() == old(w).cap(),
            w.out() == old(w).out() + flatten_items_upto(tag@, vs@, i as int),
            fits(w.cap(), w.out().len()),
        decreases n - i,
    {
        let text = vs[i].to_str();
        let res = w.write_flatten_text(tag.as_str(), text.as_str());
        proof {
            assert(w.out() =~= old(w).out() + flatten_items_upto(tag@, vs@, i + 1));
            lemma_flatten_items_len(tag@, vs@, i + 1, n as int);
            lemma_flatten_items_prefix(tag@, vs@, i + 1, n as int);
            assert(wrote_prefix(old(w).out(), w.out(), flatten_items_upto(tag@, vs@, n as int)));
        }
        if let Result::Err(e) = res {
            return Result::Err(e);
        }
        i = i + 1;
    }
    Result::Ok(())
}

/// Emits the nested instances of one child field, each in full by the
/// child's own schema, in order.
#[verifier::loop_isolation(false)]
fn write_child(w: &mut XmlWriter, sub: &RecordSchema, rs: &Vec<RecordInstance>) -> (r: Result<
    (),
    WriteError,
>)
    requires
        fits(old(w).cap(), old(w).out().len()),
        schema_valid(*sub),
        forall|j: int| 0 <= j < rs.len() ==> instance_matches(*sub, #[trigger] rs[j]),
    ensures
        final(w).cap() == old(w).cap(),
        r is Ok <==> fits(
            old(w).cap(),
            old(w).out().len() + child_items_upto(*sub, *rs, rs.len() as int).len(),
        ),
        r is Ok ==> final(w).out() == old(w).out() + child_items_upto(*sub, *rs, rs.len() as int),
        r is Err ==> (final(w).cap() matches Option::Some(c) && final(w).out().len() > c),
        r is Err ==> wrote_prefix(
            old(w).out(),
            final(w).out(),
            child_items_upto(*sub, *rs, rs.len() as int),
        ),
    decreases *sub, 2int, 0int,
{
    let n = rs.len();
    let mut i: usize = 0;
    while i < n
        invariant
            n == rs.len(),
            i <= n,
            w.cap() == old(w).cap(),
            w.out() == old(w).out() + child_items_upto(*sub, *rs, i as int),
            fits(w.cap(), w.out().len()),
        decreases n - i,
    {
        let res = write(w, sub, &rs[i]);
        proof {
            assert(res is Ok ==> w.out() =~= old(w).out() + child_items_upto(*sub, *rs, i + 1));
            assert(child_items_upto(*sub, *rs, i + 1) =~= child_items_upto(*sub, *rs, i as int)
                + render_record(*sub, rs[i as int]));
            lemma_child_items_len(*sub, *rs, i + 1, n as int);
            if res is Err {
                lemma_child_items_prefix(*sub, *rs, i + 1, n as int);
                lemma_prefix_compose(
                    old(w).out(),
                    child_items_upto(*sub, *rs, i as int),
                    render_record(*sub, rs[i as int]),
                    child_items_upto(*sub, *rs, n as int),
                    w.out(),
                );
            }
        }
        if let Result::Err(e) = res {
            return Result::Err(e);
        }
        i = i + 1;
    }
    Result::Ok(())
}

/// Serializes one record: drives the writer through exactly the call
/// sequence the schema dictates, and appends exactly [`render_record`] of
/// the schema and instance.  An unbounded writer never fails; a bounded
/// one succeeds exactly when the whole rendering fits its bound, and
/// otherwise the first failing operation aborts the emission, leaving the
/// earlier output untouched with an unbroken prefix of the rendering
/// appended, just past the bound.
#[verifier::loop_isolation(false)]
pub fn write(w: &mut XmlWriter, s: &RecordSchema, inst: &RecordInstance) -> (r: Result<
    (),
    WriteError,
>)
    requires
        schema_valid(*s),
        instance_matches(*s, *inst),
    ensures
        final(w).cap() == old(w).cap(),
        old(w).cap() is None ==> r is Ok,
        r is Ok <==> fits(
            old(w).cap(),
            old(w).out().len() + render_record(*s, *inst).len(),
        ),
        r is Ok ==> final(w).out() == old(w).out() + render_record(*s, *inst),
        r is Err ==> (final(w).cap() matches Option::Some(c) && final(w).out().len() > c),
        r is Err ==> wrote_prefix(old(w).out(), final(w).out(), render_record(*s, *inst)),
    decreases *s, 1int, 1int,
{
    let res = w.write_element_start(s.tag.as_str());
    proof {
        assert(render_record(*s, *inst) =~= "<"@ + s.tag@ + render_attrs_upto(
            s.fields,
            inst.values,
            s.fields.len() as int,
        ) + render_ending(*s, *inst));
        assert(("<"@ + s.tag@) =~= render_record(*s, *inst).subrange(
            0,
            ("<"@ + s.tag@).len() as int,
        ));
        assert(w.out() =~= old(w).out() + ("<"@ + s.tag@));
        assert(wrote_prefix(old(w).out(), w.out(), render_record(*s, *inst)));
    }
    if let Result::Err(e) = res {
        return Result::Err(e);
    }
    let n = s.fields.len();
    let mut i: usize = 0;
    while i < n
        invariant
            n == s.fields.len(),
            i <= n,
            w.cap() == old(w).cap(),
            w.out() == old(w).out() + "<"@ + s.tag@ + render_attrs_upto(
                s.fields,
                inst.values,
                i as int,
            ),
            fits(w.cap(), w.out().len()),
        decreases n - i,
    {
        let res = match (&s.fields[i], &inst.values[i]) {
            (FieldSchema::Attribute { tag, .. }, FieldValue::Scalars(vs)) => {
                let res = write_attrs(w, tag, vs);
                proof {
                    assert(attrs_part(s.fields[i as int], inst.values[i as int])
                        =~= attr_items_upto(tag@, vs@, vs.len() as int));
                    if res is Err {
                        let p = "<"@ + s.tag@ + render_attrs_upto(s.fields, inst.values, i as int);
                        let q = attr_items_upto(tag@, vs@, vs.len() as int);
                        assert(p + q =~= "<"@ + s.tag@ + render_attrs_upto(
                            s.fields,
                            inst.values,
                            i + 1,
                        ));
                        lemma_render_attrs_prefix(s.fields, inst.values, i + 1, n as int);
                        lemma_prefix_left_cat(
                            "<"@ + s.tag@,
                            render_attrs_upto(s.fields, inst.values, i + 1),
                            render_attrs_upto(s.fields, inst.values, n as int),
                        );
                        lemma_prefix_right_extend(
                            "<"@ + s.tag@ + render_attrs_upto(s.fields, inst.values, i + 1),
                            "<"@ + s.tag@ + render_attrs_upto(s.fields, inst.values, n as int),
                            render_ending(*s, *inst),
                        );
                        assert((p + q).is_prefix_of(render_record(*s, *inst)));
                        assert(old(w).out() + p =~= old(w).out() + "<"@ + s.tag@
                            + render_attrs_upto(s.fields, inst.values, i as int));
                        lemma_prefix_compose(old(w).out(), p, q, render_record(*s, *inst), w.out());
                    }
                }
                res
            },
            _ => Result::Ok(()),
        };
        proof {
            assert(res is Ok ==> w.out() =~= old(w).out() + "<"@ + s.tag@ + render_attrs_upto(
                s.fields,
                inst.values,
                i + 1,
            ));
            lemma_render_attrs_len(s.fields, inst.values, i + 1, n as int);
        }
        if let Result::Err(e) = res {
            return Result::Err(e);
        }
        i = i + 1;
    }
    let res = write_ending(w, s, inst);
    proof {
        assert(res is Ok ==> w.out() =~= old(w).out() + render_record(*s, *inst));
        if res is Err {
            let p = "<"@ + s.tag@ + render_attrs_upto(s.fields, inst.values, n as int);
            let q = render_ending(*s, *inst);
            assert((p + q).is_prefix_of(render_record(*s, *inst))) by {
                assert(p + q =~= render_record(*s, *inst));
                assert((p + q) =~= (p + q).subrange(0, (p + q).len() as int));
            }
            assert(old(w).out() + p =~= old(w).out() + "<"@ + s.tag@ + render_attrs_upto(
                s.fields,
                inst.values,
                n as int,
            ));
            lemma_prefix_compose(old(w).out(), p, q, render_record(*s, *inst), w.out());
        }
    }
    res
}

/// Emits the ending a record's shape selects, after the start tag and the
/// attributes are already out: appends exactly [`render_ending`] of the
/// schema and instance.
#[verifier::loop_isolation(false)]
#[verifier::rlimit(80)]
fn write_ending(w: &mut XmlWriter, s: &RecordSchema, inst: &RecordInstance) -> (r: Result<
    (),
    WriteError,
>)
    requires
        fits(old(w).cap(), old(w).out().len()),
        schema_valid(*s),
        instance_matches(*s, *inst),
    ensures
        final(w).cap() == old(w).cap(),
        r is Ok <==> fits(
            old(w).cap(),
            old(w).out().len() + render_ending(*s, *inst).len(),
        ),
        r is Ok ==> final(w).out() == old(w).out() + render_ending(*s, *inst),
        r is Err ==> (final(w).cap() matches Option::Some(c) && final(w).out().len() > c),
        r is Err ==> wrote_prefix(old(w).out(), final(w).out(), render_ending(*s, *inst)),
    decreases *s, 1int, 0int,
{
    let n = s.fields.len();
    let shape = s.resolve_shape();
    if shape.is_leaf {
        let res = w.write_element_end_empty();
        proof {
            lemma_wrote_whole(old(w).out(), w.out(), render_ending(*s, *inst));
        }
        return res;
    }
    if shape.is_text_bearing {
        let ghost ending = render_ending(*s, *inst);
        proof {
            assert(ending =~= ">"@ + render_texts_upto(s.fields, inst.values, n as int) + "</"@
                + s.tag@ + ">"@);
        }
        let res = w.write_element_end_open();
        proof {
            assert((">"@) =~= ending.subrange(0, (">"@).len() as int));
            assert(w.out() =~= old(w).out() + ending.subrange(0, (">"@).len() as int));
            assert(wrote_prefix(old(w).out(), w.out(), ending));
        }
        if let Result::Err(e) = res {
            return Result::Err(e);
        }
        let mut i: usize = 0;
        while i < n
            invariant
                n == s.fields.len(),
                i <= n,
                w.cap() == old(w).cap(),
                w.out() == old(w).out() + ">"@ + render_texts_upto(
                    s.fields,
                    inst.values,
                    i as int,
                ),
                fits(w.cap(), w.out().len()),
            decreases n - i,
        {
            let res = match (&s.fields[i], &inst.values[i]) {
                (FieldSchema::Text { .. }, FieldValue::Scalars(vs)) => {
                    let res = write_text(w, vs);
                    proof {
                        assert(texts_part(s.fields[i as int], inst.values[i as int])
                            =~= text_items_upto(vs@, vs.len() as int));
                        if res is Err {
                            let p = ">"@ + render_texts_upto(s.fields, inst.values, i as int);
                            let q = text_items_upto(vs@, vs.len() as int);
                            assert(p + q =~= ">"@ + render_texts_upto(
                                s.fields,
                                inst.values,
                                i + 1,
                            ));
                            lemma_render_texts_prefix(s.fields, inst.values, i + 1, n as int);
                            lemma_prefix_left_cat(
                                ">"@,
                                render_texts_upto(s.fields, inst.values, i + 1),
                                render_texts_upto(s.fields, inst.values, n as int),
                            );
                            let b0 = ">"@ + render_texts_upto(s.fields, inst.values, n as int);
                            lemma_prefix_right_extend(p + q, b0, "</"@);
                            lemma_prefix_right_extend(p + q, b0 + "</"@, s.tag@);
                            lemma_prefix_right_extend(p + q, b0 + "</"@ + s.tag@, ">"@);
                            assert((p + q).is_prefix_of(ending));
                            assert(old(w).out() + p =~= old(w).out() + ">"@ + render_texts_upto(
                                s.fields,
                                inst.values,
                                i as int,
                            ));
                            lemma_prefix_compose(old(w).out(), p, q, ending, w.out());
                        }
                    }
                    res
                },
                _ => Result::Ok(()),
            };
            proof {
                assert(res is Ok ==> w.out() =~= old(w).out() + ">"@ + render_texts_upto(
                    s.fields,
                    inst.values,
                    i + 1,
                ));
                lemma_render_texts_len(s.fields, inst.values, i + 1, n as int);
            }
            if let Result::Err(e) = res {
                return Result::Err(e);
            }
            i = i + 1;
        }
        let res = w.write_element_end_close(s.tag.as_str());
        proof {
            assert(res is Ok ==> w.out() =~= old(w).out() + render_ending(*s, *inst));
            lemma_wrote_whole(old(w).out(), w.out(), render_ending(*s, *inst));
        }
        return res;
    }
    let empty_now = crate::value::content_empty(s, inst);
    if shape.can_self_close && empty_now {
        let res = w.write_element_end_empty();
        proof {
            lemma_wrote_whole(old(w).out(), w.out(), render_ending(*s, *inst));
        }
        return res;
    }
    let ghost ending = render_ending(*s, *inst);
    proof {
        assert(ending =~= ">"@ + render_children_upto(s.fields, inst.values, n as int)
            + render_flattens_upto(s.fields, inst.values, n as int) + "</"@ + s.tag@ + ">"@);
    }
    let res = w.write_element_end_open();
    proof {
        assert((">"@) =~= ending.subrange(0, (">"@).len() as int));
        assert(w.out() =~= old(w).out() + ending.subrange(0, (">"@).len() as int));
        assert(wrote_prefix(old(w).out(), w.out(), ending));
    }
    if let Result::Err(e) = res {
        return Result::Err(e);
    }
    let mut i: usize = 0;
    while i < n
        invariant
            n == s.fields.len(),
            i <= n,
            w.cap() == old(w).cap(),
            w.out() == old(w).out() + ">"@ + render_children_upto(
                s.fields,
                inst.values,
                i as int,
            ),
            fits(w.cap(), w.out().len()),
        decreases n - i,
    {
        let res = match (&s.fields[i], &inst.values[i]) {
            (
                FieldSchema::Child { content: FieldContent::Record(sub), .. },
                FieldValue::Records(rs),
            ) => {
                proof {
                    assert(decreases_to!(s.fields[i as int] => **sub));
                    crate::schema::lemma_valid_field(*s, i as int);
                    assert(schema_valid(**sub));
                    assert(crate::value::value_matches_field(
                        s.fields[i as int],
                        inst.values[i as int],
                    ));
                }
                let res = write_child(w, sub, rs);
                proof {
                    assert(children_part(s.fields[i as int], inst.values[i as int])
                        == child_items_upto(**sub, *rs, rs.len() as int));
                    assert(res is Ok ==> w.out() =~= old(w).out() + ">"@
                        + render_children_upto(s.fields, inst.values, i + 1));
                    lemma_render_children_len(s.fields, inst.values, i + 1, n as int);
                    if res is Err {
                        let p = ">"@ + render_children_upto(s.fields, inst.values, i as int);
                        let q = child_items_upto(**sub, *rs, rs.len() as int);
                        assert(p + q =~= ">"@ + render_children_upto(
                            s.fields,
                            inst.values,
                            i + 1,
                        ));
                        lemma_render_children_prefix(s.fields, inst.values, i + 1, n as int);
                        lemma_prefix_left_cat(
                            ">"@,
                            render_children_upto(s.fields, inst.values, i + 1),
                            render_children_upto(s.fields, inst.values, n as int),
                        );
                        let b0 = ">"@ + render_children_upto(s.fields, inst.values, n as int);
                        lemma_prefix_right_extend(p + q, b0, render_flattens_upto(
                            s.fields,
                            inst.values,
                            n as int,
                        ));
                        let b1 = b0 + render_flattens_upto(s.fields, inst.values, n as int);
                        lemma_prefix_right_extend(p + q, b1, "</"@);
                        lemma_prefix_right_extend(p + q, b1 + "</"@, s.tag@);
                        lemma_prefix_right_extend(p + q, b1 + "</"@ + s.tag@, ">"@);
                        assert((p + q).is_prefix_of(ending));
                        assert(old(w).out() + p =~= old(w).out() + ">"@ + render_children_upto(
                            s.fields,
                            inst.values,
                            i as int,
                        ));
                        lemma_prefix_compose(old(w).out(), p, q, ending, w.out());
                    }
                }
                res
            },
            _ => {
                proof {
                    assert(children_part(s.fields[i as int], inst.values[i as int])
                        =~= Seq::<char>::empty());
                    assert(w.out() =~= old(w).out() + ">"@ + render_children_upto(
                        s.fields,
                        inst.values,
                        i + 1,
                    ));
                }
                Result::Ok(())
            },
        };
        if let Result::Err(e) = res {
            return Result::Err(e);
        }
        i = i + 1;
    }
    let mut i: usize = 0;
    while i < n
        invariant
            n == s.fields.len(),
            i <= n,
            w.cap() == old(w).cap(),
            w.out() == old(w).out() + ">"@ + render_children_upto(
                s.fields,
                inst.values,
                n as int,
            ) + render_flattens_upto(s.fields, inst.values, i as int),
            fits(w.cap(), w.out().len()),
        decreases n - i,
    {
        let res = match (&s.fields[i], &inst.values[i]) {
            (FieldSchema::FlattenText { tag, .. }, FieldValue::Scalars(vs)) => {
                let res = write_flatten_text(w, tag, vs);
                proof {
                    assert(flattens_part(s.fields[i as int], inst.values[i as int])
                        =~= flatten_items_upto(tag@, vs@, vs.len() as int));
                    if res is Err {
                        let hd = ">"@ + render_children_upto(s.fields, inst.values, n as int);
                        let p = hd + render_flattens_upto(s.fields, inst.values, i as int);
                        let q = flatten_items_upto(tag@, vs@, vs.len() as int);
                        assert(p + q =~= hd + render_flattens_upto(
                            s.fields,
                            inst.values,
                            i + 1,
                        ));
                        lemma_render_flattens_prefix(s.fields, inst.values, i + 1, n as int);
                        lemma_prefix_left_cat(
                            hd,
                            render_flattens_upto(s.fields, inst.values, i + 1),
                            render_flattens_upto(s.fields, inst.values, n as int),
                        );
                        let b1 = hd + render_flattens_upto(s.fields, inst.values, n as int);
                        lemma_prefix_right_extend(p + q, b1, "</"@);
                        lemma_prefix_right_extend(p + q, b1 + "</"@, s.tag@);
                        lemma_prefix_right_extend(p + q, b1 + "</"@ + s.tag@, ">"@);
                        assert((p + q).is_prefix_of(ending));
                        assert(old(w).out() + p =~= old(w).out() + ">"@ + render_children_upto(
                            s.fields,
                            inst.values,
                            n as int,
                        ) + render_flattens_upto(s.fields, inst.values, i as int));
                        lemma_prefix_compose(old(w).out(), p, q, ending, w.out());
                    }
                }
                res
            },
            _ => Result::Ok(()),
        };
        proof {
            assert(res is Ok ==> w.out() =~= old(w).out() + ">"@ + render_children_upto(
                s.fields,
                inst.values,
                n as int,
            ) + render_flattens_upto(s.fields, inst.values, i + 1));
            lemma_render_flattens_len(s.fields, inst.values, i + 1, n as int);
        }
        if let Result::Err(e) = res {
            return Result::Err(e);
        }
        i = i + 1;
    }
    let res = w.write_element_end_close(s.tag.as_str());
    proof {
        assert(res is Ok ==> w.out() =~= old(w).out() + render_ending(*s, *inst));
        lemma_wrote_whole(old(w).out(), w.out(), render_ending(*s, *inst));
    }
    res
}

/// Serializes one record to a fresh string after checking that the schema
/// is valid and the instance conforms to it: `Some` with exactly
/// [`render_record`] of the pair when both hold, `None` otherwise.
pub fn try_write_to_string(s: &RecordSchema, inst: &RecordInstance) -> (r: Option<String>)
    ensures
        match r {
            Option::Some(out) => schema_valid(*s) && instance_matches(*s, *inst) && out@
                == render_record(*s, *inst),
            Option::None => !(schema_valid(*s) && instance_matches(*s, *inst)),
        },
{
    if s.validate().is_ok() && inst.matches(s) {
        Option::Some(write_to_string(s, inst))
    } else {
        Option::None
    }
}

/// Serializes one record to a fresh string; this cannot fail, and the
/// result is exactly [`render_record`] of the schema and instance.
pub fn write_to_string(s: &RecordSchema, inst: &RecordInstance) -> (r: String)
    requires
        schema_valid(*s),
        instance_matches(*s, *inst),
    ensures
        r@ == render_record(*s, *inst),
{
    let mut w = XmlWriter::new();
    let res = write(&mut w, s, inst);
    proof {
        assert(res is Ok);
        assert(w.out() =~= render_record(*s, *inst));
    }
    w.into_string()
}

/// A record whose fields are all attributes emits exactly the start tag,
/// its attributes in declared order, and the self-closing end: no
/// children, no text, no end tag.
pub proof fn lemma_leaf_render(s: RecordSchema, inst: RecordInstance)
    requires
        is_leaf(s),
    ensures
        render_record(s, inst) == "<"@ + s.tag@ + render_attrs_upto(
            s.fields,
            inst.values,
            s.fields.len() as int,
        ) + "/>"@,
{
}

/// A record with exactly one field, a text field holding one value, emits
/// exactly `<tag>` followed by the escaped text and `</tag>`.
pub proof fn lemma_single_text_render(s: RecordSchema, inst: RecordInstance, vs: Vec<Scalar>)
    requires
        s.fields.len() == 1,
        s.fields[0] is Text,
        inst.values.len() == 1,
        inst.values[0] == FieldValue::Scalars(vs),
        vs.len() == 1,
    ensures
        render_record(s, inst) == "<"@ + s.tag@ + ">"@ + escaped(scalar_text(vs[0])) + "</"@
            + s.tag@ + ">"@,
{
    assert(!(s.fields[0] is Attribute));
    assert(!is_leaf(s));
    assert(is_text_bearing(s));
    assert(render_attrs_upto(s.fields, inst.values, 0) =~= Seq::<char>::empty());
    assert(attrs_part(s.fields[0], inst.values[0]) =~= Seq::<char>::empty());
    assert(render_attrs_upto(s.fields, inst.values, 1) =~= Seq::<char>::empty());
    assert(text_items_upto(vs@, 0) =~= Seq::<char>::empty());
    assert(text_items_upto(vs@, 1) =~= escaped(scalar_text(vs[0])));
    assert(render_texts_upto(s.fields, inst.values, 0) =~= Seq::<char>::empty());
    assert(render_texts_upto(s.fields, inst.values, 1) =~= text_items_upto(vs@, 1));
    assert(render_record(s, inst) =~= "<"@ + s.tag@ + ">"@ + escaped(scalar_text(vs[0]))
        + "</"@ + s.tag@ + ">"@);
}

/// A structural record (neither leaf nor text-bearing) whose shape permits
/// self-closing and whose content is absent for this instance emits the
/// self-closing form, attributes included.
pub proof fn lemma_empty_structural_self_closes(s: RecordSchema, inst: RecordInstance)
    requires
        !is_leaf(s),
        !is_text_bearing(s),
        can_self_close(s),
        content_is_empty(s, inst),
    ensures
        render_record(s, inst) == "<"@ + s.tag@ + render_attrs_upto(
            s.fields,
            inst.values,
            s.fields.len() as int,
        ) + "/>"@,
{
}

/// A structural record with a singular child or singular flattened-text
/// field is never self-closing: whatever the instance holds, it emits the
/// open form, ending with its end tag.
pub proof fn lemma_singular_content_forces_open(s: RecordSchema, inst: RecordInstance, k: int)
    requires
        !is_text_bearing(s),
        0 <= k < s.fields.len(),
        !crate::schema::field_allows_self_close(s.fields[k]),
    ensures
        !is_leaf(s),
        !can_self_close(s),
        render_record(s, inst) == "<"@ + s.tag@ + render_attrs_upto(
            s.fields,
            inst.values,
            s.fields.len() as int,
        ) + ">"@ + render_children_upto(s.fields, inst.values, s.fields.len() as int)
            + render_flattens_upto(s.fields, inst.values, s.fields.len() as int) + "</"@ + s.tag@
            + ">"@,
{
    assert(!(s.fields[k] is Attribute));
    assert(!is_leaf(s));
    assert(!can_self_close(s));
}

/// An optional attribute field whose value is absent contributes nothing
/// to the start tag: it is omitted entirely, never emitted as an empty
/// `name=""` pair.  The attribute text of a record is the concatenation of
/// each field's own contribution (see [`render_attrs_upto`]), so the other
/// fields are unaffected.
pub proof fn lemma_absent_optional_attribute_omitted(f: FieldSchema, v: FieldValue)
    requires
        f is Attribute,
        (v matches FieldValue::Scalars(vs) && vs.len() == 0),
    ensures
        attrs_part(f, v) == Seq::<char>::empty(),
{
    assert(attrs_part(f, v) =~= Seq::<char>::empty());
}

/// One step of a repeated child field: the first `n + 1` instances emit
/// the first `n` followed by the complete rendering of instance `n` — so
/// repeated children appear consecutively, in their list's order, each
/// complete before the next begins.
pub proof fn lemma_child_items_step(sub: RecordSchema, insts: Vec<RecordInstance>, n: int)
    requires
        0 <= n,
    ensures
        child_items_upto(sub, insts, n + 1) == child_items_upto(sub, insts, n) + render_record(
            sub,
            insts[n],
        ),
{
}

/// Three instances of a repeated child field emit as three consecutive
/// complete elements, in exactly their list's order.
pub proof fn lemma_three_children_in_order(sub: RecordSchema, insts: Vec<RecordInstance>)
    requires
        insts.len() == 3,
    ensures
        child_items_upto(sub, insts, 3) == render_record(sub, insts[0]) + render_record(
            sub,
            insts[1],
        ) + render_record(sub, insts[2]),
{
    lemma_child_items_step(sub, insts, 0);
    lemma_child_items_step(sub, insts, 1);
    lemma_child_items_step(sub, insts, 2);
    assert(child_items_upto(sub, insts, 0) =~= Seq::<char>::empty());
    assert(child_items_upto(sub, insts, 1) =~= render_record(sub, insts[0]));
    assert(child_items_upto(sub, insts, 2) =~= render_record(sub, insts[0]) + render_record(
        sub,
        insts[1],
    ));
    assert(child_items_upto(sub, insts, 3) =~= render_record(sub, insts[0]) + render_record(
        sub,
        insts[1],
    ) + render_record(sub, insts[2]));
}

} // verus!
