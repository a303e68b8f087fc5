use xml_emit::emit::{try_write_to_string, write_to_string};
use xml_emit::schema::{
    Cardinality, FieldContent, FieldSchema, RecordSchema, ScalarKind, SchemaError, TypeDescriptor,
};
use xml_emit::value::{FieldValue, RecordInstance, Scalar};
use xml_emit::writer::XmlWriter;

fn ty(kind: ScalarKind, card: Cardinality) -> TypeDescriptor {
    TypeDescriptor { kind, card }
}

fn attr(name: &str, tag: &str, kind: ScalarKind, card: Cardinality) -> FieldSchema {
    FieldSchema::Attribute {
        name: name.to_string(),
        tag: tag.to_string(),
        ty: ty(kind, card),
    }
}

fn text(name: &str, kind: ScalarKind, card: Cardinality) -> FieldSchema {
    FieldSchema::Text {
        name: name.to_string(),
        ty: ty(kind, card),
    }
}

fn flatten(name: &str, tag: &str, kind: ScalarKind, card: Cardinality) -> FieldSchema {
    FieldSchema::FlattenText {
        name: name.to_string(),
        tag: tag.to_string(),
        ty: ty(kind, card),
    }
}

fn child(name: &str, card: Cardinality, sub: RecordSchema) -> FieldSchema {
    FieldSchema::Child {
        name: name.to_string(),
        card,
        content: FieldContent::Record(Box::new(sub)),
    }
}

fn schema(tag: &str, fields: Vec<FieldSchema>) -> RecordSchema {
    RecordSchema::new(tag.to_string(), fields).expect("schema should be valid")
}

fn strings(vals: &[&str]) -> FieldValue {
    FieldValue::Scalars(vals.iter().map(|v| Scalar::StringLike(v.to_string())).collect())
}

fn shown(vals: &[&str]) -> FieldValue {
    FieldValue::Scalars(vals.iter().map(|v| Scalar::Displayable(v.to_string())).collect())
}

fn bools(vals: &[bool]) -> FieldValue {
    FieldValue::Scalars(vals.iter().map(|v| Scalar::Boolean(*v)).collect())
}

fn inst(values: Vec<FieldValue>) -> RecordInstance {
    RecordInstance { values }
}

#[test]
fn leaf_attributes_in_order() {
    let s = schema(
        "item",
        vec![
            attr("a", "a", ScalarKind::StringLike, Cardinality::Singular),
            attr("b", "b", ScalarKind::StringLike, Cardinality::Singular),
        ],
    );
    let i = inst(vec![strings(&["1"]), strings(&["2"])]);
    assert_eq!(write_to_string(&s, &i), "<item a=\"1\" b=\"2\"/>");
}

#[test]
fn leaf_without_fields_self_closes() {
    let s = schema("empty", vec![]);
    let i = inst(vec![]);
    assert_eq!(write_to_string(&s, &i), "<empty/>");
}

#[test]
fn single_text_element() {
    let s = schema(
        "name",
        vec![text("value", ScalarKind::StringLike, Cardinality::Singular)],
    );
    let i = inst(vec![strings(&["hello"])]);
    assert_eq!(write_to_string(&s, &i), "<name>hello</name>");
}

#[test]
fn text_element_keeps_attributes_inline() {
    let s = schema(
        "name",
        vec![
            attr("lang", "lang", ScalarKind::StringLike, Cardinality::Singular),
            text("value", ScalarKind::StringLike, Cardinality::Singular),
        ],
    );
    let i = inst(vec![strings(&["en"]), strings(&["hi"])]);
    assert_eq!(write_to_string(&s, &i), "<name lang=\"en\">hi</name>");
}

#[test]
fn empty_structural_self_closes() {
    let items = schema(
        "entry",
        vec![text("value", ScalarKind::StringLike, Cardinality::Singular)],
    );
    let s = schema(
        "list",
        vec![
            attr("id", "id", ScalarKind::StringLike, Cardinality::Singular),
            child("entries", Cardinality::Repeated, items),
            flatten("note", "note", ScalarKind::StringLike, Cardinality::Optional),
        ],
    );
    let i = inst(vec![
        strings(&["7"]),
        FieldValue::Records(vec![]),
        strings(&[]),
    ]);
    assert_eq!(write_to_string(&s, &i), "<list id=\"7\"/>");
}

#[test]
fn singular_child_never_self_closes() {
    let inner = schema("inner", vec![]);
    let s = schema("outer", vec![child("inner", Cardinality::Singular, inner)]);
    let i = inst(vec![FieldValue::Records(vec![inst(vec![])])]);
    assert_eq!(write_to_string(&s, &i), "<outer><inner/></outer>");
}

#[test]
fn singular_flatten_text_never_self_closes() {
    let s = schema(
        "outer",
        vec![flatten("v", "v", ScalarKind::StringLike, Cardinality::Singular)],
    );
    let i = inst(vec![strings(&[""])]);
    assert_eq!(write_to_string(&s, &i), "<outer><v></v></outer>");
}

#[test]
fn optional_text_absent_yields_empty_element() {
    let s = schema(
        "name",
        vec![text("value", ScalarKind::StringLike, Cardinality::Optional)],
    );
    let absent = inst(vec![strings(&[])]);
    assert_eq!(write_to_string(&s, &absent), "<name></name>");
    let present = inst(vec![strings(&["hi"])]);
    assert_eq!(write_to_string(&s, &present), "<name>hi</name>");
}

#[test]
fn repeated_text_values_share_one_element() {
    let s = schema(
        "t",
        vec![text("value", ScalarKind::StringLike, Cardinality::Repeated)],
    );
    let i = inst(vec![strings(&["a", "b"])]);
    assert_eq!(write_to_string(&s, &i), "<t>ab</t>");
}

#[test]
fn invalid_schema_is_refused_at_serialization() {
    let s = RecordSchema {
        tag: "e".to_string(),
        fields: vec![attr("a", "a", ScalarKind::StringLike, Cardinality::Repeated)],
    };
    let i = inst(vec![strings(&["1", "2"])]);
    assert!(try_write_to_string(&s, &i).is_none());
}

#[test]
fn bounded_writer_succeeds_exactly_when_output_fits() {
    let s = schema("x", vec![]);
    let i = inst(vec![]);
    let mut w = XmlWriter::with_capacity(4);
    assert!(xml_emit::emit::write(&mut w, &s, &i).is_ok());
    assert_eq!(w.into_string(), "<x/>");
    let mut tight = XmlWriter::with_capacity(3);
    assert!(xml_emit::emit::write(&mut tight, &s, &i).is_err());
}

#[test]
fn repeated_children_in_order() {
    let c = schema(
        "c",
        vec![text("value", ScalarKind::StringLike, Cardinality::Singular)],
    );
    let s = schema("l", vec![child("items", Cardinality::Repeated, c)]);
    let i = inst(vec![FieldValue::Records(vec![
        inst(vec![strings(&["A"])]),
        inst(vec![strings(&["B"])]),
        inst(vec![strings(&["C"])]),
    ])]);
    assert_eq!(write_to_string(&s, &i), "<l><c>A</c><c>B</c><c>C</c></l>");
}

#[test]
fn boolean_literals_not_numbers() {
    let s = schema(
        "f",
        vec![
            attr("b", "b", ScalarKind::Boolean, Cardinality::Singular),
            flatten("v", "v", ScalarKind::Boolean, Cardinality::Singular),
        ],
    );
    let i = inst(vec![bools(&[true]), bools(&[false])]);
    assert_eq!(write_to_string(&s, &i), "<f b=\"true\"><v>false</v></f>");
}

fn item_price_schema() -> RecordSchema {
    let price = schema(
        "price",
        vec![text("value", ScalarKind::Displayable, Cardinality::Singular)],
    );
    schema(
        "item",
        vec![
            attr("id", "id", ScalarKind::Displayable, Cardinality::Singular),
            child("price", Cardinality::Optional, price),
        ],
    )
}

#[test]
fn optional_child_absent_self_closes() {
    let s = item_price_schema();
    let i = inst(vec![shown(&["42"]), FieldValue::Records(vec![])]);
    assert_eq!(write_to_string(&s, &i), "<item id=\"42\"/>");
}

#[test]
fn optional_child_present_nests() {
    let s = item_price_schema();
    let i = inst(vec![
        shown(&["42"]),
        FieldValue::Records(vec![inst(vec![shown(&["9.99"])])]),
    ]);
    assert_eq!(
        write_to_string(&s, &i),
        "<item id=\"42\"><price>9.99</price></item>"
    );
}

#[test]
fn optional_flatten_text_present() {
    let s = schema(
        "item",
        vec![
            attr("id", "id", ScalarKind::Displayable, Cardinality::Singular),
            flatten("price", "price", ScalarKind::Displayable, Cardinality::Optional),
        ],
    );
    let absent = inst(vec![shown(&["42"]), shown(&[])]);
    assert_eq!(write_to_string(&s, &absent), "<item id=\"42\"/>");
    let present = inst(vec![shown(&["42"]), shown(&["9.99"])]);
    assert_eq!(
        write_to_string(&s, &present),
        "<item id=\"42\"><price>9.99</price></item>"
    );
}

#[test]
fn absent_optional_attribute_is_omitted() {
    let s = schema(
        "e",
        vec![attr("a", "a", ScalarKind::StringLike, Cardinality::Optional)],
    );
    let i = inst(vec![strings(&[])]);
    assert_eq!(write_to_string(&s, &i), "<e/>");
}

#[test]
fn attribute_and_text_are_escaped() {
    let s = schema(
        "e",
        vec![
            attr("a", "a", ScalarKind::StringLike, Cardinality::Singular),
            text("value", ScalarKind::StringLike, Cardinality::Singular),
        ],
    );
    let i = inst(vec![strings(&["x\"y'z"]), strings(&["a<b&c>d"])]);
    assert_eq!(
        write_to_string(&s, &i),
        "<e a=\"x&quot;y&apos;z\">a&lt;b&amp;c&gt;d</e>"
    );
}

#[test]
fn repeated_flatten_text_in_order() {
    let s = schema(
        "tags",
        vec![flatten("tag", "tag", ScalarKind::StringLike, Cardinality::Repeated)],
    );
    let i = inst(vec![strings(&["x", "y"])]);
    assert_eq!(write_to_string(&s, &i), "<tags><tag>x</tag><tag>y</tag></tags>");
}

#[test]
fn repeated_attribute_is_rejected() {
    let r = RecordSchema::new(
        "e".to_string(),
        vec![attr("a", "a", ScalarKind::StringLike, Cardinality::Repeated)],
    );
    assert!(matches!(r, Err(SchemaError::InvalidCardinality)));
}

#[test]
fn scalar_child_is_rejected() {
    let f = FieldSchema::Child {
        name: "c".to_string(),
        card: Cardinality::Singular,
        content: FieldContent::Scalar(ScalarKind::StringLike),
    };
    let r = RecordSchema::new("e".to_string(), vec![f]);
    assert!(matches!(r, Err(SchemaError::InvalidChildType)));
}

#[test]
fn nested_invalid_child_schema_is_rejected() {
    let bad_inner = RecordSchema {
        tag: "inner".to_string(),
        fields: vec![attr("a", "a", ScalarKind::StringLike, Cardinality::Repeated)],
    };
    let r = RecordSchema::new(
        "outer".to_string(),
        vec![child("inner", Cardinality::Singular, bad_inner)],
    );
    assert!(matches!(r, Err(SchemaError::InvalidCardinality)));
}

#[test]
fn bounded_writer_reports_failure() {
    let s = schema("toolong", vec![]);
    let i = inst(vec![]);
    let mut w = XmlWriter::with_capacity(3);
    assert!(xml_emit::emit::write(&mut w, &s, &i).is_err());
    let mut roomy = XmlWriter::with_capacity(100);
    assert!(xml_emit::emit::write(&mut roomy, &s, &i).is_ok());
    assert_eq!(roomy.into_string(), "<toolong/>");
}

#[test]
fn writer_collects_operations() {
    let mut w = XmlWriter::new();
    w.write_element_start("t").unwrap();
    w.write_attribute("k", "v").unwrap();
    w.write_element_end_open().unwrap();
    w.write_text("body").unwrap();
    w.write_flatten_text("f", "x").unwrap();
    w.write_element_end_close("t").unwrap();
    assert_eq!(w.into_string(), "<t k=\"v\">body<f>x</f></t>");
}

#[test]
fn mismatched_instance_is_refused() {
    let s = schema(
        "e",
        vec![attr("a", "a", ScalarKind::StringLike, Cardinality::Singular)],
    );
    let missing = inst(vec![]);
    assert!(try_write_to_string(&s, &missing).is_none());
    let wrong_kind = inst(vec![bools(&[true])]);
    assert!(try_write_to_string(&s, &wrong_kind).is_none());
    let ok = inst(vec![strings(&["v"])]);
    assert_eq!(try_write_to_string(&s, &ok).unwrap(), "<e a=\"v\"/>");
}

#[test]
fn matches_checks_recursively() {
    let inner = schema(
        "inner",
        vec![text("value", ScalarKind::StringLike, Cardinality::Singular)],
    );
    let s = schema("outer", vec![child("inner", Cardinality::Singular, inner)]);
    let good = inst(vec![FieldValue::Records(vec![inst(vec![strings(&["x"])])])]);
    assert!(good.matches(&s));
    let bad = inst(vec![FieldValue::Records(vec![inst(vec![bools(&[true])])])]);
    assert!(!bad.matches(&s));
    let empty = inst(vec![FieldValue::Records(vec![])]);
    assert!(!empty.matches(&s));
}

#[test]
fn shape_resolution() {
    let leaf = schema(
        "a",
        vec![attr("x", "x", ScalarKind::StringLike, Cardinality::Singular)],
    );
    let sh = leaf.resolve_shape();
    assert!(sh.is_leaf && !sh.is_text_bearing && sh.can_self_close);

    let texty = schema(
        "b",
        vec![text("v", ScalarKind::StringLike, Cardinality::Singular)],
    );
    let sh = texty.resolve_shape();
    assert!(!sh.is_leaf && sh.is_text_bearing);

    let forced = schema(
        "c",
        vec![flatten("v", "v", ScalarKind::StringLike, Cardinality::Singular)],
    );
    let sh = forced.resolve_shape();
    assert!(!sh.is_leaf && !sh.is_text_bearing && !sh.can_self_close);
}

#[test]
fn scalar_to_str_forms() {
    assert_eq!(Scalar::StringLike("ab".to_string()).to_str(), "ab");
    assert_eq!(Scalar::Boolean(true).to_str(), "true");
    assert_eq!(Scalar::Boolean(false).to_str(), "false");
    assert_eq!(Scalar::Displayable("3.5".to_string()).to_str(), "3.5");
}

#[test]
fn validate_accepts_valid_schema() {
    let s = schema(
        "ok",
        vec![
            attr("a", "a", ScalarKind::StringLike, Cardinality::Optional),
            flatten("f", "f", ScalarKind::Boolean, Cardinality::Repeated),
        ],
    );
    assert!(s.validate().is_ok());
}
