use enum_getters::{
    fields_diff, fields_inter, fields_union, FieldDescriptor, VariantDescriptor, VariantShape,
};

fn field(name: &str, ty: &str) -> FieldDescriptor {
    FieldDescriptor::new(name.to_string(), ty.to_string())
}

fn record(name: &str, fields: &[(&str, &str)]) -> VariantDescriptor {
    VariantDescriptor {
        name: name.to_string(),
        shape: VariantShape::Record(fields.iter().map(|(n, t)| field(n, t)).collect()),
    }
}

fn unit(name: &str) -> VariantDescriptor {
    VariantDescriptor { name: name.to_string(), shape: VariantShape::Unit }
}

fn tuple(name: &str, tys: &[&str]) -> VariantDescriptor {
    VariantDescriptor {
        name: name.to_string(),
        shape: VariantShape::Tuple(tys.iter().map(|t| t.to_string()).collect()),
    }
}

fn sorted(fs: &[FieldDescriptor]) -> Vec<String> {
    let mut v: Vec<String> = fs.iter().map(|f| format!("{}:{}", f.name, f.ty)).collect();
    v.sort();
    v
}

fn two_records() -> Vec<VariantDescriptor> {
    vec![
        record("A", &[("x", "int"), ("y", "int")]),
        record("B", &[("x", "int"), ("z", "int")]),
    ]
}

#[test]
fn shared_field_algebra() {
    let vs = two_records();
    assert_eq!(sorted(&fields_inter(&vs)), vec!["x:int"]);
    assert_eq!(sorted(&fields_union(&vs)), vec!["x:int", "y:int", "z:int"]);
    assert_eq!(sorted(&fields_diff(&vs)), vec!["y:int", "z:int"]);
}

#[test]
fn unit_variant_skipped_by_algebra() {
    let vs = vec![record("A", &[("x", "int")]), unit("B")];
    assert_eq!(sorted(&fields_inter(&vs)), vec!["x:int"]);
    assert_eq!(sorted(&fields_union(&vs)), vec!["x:int"]);
    assert!(fields_diff(&vs).is_empty());
}

#[test]
fn single_record_algebra() {
    let vs = vec![record("A", &[("x", "int"), ("y", "int")])];
    assert_eq!(sorted(&fields_inter(&vs)), vec!["x:int", "y:int"]);
    assert_eq!(sorted(&fields_union(&vs)), vec!["x:int", "y:int"]);
    assert!(fields_diff(&vs).is_empty());
}

#[test]
fn no_records_give_empty_sets() {
    let vs = vec![unit("A"), tuple("B", &["u8"])];
    assert!(fields_inter(&vs).is_empty());
    assert!(fields_union(&vs).is_empty());
    assert!(fields_diff(&vs).is_empty());
    assert!(fields_inter(&Vec::new()).is_empty());
}

#[test]
fn same_name_other_type_is_another_field() {
    let vs = vec![record("A", &[("x", "i32")]), record("B", &[("x", "i64")])];
    assert!(fields_inter(&vs).is_empty());
    assert_eq!(sorted(&fields_union(&vs)), vec!["x:i32", "x:i64"]);
    assert_eq!(sorted(&fields_diff(&vs)), vec!["x:i32", "x:i64"]);
}

#[test]
fn union_lists_each_field_once() {
    let vs = vec![
        record("A", &[("x", "int")]),
        record("B", &[("x", "int")]),
        record("C", &[("x", "int"), ("w", "bool")]),
    ];
    assert_eq!(fields_union(&vs).len(), 2);
    assert_eq!(fields_inter(&vs).len(), 1);
}

#[test]
fn reordering_keeps_union_and_intersection() {
    let vs = vec![
        record("A", &[("x", "int"), ("y", "int")]),
        unit("U"),
        record("B", &[("x", "int"), ("z", "int")]),
        record("C", &[("x", "int"), ("y", "int"), ("q", "u8")]),
    ];
    let mut ws = vs.clone();
    ws.reverse();
    ws.swap(0, 2);
    assert_eq!(sorted(&fields_union(&vs)), sorted(&fields_union(&ws)));
    assert_eq!(sorted(&fields_inter(&vs)), sorted(&fields_inter(&ws)));
}

#[test]
fn difference_is_union_less_intersection() {
    let vs = vec![
        record("A", &[("x", "int"), ("y", "int")]),
        record("B", &[("x", "int"), ("y", "int"), ("z", "int")]),
    ];
    let union = sorted(&fields_union(&vs));
    let inter = sorted(&fields_inter(&vs));
    let expected: Vec<String> = union.iter().filter(|f| !inter.contains(f)).cloned().collect();
    assert_eq!(sorted(&fields_diff(&vs)), expected);
    assert!(inter.iter().all(|f| union.contains(f)));
}

#[test]
fn adding_a_record_never_grows_intersection() {
    let mut vs = two_records();
    let before = sorted(&fields_inter(&vs));
    vs.push(record("C", &[("y", "int")]));
    let after = sorted(&fields_inter(&vs));
    assert!(after.iter().all(|f| before.contains(f)));
    assert!(after.is_empty());
}

#[test]
fn tuple_and_unit_variants_are_transparent() {
    let vs = two_records();
    let mut ws = vs.clone();
    ws.insert(1, unit("U"));
    ws.push(tuple("T", &["int", "int"]));
    assert_eq!(sorted(&fields_union(&vs)), sorted(&fields_union(&ws)));
    assert_eq!(sorted(&fields_inter(&vs)), sorted(&fields_inter(&ws)));
}

#[test]
fn field_equality_is_structural() {
    assert!(field("x", "int") == field("x", "int"));
    assert!(field("x", "int") != field("x", "i64"));
    assert!(field("x", "int") != field("y", "int"));
    assert!(field("x", "int").same_as(&field("x", "int").duplicate()));
}
