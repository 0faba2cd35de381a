use enum_getters::{
    field_to_getter, field_to_mut_getter, fold1, map_variants_for_unique_iter,
    mk_common_field_get, mk_common_field_get_mut, mk_discrim_one_named, mk_discrim_one_unit,
    mk_discrim_one_unnamed, mk_discrims, mk_match_arm_one, this_variant_unique, variant_to_arm,
    ArmBody, FieldDescriptor, GenError, GeneratedMethod, MatchArm, Output, Pattern,
    VariantDescriptor, VariantShape,
};

fn s(x: &str) -> String {
    x.to_string()
}

fn field(name: &str, ty: &str) -> FieldDescriptor {
    FieldDescriptor::new(s(name), s(ty))
}

fn record(name: &str, fields: &[(&str, &str)]) -> VariantDescriptor {
    VariantDescriptor {
        name: s(name),
        shape: VariantShape::Record(fields.iter().map(|(n, t)| field(n, t)).collect()),
    }
}

fn unit(name: &str) -> VariantDescriptor {
    VariantDescriptor { name: s(name), shape: VariantShape::Unit }
}

fn tuple(name: &str, tys: &[&str]) -> VariantDescriptor {
    VariantDescriptor {
        name: s(name),
        shape: VariantShape::Tuple(tys.iter().map(|t| s(t)).collect()),
    }
}

fn getter_arm(e: &str, v: &str, f: &str) -> MatchArm {
    MatchArm {
        pattern: Pattern::Record { enum_name: s(e), variant: s(v), bindings: vec![s(f)] },
        body: ArmBody::Binding(s(f)),
    }
}

fn clones_arm(e: &str, v: &str, names: &[&str]) -> MatchArm {
    let names: Vec<String> = names.iter().map(|n| s(n)).collect();
    MatchArm {
        pattern: Pattern::Record { enum_name: s(e), variant: s(v), bindings: names.clone() },
        body: ArmBody::Clones(names),
    }
}

/// Which arm body a `match` on a value of variant `v` picks.
fn pick<'a>(m: &'a GeneratedMethod, e: &str, v: &VariantDescriptor) -> Option<&'a ArmBody> {
    m.arms
        .iter()
        .find(|a| match &a.pattern {
            Pattern::Record { enum_name, variant, .. } => {
                enum_name == e && variant == &v.name && matches!(v.shape, VariantShape::Record(_))
            }
            Pattern::Tuple { enum_name, variant } => {
                enum_name == e && variant == &v.name && matches!(v.shape, VariantShape::Tuple(_))
            }
            Pattern::Unit { enum_name, variant } => {
                enum_name == e && variant == &v.name && matches!(v.shape, VariantShape::Unit)
            }
            Pattern::Wildcard => true,
        })
        .map(|a| &a.body)
}

fn two_records() -> Vec<VariantDescriptor> {
    vec![
        record("A", &[("x", "int"), ("y", "int")]),
        record("B", &[("x", "int"), ("z", "int")]),
    ]
}

#[test]
fn getter_for_shared_field_matches_both_arms() {
    let ms = mk_common_field_get(&s("E"), &two_records()).unwrap();
    assert_eq!(ms.len(), 1);
    let m = &ms[0];
    assert_eq!(m.target, "E");
    assert_eq!(m.name, "get_x");
    assert_eq!(m.output, Output::Ref(s("int")));
    assert_eq!(m.arms, vec![getter_arm("E", "A", "x"), getter_arm("E", "B", "x")]);
}

#[test]
fn mut_getter_for_shared_field() {
    let ms = mk_common_field_get_mut(&s("E"), &two_records()).unwrap();
    assert_eq!(ms.len(), 1);
    assert_eq!(ms[0].name, "get_mut_x");
    assert_eq!(ms[0].output, Output::MutRef(s("int")));
    assert_eq!(ms[0].arms, vec![getter_arm("E", "A", "x"), getter_arm("E", "B", "x")]);
}

#[test]
fn getter_with_unit_variant_is_refused() {
    let vs = vec![record("A", &[("x", "int")]), unit("B")];
    assert_eq!(mk_common_field_get(&s("E"), &vs), Err(GenError::ShapeMismatch { variant: s("B") }));
    assert_eq!(
        mk_common_field_get_mut(&s("E"), &vs),
        Err(GenError::ShapeMismatch { variant: s("B") })
    );
}

#[test]
fn getter_error_names_first_non_record() {
    let vs = vec![record("A", &[("x", "int")]), tuple("T", &["u8"]), unit("U"), record("B", &[("x", "int")])];
    assert_eq!(mk_common_field_get(&s("E"), &vs), Err(GenError::ShapeMismatch { variant: s("T") }));
}

#[test]
fn no_common_field_gives_no_getters() {
    let vs = vec![record("A", &[("x", "int")]), record("B", &[("y", "int")]), unit("C")];
    assert_eq!(mk_common_field_get(&s("E"), &vs), Ok(Vec::new()));
    assert_eq!(mk_common_field_get_mut(&s("E"), &vs), Ok(Vec::new()));
}

#[test]
fn one_getter_per_common_field() {
    let vs = vec![record("A", &[("x", "int"), ("y", "bool")]), record("B", &[("y", "bool"), ("x", "int")])];
    let ms = mk_common_field_get(&s("E"), &vs).unwrap();
    let mut names: Vec<String> = ms.iter().map(|m| m.name.clone()).collect();
    names.sort();
    assert_eq!(names, vec![s("get_x"), s("get_y")]);
}

#[test]
fn single_getter_pieces() {
    let arm = mk_match_arm_one(&s("E"), &s("V"), &s("f"));
    assert_eq!(arm, getter_arm("E", "V", "f"));
    let idents = vec![s("A"), s("B"), s("C")];
    let g = field_to_getter(&s("E"), &idents, &field("f", "Vec<u8>"));
    assert_eq!(g.name, "get_f");
    assert_eq!(g.output, Output::Ref(s("Vec<u8>")));
    assert_eq!(g.arms.len(), 3);
    assert_eq!(g.arms[2], getter_arm("E", "C", "f"));
    let m = field_to_mut_getter(&s("E"), &idents, &field("f", "Vec<u8>"));
    assert_eq!(m.name, "get_mut_f");
    assert_eq!(m.output, Output::MutRef(s("Vec<u8>")));
    assert_eq!(m.arms, g.arms);
}

#[test]
fn iter_uniques_collects_unshared_fields() {
    let m = map_variants_for_unique_iter(&s("E"), &two_records()).unwrap();
    assert_eq!(m.name, "iter_uniques");
    assert_eq!(m.output, Output::ItemVec);
    assert_eq!(m.arms, vec![clones_arm("E", "A", &["y"]), clones_arm("E", "B", &["z"])]);
}

#[test]
fn iter_uniques_single_variant_is_empty() {
    let vs = vec![record("A", &[("x", "int"), ("y", "int")])];
    let m = map_variants_for_unique_iter(&s("E"), &vs).unwrap();
    assert_eq!(m.arms, vec![clones_arm("E", "A", &[])]);
}

#[test]
fn iter_uniques_keeps_declaration_order() {
    let vs = vec![
        record("A", &[("b", "int"), ("x", "int"), ("a", "int")]),
        record("B", &[("x", "int")]),
    ];
    let m = map_variants_for_unique_iter(&s("E"), &vs).unwrap();
    assert_eq!(m.arms, vec![clones_arm("E", "A", &["b", "a"]), clones_arm("E", "B", &[])]);
}

#[test]
fn iter_uniques_refuses_non_records() {
    let vs = vec![record("A", &[("x", "int")]), tuple("T", &["int"])];
    assert_eq!(
        map_variants_for_unique_iter(&s("E"), &vs),
        Err(GenError::ShapeMismatch { variant: s("T") })
    );
    let vs = vec![unit("U"), record("A", &[("x", "int")])];
    assert_eq!(
        map_variants_for_unique_iter(&s("E"), &vs),
        Err(GenError::ShapeMismatch { variant: s("U") })
    );
}

#[test]
fn unique_fields_of_one_variant() {
    let v = record("A", &[("x", "int"), ("y", "int"), ("z", "u8")]);
    let inter = vec![field("x", "int"), field("z", "u16")];
    let us = this_variant_unique(&v, &inter);
    let names: Vec<String> = us.iter().map(|f| f.name.clone()).collect();
    assert_eq!(names, vec![s("y"), s("z")]);
    assert_eq!(variant_to_arm(&s("E"), &v, &us), clones_arm("E", "A", &["y", "z"]));
    assert_eq!(variant_to_arm(&s("E"), &v, &Vec::new()), clones_arm("E", "A", &[]));
}

#[test]
fn discriminants_per_shape() {
    let vs = vec![record("FooBar", &[("x", "int")]), tuple("Pair", &["u8", "u8"]), unit("Empty")];
    let ms = mk_discrims(&s("E"), &vs);
    assert_eq!(ms.len(), 3);
    assert_eq!(ms[0].name, "is_foo_bar");
    assert_eq!(ms[1].name, "is_pair");
    assert_eq!(ms[2].name, "is_empty");
    assert_eq!(ms[0], mk_discrim_one_named(&s("E"), &s("FooBar")));
    assert_eq!(ms[1], mk_discrim_one_unnamed(&s("E"), &s("Pair")));
    assert_eq!(ms[2], mk_discrim_one_unit(&s("E"), &s("Empty")));
    for m in &ms {
        assert_eq!(m.output, Output::Bool);
        assert_eq!(m.arms.len(), 2);
        assert_eq!(m.arms[0].body, ArmBody::Literal(true));
        assert_eq!(m.arms[1], MatchArm { pattern: Pattern::Wildcard, body: ArmBody::Literal(false) });
    }
    assert_eq!(
        ms[0].arms[0].pattern,
        Pattern::Record { enum_name: s("E"), variant: s("FooBar"), bindings: Vec::new() }
    );
    assert_eq!(ms[1].arms[0].pattern, Pattern::Tuple { enum_name: s("E"), variant: s("Pair") });
    assert_eq!(ms[2].arms[0].pattern, Pattern::Unit { enum_name: s("E"), variant: s("Empty") });
}

#[test]
fn exactly_one_discriminant_is_true() {
    let vs = vec![record("A", &[("x", "int")]), tuple("B", &["u8"]), unit("C"), unit("D")];
    let ms = mk_discrims(&s("E"), &vs);
    for (k, v) in vs.iter().enumerate() {
        for (j, m) in ms.iter().enumerate() {
            assert_eq!(pick(m, "E", v), Some(&ArmBody::Literal(j == k)));
        }
    }
}

#[test]
fn fold1_folds_from_the_left() {
    assert_eq!(fold1(vec![1u32, 2, 3], |a, b| a + b), Some(6));
    assert_eq!(fold1(vec![10i32, 3, 2], |a, b| a - b), Some(5));
    assert_eq!(fold1(vec![7u8], |a, b| a.max(b)), Some(7));
    assert_eq!(fold1(Vec::<u8>::new(), |a, b| a.max(b)), None);
}
