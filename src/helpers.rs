use vstd::prelude::*;
use vstd::string::StringExecFns;
use crate::casing::{snake_case_name, snake_of};
use crate::codegen::{
    arms_view, methods_view, ArmBody, ArmView, BodyView, GeneratedMethod, MatchArm, MethodView,
    Output, OutputView, Pattern, PatternView,
};
use crate::field_sets::{contains_field, fields_inter, fs_of, inter_of, lists_set};
use crate::model::{
    fields_view, is_record, names_distinct, record_has, strings_view, variant_names, variants_view, FieldDescriptor,
    FieldView, ShapeView, VariantDescriptor, VariantShape, VariantView,
};

verus! {

/// Why a schema cannot be processed as asked.
#[derive(Clone, Debug, PartialEq, Eq)]
pub enum GenError {
    /// The named variant is not record-shaped where every variant must be.
    ShapeMismatch { variant: String },
}

/// Every variant is record-shaped.
pub open spec fn all_records(vs: Seq<VariantView>) -> bool {
    forall|i: int| 0 <= i < vs.len() ==> #[trigger] is_record(vs[i])
}

/// `err` names the first variant that is not record-shaped.
pub open spec fn names_first_non_record(vs: Seq<VariantView>, err: GenError) -> bool {
    match err {
        GenError::ShapeMismatch { variant } => exists|k: int|
            0 <= k < vs.len() && !is_record(#[trigger] vs[k]) && (forall|j: int|
                0 <= j < k ==> is_record(vs[j])) && variant@ == vs[k].name,
    }
}

pub open spec fn field_names(fs: Seq<FieldView>) -> Seq<Seq<char>> {
    fs.map_values(|f: FieldView| f.name)
}

/// `acc` traces a left fold of `items` by `f` seeded with the first item:
/// `acc[0]` is `items[0]`, and each next entry is `f` of the previous one
/// and the next item.
pub open spec fn fold_trace<A, F: Fn(A, A) -> A>(f: F, items: Seq<A>, acc: Seq<A>) -> bool {
    &&& items.len() > 0
    &&& acc.len() == items.len()
    &&& acc[0] == items[0]
    &&& forall|i: int|
        0 <= i < items.len() - 1 ==> f.ensures((acc[i], items[i + 1]), #[trigger] acc[i + 1])
}

/// Folds the items from the left with `f`, seeded with the first one;
/// `None` when there are no items.
pub fn fold1<A, F: Fn(A, A) -> A>(items: Vec<A>, f: F) -> (r: Option<A>)
    requires
        forall|a: A, b: A| f.requires((a, b)),
    ensures
        r is None <==> items@.len() == 0,
        match r {
            Some(x) => exists|acc: Seq<A>| fold_trace(f, items@, acc) && acc.last() == x,
            None => true,
        },
{
    let ghost orig = items@;
    let mut rest = items;
    if rest.len() == 0 {
        return None;
    }
    let first = rest.remove(0);
    let ghost mut acc: Seq<A> = seq![first];
    let mut cur = first;
    while rest.len() > 0
        invariant
            forall|a: A, b: A| f.requires((a, b)),
            1 <= acc.len() <= orig.len(),
            rest@ == orig.subrange(acc.len() as int, orig.len() as int),
            acc[0] == orig[0],
            cur == acc.last(),
            forall|i: int|
                0 <= i < acc.len() - 1 ==> f.ensures((acc[i], orig[i + 1]), #[trigger] acc[i + 1]),
        decreases rest.len(),
    {
        let x = rest.remove(0);
        assert(x == orig[acc.len() as int]);
        let next = f(cur, x);
        proof {
            acc = acc.push(next);
        }
        cur = next;
    }
    assert(fold_trace(f, orig, acc));
    Some(cur)
}

// ---- common-field accessors ----

/// The arm `Enum::Variant { field, .. } => field`.
pub open spec fn getter_arm(e: Seq<char>, v: Seq<char>, f: Seq<char>) -> ArmView {
    ArmView {
        pattern: PatternView::Record { enum_name: e, variant: v, bindings: seq![f] },
        body: BodyView::Binding(f),
    }
}

/// `get_<field>(&self) -> &T`, or `get_mut_<field>(&mut self) -> &mut T`,
/// matching every listed variant in order.
pub open spec fn getter_spec(
    e: Seq<char>,
    variants: Seq<Seq<char>>,
    f: FieldView,
    mutable: bool,
) -> MethodView {
    MethodView {
        target: e,
        name: if mutable {
            "get_mut_"@ + f.name
        } else {
            "get_"@ + f.name
        },
        output: if mutable {
            OutputView::MutRef(f.ty)
        } else {
            OutputView::Ref(f.ty)
        },
        arms: variants.map_values(|v: Seq<char>| getter_arm(e, v, f.name)),
    }
}

/// Accessors are sound only when no variant lacks a common field: either
/// every variant is record-shaped or there is no common field.
pub open spec fn getters_fit(vs: Seq<VariantView>) -> bool {
    all_records(vs) || inter_of(vs) == Set::<FieldView>::empty()
}

/// `ms` holds one accessor for each common field, in some order.
pub open spec fn common_getters(
    e: Seq<char>,
    vs: Seq<VariantView>,
    ms: Seq<MethodView>,
    mutable: bool,
) -> bool {
    exists|fs: Seq<FieldView>|
        #![trigger fs.to_set()]
        fs.no_duplicates() && fs.to_set() == inter_of(vs) && ms == fs.map_values(
            |f: FieldView| getter_spec(e, variant_names(vs), f, mutable),
        )
}

pub fn mk_match_arm_one(enum_ident: &String, variant_ident: &String, field_name: &String) -> (r:
    MatchArm)
    ensures
        r@ == getter_arm(enum_ident@, variant_ident@, field_name@),
{
    let bindings = vec![field_name.clone()];
    assert(strings_view(bindings@) =~= seq![field_name@]);
    MatchArm {
        pattern: Pattern::Record {
            enum_name: enum_ident.clone(),
            variant: variant_ident.clone(),
            bindings,
        },
        body: ArmBody::Binding(field_name.clone()),
    }
}

fn build_getter(
    enum_ident: &String,
    variant_idents: &Vec<String>,
    field: &FieldDescriptor,
    mutable: bool,
) -> (r: GeneratedMethod)
    ensures
        r@ == getter_spec(enum_ident@, strings_view(variant_idents@), field@, mutable),
{
    let mut name = if mutable {
        String::from_str("get_mut_")
    } else {
        String::from_str("get_")
    };
    name.append(field.name.as_str());
    let output = if mutable {
        Output::MutRef(field.ty.clone())
    } else {
        Output::Ref(field.ty.clone())
    };
    let ghost names = strings_view(variant_idents@);
    let mut arms: Vec<MatchArm> = Vec::new();
    let mut i: usize = 0;
    while i < variant_idents.len()
        invariant
            i <= variant_idents.len(),
            names == strings_view(variant_idents@),
            arms_view(arms@) == names.subrange(0, i as int).map_values(
                |v: Seq<char>| getter_arm(enum_ident@, v, field.name@),
            ),
        decreases variant_idents.len() - i,
    {
        let arm = mk_match_arm_one(enum_ident, &variant_idents[i], &field.name);
        let ghost prev = arms_view(arms@);
        let ghost g = |v: Seq<char>| getter_arm(enum_ident@, v, field.name@);
        assert(names[i as int] == variant_idents@[i as int]@);
        arms.push(arm);
        assert(arms_view(arms@) =~= prev.push(arm@));
        assert(names.subrange(0, i as int + 1).map_values(g) =~= names.subrange(
            0,
            i as int,
        ).map_values(g).push(g(names[i as int])));
        i += 1;
    }
    assert(names.subrange(0, names.len() as int) =~= names);
    GeneratedMethod { target: enum_ident.clone(), name, output, arms }
}

/// `get_<field>(&self) -> &T`, one arm per variant binding that field.
pub fn field_to_getter(enum_ident: &String, variant_idents: &Vec<String>, field: &FieldDescriptor) -> (r:
    GeneratedMethod)
    ensures
        r@ == getter_spec(enum_ident@, strings_view(variant_idents@), field@, false),
{
    build_getter(enum_ident, variant_idents, field, false)
}

/// `get_mut_<field>(&mut self) -> &mut T`, one arm per variant binding that
/// field.
pub fn field_to_mut_getter(
    enum_ident: &String,
    variant_idents: &Vec<String>,
    field: &FieldDescriptor,
) -> (r: GeneratedMethod)
    ensures
        r@ == getter_spec(enum_ident@, strings_view(variant_idents@), field@, true),
{
    build_getter(enum_ident, variant_idents, field, true)
}

/// The index of the first variant that is not record-shaped, if any.
fn first_non_record(variants: &Vec<VariantDescriptor>) -> (r: Option<usize>)
    ensures
        match r {
            Some(k) => k < variants@.len() && !is_record(variants@[k as int]@) && forall|j: int|
                0 <= j < k ==> is_record(#[trigger] variants@[j]@),
            None => forall|j: int| 0 <= j < variants@.len() ==> is_record(#[trigger] variants@[j]@),
        },
{
    let mut i: usize = 0;
    while i < variants.len()
        invariant
            i <= variants.len(),
            forall|j: int| 0 <= j < i ==> is_record(#[trigger] variants@[j]@),
        decreases variants.len() - i,
    {
        match &variants[i].shape {
            VariantShape::Record(_) => {},
            _ => {
                return Some(i);
            },
        }
        i += 1;
    }
    None
}

fn mismatch_at(variants: &Vec<VariantDescriptor>, k: usize) -> (err: GenError)
    requires
        k < variants@.len(),
        !is_record(variants@[k as int]@),
        forall|j: int| 0 <= j < k ==> is_record(#[trigger] variants@[j]@),
    ensures
        names_first_non_record(variants_view(variants@), err),
{
    let ghost vs = variants_view(variants@);
    assert(vs[k as int] == variants@[k as int]@);
    assert(forall|j: int| 0 <= j < k ==> vs[j] == variants@[j]@);
    GenError::ShapeMismatch { variant: variants[k].name.clone() }
}

fn variant_idents(variants: &Vec<VariantDescriptor>) -> (r: Vec<String>)
    ensures
        strings_view(r@) == variant_names(variants_view(variants@)),
{
    let mut r: Vec<String> = Vec::new();
    let mut i: usize = 0;
    while i < variants.len()
        invariant
            i <= variants.len(),
            strings_view(r@) == variant_names(variants_view(variants@.subrange(0, i as int))),
        decreases variants.len() - i,
    {
        let ghost prev = strings_view(r@);
        let n = variants[i].name.clone();
        r.push(n);
        assert(strings_view(r@) =~= prev.push(n@));
        assert(variant_names(variants_view(variants@.subrange(0, i as int + 1))) =~= variant_names(
            variants_view(variants@.subrange(0, i as int)),
        ).push(variants@[i as int].name@));
        i += 1;
    }
    assert(variants@.subrange(0, variants@.len() as int) =~= variants@);
    r
}

fn common_field_getters(enum_ident: &String, variants: &Vec<VariantDescriptor>, mutable: bool) -> (r:
    Result<Vec<GeneratedMethod>, GenError>)
    ensures
        r is Ok <==> getters_fit(variants_view(variants@)),
        match r {
            Ok(ms) => common_getters(
                enum_ident@,
                variants_view(variants@),
                methods_view(ms@),
                mutable,
            ),
            Err(err) => names_first_non_record(variants_view(variants@), err),
        },
{
    let ghost vs = variants_view(variants@);
    let inter = fields_inter(variants);
    let ghost fs = fields_view(inter@);
    if inter.len() > 0 {
        assert(fs.to_set().contains(fs[0]));
        if let Some(k) = first_non_record(variants) {
            assert(vs[k as int] == variants@[k as int]@);
            assert(inter_of(vs).contains(fs[0]));
            return Err(mismatch_at(variants, k));
        }
        assert forall|j: int| 0 <= j < vs.len() implies #[trigger] is_record(vs[j]) by {
            assert(vs[j] == variants@[j]@);
        }
    } else {
        assert(fs =~= Seq::<FieldView>::empty());
        assert(inter_of(vs) =~= Set::<FieldView>::empty());
    }
    let idents = variant_idents(variants);
    let mut ms: Vec<GeneratedMethod> = Vec::new();
    let mut j: usize = 0;
    while j < inter.len()
        invariant
            j <= inter.len(),
            fs == fields_view(inter@),
            strings_view(idents@) == variant_names(vs),
            methods_view(ms@) == fs.subrange(0, j as int).map_values(
                |f: FieldView| getter_spec(enum_ident@, variant_names(vs), f, mutable),
            ),
        decreases inter.len() - j,
    {
        let m = build_getter(enum_ident, &idents, &inter[j], mutable);
        let ghost prev = methods_view(ms@);
        let ghost g = |f: FieldView| getter_spec(enum_ident@, variant_names(vs), f, mutable);
        assert(fs[j as int] == inter@[j as int]@);
        ms.push(m);
        assert(methods_view(ms@) =~= prev.push(m@));
        assert(fs.subrange(0, j as int + 1).map_values(g) =~= fs.subrange(0, j as int).map_values(
            g,
        ).push(g(fs[j as int])));
        j += 1;
    }
    assert(fs.subrange(0, fs.len() as int) =~= fs);
    assert(fs.no_duplicates() && fs.to_set() == inter_of(vs));
    Ok(ms)
}

/// One `get_<field>` accessor per field common to all record-shaped
/// variants. Fails with the first variant that is not record-shaped when
/// there is a common field that such a variant cannot have.
pub fn mk_common_field_get(enum_ident: &String, variants: &Vec<VariantDescriptor>) -> (r: Result<
    Vec<GeneratedMethod>,
    GenError,
>)
    ensures
        r is Ok <==> getters_fit(variants_view(variants@)),
        match r {
            Ok(ms) => common_getters(
                enum_ident@,
                variants_view(variants@),
                methods_view(ms@),
                false,
            ),
            Err(err) => names_first_non_record(variants_view(variants@), err),
        },
{
    common_field_getters(enum_ident, variants, false)
}

/// One `get_mut_<field>` accessor per field common to all record-shaped
/// variants, failing as `mk_common_field_get` does.
pub fn mk_common_field_get_mut(enum_ident: &String, variants: &Vec<VariantDescriptor>) -> (r: Result<
    Vec<GeneratedMethod>,
    GenError,
>)
    ensures
        r is Ok <==> getters_fit(variants_view(variants@)),
        match r {
            Ok(ms) => common_getters(
                enum_ident@,
                variants_view(variants@),
                methods_view(ms@),
                true,
            ),
            Err(err) => names_first_non_record(variants_view(variants@), err),
        },
{
    common_field_getters(enum_ident, variants, true)
}


/// When accessors may be generated and there is a common field, every arm
/// of its accessor matches a value of the variant that the arm names: no
/// arm binds a field that its variant lacks.
pub proof fn lemma_getter_arms_match(e: Seq<char>, vs: Seq<VariantView>, f: FieldView, i: int)
    requires
        getters_fit(vs),
        inter_of(vs).contains(f),
        0 <= i < vs.len(),
    ensures
        pattern_matches(getter_spec(e, variant_names(vs), f, false).arms[i].pattern, e, vs[i]),
        pattern_matches(getter_spec(e, variant_names(vs), f, true).arms[i].pattern, e, vs[i]),
{
    if !all_records(vs) {
        assert(!inter_of(vs).contains(f));
    }
    assert(is_record(vs[i]));
    assert(record_has(vs[i], f));
    let k = choose|k: int| 0 <= k < fs_of(vs[i]).len() && fs_of(vs[i])[k] == f;
    assert(field_names(fs_of(vs[i]))[k] == f.name);
    assert(seq![f.name][0] == f.name);
}

// ---- unique-field iterator ----

pub open spec fn outside(common: Set<FieldView>) -> spec_fn(FieldView) -> bool {
    |f: FieldView| !common.contains(f)
}

/// The fields of `fs`, in order, that are not in `common`.
pub open spec fn unique_fields(fs: Seq<FieldView>, common: Set<FieldView>) -> Seq<FieldView> {
    fs.filter(outside(common))
}

/// `Enum::Variant { u1, u2, .. } => vec![u1.clone(), u2.clone()]` over the
/// unique fields `us`; with none, `Enum::Variant { .. } => Vec::new()`.
pub open spec fn unique_arm(e: Seq<char>, v: Seq<char>, us: Seq<FieldView>) -> ArmView {
    ArmView {
        pattern: PatternView::Record { enum_name: e, variant: v, bindings: field_names(us) },
        body: BodyView::Clones(field_names(us)),
    }
}

/// `iter_uniques(&self) -> Vec<ItemIdx>`, with one arm per variant that
/// collects the fields that it does not share with every other variant.
pub open spec fn uniques_spec(e: Seq<char>, vs: Seq<VariantView>) -> MethodView {
    MethodView {
        target: e,
        name: "iter_uniques"@,
        output: OutputView::ItemVec,
        arms: vs.map_values(
            |v: VariantView| unique_arm(e, v.name, unique_fields(fs_of(v), inter_of(vs))),
        ),
    }
}

/// The fields of a record-shaped variant that `inter` lacks, in declaration
/// order.
pub fn this_variant_unique(variant: &VariantDescriptor, inter: &Vec<FieldDescriptor>) -> (r: Vec<
    FieldDescriptor,
>)
    requires
        is_record(variant@),
    ensures
        fields_view(r@) == unique_fields(fs_of(variant@), fields_view(inter@).to_set()),
{
    broadcast use vstd::seq::Seq::lemma_filter_push;

    let mut buf: Vec<FieldDescriptor> = Vec::new();
    match &variant.shape {
        VariantShape::Record(fs) => {
            let ghost common = fields_view(inter@).to_set();
            let ghost p = outside(common);
            let mut i: usize = 0;
            while i < fs.len()
                invariant
                    i <= fs.len(),
                    common == fields_view(inter@).to_set(),
                    p == outside(common),
                    fields_view(buf@) == fields_view(fs@.subrange(0, i as int)).filter(p),
                decreases fs.len() - i,
            {
                let ghost prev = fields_view(buf@);
                assert(fields_view(fs@.subrange(0, i as int + 1)) =~= fields_view(
                    fs@.subrange(0, i as int),
                ).push(fs@[i as int]@));
                proof {
                    fields_view(fs@.subrange(0, i as int)).lemma_filter_push(fs@[i as int]@, p);
                }
                if !contains_field(inter, &fs[i]) {
                    let g = fs[i].duplicate();
                    buf.push(g);
                    assert(fields_view(buf@) =~= prev.push(g@));
                    assert(p(fs@[i as int]@));
                } else {
                    assert(!p(fs@[i as int]@));
                }
                i += 1;
            }
            assert(fs@.subrange(0, fs@.len() as int) =~= fs@);
        },
        _ => {},
    }
    buf
}

/// The arm of `iter_uniques` for variant `v`, given its unique fields.
pub fn variant_to_arm(enum_ident: &String, v: &VariantDescriptor, uniques: &Vec<FieldDescriptor>) -> (r:
    MatchArm)
    ensures
        r@ == unique_arm(enum_ident@, v.name@, fields_view(uniques@)),
{
    let mut names: Vec<String> = Vec::new();
    let mut i: usize = 0;
    while i < uniques.len()
        invariant
            i <= uniques.len(),
            strings_view(names@) == field_names(fields_view(uniques@.subrange(0, i as int))),
        decreases uniques.len() - i,
    {
        let ghost prev = strings_view(names@);
        let n = uniques[i].name.clone();
        names.push(n);
        assert(strings_view(names@) =~= prev.push(n@));
        assert(field_names(fields_view(uniques@.subrange(0, i as int + 1))) =~= field_names(
            fields_view(uniques@.subrange(0, i as int)),
        ).push(uniques@[i as int].name@));
        i += 1;
    }
    assert(uniques@.subrange(0, uniques@.len() as int) =~= uniques@);
    let bindings = names.clone();
    MatchArm {
        pattern: Pattern::Record { enum_name: enum_ident.clone(), variant: v.name.clone(), bindings },
        body: ArmBody::Clones(names),
    }
}

/// The method `iter_uniques`, which hands out the fields unique to the
/// active variant. Fails with the first variant that is not record-shaped.
pub fn map_variants_for_unique_iter(enum_ident: &String, vs: &Vec<VariantDescriptor>) -> (r: Result<
    GeneratedMethod,
    GenError,
>)
    ensures
        r is Ok <==> all_records(variants_view(vs@)),
        match r {
            Ok(m) => m@ == uniques_spec(enum_ident@, variants_view(vs@)),
            Err(err) => names_first_non_record(variants_view(vs@), err),
        },
{
    let ghost vv = variants_view(vs@);
    if let Some(k) = first_non_record(vs) {
        assert(vv[k as int] == vs@[k as int]@);
        return Err(mismatch_at(vs, k));
    }
    assert forall|j: int| 0 <= j < vv.len() implies #[trigger] is_record(vv[j]) by {
        assert(vv[j] == vs@[j]@);
    }
    let inter = fields_inter(vs);
    let mut arms: Vec<MatchArm> = Vec::new();
    let mut i: usize = 0;
    while i < vs.len()
        invariant
            i <= vs.len(),
            vv == variants_view(vs@),
            all_records(vv),
            lists_set(inter@, inter_of(vv)),
            arms_view(arms@) == vv.subrange(0, i as int).map_values(
                |v: VariantView| unique_arm(enum_ident@, v.name, unique_fields(fs_of(v), inter_of(vv))),
            ),
        decreases vs.len() - i,
    {
        assert(vv[i as int] == vs@[i as int]@);
        assert(is_record(vv[i as int]));
        let uniques = this_variant_unique(&vs[i], &inter);
        let arm = variant_to_arm(enum_ident, &vs[i], &uniques);
        let ghost prev = arms_view(arms@);
        assert(fields_view(inter@).to_set() == inter_of(vv));
        assert(fields_view(uniques@) == unique_fields(fs_of(vv[i as int]), inter_of(vv)));
        assert(arm@ == unique_arm(enum_ident@, vv[i as int].name, unique_fields(fs_of(vv[i as int]), inter_of(vv))));
        arms.push(arm);
        assert(arms_view(arms@) =~= prev.push(arm@));
        assert(vv.subrange(0, i as int + 1).map_values(
            |v: VariantView| unique_arm(enum_ident@, v.name, unique_fields(fs_of(v), inter_of(vv))),
        ) =~= vv.subrange(0, i as int).map_values(
            |v: VariantView| unique_arm(enum_ident@, v.name, unique_fields(fs_of(v), inter_of(vv))),
        ).push(arm@));
        i += 1;
    }
    assert(vv.subrange(0, vv.len() as int) =~= vv);
    Ok(GeneratedMethod {
        target: enum_ident.clone(),
        name: String::from_str("iter_uniques"),
        output: Output::ItemVec,
        arms,
    })
}


// ---- discriminants ----

/// `is_<snake name>(&self) -> bool`: `pat => true, _ => false`.
pub open spec fn discrim_with(e: Seq<char>, v: Seq<char>, pat: PatternView) -> MethodView {
    MethodView {
        target: e,
        name: "is_"@ + snake_of(v),
        output: OutputView::Bool,
        arms: seq![
            ArmView { pattern: pat, body: BodyView::Literal(true) },
            ArmView { pattern: PatternView::Wildcard, body: BodyView::Literal(false) },
        ],
    }
}

/// The pattern that matches variant `v` whatever its fields hold.
pub open spec fn shape_pattern(e: Seq<char>, v: VariantView) -> PatternView {
    match v.shape {
        ShapeView::Record(_) => PatternView::Record {
            enum_name: e,
            variant: v.name,
            bindings: Seq::empty(),
        },
        ShapeView::Tuple(_) => PatternView::Tuple { enum_name: e, variant: v.name },
        ShapeView::Unit => PatternView::Unit { enum_name: e, variant: v.name },
    }
}

/// The discriminant method of variant `v`.
pub open spec fn discrim_spec(e: Seq<char>, v: VariantView) -> MethodView {
    discrim_with(e, v.name, shape_pattern(e, v))
}

/// Whether pattern `p` matches a value of enum `e` built with variant `v`.
/// A record pattern's bindings must name fields of the variant.
pub open spec fn pattern_matches(p: PatternView, e: Seq<char>, v: VariantView) -> bool {
    match p {
        PatternView::Record { enum_name, variant, bindings } => {
            &&& enum_name == e
            &&& variant == v.name
            &&& v.shape is Record
            &&& forall|b: int|
                0 <= b < bindings.len() ==> #[trigger] field_names(fs_of(v)).contains(bindings[b])
        },
        PatternView::Tuple { enum_name, variant } => enum_name == e && variant == v.name
            && v.shape is Tuple,
        PatternView::Unit { enum_name, variant } => enum_name == e && variant == v.name
            && v.shape is Unit,
        PatternView::Wildcard => true,
    }
}

/// The body of the first arm whose pattern matches, as `match` picks it.
pub open spec fn first_match(arms: Seq<ArmView>, e: Seq<char>, v: VariantView) -> Option<BodyView>
    decreases arms.len(),
{
    if arms.len() == 0 {
        None
    } else if pattern_matches(arms[0].pattern, e, v) {
        Some(arms[0].body)
    } else {
        first_match(arms.drop_first(), e, v)
    }
}

fn discrim_method(enum_ident: &String, variant_ident: &String, pattern: Pattern) -> (r:
    GeneratedMethod)
    ensures
        r@ == discrim_with(enum_ident@, variant_ident@, pattern@),
{
    let mut name = String::from_str("is_");
    let snake = snake_case_name(variant_ident);
    name.append(snake.as_str());
    let arms = vec![
        MatchArm { pattern, body: ArmBody::Literal(true) },
        MatchArm { pattern: Pattern::Wildcard, body: ArmBody::Literal(false) },
    ];
    let m = GeneratedMethod { target: enum_ident.clone(), name, output: Output::Bool, arms };
    assert(m@.arms =~= discrim_with(enum_ident@, variant_ident@, pattern@).arms);
    m
}

/// The discriminant of a record-shaped variant: `Enum::V { .. } => true`.
pub fn mk_discrim_one_named(enum_ident: &String, variant_ident: &String) -> (r: GeneratedMethod)
    ensures
        r@ == discrim_with(
            enum_ident@,
            variant_ident@,
            PatternView::Record { enum_name: enum_ident@, variant: variant_ident@, bindings: seq![] },
        ),
{
    let bindings: Vec<String> = Vec::new();
    assert(strings_view(bindings@) =~= seq![]);
    let pattern = Pattern::Record {
        enum_name: enum_ident.clone(),
        variant: variant_ident.clone(),
        bindings,
    };
    assert(pattern@ == PatternView::Record {
        enum_name: enum_ident@,
        variant: variant_ident@,
        bindings: seq![],
    });
    discrim_method(enum_ident, variant_ident, pattern)
}

/// The discriminant of a tuple-shaped variant: `Enum::V(..) => true`.
pub fn mk_discrim_one_unnamed(enum_ident: &String, variant_ident: &String) -> (r: GeneratedMethod)
    ensures
        r@ == discrim_with(
            enum_ident@,
            variant_ident@,
            PatternView::Tuple { enum_name: enum_ident@, variant: variant_ident@ },
        ),
{
    let pattern = Pattern::Tuple { enum_name: enum_ident.clone(), variant: variant_ident.clone() };
    discrim_method(enum_ident, variant_ident, pattern)
}

/// The discriminant of a unit variant: `Enum::V => true`.
pub fn mk_discrim_one_unit(enum_ident: &String, variant_ident: &String) -> (r: GeneratedMethod)
    ensures
        r@ == discrim_with(
            enum_ident@,
            variant_ident@,
            PatternView::Unit { enum_name: enum_ident@, variant: variant_ident@ },
        ),
{
    let pattern = Pattern::Unit { enum_name: enum_ident.clone(), variant: variant_ident.clone() };
    discrim_method(enum_ident, variant_ident, pattern)
}

/// One discriminant method per variant, in order, whatever its shape.
pub fn mk_discrims(enum_ident: &String, variants: &Vec<VariantDescriptor>) -> (r: Vec<
    GeneratedMethod,
>)
    ensures
        methods_view(r@) == variants_view(variants@).map_values(
            |v: VariantView| discrim_spec(enum_ident@, v),
        ),
{
    let ghost vv = variants_view(variants@);
    let mut acc: Vec<GeneratedMethod> = Vec::new();
    let mut i: usize = 0;
    while i < variants.len()
        invariant
            i <= variants.len(),
            vv == variants_view(variants@),
            methods_view(acc@) == vv.subrange(0, i as int).map_values(
                |v: VariantView| discrim_spec(enum_ident@, v),
            ),
        decreases variants.len() - i,
    {
        let variant = &variants[i];
        assert(vv[i as int] == variant@);
        let m = match variant.shape {
            VariantShape::Record(_) => mk_discrim_one_named(enum_ident, &variant.name),
            VariantShape::Tuple(_) => mk_discrim_one_unnamed(enum_ident, &variant.name),
            VariantShape::Unit => mk_discrim_one_unit(enum_ident, &variant.name),
        };
        assert(m@ == discrim_spec(enum_ident@, vv[i as int]));
        let ghost prev = methods_view(acc@);
        acc.push(m);
        assert(methods_view(acc@) =~= prev.push(m@));
        assert(vv.subrange(0, i as int + 1).map_values(
            |v: VariantView| discrim_spec(enum_ident@, v),
        ) =~= vv.subrange(0, i as int).map_values(|v: VariantView| discrim_spec(enum_ident@, v)).push(
            m@,
        ));
        i += 1;
    }
    assert(vv.subrange(0, vv.len() as int) =~= vv);
    acc
}

/// On a value built with any one variant, the discriminant of that variant
/// answers true and the discriminant of every other variant answers false,
/// provided the variant names are distinct.
pub proof fn lemma_discriminants_exclusive(e: Seq<char>, vs: Seq<VariantView>, k: int)
    requires
        names_distinct(vs),
        0 <= k < vs.len(),
    ensures
        forall|j: int|
            0 <= j < vs.len() ==> first_match(#[trigger] discrim_spec(e, vs[j]).arms, e, vs[k])
                == Some(BodyView::Literal(j == k)),
{
    assert forall|j: int| 0 <= j < vs.len() implies first_match(
        #[trigger] discrim_spec(e, vs[j]).arms,
        e,
        vs[k],
    ) == Some(BodyView::Literal(j == k)) by {
        let arms = discrim_spec(e, vs[j]).arms;
        reveal_with_fuel(first_match, 3);
        assert(arms.drop_first()[0] == arms[1]);
        if j == k {
            assert(pattern_matches(arms[0].pattern, e, vs[k]));
        } else {
            assert(vs[j].name != vs[k].name);
            assert(!pattern_matches(arms[0].pattern, e, vs[k]));
        }
    }
}

} // verus!
