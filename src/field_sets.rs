use vstd::prelude::*;
use crate::model::{fields_view, is_record, record_has, variants_view, FieldDescriptor, FieldView, VariantDescriptor, VariantShape, VariantView, ShapeView};

verus! {

broadcast use vstd::seq_lib::group_seq_properties;

/// The fields of a record-shaped variant; none for the other shapes.
pub open spec fn fs_of(v: VariantView) -> Seq<FieldView> {
    match v.shape {
        ShapeView::Record(fs) => fs,
        _ => Seq::empty(),
    }
}

/// `f` is a field of one of the first `n` variants that are record-shaped.
pub open spec fn in_union_upto(vs: Seq<VariantView>, n: int, f: FieldView) -> bool {
    exists|i: int| 0 <= i < n && #[trigger] record_has(vs[i], f)
}

/// Some of the first `n` variants is record-shaped.
pub open spec fn some_record_upto(vs: Seq<VariantView>, n: int) -> bool {
    exists|i: int| 0 <= i < n && #[trigger] is_record(vs[i])
}

/// `f` is a field of every record-shaped variant among the first `n`, of
/// which there is at least one.
pub open spec fn in_inter_upto(vs: Seq<VariantView>, n: int, f: FieldView) -> bool {
    &&& some_record_upto(vs, n)
    &&& forall|i: int| 0 <= i < n && #[trigger] is_record(vs[i]) ==> record_has(vs[i], f)
}

/// The fields that occur in some record-shaped variant.
pub open spec fn union_of(vs: Seq<VariantView>) -> Set<FieldView> {
    Set::new(|f: FieldView| in_union_upto(vs, vs.len() as int, f))
}

/// The fields that occur in every record-shaped variant; empty when there
/// is none.
pub open spec fn inter_of(vs: Seq<VariantView>) -> Set<FieldView> {
    Set::new(|f: FieldView| in_inter_upto(vs, vs.len() as int, f))
}

/// The fields that occur in some record-shaped variant but are missing
/// from another one.
pub open spec fn diff_of(vs: Seq<VariantView>) -> Set<FieldView> {
    Set::new(
        |f: FieldView|
            in_union_upto(vs, vs.len() as int, f) && exists|i: int|
                0 <= i < vs.len() && #[trigger] is_record(vs[i]) && !record_has(vs[i], f),
    )
}

/// The vector holds each field of `s` once and nothing else.
pub open spec fn lists_set(v: Seq<FieldDescriptor>, s: Set<FieldView>) -> bool {
    &&& fields_view(v).no_duplicates()
    &&& fields_view(v).to_set() == s
}

pub(crate) fn contains_field(fs: &Vec<FieldDescriptor>, f: &FieldDescriptor) -> (r: bool)
    ensures
        r == fields_view(fs@).contains(f@),
{
    let mut i: usize = 0;
    while i < fs.len()
        invariant
            i <= fs.len(),
            forall|k: int| 0 <= k < i ==> fs@[k]@ != f@,
        decreases fs.len() - i,
    {
        if fs[i].same_as(f) {
            assert(fields_view(fs@)[i as int] == f@);
            return true;
        }
        i += 1;
    }
    proof {
        if fields_view(fs@).contains(f@) {
            let k = choose|k: int| 0 <= k < fs@.len() && fields_view(fs@)[k] == f@;
            assert(fs@[k]@ == f@);
        }
    }
    false
}

proof fn lemma_contains_push<A>(s: Seq<A>, x: A)
    ensures
        forall|f: A| #[trigger] s.push(x).contains(f) <==> (s.contains(f) || f == x),
{
    assert forall|f: A| #[trigger] s.push(x).contains(f) <==> (s.contains(f) || f == x) by {
        if s.contains(f) {
            let k = choose|k: int| 0 <= k < s.len() && s[k] == f;
            assert(s.push(x)[k] == f);
        }
        if f == x {
            assert(s.push(x)[s.len() as int] == x);
        }
    }
}

proof fn lemma_prefix_step(s: Seq<FieldDescriptor>, j: int)
    requires
        0 <= j < s.len(),
    ensures
        forall|f: FieldView|
            #[trigger] fields_view(s.subrange(0, j + 1)).contains(f) <==> (fields_view(
                s.subrange(0, j),
            ).contains(f) || f == s[j]@),
{
    assert(fields_view(s.subrange(0, j + 1)) =~= fields_view(s.subrange(0, j)).push(s[j]@));
    lemma_contains_push(fields_view(s.subrange(0, j)), s[j]@);
}

proof fn lemma_push_no_duplicates<A>(s: Seq<A>, x: A)
    requires
        s.no_duplicates(),
        !s.contains(x),
    ensures
        s.push(x).no_duplicates(),
{
    assert forall|a: int, b: int|
        0 <= a < s.len() + 1 && 0 <= b < s.len() + 1 && a != b implies s.push(x)[a] != s.push(
            x,
        )[b] by {
        if a == s.len() {
            assert(s[b] == s.push(x)[b]);
        } else if b == s.len() {
            assert(s[a] == s.push(x)[a]);
        }
    }
}

proof fn lemma_fields_view_push(fs: Seq<FieldDescriptor>, f: FieldDescriptor)
    ensures
        fields_view(fs.push(f)) == fields_view(fs).push(f@),
{
    assert(fields_view(fs.push(f)) =~= fields_view(fs).push(f@));
}

/// Adds to `acc` the fields of `fs` that it lacks.
fn add_missing(acc: &mut Vec<FieldDescriptor>, fs: &Vec<FieldDescriptor>)
    requires
        fields_view(old(acc)@).no_duplicates(),
    ensures
        fields_view(final(acc)@).no_duplicates(),
        forall|f: FieldView|
            #[trigger] fields_view(final(acc)@).contains(f) <==> (fields_view(old(acc)@).contains(f)
                || fields_view(fs@).contains(f)),
{
    let ghost start = fields_view(acc@);
    let mut j: usize = 0;
    while j < fs.len()
        invariant
            j <= fs.len(),
            fields_view(acc@).no_duplicates(),
            forall|f: FieldView|
                #[trigger] fields_view(acc@).contains(f) <==> (start.contains(f) || fields_view(
                    fs@.subrange(0, j as int),
                ).contains(f)),
        decreases fs.len() - j,
    {
        let ghost before = fields_view(acc@);
        proof {
            lemma_prefix_step(fs@, j as int);
            lemma_contains_push(before, fs@[j as int]@);
        }
        if !contains_field(acc, &fs[j]) {
            let g = fs[j].duplicate();
            proof {
                lemma_fields_view_push(acc@, g);
            }
            acc.push(g);
        }
        assert forall|f: FieldView|
            (start.contains(f) || fields_view(fs@.subrange(0, j as int + 1)).contains(f)) implies
            fields_view(acc@).contains(f) by {
            if f != fs@[j as int]@ {
                assert(before.contains(f));
            }
        }
        j += 1;
    }
    assert(fs@.subrange(0, fs@.len() as int) =~= fs@);
}

/// The set of all distinct fields of the record-shaped variants. Tuple and
/// unit variants contribute nothing.
pub fn fields_union(variants: &Vec<VariantDescriptor>) -> (r: Vec<FieldDescriptor>)
    ensures
        lists_set(r@, union_of(variants_view(variants@))),
{
    let ghost vs = variants_view(variants@);
    let mut acc: Vec<FieldDescriptor> = Vec::new();
    let mut i: usize = 0;
    while i < variants.len()
        invariant
            i <= variants.len(),
            vs == variants_view(variants@),
            fields_view(acc@).no_duplicates(),
            forall|f: FieldView| #[trigger] fields_view(acc@).contains(f) <==> in_union_upto(vs, i as int, f),
        decreases variants.len() - i,
    {
        assert(vs[i as int] == variants@[i as int]@);
        let ghost before = fields_view(acc@);
        let ghost cur = fs_of(vs[i as int]);
        match &variants[i].shape {
            VariantShape::Record(fs) => {
                assert(fields_view(fs@) == cur);
                add_missing(&mut acc, fs);
                assert(forall|f: FieldView|
                    #[trigger] fields_view(acc@).contains(f) <==> before.contains(f) || cur.contains(f));
            },
            _ => {
                assert(cur =~= Seq::<FieldView>::empty());
                assert(forall|f: FieldView|
                    #[trigger] fields_view(acc@).contains(f) <==> before.contains(f) || cur.contains(f));
            },
        }
        assert(forall|f: FieldView| #[trigger] record_has(vs[i as int], f) <==> cur.contains(f));
        assert forall|f: FieldView| fields_view(acc@).contains(f) <==> in_union_upto(
            vs,
            i as int + 1,
            f,
        ) by {
            if in_union_upto(vs, i as int + 1, f) {
                let k = choose|k: int| 0 <= k < i + 1 && #[trigger] record_has(vs[k], f);
                if k < i {
                    assert(in_union_upto(vs, i as int, f));
                    assert(before.contains(f));
                } else {
                    assert(cur.contains(f));
                }
            }
            if fields_view(acc@).contains(f) {
                if before.contains(f) {
                    assert(in_union_upto(vs, i as int, f));
                    let k = choose|k: int| 0 <= k < i && #[trigger] record_has(vs[k], f);
                    assert(in_union_upto(vs, i as int + 1, f));
                } else {
                    assert(record_has(vs[i as int], f));
                }
            }
        }
        i += 1;
    }
    assert(fields_view(acc@).to_set() =~= union_of(vs));
    acc
}

/// The fields of `acc` that `fs` holds too, in the order of `acc`.
fn keep_common(acc: &Vec<FieldDescriptor>, fs: &Vec<FieldDescriptor>) -> (r: Vec<FieldDescriptor>)
    requires
        fields_view(acc@).no_duplicates(),
    ensures
        fields_view(r@).no_duplicates(),
        forall|f: FieldView|
            #[trigger] fields_view(r@).contains(f) <==> (fields_view(acc@).contains(f) && fields_view(
                fs@,
            ).contains(f)),
{
    let mut r: Vec<FieldDescriptor> = Vec::new();
    let mut j: usize = 0;
    while j < acc.len()
        invariant
            j <= acc.len(),
            fields_view(acc@).no_duplicates(),
            fields_view(r@).no_duplicates(),
            forall|f: FieldView|
                #[trigger] fields_view(r@).contains(f) <==> (fields_view(acc@.subrange(0, j as int)).contains(
                    f,
                ) && fields_view(fs@).contains(f)),
        decreases acc.len() - j,
    {
        let ghost before = fields_view(r@);
        assert(fields_view(acc@.subrange(0, j as int + 1)) =~= fields_view(
            acc@.subrange(0, j as int),
        ).push(acc@[j as int]@));
        proof {
            lemma_contains_push(fields_view(acc@.subrange(0, j as int)), acc@[j as int]@);
            lemma_contains_push(fields_view(r@), acc@[j as int]@);
        }
        assert(!fields_view(acc@.subrange(0, j as int)).contains(acc@[j as int]@)) by {
            if fields_view(acc@.subrange(0, j as int)).contains(acc@[j as int]@) {
                let k = choose|k: int|
                    0 <= k < j && fields_view(acc@.subrange(0, j as int))[k] == acc@[j as int]@;
                assert(fields_view(acc@)[k] == fields_view(acc@)[j as int]);
            }
        }
        if contains_field(fs, &acc[j]) {
            let g = acc[j].duplicate();
            proof {
                lemma_fields_view_push(r@, g);
                assert(!before.contains(g@));
                lemma_push_no_duplicates(before, g@);
            }
            r.push(g);
            assert(fields_view(r@) == before.push(g@));
        }
        j += 1;
    }
    assert(acc@.subrange(0, acc@.len() as int) =~= acc@);
    r
}

/// The set of fields that every record-shaped variant has. The first
/// record-shaped variant seeds the set and each later one narrows it; tuple
/// and unit variants are skipped, and with no record-shaped variant the set
/// is empty.
pub fn fields_inter(variants: &Vec<VariantDescriptor>) -> (r: Vec<FieldDescriptor>)
    ensures
        lists_set(r@, inter_of(variants_view(variants@))),
{
    let ghost vs = variants_view(variants@);
    let mut acc: Vec<FieldDescriptor> = Vec::new();
    let mut seeded = false;
    let mut i: usize = 0;
    while i < variants.len()
        invariant
            i <= variants.len(),
            vs == variants_view(variants@),
            seeded == some_record_upto(vs, i as int),
            fields_view(acc@).no_duplicates(),
            forall|f: FieldView| #[trigger] fields_view(acc@).contains(f) <==> in_inter_upto(vs, i as int, f),
        decreases variants.len() - i,
    {
        assert(vs[i as int] == variants@[i as int]@);
        let ghost was_seeded = seeded;
        match &variants[i].shape {
            VariantShape::Record(fs) => {
                if !seeded {
                    let mut fresh: Vec<FieldDescriptor> = Vec::new();
                    add_missing(&mut fresh, fs);
                    acc = fresh;
                    seeded = true;
                } else {
                    acc = keep_common(&acc, fs);
                }
            },
            _ => {},
        }
        assert(seeded == some_record_upto(vs, i as int + 1)) by {
            if some_record_upto(vs, i as int + 1) && !is_record(vs[i as int]) {
                let k = choose|k: int| 0 <= k < i + 1 && #[trigger] is_record(vs[k]);
                assert(some_record_upto(vs, i as int));
            }
            if some_record_upto(vs, i as int) {
                let k = choose|k: int| 0 <= k < i && #[trigger] is_record(vs[k]);
                assert(is_record(vs[k]));
            }
        }
        assert forall|f: FieldView| fields_view(acc@).contains(f) <==> in_inter_upto(
            vs,
            i as int + 1,
            f,
        ) by {
            if !was_seeded {
                assert forall|k: int| 0 <= k < i implies !is_record(vs[k]) by {
                    if is_record(vs[k]) {
                        assert(some_record_upto(vs, i as int));
                    }
                }
            }
            if in_inter_upto(vs, i as int + 1, f) && was_seeded {
                assert(in_inter_upto(vs, i as int, f));
            }
        }
        i += 1;
    }
    assert(fields_view(acc@).to_set() =~= inter_of(vs));
    acc
}

/// The fields that some record-shaped variant has and another one lacks:
/// the union less the intersection.
pub fn fields_diff(variants: &Vec<VariantDescriptor>) -> (r: Vec<FieldDescriptor>)
    ensures
        lists_set(r@, diff_of(variants_view(variants@))),
{
    let ghost vs = variants_view(variants@);
    let union = fields_union(variants);
    let inter = fields_inter(variants);
    let mut r: Vec<FieldDescriptor> = Vec::new();
    let mut j: usize = 0;
    while j < union.len()
        invariant
            j <= union.len(),
            lists_set(union@, union_of(vs)),
            lists_set(inter@, inter_of(vs)),
            fields_view(r@).no_duplicates(),
            forall|f: FieldView|
                #[trigger] fields_view(r@).contains(f) <==> (fields_view(union@.subrange(0, j as int)).contains(
                    f,
                ) && !fields_view(inter@).contains(f)),
        decreases union.len() - j,
    {
        let ghost before = fields_view(r@);
        assert(fields_view(union@.subrange(0, j as int + 1)) =~= fields_view(
            union@.subrange(0, j as int),
        ).push(union@[j as int]@));
        proof {
            lemma_contains_push(fields_view(union@.subrange(0, j as int)), union@[j as int]@);
            lemma_contains_push(fields_view(r@), union@[j as int]@);
        }
        assert(!fields_view(union@.subrange(0, j as int)).contains(union@[j as int]@)) by {
            if fields_view(union@.subrange(0, j as int)).contains(union@[j as int]@) {
                let k = choose|k: int|
                    0 <= k < j && fields_view(union@.subrange(0, j as int))[k] == union@[j as int]@;
                assert(fields_view(union@)[k] == fields_view(union@)[j as int]);
            }
        }
        if !contains_field(&inter, &union[j]) {
            let g = union[j].duplicate();
            proof {
                lemma_fields_view_push(r@, g);
                assert(!before.contains(g@));
                lemma_push_no_duplicates(before, g@);
            }
            r.push(g);
            assert(fields_view(r@) == before.push(g@));
        }
        j += 1;
    }
    assert(union@.subrange(0, union@.len() as int) =~= union@);
    proof {
        assert forall|f: FieldView| fields_view(r@).contains(f) <==> diff_of(vs).contains(f) by {
            assert(fields_view(union@).to_set().contains(f) == fields_view(union@).contains(f));
            assert(fields_view(inter@).to_set().contains(f) == fields_view(inter@).contains(f));
            lemma_diff_is_union_less_inter(vs, f);
        }
    }
    assert(fields_view(r@).to_set() =~= diff_of(vs));
    r
}

proof fn lemma_diff_is_union_less_inter(vs: Seq<VariantView>, f: FieldView)
    ensures
        diff_of(vs).contains(f) == (union_of(vs).contains(f) && !inter_of(vs).contains(f)),
{
    let n = vs.len() as int;
    if in_union_upto(vs, n, f) {
        let k = choose|k: int| 0 <= k < n && #[trigger] record_has(vs[k], f);
        assert(is_record(vs[k]));
        assert(some_record_upto(vs, n));
    }
}


proof fn lemma_union_by_members(vs: Seq<VariantView>, f: FieldView)
    ensures
        union_of(vs).contains(f) <==> exists|v: VariantView| #[trigger]
            vs.contains(v) && record_has(v, f),
{
    if union_of(vs).contains(f) {
        let k = choose|k: int| 0 <= k < vs.len() && #[trigger] record_has(vs[k], f);
        assert(vs.contains(vs[k]));
    }
    if exists|v: VariantView| #[trigger] vs.contains(v) && record_has(v, f) {
        let v = choose|v: VariantView| #[trigger] vs.contains(v) && record_has(v, f);
        let k = choose|k: int| 0 <= k < vs.len() && vs[k] == v;
        assert(record_has(vs[k], f));
    }
}

proof fn lemma_inter_by_members(vs: Seq<VariantView>, f: FieldView)
    ensures
        inter_of(vs).contains(f) <==> ((exists|v: VariantView| #[trigger]
            vs.contains(v) && is_record(v)) && forall|v: VariantView| #[trigger]
            vs.contains(v) && is_record(v) ==> record_has(v, f)),
{
    let n = vs.len() as int;
    if inter_of(vs).contains(f) {
        let k = choose|k: int| 0 <= k < n && #[trigger] is_record(vs[k]);
        assert(vs.contains(vs[k]));
        assert forall|v: VariantView| #[trigger] vs.contains(v) && is_record(v) implies record_has(
            v,
            f,
        ) by {
            let j = choose|j: int| 0 <= j < n && vs[j] == v;
            assert(is_record(vs[j]));
        }
    }
    if (exists|v: VariantView| #[trigger] vs.contains(v) && is_record(v)) && forall|v: VariantView|
        #[trigger] vs.contains(v) && is_record(v) ==> record_has(v, f) {
        let v = choose|v: VariantView| #[trigger] vs.contains(v) && is_record(v);
        let k = choose|k: int| 0 <= k < n && vs[k] == v;
        assert(is_record(vs[k]));
        assert forall|j: int| 0 <= j < n && #[trigger] is_record(vs[j]) implies record_has(
            vs[j],
            f,
        ) by {
            assert(vs.contains(vs[j]));
        }
    }
}

proof fn lemma_contains_insert(vs: Seq<VariantView>, k: int, v: VariantView)
    requires
        0 <= k <= vs.len(),
    ensures
        forall|w: VariantView| #[trigger]
            vs.insert(k, v).contains(w) <==> (vs.contains(w) || w == v),
{
    let ws = vs.insert(k, v);
    assert forall|w: VariantView| #[trigger] ws.contains(w) <==> (vs.contains(w) || w == v) by {
        if ws.contains(w) {
            let j = choose|j: int| 0 <= j < ws.len() && ws[j] == w;
            if j < k {
                assert(vs[j] == w);
            } else if j > k {
                assert(vs[j - 1] == w);
            }
        }
        if vs.contains(w) {
            let j = choose|j: int| 0 <= j < vs.len() && vs[j] == w;
            if j < k {
                assert(ws[j] == w);
            } else {
                assert(ws[j + 1] == w);
            }
        }
        if w == v {
            assert(ws[k] == v);
        }
    }
}

proof fn lemma_same_records(vs: Seq<VariantView>, ws: Seq<VariantView>)
    requires
        forall|v: VariantView| is_record(v) ==> (vs.contains(v) <==> ws.contains(v)),
    ensures
        union_of(vs) == union_of(ws),
        inter_of(vs) == inter_of(ws),
{
    assert forall|f: FieldView| union_of(vs).contains(f) implies union_of(ws).contains(f) by {
        lemma_union_by_members(vs, f);
        lemma_union_by_members(ws, f);
        let v = choose|v: VariantView| #[trigger] vs.contains(v) && record_has(v, f);
        assert(is_record(v));
        assert(ws.contains(v));
    }
    assert forall|f: FieldView| union_of(ws).contains(f) implies union_of(vs).contains(f) by {
        lemma_union_by_members(vs, f);
        lemma_union_by_members(ws, f);
        let v = choose|v: VariantView| #[trigger] ws.contains(v) && record_has(v, f);
        assert(is_record(v));
        assert(vs.contains(v));
    }
    assert forall|f: FieldView| inter_of(vs).contains(f) implies inter_of(ws).contains(f) by {
        lemma_inter_by_members(vs, f);
        lemma_inter_by_members(ws, f);
        let v = choose|v: VariantView| #[trigger] vs.contains(v) && is_record(v);
        assert(ws.contains(v));
        assert forall|w: VariantView| #[trigger] ws.contains(w) && is_record(w) implies record_has(
            w,
            f,
        ) by {
            assert(vs.contains(w));
        }
    }
    assert forall|f: FieldView| inter_of(ws).contains(f) implies inter_of(vs).contains(f) by {
        lemma_inter_by_members(vs, f);
        lemma_inter_by_members(ws, f);
        let v = choose|v: VariantView| #[trigger] ws.contains(v) && is_record(v);
        assert(vs.contains(v));
        assert forall|w: VariantView| #[trigger] vs.contains(w) && is_record(w) implies record_has(
            w,
            f,
        ) by {
            assert(ws.contains(w));
        }
    }
    assert(union_of(vs) =~= union_of(ws));
    assert(inter_of(vs) =~= inter_of(ws));
}

/// Union and intersection do not depend on the order of the variants: any
/// permutation of them gives the same two sets.
pub proof fn lemma_algebra_ignores_order(vs: Seq<VariantView>, ws: Seq<VariantView>)
    requires
        vs.to_multiset() == ws.to_multiset(),
    ensures
        union_of(vs) == union_of(ws),
        inter_of(vs) == inter_of(ws),
{
    broadcast use vstd::seq_lib::group_to_multiset_ensures;

    assert(forall|v: VariantView| #[trigger] vs.contains(v) <==> ws.contains(v)) by {
        assert forall|v: VariantView| #[trigger] vs.contains(v) <==> ws.contains(v) by {
            assert(vs.contains(v) <==> vs.to_multiset().count(v) > 0);
            assert(ws.contains(v) <==> ws.to_multiset().count(v) > 0);
        }
    }
    lemma_same_records(vs, ws);
}

/// The difference is the union less the intersection, and the
/// intersection lies within the union.
pub proof fn lemma_difference_law(vs: Seq<VariantView>)
    ensures
        diff_of(vs) == union_of(vs).difference(inter_of(vs)),
        inter_of(vs).subset_of(union_of(vs)),
{
    let n = vs.len() as int;
    assert forall|f: FieldView| #[trigger] inter_of(vs).contains(f) implies union_of(vs).contains(
        f,
    ) by {
        let k = choose|k: int| 0 <= k < n && #[trigger] is_record(vs[k]);
        assert(record_has(vs[k], f));
    }
    assert forall|f: FieldView|
        diff_of(vs).contains(f) <==> union_of(vs).difference(inter_of(vs)).contains(f) by {
        lemma_diff_is_union_less_inter(vs, f);
    }
    assert(diff_of(vs) =~= union_of(vs).difference(inter_of(vs)));
}

/// Inserting a record-shaped variant anywhere into variants of which at
/// least one is record-shaped never grows the intersection.
pub proof fn lemma_inter_shrinks_with_record(vs: Seq<VariantView>, k: int, v: VariantView)
    requires
        0 <= k <= vs.len(),
        is_record(v),
        exists|i: int| 0 <= i < vs.len() && #[trigger] is_record(vs[i]),
    ensures
        inter_of(vs.insert(k, v)).subset_of(inter_of(vs)),
{
    let ws = vs.insert(k, v);
    lemma_contains_insert(vs, k, v);
    let i = choose|i: int| 0 <= i < vs.len() && #[trigger] is_record(vs[i]);
    assert(vs.contains(vs[i]));
    assert forall|f: FieldView| #[trigger] inter_of(ws).contains(f) implies inter_of(vs).contains(
        f,
    ) by {
        lemma_inter_by_members(vs, f);
        lemma_inter_by_members(ws, f);
        assert forall|w: VariantView| #[trigger] vs.contains(w) && is_record(w) implies record_has(
            w,
            f,
        ) by {
            assert(ws.contains(w));
        }
    }
}

/// Inserting a tuple or unit variant anywhere leaves union and
/// intersection as they were; read backwards, so does removing one.
pub proof fn lemma_non_record_transparent(vs: Seq<VariantView>, k: int, v: VariantView)
    requires
        0 <= k <= vs.len(),
        !is_record(v),
    ensures
        union_of(vs.insert(k, v)) == union_of(vs),
        inter_of(vs.insert(k, v)) == inter_of(vs),
{
    let ws = vs.insert(k, v);
    lemma_contains_insert(vs, k, v);
    lemma_same_records(vs, ws);
}

} // verus!
