use vstd::prelude::*;

verus! {

/// One named field of a record-shaped variant: its name and its type as
/// written. Two fields are the same field when both parts are equal.
#[derive(Clone, Debug)]
pub struct FieldDescriptor {
    pub name: String,
    pub ty: String,
}

/// The mathematical value of a field.
pub struct FieldView {
    pub name: Seq<char>,
    pub ty: Seq<char>,
}

impl View for FieldDescriptor {
    type V = FieldView;

    open spec fn view(&self) -> FieldView {
        FieldView { name: self.name@, ty: self.ty@ }
    }
}

impl FieldDescriptor {
    pub fn new(name: String, ty: String) -> (r: FieldDescriptor)
        ensures
            r.name@ == name@,
            r.ty@ == ty@,
    {
        FieldDescriptor { name, ty }
    }

    /// A copy of this field with the same name and type.
    pub fn duplicate(&self) -> (r: FieldDescriptor)
        ensures
            r@ == self@,
    {
        FieldDescriptor { name: self.name.clone(), ty: self.ty.clone() }
    }

    /// Structural equality: same name and same type.
    pub fn same_as(&self, other: &FieldDescriptor) -> (r: bool)
        ensures
            r == (self@ == other@),
    {
        let n = self.name == other.name;
        let t = self.ty == other.ty;
        n && t
    }
}

impl PartialEq for FieldDescriptor {
    fn eq(&self, other: &FieldDescriptor) -> (r: bool) {
        self.same_as(other)
    }
}

impl vstd::std_specs::cmp::PartialEqSpecImpl for FieldDescriptor {
    open spec fn obeys_eq_spec() -> bool {
        true
    }

    open spec fn eq_spec(&self, other: &FieldDescriptor) -> bool {
        self@ == other@
    }
}

/// The field shape of a variant.
#[derive(Clone, Debug)]
pub enum VariantShape {
    /// Named fields, in declaration order.
    Record(Vec<FieldDescriptor>),
    /// The types of the positional fields, in order.
    Tuple(Vec<String>),
    /// No fields.
    Unit,
}

pub enum ShapeView {
    Record(Seq<FieldView>),
    Tuple(Seq<Seq<char>>),
    Unit,
}

/// One variant of a sum type: its name and its shape.
#[derive(Clone, Debug)]
pub struct VariantDescriptor {
    pub name: String,
    pub shape: VariantShape,
}

pub struct VariantView {
    pub name: Seq<char>,
    pub shape: ShapeView,
}

pub open spec fn fields_view(fs: Seq<FieldDescriptor>) -> Seq<FieldView> {
    fs.map_values(|f: FieldDescriptor| f@)
}

pub open spec fn strings_view(ss: Seq<String>) -> Seq<Seq<char>> {
    ss.map_values(|s: String| s@)
}

impl View for VariantShape {
    type V = ShapeView;

    open spec fn view(&self) -> ShapeView {
        match self {
            VariantShape::Record(fs) => ShapeView::Record(fields_view(fs@)),
            VariantShape::Tuple(ts) => ShapeView::Tuple(strings_view(ts@)),
            VariantShape::Unit => ShapeView::Unit,
        }
    }
}

impl View for VariantDescriptor {
    type V = VariantView;

    open spec fn view(&self) -> VariantView {
        VariantView { name: self.name@, shape: self.shape@ }
    }
}

pub open spec fn variants_view(vs: Seq<VariantDescriptor>) -> Seq<VariantView> {
    vs.map_values(|v: VariantDescriptor| v@)
}

pub open spec fn variant_names(vs: Seq<VariantView>) -> Seq<Seq<char>> {
    vs.map_values(|v: VariantView| v.name)
}

pub open spec fn is_record(v: VariantView) -> bool {
    v.shape is Record
}

/// `f` is one of the fields of `v`, which is record-shaped.
pub open spec fn record_has(v: VariantView, f: FieldView) -> bool {
    match v.shape {
        ShapeView::Record(fs) => fs.contains(f),
        _ => false,
    }
}

/// Variant names are pairwise distinct.
pub open spec fn names_distinct(vs: Seq<VariantView>) -> bool {
    forall|i: int, j: int|
        0 <= i < vs.len() && 0 <= j < vs.len() && i != j ==> #[trigger] vs[i].name
            != #[trigger] vs[j].name
}

} // verus!
