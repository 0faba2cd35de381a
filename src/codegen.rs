use vstd::prelude::*;
use crate::model::strings_view;

verus! {

/// The left side of one match arm.
#[derive(Clone, Debug, PartialEq, Eq)]
pub enum Pattern {
    /// `Enum::Variant { b1, b2, .. }`; with no bindings, `Enum::Variant { .. }`.
    Record { enum_name: String, variant: String, bindings: Vec<String> },
    /// `Enum::Variant(..)`.
    Tuple { enum_name: String, variant: String },
    /// `Enum::Variant`.
    Unit { enum_name: String, variant: String },
    /// `_`.
    Wildcard,
}

/// The right side of one match arm.
#[derive(Clone, Debug, PartialEq, Eq)]
pub enum ArmBody {
    /// The binding of that name itself.
    Binding(String),
    /// A boolean literal.
    Literal(bool),
    /// A new vector holding a clone of each named binding, in order; with no
    /// names, an empty vector.
    Clones(Vec<String>),
}

#[derive(Clone, Debug, PartialEq, Eq)]
pub struct MatchArm {
    pub pattern: Pattern,
    pub body: ArmBody,
}

/// What a generated method returns; the receiver follows from it.
#[derive(Clone, Debug, PartialEq, Eq)]
pub enum Output {
    /// `&self -> &T`.
    Ref(String),
    /// `&mut self -> &mut T`.
    MutRef(String),
    /// `&self -> bool`.
    Bool,
    /// `&self -> Vec<ItemIdx>`: the element type that unique fields convert to.
    ItemVec,
}

/// A method `impl <target> { pub fn <name>(..) -> .. { match self { <arms> } } }`.
#[derive(Clone, Debug, PartialEq, Eq)]
pub struct GeneratedMethod {
    pub target: String,
    pub name: String,
    pub output: Output,
    pub arms: Vec<MatchArm>,
}

pub enum PatternView {
    Record { enum_name: Seq<char>, variant: Seq<char>, bindings: Seq<Seq<char>> },
    Tuple { enum_name: Seq<char>, variant: Seq<char> },
    Unit { enum_name: Seq<char>, variant: Seq<char> },
    Wildcard,
}

pub enum BodyView {
    Binding(Seq<char>),
    Literal(bool),
    Clones(Seq<Seq<char>>),
}

pub struct ArmView {
    pub pattern: PatternView,
    pub body: BodyView,
}

pub enum OutputView {
    Ref(Seq<char>),
    MutRef(Seq<char>),
    Bool,
    ItemVec,
}

pub struct MethodView {
    pub target: Seq<char>,
    pub name: Seq<char>,
    pub output: OutputView,
    pub arms: Seq<ArmView>,
}

impl View for Pattern {
    type V = PatternView;

    open spec fn view(&self) -> PatternView {
        match self {
            Pattern::Record { enum_name, variant, bindings } => PatternView::Record {
                enum_name: enum_name@,
                variant: variant@,
                bindings: strings_view(bindings@),
            },
            Pattern::Tuple { enum_name, variant } => PatternView::Tuple {
                enum_name: enum_name@,
                variant: variant@,
            },
            Pattern::Unit { enum_name, variant } => PatternView::Unit {
                enum_name: enum_name@,
                variant: variant@,
            },
            Pattern::Wildcard => PatternView::Wildcard,
        }
    }
}

impl View for ArmBody {
    type V = BodyView;

    open spec fn view(&self) -> BodyView {
        match self {
            ArmBody::Binding(n) => BodyView::Binding(n@),
            ArmBody::Literal(b) => BodyView::Literal(*b),
            ArmBody::Clones(ns) => BodyView::Clones(strings_view(ns@)),
        }
    }
}

impl View for MatchArm {
    type V = ArmView;

    open spec fn view(&self) -> ArmView {
        ArmView { pattern: self.pattern@, body: self.body@ }
    }
}

impl View for Output {
    type V = OutputView;

    open spec fn view(&self) -> OutputView {
        match self {
            Output::Ref(t) => OutputView::Ref(t@),
            Output::MutRef(t) => OutputView::MutRef(t@),
            Output::Bool => OutputView::Bool,
            Output::ItemVec => OutputView::ItemVec,
        }
    }
}

pub open spec fn arms_view(arms: Seq<MatchArm>) -> Seq<ArmView> {
    arms.map_values(|a: MatchArm| a@)
}

impl View for GeneratedMethod {
    type V = MethodView;

    open spec fn view(&self) -> MethodView {
        MethodView {
            target: self.target@,
            name: self.name@,
            output: self.output@,
            arms: arms_view(self.arms@),
        }
    }
}

pub open spec fn methods_view(ms: Seq<GeneratedMethod>) -> Seq<MethodView> {
    ms.map_values(|m: GeneratedMethod| m@)
}

} // verus!
