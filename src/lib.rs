//! Field-set algebra over the variants of a sum type, and the generation of
//! accessor, discriminant and unique-field methods built on it.
mod casing;
mod codegen;
mod field_sets;
mod helpers;
mod model;

pub use casing::snake_case_name;
pub use codegen::{ArmBody, GeneratedMethod, MatchArm, Output, Pattern};
pub use field_sets::{fields_diff, fields_inter, fields_union};
pub use helpers::{
    field_to_getter, field_to_mut_getter, fold1, map_variants_for_unique_iter, mk_common_field_get,
    mk_common_field_get_mut, mk_discrim_one_named, mk_discrim_one_unit, mk_discrim_one_unnamed,
    mk_discrims, mk_match_arm_one, this_variant_unique, variant_to_arm, GenError,
};
pub use model::{FieldDescriptor, VariantDescriptor, VariantShape};
