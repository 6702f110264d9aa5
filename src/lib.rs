//! Augments error type declarations with a context field, constructors and a
//! formatting routine driven by the documentation text.
//!
//! The transform works on plain values: the attribute's argument tokens
//! ([`attr::AttrToken`]), a declaration whose parts are held as source text
//! ([`shape::TypeDeclaration`]), and the generated code as UTF-8 bytes. Each
//! stage states its result exactly over spec functions of those values:
//! [`attr`] parses the configuration, [`shape`] classifies fields and builds
//! the field table, [`augment`] appends the context field, [`ctor`] writes the
//! constructors, [`docs`] and [`display`] turn documentation lines into
//! formatting statements, and [`expand`] puts them together.

pub mod attr;
pub mod augment;
pub mod ctor;
pub mod display;
pub mod docs;
pub mod error_ctx;
pub mod expand;
pub mod samples;
pub mod shape;
pub mod text;

pub use attr::{
    AttrError, AttrErrorKind, AttrToken, BuildFeatureAttr, Delimiter, InlineCtorsAttr,
    InlineValue, TypeAttrArgs,
};
pub use augment::{augment_enum, augment_struct, render_declaration, AugmentedFields, OutField};
pub use ctor::{generate_ctor_impl_block, generate_enum_ctors, generate_struct_ctor};
pub use display::{gen_impl_Display_for_type, plan_doc_line, DisplayLine};
pub use docs::{
    fill_template, find_docstring_fields, get_docstrs_from_attrs, modify_docstr, resolve_fields,
    trim_doc_literal, FieldSite,
};
pub use error_ctx::{ErrorCtx, TermColor};
pub use expand::err_marks_the_spot;
pub use samples::{EnumError, NamedStructError, TupleStructError, UnitStructError};
pub use shape::{
    append_key, check_supported, create_fields_map, DeclAttr, FieldEntry, FieldIdToken,
    NamedField, PositionalField, Shape, TransformError, TypeDeclaration, Unsupported, Variant,
    Data,
};
