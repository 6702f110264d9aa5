//! The whole transform: configuration, checks, then the augmented
//! declaration, its constructors and its formatting routine.
use vstd::prelude::*;
use crate::attr::{
    ctor_attrs_text, field_attrs_text, parse_attr_spec, AttrConfig, AttrToken, TypeAttrArgs,
};
use crate::augment::{declaration_text, render_declaration};
use crate::ctor::{ctor_impl_text, generate_ctor_impl_block};
use crate::display::{
    display_impl_text, display_resolves, gen_impl_Display_for_type, names_unresolved,
};
use crate::shape::{check_supported, first_discriminant, Data, TransformError, TypeDeclaration, Unsupported};
use crate::text::push_bytes;

verus! {

/// The construct that makes a declaration unsupported, if any.
pub open spec fn unsupported(d: TypeDeclaration) -> Option<Unsupported> {
    match d.data {
        Data::Union => Some(Unsupported::Union),
        Data::Enum(vs) => match first_discriminant(vs@, 0) {
            Some(i) => Some(Unsupported::Discriminant(i as usize)),
            None => None,
        },
        Data::Struct(_) => None,
    }
}

/// The generated code: the augmented declaration, the `impl` block with the
/// constructors, and the `Display` impl.
pub open spec fn expansion_text(d: TypeDeclaration, c: AttrConfig) -> Seq<u8> {
    declaration_text(d, field_attrs_text(c)) + ctor_impl_text(
        d.name@,
        d.data,
        ctor_attrs_text(c),
        field_attrs_text(c),
    ) + display_impl_text(d, c)
}

/// Transforms an annotated declaration. A malformed attribute list fails
/// first, then an unsupported declaration, then a placeholder that names no
/// field; otherwise the result is the generated code.
pub fn err_marks_the_spot(attr: &Vec<AttrToken>, item: &TypeDeclaration) -> (r: Result<
    Vec<u8>,
    TransformError,
>)
    ensures
        match parse_attr_spec(attr@) {
            Err(k) => (r matches Err(TransformError::MalformedAttribute(e)) && e.names(
                k.0,
                attr@,
                k.1,
            )),
            Ok(c) => match unsupported(*item) {
                Some(u) => (r matches Err(TransformError::UnsupportedConstruct(v)) && v == u),
                None => if display_resolves(*item) {
                    (r matches Ok(t) && t@ == expansion_text(*item, c))
                } else {
                    (r matches Err(TransformError::UnresolvedFieldReference { owner: o, key: k })
                        && names_unresolved(*item, o@, k@))
                },
            },
        },
{
    let args = match TypeAttrArgs::parse(attr) {
        Ok(a) => a,
        Err(e) => return Err(TransformError::MalformedAttribute(e)),
    };
    match check_supported(item) {
        Ok(()) => {},
        Err(e) => return Err(e),
    }
    let field_attrs = args.field_attr_vec();
    let ctor_attrs = args.ctor_attr_vec();
    let display = match gen_impl_Display_for_type(&args, item) {
        Ok(t) => t,
        Err(e) => return Err(e),
    };
    let mut out = render_declaration(item, &field_attrs);
    let ctors = generate_ctor_impl_block(&ctor_attrs, &item.name, &item.data, &field_attrs);
    push_bytes(&mut out, ctors.as_slice());
    push_bytes(&mut out, display.as_slice());
    Ok(out)
}

} // verus!
