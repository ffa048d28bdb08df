use enum_expand::{
    enum_expand, insert_field, is_common_part, ExpandError, Fields, NamedFields, Variant,
};
use quote::ToTokens;

fn to_variant(v: syn::Variant) -> Variant {
    let fields = match v.fields {
        syn::Fields::Named(n) => Fields::Named(NamedFields {
            brace: n.brace_token,
            named: n.named.into_iter().collect(),
        }),
        syn::Fields::Unnamed(u) => Fields::Unnamed(u),
        syn::Fields::Unit => Fields::Unit,
    };
    Variant {
        attrs: v.attrs,
        ident: v.ident,
        fields,
        discriminant: v.discriminant,
    }
}

fn variants_of(src: &str) -> Vec<Variant> {
    let item: syn::ItemEnum = syn::parse_str(src).unwrap();
    item.variants.into_iter().map(to_variant).collect()
}

fn tokens<T: ToTokens>(t: &T) -> String {
    t.to_token_stream().to_string().replace(' ', "")
}

fn describe_fields(f: &Fields) -> String {
    match f {
        Fields::Named(n) => {
            let parts: Vec<String> = n.named.iter().map(tokens).collect();
            format!("{{{}}}", parts.join(","))
        }
        Fields::Unnamed(u) => tokens(u),
        Fields::Unit => String::new(),
    }
}

fn describe(v: &Variant) -> String {
    format!("{}{}", v.ident, describe_fields(&v.fields))
}

fn describe_all(vs: &[Variant]) -> Vec<String> {
    vs.iter().map(describe).collect()
}

fn expand_src(src: &str) -> Result<Vec<String>, ExpandError> {
    enum_expand(variants_of(src)).map(|out| describe_all(&out))
}

#[test]
fn end_to_end_error_enum() {
    let out = expand_src(
        "enum Error { #[enum_expand] Common { location: Location }, Alfa, Beta }",
    )
    .unwrap();
    assert_eq!(out, vec!["Alfa{location:Location}", "Beta{location:Location}"]);
}

#[test]
fn no_template_is_pass_through() {
    let src = "enum E { A, B { x: u8 }, C(u16, u32), #[other] D }";
    let out = expand_src(src).unwrap();
    assert_eq!(out, vec!["A", "B{x:u8}", "C(u16,u32)", "D"]);
}

#[test]
fn empty_enum_is_pass_through() {
    assert_eq!(expand_src("enum E {}").unwrap(), Vec::<String>::new());
}

#[test]
fn template_into_unit_variant() {
    let out = expand_src("enum E { #[enum_expand] T { a: A, b: B }, V }").unwrap();
    assert_eq!(out, vec!["V{a:A,b:B}"]);
}

#[test]
fn template_after_ordinary_variants() {
    let out = expand_src("enum E { V, W { x: X }, #[enum_expand] T { a: A } }").unwrap();
    assert_eq!(out, vec!["V{a:A}", "W{x:X,a:A}"]);
}

#[test]
fn named_variant_keeps_own_fields_first() {
    let out = expand_src("enum E { #[enum_expand] T { y: Ty }, V { x: Tx } }").unwrap();
    assert_eq!(out, vec!["V{x:Tx,y:Ty}"]);
}

#[test]
fn unnamed_variant_untouched() {
    let out = expand_src("enum E { #[enum_expand] T { a: A }, V(T1, T2) }").unwrap();
    assert_eq!(out, vec!["V(T1,T2)"]);
}

#[test]
fn duplicate_template_rejected() {
    let r = expand_src("enum E { #[enum_expand] T { a: A }, V, #[enum_expand] U { b: B } }");
    assert_eq!(r, Err(ExpandError::DuplicateTemplate(2)));
    assert_eq!(r.unwrap_err().message(), "duplicate expand common target");
}

#[test]
fn unit_template_rejected() {
    let r = expand_src("enum E { V, #[enum_expand] T }");
    assert_eq!(r, Err(ExpandError::TemplateNotNamed(1)));
    assert_eq!(
        r.unwrap_err().message(),
        "expand common target is not a named variant"
    );
}

#[test]
fn tuple_template_rejected() {
    let r = expand_src("enum E { #[enum_expand] T(u8), V }");
    assert_eq!(r, Err(ExpandError::TemplateNotNamed(0)));
    assert_eq!(r.unwrap_err().index(), 0);
}

#[test]
fn unnamed_first_template_wins_over_duplicate() {
    let r = expand_src("enum E { #[enum_expand] T, #[enum_expand] U { a: A } }");
    assert_eq!(r, Err(ExpandError::TemplateNotNamed(0)));
}

#[test]
fn marker_among_other_attributes() {
    let vs = variants_of("enum E { #[doc = \"x\"] #[enum_expand] T { a: A }, #[doc = \"y\"] V }");
    assert!(is_common_part(&vs[0]));
    assert!(!is_common_part(&vs[1]));
}

#[test]
fn marker_must_be_a_single_identifier() {
    let vs = variants_of(
        "enum E { #[enum_expand::x] A, #[other::enum_expand] B, #[r#enum_expand] C, #[enum_expand(k)] D }",
    );
    assert!(!is_common_part(&vs[0]));
    assert!(!is_common_part(&vs[1]));
    assert!(!is_common_part(&vs[2]));
    assert!(is_common_part(&vs[3]));
}

#[test]
fn insert_field_by_shape() {
    let vs = variants_of("enum E { T { a: A, b: B }, N { x: X }, U(u8), V }");
    let template = match &vs[0].fields {
        Fields::Named(n) => n,
        _ => panic!("template is named"),
    };
    let mut named = variants_of("enum E { N { x: X } }").remove(0).fields;
    insert_field(template, &mut named);
    assert_eq!(describe_fields(&named), "{x:X,a:A,b:B}");
    let mut unnamed = variants_of("enum E { U(u8) }").remove(0).fields;
    insert_field(template, &mut unnamed);
    assert_eq!(describe_fields(&unnamed), "(u8)");
    let mut unit = Fields::Unit;
    insert_field(template, &mut unit);
    assert_eq!(describe_fields(&unit), "{a:A,b:B}");
}

#[test]
fn attributes_and_discriminants_carried() {
    let vs = variants_of("enum E { #[enum_expand] T { a: A }, #[doc = \"d\"] V = 3 }");
    let out = enum_expand(vs).unwrap();
    assert_eq!(out.len(), 1);
    assert_eq!(out[0].attrs.len(), 1);
    assert_eq!(tokens(&out[0].discriminant.as_ref().unwrap().1), "3");
}
