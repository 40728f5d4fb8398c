use bel::enums::{extract_enum, generate_typescript_enum, EnumValue, ExtractedEnum};
use bel::Error;

#[test]
fn test_extract_simple_enum() {
    let item: syn::ItemEnum = syn::parse_str(
        "enum Status {\n    Active,\n    Inactive,\n}",
    ).unwrap();

    let extracted = extract_enum(&item).unwrap();
    assert_eq!(extracted.name, "Status");
    assert_eq!(extracted.variants.len(), 2);
    assert_eq!(extracted.variants[0].0, "Active");
    assert_eq!(extracted.variants[1].0, "Inactive");
}

#[test]
fn test_extract_enum_with_values() {
    let item: syn::ItemEnum = syn::parse_str(
        "enum HttpStatus {\n    Ok = 200,\n    NotFound = 404,\n}",
    ).unwrap();

    let extracted = extract_enum(&item).unwrap();
    assert_eq!(extracted.name, "HttpStatus");
    assert_eq!(extracted.variants.len(), 2);

    if let Some(EnumValue::Number(200)) = &extracted.variants[0].1 {
        // OK
    } else {
        panic!("Expected number value 200");
    }
}

#[test]
fn test_generate_typescript_enum() {
    let extracted = ExtractedEnum {
        name: "Status".to_string(),
        variants: vec![
            ("Active".to_string(), None),
            ("Inactive".to_string(), None),
        ],
        doc: None,
    };

    let result = generate_typescript_enum(&extracted, false);
    assert!(result.contains("export enum Status"));
    assert!(result.contains("Active = 0"));
    assert!(result.contains("Inactive = 1"));
}

#[test]
fn test_generate_typescript_sum_type() {
    let extracted = ExtractedEnum {
        name: "Status".to_string(),
        variants: vec![
            ("Active".to_string(), None),
            ("Inactive".to_string(), None),
        ],
        doc: None,
    };

    let result = generate_typescript_enum(&extracted, true);
    assert!(result.contains("export type Status ="));
    assert!(result.contains("\"Active\""));
    assert!(result.contains("\"Inactive\""));
}

#[test]
fn explicit_values_render_verbatim() {
    let item: syn::ItemEnum = syn::parse_str(
        "enum HttpStatus {\n    Ok = 200,\n    NotFound = 404,\n}",
    ).unwrap();
    let extracted = extract_enum(&item).unwrap();

    let as_enum = generate_typescript_enum(&extracted, false);
    assert!(as_enum.contains("Ok = 200"));
    assert!(as_enum.contains("NotFound = 404"));

    let as_union = generate_typescript_enum(&extracted, true);
    assert!(as_union.contains("200"));
    assert!(as_union.contains("404"));
    assert!(!as_union.contains("\"200\""));
    assert!(!as_union.contains("\"404\""));
}

#[test]
fn string_and_identifier_discriminants() {
    let item: syn::ItemEnum = syn::parse_str(
        "enum Mixed {\n    A = \"alpha\",\n    B = SOME_CONST,\n    C,\n}",
    ).unwrap();
    let extracted = extract_enum(&item).unwrap();
    assert!(matches!(&extracted.variants[0].1, Some(EnumValue::String(s)) if s == "alpha"));
    assert!(matches!(&extracted.variants[1].1, Some(EnumValue::Identifier(i)) if i == "SOME_CONST"));
    assert!(extracted.variants[2].1.is_none());

    let as_enum = generate_typescript_enum(&extracted, false);
    assert!(as_enum.contains("A = \"alpha\""));
    assert!(as_enum.contains("B = SOME_CONST"));
    assert!(as_enum.contains("C = 2"));
}

#[test]
fn discriminant_out_of_range_fails() {
    let item: syn::ItemEnum = syn::parse_str(
        "enum Big {\n    A = 99999999999999999999,\n}",
    ).unwrap();
    let result = extract_enum(&item);
    assert!(matches!(result, Err(Error::NumberOutOfRange(_))));
}

#[test]
fn discriminant_at_i64_max_is_kept() {
    let item: syn::ItemEnum = syn::parse_str(
        "enum Edge {\n    A = 9223372036854775807,\n}",
    ).unwrap();
    let extracted = extract_enum(&item).unwrap();
    assert!(matches!(&extracted.variants[0].1, Some(EnumValue::Number(9223372036854775807))));
}

#[test]
fn complex_discriminants_fall_back_to_ordinal() {
    let item: syn::ItemEnum = syn::parse_str(
        "enum Odd {\n    A = 1 + 2,\n    B,\n}",
    ).unwrap();
    let extracted = extract_enum(&item).unwrap();
    assert!(extracted.variants[0].1.is_none());
    let as_enum = generate_typescript_enum(&extracted, false);
    assert!(as_enum.contains("A = 0"));
    assert!(as_enum.contains("B = 1"));
}

#[test]
fn negative_number_renders_with_sign() {
    assert_eq!(EnumValue::Number(-5).to_typescript(), "-5");
    assert_eq!(EnumValue::Number(0).to_typescript(), "0");
    assert_eq!(EnumValue::Number(i64::MIN).to_typescript(), "-9223372036854775808");
    assert_eq!(EnumValue::String("x".to_string()).to_typescript(), "\"x\"");
    assert_eq!(EnumValue::Identifier("K".to_string()).to_typescript(), "K");
}
