use bel::extract::{extract, ExtractOptions, TypescriptField, TypescriptType, TypeMap};
use bel::generator::{generate, GeneratorOptions};
use bel::extract_and_generate;

#[test]
fn test_full_pipeline() {
    let source = r#"
        /// A demo struct for testing
        pub struct Demo {
            /// The foo field
            pub foo: String,
            pub bar: u32,
        }
    "#;

    let result = extract_and_generate(
        source,
        ExtractOptions::default(),
        GeneratorOptions::default(),
    ).unwrap();

    assert!(result.contains("export interface Demo"));
    assert!(result.contains("foo: string"));
    assert!(result.contains("bar: number"));
}

#[test]
fn test_enum_generation() {
    let source = r#"
        pub enum Status {
            Active,
            Inactive,
        }
    "#;

    let result = extract_and_generate(
        source,
        ExtractOptions::default(),
        GeneratorOptions::default(),
    ).unwrap();

    assert!(result.contains("export enum Status"));
    assert!(result.contains("Active = 0"));
    assert!(result.contains("Inactive = 1"));
}

#[test]
fn test_trait_generation() {
    let source = r#"
        pub trait DemoService {
            fn say_hello(&self, name: String, msg: String) -> String;
        }
    "#;

    let result = extract_and_generate(
        source,
        ExtractOptions::default(),
        GeneratorOptions::default(),
    ).unwrap();

    assert!(result.contains("export interface DemoService"));
    assert!(result.contains("say_hello"));
}

#[test]
fn test_extract_struct() {
    let source = r#"
        pub struct Demo {
            pub foo: String,
            pub bar: u32,
        }
    "#;

    let result = extract(source, ExtractOptions::default()).unwrap();
    assert!(result.contains_key("Demo"));
}

#[test]
fn test_extract_enum() {
    let source = r#"
        pub enum Status {
            Active,
            Inactive,
        }
    "#;

    let result = extract(source, ExtractOptions::default()).unwrap();
    assert!(result.contains_key("Status"));
}

#[test]
fn test_generate_interface() {
    let mut types = TypeMap::new();
    types.insert(TypescriptType::Interface {
        name: "Demo".to_string(),
        fields: vec![
            TypescriptField {
                name: "foo".to_string(),
                ts_type: "string".to_string(),
                optional: true,
                doc: None,
            },
            TypescriptField {
                name: "bar".to_string(),
                ts_type: "number".to_string(),
                optional: false,
                doc: None,
            },
        ],
        doc: None,
    });

    let result = generate(&types, GeneratorOptions::default());

    assert!(result.contains("export interface Demo"));
    assert!(result.contains("foo?: string"));
    assert!(result.contains("bar: number"));
}

#[test]
fn test_generate_enum() {
    let mut types = TypeMap::new();
    types.insert(TypescriptType::Enum {
        name: "Status".to_string(),
        variants: vec![("Active".to_string(), None), ("Inactive".to_string(), None)],
        doc: None,
    });

    let result = generate(&types, GeneratorOptions::default());

    assert!(result.contains("export enum Status"));
    assert!(result.contains("Active = 0"));
    assert!(result.contains("Inactive = 1"));
}
