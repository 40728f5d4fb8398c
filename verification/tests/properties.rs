use bel::extract::{extract, ExtractOptions};
use bel::generator::GeneratorOptions;
use bel::text::camel_case;
use bel::{extract_and_generate, Error};

fn run(source: &str, options: GeneratorOptions) -> String {
    extract_and_generate(source, ExtractOptions::default(), options).unwrap()
}

#[test]
fn field_lines_one_per_named_field() {
    let source = r#"
        pub struct Shape {
            pub width: u32,
            pub height: u32,
            pub label: Option<String>,
        }
    "#;
    let out = run(source, GeneratorOptions::default());
    assert!(out.contains("    width: number\n"));
    assert!(out.contains("    height: number\n"));
    assert!(out.contains("    label?: string\n"));
    assert_eq!(out.matches("width").count(), 1);
    assert_eq!(out.matches("height").count(), 1);
    assert_eq!(out.matches("label").count(), 1);
}

#[test]
fn serde_skip_marker_makes_optional() {
    let source = r#"
        pub struct Payload {
            #[serde(skip_serializing_if = "Option::is_none")]
            pub maybe: u32,
            pub always: u32,
        }
    "#;
    let out = run(source, GeneratorOptions::default());
    assert!(out.contains("maybe?: number"));
    assert!(out.contains("always: number"));
}

#[test]
fn camel_case_translation() {
    assert_eq!(camel_case("foo_bar_baz"), "fooBarBaz");
    assert_eq!(camel_case("simple"), "simple");
    assert_eq!(camel_case("alreadyCamel"), "alreadyCamel");
    assert_eq!(camel_case("a__b"), "aB");
    assert_eq!(camel_case("trailing_"), "trailing");
}

#[test]
fn field_names_translate_to_camel_case() {
    let source = r#"
        pub struct Person {
            pub first_name: String,
            pub home_phone_number: String,
        }
    "#;
    let out = run(source, GeneratorOptions::default());
    assert!(out.contains("firstName: string"));
    assert!(out.contains("homePhoneNumber: string"));
    assert!(!out.contains("first_name"));
}

#[test]
fn ordinal_and_union_enum_order() {
    let source = r#"
        pub enum Direction {
            North,
            South,
            East,
        }
    "#;
    let out = run(source, GeneratorOptions::default());
    assert!(out.contains("North = 0"));
    assert!(out.contains("South = 1"));
    assert!(out.contains("East = 2"));

    let mut sum = GeneratorOptions::default();
    sum.generate_enums_as_sum_types = true;
    let out2 = run(source, sum);
    assert!(out2.contains("export type Direction ="));
    let n = out2.find("\"North\"").unwrap();
    let s = out2.find("\"South\"").unwrap();
    let e = out2.find("\"East\"").unwrap();
    assert!(n < s && s < e);
    assert!(!out2.contains("North = 0"));
}

#[test]
fn sequence_wrapper_resolves_to_array() {
    let source = r#"
        pub struct Collections {
            pub tags: Vec<String>,
            pub matrix: Vec<Vec<u32>>,
        }
    "#;
    let out = run(source, GeneratorOptions::default());
    assert!(out.contains("tags: string[]"));
    assert!(out.contains("matrix: number[][]"));
}

#[test]
fn trait_parameters_are_renamed_positionally() {
    let source = r#"
        pub trait Calls {
            fn send(&self, destination: String, count: u32) -> bool;
        }
    "#;
    let out = run(source, GeneratorOptions::default());
    assert!(out.contains("send(arg0: string, arg1: number): boolean"));
}

#[test]
fn trait_without_return_type_maps_to_void() {
    let source = r#"
        pub trait Sink {
            fn push(&mut self, item: String);
        }
    "#;
    let out = run(source, GeneratorOptions::default());
    assert!(out.contains("push(arg0: string): void"));
}

#[test]
fn alphabetical_sort_orders_declarations() {
    let source = r#"
        pub struct Zeta { pub z: u32 }
        pub struct Alpha { pub a: u32 }
    "#;
    let mut opts = GeneratorOptions::default();
    opts.sort_alphabetically = true;
    let out = run(source, opts);
    let a = out.find("export interface Alpha").unwrap();
    let z = out.find("export interface Zeta").unwrap();
    assert!(a < z);

    let mut unsorted = GeneratorOptions::default();
    unsorted.sort_alphabetically = false;
    let out2 = run(source, unsorted);
    let z2 = out2.find("export interface Zeta").unwrap();
    let a2 = out2.find("export interface Alpha").unwrap();
    assert!(z2 < a2);
}

#[test]
fn alphabetical_sort_orders_fields() {
    let source = r#"
        pub struct Mixed {
            pub zebra: u32,
            pub apple: u32,
        }
    "#;
    let mut opts = GeneratorOptions::default();
    opts.sort_alphabetically = true;
    let out = run(source, opts);
    let a = out.find("apple").unwrap();
    let z = out.find("zebra").unwrap();
    assert!(a < z);
}

#[test]
fn redeclaration_keeps_only_the_later_content() {
    let source = r#"
        pub struct Thing { pub old_field: u32 }
        pub struct Thing { pub new_field: bool }
    "#;
    let map = extract(source, ExtractOptions::default()).unwrap();
    assert_eq!(map.len(), 1);
    let out = run(source, GeneratorOptions::default());
    assert_eq!(out.matches("export interface Thing").count(), 1);
    assert!(out.contains("newField: boolean"));
    assert!(!out.contains("oldField"));
}

#[test]
fn pipeline_carries_explicit_discriminants() {
    let source = r#"
        pub enum HttpStatus {
            Ok = 200,
            NotFound = 404,
        }
    "#;
    let out = run(source, GeneratorOptions::default());
    assert!(out.contains("Ok = 200"));
    assert!(out.contains("NotFound = 404"));
    assert!(!out.contains("Ok = 0"));

    let mut sum = GeneratorOptions::default();
    sum.generate_enums_as_sum_types = true;
    let out2 = run(source, sum);
    assert!(out2.contains("export type HttpStatus ="));
    assert!(out2.contains("200"));
    assert!(out2.contains("404"));
    assert!(!out2.contains("\"200\""));
    assert!(!out2.contains("\"404\""));
}

#[test]
fn pipeline_mixed_discriminants_fall_back_per_variant() {
    let source = r#"
        pub enum Mixed {
            A = "alpha",
            B = SOME_CONST,
            C,
        }
    "#;
    let out = run(source, GeneratorOptions::default());
    assert!(out.contains("A = \"alpha\""));
    assert!(out.contains("B = SOME_CONST"));
    assert!(out.contains("C = 2"));
}

#[test]
fn pipeline_discriminant_overflow_aborts_extraction() {
    let source = r#"
        pub struct Fine { pub x: u32 }
        pub enum Big {
            A = 99999999999999999999,
        }
    "#;
    let result = extract_and_generate(
        source,
        ExtractOptions::default(),
        GeneratorOptions::default(),
    );
    assert!(matches!(result, Err(Error::NumberOutOfRange(_))));

    let map = extract(source, ExtractOptions::default());
    assert!(matches!(map, Err(Error::NumberOutOfRange(_))));
}

#[test]
fn parse_failure_yields_parse_error_and_nothing_else() {
    let result = extract_and_generate(
        "this is not rust at all {",
        ExtractOptions::default(),
        GeneratorOptions::default(),
    );
    assert!(matches!(result, Err(Error::Parse(_))));
}

#[test]
fn namespace_wraps_all_declarations() {
    let source = r#"
        pub struct Inner { pub x: u32 }
    "#;
    let mut opts = GeneratorOptions::default();
    opts.namespace = Some("api".to_string());
    opts.preamble = None;
    let out = run(source, opts);
    assert!(out.starts_with("export namespace api {\n"));
    assert!(out.ends_with(" }\n"));
    assert!(out.contains("export interface Inner"));
}

#[test]
fn default_preamble_is_emitted_first() {
    let out = run("pub struct E { pub x: u32 }", GeneratorOptions::default());
    assert!(out.starts_with("// generated using bel\n// DO NOT MODIFY\n"));
}

#[test]
fn doc_comments_first_line_only_trimmed() {
    let source = r#"
        /// First doc line
        /// Second doc line
        pub struct Documented {
            /// Field doc
            pub x: u32,
        }
    "#;
    let out = run(source, GeneratorOptions::default());
    assert!(out.contains("/**\n * First doc line\n */\nexport interface Documented"));
    assert!(!out.contains("Second doc line"));
    assert!(out.contains("/**\n * Field doc\n */\n    x: number"));
}

#[test]
fn unknown_types_pass_through_and_odd_shapes_become_any() {
    let source = r#"
        pub struct Refs {
            pub other: SomeOtherType,
            pub pair: (u32, u32),
            pub slice: &'static [u8],
        }
    "#;
    let out = run(source, GeneratorOptions::default());
    assert!(out.contains("other: SomeOtherType"));
    assert!(out.contains("pair: any"));
    assert!(out.contains("slice: any"));
}

#[test]
fn empty_source_renders_only_the_frame() {
    let out = run("", GeneratorOptions::default());
    assert_eq!(out, "// generated using bel\n// DO NOT MODIFY\n");
}

#[test]
fn tuple_struct_fields_are_skipped() {
    let source = "pub struct Wrapper(pub u32, pub String);";
    let out = run(source, GeneratorOptions::default());
    assert!(out.contains("export interface Wrapper {\n}\n"));
}

#[test]
fn non_function_trait_members_are_skipped() {
    let source = r#"
        pub trait WithConst {
            const LIMIT: u32;
            fn get(&self) -> u32;
        }
    "#;
    let out = run(source, GeneratorOptions::default());
    assert!(out.contains("get(): number"));
    assert!(!out.contains("LIMIT"));
}
