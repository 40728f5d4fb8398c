use bel::typescript::{TsParameter, TsProperty, TsType};

#[test]
fn test_primitive_to_typescript() {
    assert_eq!(TsType::string().to_typescript(), "string");
    assert_eq!(TsType::number().to_typescript(), "number");
    assert_eq!(TsType::boolean().to_typescript(), "boolean");
}

#[test]
fn test_array_to_typescript() {
    let array_type = TsType::array(TsType::string());
    assert_eq!(array_type.to_typescript(), "string[]");
}

#[test]
fn test_object_to_typescript() {
    let obj_type = TsType::Object(vec![
        TsProperty {
            name: "foo".to_string(),
            ts_type: TsType::string(),
            optional: true,
            readonly: false,
        },
        TsProperty {
            name: "bar".to_string(),
            ts_type: TsType::number(),
            optional: false,
            readonly: true,
        },
    ]);
    let result = obj_type.to_typescript();
    assert!(result.contains("foo?: string"));
    assert!(result.contains("readonly bar: number"));
}

#[test]
fn test_union_to_typescript() {
    let union_type = TsType::Union(vec![
        TsType::string(),
        TsType::number(),
    ]);
    assert_eq!(union_type.to_typescript(), "string | number");
}

#[test]
fn function_and_generic_to_typescript() {
    let f = TsType::Function {
        params: vec![
            TsParameter { name: "a".to_string(), ts_type: TsType::string(), optional: false },
            TsParameter { name: "b".to_string(), ts_type: TsType::number(), optional: true },
        ],
        return_type: Box::new(TsType::boolean()),
    };
    assert_eq!(f.to_typescript(), "(a: string, b?: number) => boolean");

    let g = TsType::Generic {
        base: "Map".to_string(),
        args: vec![TsType::string(), TsType::number()],
    };
    assert_eq!(g.to_typescript(), "Map<string, number>");

    let r = TsType::reference("Demo".to_string());
    assert_eq!(r.to_typescript(), "Demo");

    let o = TsType::string().optional();
    assert_eq!(o.to_typescript(), "string | undefined");
}
