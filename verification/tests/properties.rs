use imgui_lua_gen::error::Error;
use imgui_lua_gen::function::Arg;
use imgui_lua_gen::json;
use imgui_lua_gen::name::Name;
use imgui_lua_gen::parser::Parser;
use imgui_lua_gen::text;
use imgui_lua_gen::types::Type;

fn definition(
    func_name: Option<&str>,
    struct_name: &str,
    args: Vec<(&str, &str)>,
    defaults: Vec<(&str, &str)>,
    location: Option<&str>,
    ret: Option<&str>,
    signature: &str,
    templated: bool,
) -> json::Definition {
    json::Definition {
        args: String::new(),
        args_t: args
            .into_iter()
            .map(|(name, ty)| json::ArgT { name: name.to_string(), ty: ty.to_string() })
            .collect(),
        args_original: None,
        call_args: String::new(),
        cimgui_name: String::new(),
        defaults: defaults
            .into_iter()
            .map(|(k, v)| (k.to_string(), v.to_string()))
            .collect(),
        func_name: func_name.map(|s| s.to_string()),
        location: location.map(|s| json::Location::new(s.to_string())),
        ov_cimgui_name: String::new(),
        ret: ret.map(|s| s.to_string()),
        signature: signature.to_string(),
        struct_name: struct_name.to_string(),
        templated,
    }
}

fn widget_documents(parser: &mut Parser) {
    parser
        .add_json_structs_and_enums(json::StructsAndEnums {
            enums: vec![],
            locations: vec![(
                "Widget".to_string(),
                json::Location::new("widget.h:10".to_string()),
            )],
            structs: vec![(
                "Widget".to_string(),
                json::Struct(vec![json::Field {
                    name: "x".to_string(),
                    template_type: None,
                    ty: "int".to_string(),
                }]),
            )],
        })
        .unwrap();
    parser
        .add_json_definitions(json::Definitions(vec![(
            "Widget_Draw".to_string(),
            vec![definition(
                Some("Draw"),
                "Widget",
                vec![("scale", "float")],
                vec![],
                None,
                None,
                "(float scale)",
                false,
            )],
        )]))
        .unwrap();
}

#[test]
fn struct_location_attached() {
    let mut parser = Parser::new();
    widget_documents(&mut parser);
    let data = parser.parse().unwrap();
    let widget = data.types().iter().find(|t| t.is_same("Widget")).unwrap();
    match widget {
        Type::Struct(s) => {
            let loc = s.location().as_ref().unwrap();
            assert_eq!(loc.0, "widget.h");
            assert_eq!(loc.1, 10);
        }
        _ => panic!("Widget should resolve to a struct"),
    }
}

#[test]
fn end_to_end_widget() {
    let mut parser = Parser::new();
    widget_documents(&mut parser);
    let data = parser.parse().unwrap();
    let widget = data.types().iter().find(|t| t.is_same("Widget")).unwrap();
    match widget {
        Type::Struct(s) => {
            let loc = s.location().as_ref().unwrap();
            assert_eq!(loc.0, "widget.h");
            assert_eq!(loc.1, 10);
            assert_eq!(s.methods().len(), 1);
            assert_eq!(s.methods()[0].name().imgui(), "Draw");
        }
        _ => panic!("Widget should resolve to a struct"),
    }
    assert_eq!(data.functions().len(), 0);
}

#[test]
fn unresolved_owner() {
    let mut parser = Parser::new();
    parser
        .add_json_definitions(json::Definitions(vec![(
            "Ghost_Method".to_string(),
            vec![definition(
                Some("Method"),
                "Ghost",
                vec![],
                vec![],
                None,
                None,
                "()",
                false,
            )],
        )]))
        .unwrap();
    match parser.parse() {
        Err(Error::UnresolvedOwner(name)) => assert_eq!(name, "Ghost"),
        other => panic!("expected UnresolvedOwner, got {:?}", other.map(|_| ())),
    }
}

#[test]
fn method_on_enum_rejected() {
    let mut parser = Parser::new();
    parser
        .add_json_structs_and_enums(json::StructsAndEnums {
            enums: vec![(
                "Mode".to_string(),
                json::Enum(vec![json::EnumValue {
                    name: "Mode_A".to_string(),
                    calc_value: Some(0),
                    value: "0".to_string(),
                }]),
            )],
            locations: vec![],
            structs: vec![],
        })
        .unwrap();
    parser
        .add_json_definitions(json::Definitions(vec![(
            "Mode_Flip".to_string(),
            vec![definition(
                Some("Flip"),
                "Mode",
                vec![],
                vec![],
                None,
                None,
                "()",
                false,
            )],
        )]))
        .unwrap();
    match parser.parse() {
        Err(Error::Unsupported(name)) => assert_eq!(name, "Mode"),
        other => panic!("expected Unsupported, got {:?}", other.map(|_| ())),
    }
}

#[test]
fn classification_categories() {
    assert_eq!(
        Type::C("int".to_string()).lua_primitive_type().unwrap(),
        "number"
    );
    assert_eq!(
        Type::C("float".to_string()).lua_primitive_type().unwrap(),
        "number"
    );
    assert_eq!(
        Type::C("bool".to_string()).lua_primitive_type().unwrap(),
        "boolean"
    );
    assert_eq!(
        Type::C("char*".to_string()).lua_primitive_type().unwrap(),
        "string"
    );
    assert_eq!(
        Type::C("const char*".to_string()).lua_primitive_type().unwrap(),
        "string"
    );
    let mut parser = Parser::new();
    widget_documents(&mut parser);
    let data = parser.parse().unwrap();
    let widget = data.types().iter().find(|t| t.is_same("Widget")).unwrap();
    assert_eq!(widget.lua_primitive_type().unwrap(), "table");
}

#[test]
fn unknown_type_rejected() {
    match Type::C("struct tm*".to_string()).lua_primitive_type() {
        Err(Error::UnknownType { ty_name, .. }) => assert_eq!(ty_name, "struct tm*"),
        other => panic!("expected UnknownType, got {:?}", other),
    }
    let arg = Arg::from_parsed("value".to_string(), None, "Mystery".to_string(), 0);
    match arg.check_string(&Type::default_list()) {
        Err(Error::UnknownType { ty_name, context }) => {
            assert_eq!(ty_name, "Mystery");
            assert_eq!(context, "value");
        }
        other => panic!("expected UnknownType, got {:?}", other),
    }
}

#[test]
fn resolve_twice_equal() {
    let mut parser = Parser::new();
    widget_documents(&mut parser);
    parser
        .add_json_definitions(json::Definitions(vec![(
            "igFree".to_string(),
            vec![definition(
                None,
                "",
                vec![("count", "int")],
                vec![("count", "1")],
                None,
                Some("int"),
                "(int count)",
                false,
            )],
        )]))
        .unwrap();
    let first = parser.parse().unwrap();
    let second = parser.parse().unwrap();
    assert_eq!(first.types().len(), second.types().len());
    for (a, b) in first.types().iter().zip(second.types().iter()) {
        match (a, b) {
            (Type::Struct(sa), Type::Struct(sb)) => {
                assert_eq!(sa.name().imgui(), sb.name().imgui());
                assert_eq!(sa.location(), sb.location());
                assert_eq!(sa.methods().len(), sb.methods().len());
            }
            (Type::Enum(ea), Type::Enum(eb)) => {
                assert_eq!(ea.name(), eb.name());
                assert_eq!(ea.location(), eb.location());
            }
            (Type::C(ca), Type::C(cb)) => assert_eq!(ca, cb),
            _ => panic!("catalogs disagree on a variant"),
        }
    }
    assert_eq!(first.cdefs(), second.cdefs());
    assert_eq!(first.lua(""), second.lua(""));
}

#[test]
fn argument_positions() {
    let mut parser = Parser::new();
    parser
        .add_json_definitions(json::Definitions(vec![(
            "igPair".to_string(),
            vec![definition(
                None,
                "",
                vec![("a", "int"), ("b", "float")],
                vec![],
                None,
                None,
                "(int a, float b)",
                false,
            )],
        )]))
        .unwrap();
    let data = parser.parse().unwrap();
    let func = &data.functions()[0];
    assert_eq!(func.args()[0].index(), 0);
    assert_eq!(func.args()[0].name(), "a");
    assert_eq!(func.args()[1].index(), 1);
    assert_eq!(func.args()[1].name(), "b");
}

#[test]
fn templated_excluded() {
    let mut parser = Parser::new();
    parser
        .add_json_definitions(json::Definitions(vec![(
            "igValue".to_string(),
            vec![
                definition(None, "", vec![], vec![], None, None, "()", true),
                definition(None, "", vec![], vec![], None, None, "()", false),
            ],
        )]))
        .unwrap();
    let data = parser.parse().unwrap();
    assert_eq!(data.functions().len(), 1);
    assert_eq!(data.functions()[0].name().imgui(), "igValue");
}

#[test]
fn default_values() {
    let mut parser = Parser::new();
    parser
        .add_json_definitions(json::Definitions(vec![(
            "igCount".to_string(),
            vec![definition(
                None,
                "",
                vec![("count", "int"), ("label", "char*")],
                vec![("count", "1")],
                None,
                None,
                "(int count, char* label)",
                false,
            )],
        )]))
        .unwrap();
    let data = parser.parse().unwrap();
    let func = &data.functions()[0];
    assert_eq!(func.args()[0].default_value().as_deref(), Some("1"));
    assert_eq!(func.args()[1].default_value().as_deref(), None);
    let check = func.args()[0].check_string(&Type::default_list()).unwrap();
    assert_eq!(check, "    count or 1 = arg_check(count or 1, \"number\", 0)");
}

#[test]
fn malformed_location_rejected() {
    let mut parser = Parser::new();
    let err = parser
        .add_json_structs_and_enums(json::StructsAndEnums {
            enums: vec![],
            locations: vec![(
                "Widget".to_string(),
                json::Location::new("widget_h_no_colon".to_string()),
            )],
            structs: vec![],
        })
        .unwrap_err();
    match err {
        Error::MalformedMetadata(s) => assert_eq!(s, "widget_h_no_colon"),
        other => panic!("expected MalformedMetadata, got {:?}", other),
    }
    let err = parser
        .add_json_definitions(json::Definitions(vec![(
            "igBad".to_string(),
            vec![definition(
                None,
                "",
                vec![],
                vec![],
                Some("imgui.h:notanumber"),
                None,
                "()",
                false,
            )],
        )]))
        .unwrap_err();
    match err {
        Error::MalformedMetadata(s) => assert_eq!(s, "imgui.h:notanumber"),
        other => panic!("expected MalformedMetadata, got {:?}", other),
    }
}

#[test]
fn location_splits_on_last_colon() {
    let loc = json::Location::new("dir:file.h:42".to_string());
    assert!(loc.is_well_formed());
    assert_eq!(loc.filename(), "dir:file.h");
    assert_eq!(loc.line_number(), 42);
}

#[test]
fn dropped_location_ignored() {
    let mut parser = Parser::new();
    parser
        .add_json_structs_and_enums(json::StructsAndEnums {
            enums: vec![],
            locations: vec![(
                "Foreign".to_string(),
                json::Location::new("foreign.h:7".to_string()),
            )],
            structs: vec![(
                "Widget".to_string(),
                json::Struct(vec![]),
            )],
        })
        .unwrap();
    let data = parser.parse().unwrap();
    let widget = data.types().iter().find(|t| t.is_same("Widget")).unwrap();
    match widget {
        Type::Struct(s) => assert!(s.location().is_none()),
        _ => panic!("Widget should resolve to a struct"),
    }
    assert!(data.types().iter().find(|t| t.is_same("Foreign")).is_none());
}

#[test]
fn last_ingested_wins() {
    let mut parser = Parser::new();
    for line in ["first.h:1", "second.h:2"] {
        parser
            .add_json_structs_and_enums(json::StructsAndEnums {
                enums: vec![],
                locations: vec![(
                    "Widget".to_string(),
                    json::Location::new(line.to_string()),
                )],
                structs: vec![("Widget".to_string(), json::Struct(vec![]))],
            })
            .unwrap();
    }
    let data = parser.parse().unwrap();
    let widget = data.types().iter().find(|t| t.is_same("Widget")).unwrap();
    match widget {
        Type::Struct(s) => {
            let loc = s.location().as_ref().unwrap();
            assert_eq!(loc.0, "second.h");
            assert_eq!(loc.1, 2);
        }
        _ => panic!("Widget should resolve to a struct"),
    }
    assert_eq!(
        data.types().iter().filter(|t| t.is_same("Widget")).count(),
        1
    );
}

#[test]
fn numeral_parsing() {
    assert_eq!(text::parse_i64("123"), Some(123));
    assert_eq!(text::parse_i64("-5"), Some(-5));
    assert_eq!(text::parse_i64("+7"), Some(7));
    assert_eq!(text::parse_i64("9223372036854775807"), Some(i64::MAX));
    assert_eq!(text::parse_i64("-9223372036854775808"), Some(i64::MIN));
    assert_eq!(text::parse_i64("9223372036854775808"), None);
    assert_eq!(text::parse_i64(""), None);
    assert_eq!(text::parse_i64("12a"), None);
    assert_eq!(text::parse_i64("-"), None);
    assert_eq!(text::dec_string(0), "0");
    assert_eq!(text::dec_string(407), "407");
}

#[test]
fn snake_case_names() {
    let name = Name::from_str("SetWindowPos");
    assert_eq!(name.imgui(), "SetWindowPos");
    assert_eq!(name.lua(), "set_window_pos");
}
