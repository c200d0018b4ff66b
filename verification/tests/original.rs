use imgui_lua_gen::function::{Arg, Function};
use imgui_lua_gen::json;
use imgui_lua_gen::name::Name;
use imgui_lua_gen::parser::Parser;
use imgui_lua_gen::render::Render;
use imgui_lua_gen::types::Type;

fn definition(
    func_name: Option<&str>,
    struct_name: &str,
    args: Vec<(&str, &str)>,
    defaults: Vec<(&str, &str)>,
    location: Option<&str>,
    ret: Option<&str>,
    signature: &str,
    templated: bool,
) -> json::Definition {
    json::Definition {
        args: String::new(),
        args_t: args
            .into_iter()
            .map(|(name, ty)| json::ArgT { name: name.to_string(), ty: ty.to_string() })
            .collect(),
        args_original: None,
        call_args: String::new(),
        cimgui_name: String::new(),
        defaults: defaults
            .into_iter()
            .map(|(k, v)| (k.to_string(), v.to_string()))
            .collect(),
        func_name: func_name.map(|s| s.to_string()),
        location: location.map(|s| json::Location::new(s.to_string())),
        ov_cimgui_name: String::new(),
        ret: ret.map(|s| s.to_string()),
        signature: signature.to_string(),
        struct_name: struct_name.to_string(),
        templated,
    }
}

#[test]
fn cdef() {
    let arg1 = Arg::from_parsed("first".to_string(), None, "char*".to_string(), 0);
    let arg2 = Arg::from_parsed("second".to_string(), None, "int".to_string(), 1);

    let func = Function::from_parsed(
        Name::from_str("func"),
        vec![arg1, arg2],
        None,
        Some("const char[512]".to_string()),
        "(char*, int)".to_string(),
    );

    assert_eq!(func.cdef(&vec![]), "const char[512] func(char*, int);");
}

#[test]
fn lua() {
    let arg1 = Arg::from_parsed("first".to_string(), None, "char*".to_string(), 1);
    let arg2 = Arg::from_parsed("second".to_string(), None, "int".to_string(), 2);

    let func = Function::from_parsed(
        Name::from_str("func"),
        vec![arg1, arg2],
        None,
        Some("const char[512]".to_string()),
        "(char*, int)".to_string(),
    );

    assert_eq!(
        func.lua(&Type::default_list()),
        "function gui.func(first, second)\n    first = arg_check(first, \"string\", 1)\n    second = arg_check(second, \"number\", 2)\n    -- call\n    return ret\nend\n"
    );
}

#[test]
fn lua_type() {
    assert_eq!(
        Type::C("int".to_string()).lua_primitive_type().unwrap(),
        "number"
    );
    assert_eq!(
        Type::C("const char*".to_string()).lua_primitive_type().unwrap(),
        "string"
    );
}

#[test]
fn json() {
    let mut parser = Parser::new();

    // Parse typedefs
    parser
        .add_json_typedefs(json::Typedefs(vec![(
            "ImU32".to_string(),
            "unsigned int".to_string(),
        )]))
        .unwrap();

    // Parse definitions
    parser
        .add_json_definitions(json::Definitions(vec![(
            "igText".to_string(),
            vec![definition(
                Some("Text"),
                "",
                vec![("fmt", "const char*")],
                vec![],
                Some("imgui.h:400"),
                None,
                "(const char* fmt)",
                false,
            )],
        )]))
        .unwrap();
    parser
        .add_json_definitions(json::Definitions(vec![(
            "ImColor_SetHSV".to_string(),
            vec![definition(
                Some("SetHSV"),
                "ImColor",
                vec![("h", "int")],
                vec![],
                None,
                None,
                "(int h)",
                false,
            )],
        )]))
        .unwrap();

    // Parse structs & enums
    parser
        .add_json_structs_and_enums(json::StructsAndEnums {
            enums: vec![(
                "ImGuiDir_".to_string(),
                json::Enum(vec![json::EnumValue {
                    name: "ImGuiDir_None".to_string(),
                    calc_value: Some(-1),
                    value: "-1".to_string(),
                }]),
            )],
            locations: vec![("ImColor".to_string(), json::Location::new("imgui.h:2392".to_string()))],
            structs: vec![(
                "ImColor".to_string(),
                json::Struct(vec![json::Field {
                    name: "Value".to_string(),
                    template_type: None,
                    ty: "ImVec4".to_string(),
                }]),
            )],
        })
        .unwrap();

    // Parse everything
    let data = parser.parse().unwrap();
    assert_eq!(data.functions().len(), 1);
}
