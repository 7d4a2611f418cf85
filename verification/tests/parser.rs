use contain_rs::parser::attribute::{parse_properties, print_property_list, ParseError, Property};
use contain_rs::parser::derive::{
    parse_container, parse_field_property, AttributeInput, DeriveInput, FieldInput, LiteralValue, TypeShape,
};
use contain_rs::parser::generate::{build_container, generate_container, BuildStep, ContainerImpl};
use contain_rs::container::WaitStrategy;
use contain_rs::error::ContainersError;
use contain_rs::parser::lexer::{lex, quote_string, LexError, Token};
use contain_rs::parser::model::{FieldAttribute, FieldType, HealthCheck};

fn attr(name: &str, args: &str) -> AttributeInput {
    AttributeInput { name: name.to_string(), arguments: Some(args.to_string()) }
}

fn plain(ty: &str) -> TypeShape {
    TypeShape::Path { first_segment: Some(ty.to_string()), generic_argument_is_path: false }
}

fn option() -> TypeShape {
    TypeShape::Path { first_segment: Some("Option".to_string()), generic_argument_is_path: true }
}

fn field(name: &str, ty: TypeShape, args: &str) -> FieldInput {
    FieldInput { name: name.to_string(), ty, attributes: vec![attr("contain_rs", args)] }
}

#[test]
fn lexer_splits_tokens() {
    let tokens = lex("image = \"a\\\"b\", wait_time = 2_000u64, ports = [8080:80]").unwrap();
    assert_eq!(tokens.len(), 15);
    assert!(matches!(&tokens[0], Token::Ident(w) if w == "image"));
    assert!(matches!(&tokens[1], Token::Punct('=')));
    assert!(matches!(&tokens[2], Token::Str(s) if s == "a\"b"));
    assert!(matches!(&tokens[6], Token::Int(d) if d == "2000"));
    assert!(matches!(&tokens[11], Token::Int(d) if d == "8080"));
}

#[test]
fn lexer_errors() {
    assert!(matches!(lex("image = \"abc"), Err(LexError::UnterminatedString)));
    assert!(matches!(lex("\"\\q\""), Err(LexError::UnknownEscape)));
    assert!(matches!(lex("a ; b"), Err(LexError::UnexpectedCharacter)));
}

#[test]
fn properties_in_order() {
    let props = parse_properties(
        "image = \"docker.io/library/nginx\", command = [\"nginx\", \"-g\", \"daemon off;\",], ports = [8080:80, 1:2], health_check_timeout = 30000,",
    )
    .unwrap();
    assert_eq!(props.len(), 4);
    assert!(matches!(&props[0], Property::Image(i) if i == "docker.io/library/nginx"));
    assert!(matches!(&props[1], Property::Command(c) if c.len() == 3 && c[2] == "daemon off;"));
    assert!(matches!(&props[2], Property::Ports(p) if p.len() == 2 && p[0].0 == "8080" && p[1].1 == "2"));
    assert!(matches!(&props[3], Property::HealthCheckTimeout(t) if t == "30000"));
}

#[test]
fn property_errors() {
    assert!(matches!(parse_properties("colour = \"red\""), Err(ParseError::UnknownProperty)));
    assert!(matches!(parse_properties("image \"x\""), Err(ParseError::UnexpectedToken)));
    assert!(matches!(parse_properties("image ="), Err(ParseError::UnexpectedEnd)));
    assert!(matches!(parse_properties("image = 5"), Err(ParseError::ExpectedLitStr)));
    assert!(matches!(parse_properties("wait_time = \"x\""), Err(ParseError::ExpectedLitInt)));
    assert!(matches!(parse_properties("command = [\"a\", 5]"), Err(ParseError::ExpectedLitStr)));
    assert!(matches!(parse_properties("ports = [8080:x]"), Err(ParseError::ExpectedLitInt)));
    assert!(matches!(parse_properties("image = \"a\" wait_log = \"b\""), Err(ParseError::UnexpectedToken)));
    assert!(matches!(parse_properties("command = [\"a\" \"b\"]"), Err(ParseError::UnexpectedToken)));
    assert!(matches!(parse_properties("image = \"a\" ;"), Err(ParseError::Lex(LexError::UnexpectedCharacter))));
    assert!(parse_properties("").unwrap().is_empty());
}

#[test]
fn field_property_reads_literal() {
    let p = parse_field_property(&attr("contain_rs", "env_var = \"PASSWORD\"")).unwrap();
    assert_eq!(p.ident, "env_var");
    assert!(matches!(p.value, LiteralValue::Str(ref s) if s == "PASSWORD"));
    let p = parse_field_property(&attr("contain_rs", "port = 8080")).unwrap();
    assert!(matches!(p.value, LiteralValue::Int(ref s) if s == "8080"));
    assert!(matches!(
        parse_field_property(&AttributeInput { name: "contain_rs".to_string(), arguments: None }),
        Err(ParseError::MissingArguments)
    ));
    assert!(matches!(parse_field_property(&attr("x", "port = 1, arg = \"y\"")), Err(ParseError::UnexpectedToken)));
}

fn simple_image() -> DeriveInput {
    DeriveInput {
        struct_name: "SimpleImage".to_string(),
        attributes: vec![
            attr("derive", "Default, Container"),
            attr(
                "container",
                "image = \"docker.io/library/nginx\", health_check_command = \"curl http://localhost || exit 1\", health_check_timeout = 30000, wait_time = 2000, wait_log = \"test\"",
            ),
        ],
        fields: vec![
            field("password", plain("String"), "env_var = \"PASSWORD\""),
            field("arg", option(), "arg = \"--arg\""),
            field("web_port", option(), "port = 8080"),
        ],
    }
}

#[test]
fn test_parse_container() {
    let model = parse_container(&simple_image()).unwrap().unwrap();
    assert!(model.command.is_none());
    assert_eq!(model.struct_name, "SimpleImage");
    assert_eq!(model.image, "docker.io/library/nginx");
    assert!(matches!(model.health_check, Some(HealthCheck::Command(ref c)) if c == "curl http://localhost || exit 1"));
    assert_eq!(model.fields.len(), 3);
    assert_eq!(model.fields[0].name, "password");
    assert!(model.fields[0].ty == FieldType::Simple);
    assert!(matches!(&model.fields[0].attributes[..], [FieldAttribute::EnvVar(v)] if v == "PASSWORD"));
    assert_eq!(model.fields[1].name, "arg");
    assert!(model.fields[1].ty == FieldType::Option);
    assert!(matches!(&model.fields[1].attributes[..], [FieldAttribute::Arg(v)] if v == "--arg"));
    assert_eq!(model.fields[2].name, "web_port");
    assert!(model.fields[2].ty == FieldType::Option);
    assert!(matches!(&model.fields[2].attributes[..], [FieldAttribute::Port(8080)]));
    assert_eq!(model.wait_time.as_ref().unwrap().time, 2000);
    assert_eq!(model.wait_log.as_ref().unwrap().message, "test");
}

#[test]
fn container_attribute_must_be_unique() {
    let mut input = simple_image();
    input.attributes.push(attr("container", "image = \"x\""));
    assert!(matches!(parse_container(&input), Err(ParseError::DuplicateContainerAttribute { extra: 1 })));
    input.attributes.push(attr("derive", "Default"));
    input.attributes.push(attr("container", "image = \"y\""));
    assert!(matches!(parse_container(&input), Err(ParseError::DuplicateContainerAttribute { extra: 2 })));
    input.attributes.clear();
    assert!(matches!(parse_container(&input), Err(ParseError::MissingContainerAttribute)));
}

#[test]
fn missing_image_is_reported() {
    let input = DeriveInput {
        struct_name: "S".to_string(),
        attributes: vec![attr("container", "wait_log = \"x\"")],
        fields: vec![],
    };
    assert!(matches!(parse_container(&input), Ok(None)));
}

#[test]
fn field_errors() {
    let mut input = simple_image();
    input.fields.push(field("bad", plain("u32"), "colour = \"x\""));
    assert!(matches!(parse_container(&input), Err(ParseError::UnknownFieldAttribute)));
    let mut input = simple_image();
    input.fields.push(field("bad", plain("u32"), "env_var = 5"));
    assert!(matches!(parse_container(&input), Err(ParseError::ExpectedStringLiteral)));
    let mut input = simple_image();
    input.fields.push(field("bad", plain("u32"), "port = \"5\""));
    assert!(matches!(parse_container(&input), Err(ParseError::ExpectedIntegerLiteral)));
    let mut input = simple_image();
    input.fields.push(field("bad", plain("u32"), "port = 4294967296"));
    assert!(matches!(parse_container(&input), Err(ParseError::IntegerOutOfRange)));
    let mut input = simple_image();
    input.fields.push(FieldInput {
        name: "v".to_string(),
        ty: TypeShape::Path { first_segment: Some("Vec".to_string()), generic_argument_is_path: true },
        attributes: vec![],
    });
    assert!(matches!(parse_container(&input), Err(ParseError::UnsupportedFieldType)));
    let mut input = simple_image();
    input.fields.push(FieldInput { name: "r".to_string(), ty: TypeShape::Other, attributes: vec![] });
    assert!(matches!(parse_container(&input), Err(ParseError::UnsupportedFieldType)));
}

#[test]
fn wait_time_out_of_range() {
    let input = DeriveInput {
        struct_name: "S".to_string(),
        attributes: vec![attr("container", "image = \"x\", wait_time = 18446744073709551616")],
        fields: vec![],
    };
    assert!(matches!(parse_container(&input), Err(ParseError::IntegerOutOfRange)));
}

#[test]
fn first_property_of_a_kind_counts() {
    let input = DeriveInput {
        struct_name: "S".to_string(),
        attributes: vec![attr("container", "image = \"first\", image = \"second\", wait_log = \"a\", wait_log = \"b\"")],
        fields: vec![],
    };
    let model = parse_container(&input).unwrap().unwrap();
    assert_eq!(model.image, "first");
    assert_eq!(model.wait_log.unwrap().message, "a");
}

#[test]
fn test_generate() {
    let input = DeriveInput {
        struct_name: "Nginx".to_string(),
        attributes: vec![attr("derive", "Container"), attr("container", "image = \"docker.io/library/nginx\",")],
        fields: vec![],
    };
    let model = parse_container(&input).unwrap().unwrap();
    let generated = generate_container(&model);
    assert_eq!(generated.struct_name, "Nginx");
    assert_eq!(generated.image, "docker.io/library/nginx");
    assert!(generated.steps.is_empty());
}

#[test]
fn test_generate_1() {
    let input = DeriveInput {
        struct_name: "SimpleImage".to_string(),
        attributes: vec![
            attr("derive", "Default, Container"),
            attr(
                "container",
                "image = \"docker.io/library/nginx\", command = [\"nginx\", \"-g\", \"daemon off;\"], health_check_command = \"curl http://localhost || exit 1\", health_check_timeout = 30000, wait_time = 1000, wait_log = \"test\"",
            ),
        ],
        fields: vec![
            field("password", plain("String"), "env_var = \"PASSWORD\""),
            field("user", option(), "env_var = \"USER\""),
            field("arg", plain("String"), "arg = \"--arg\""),
            field("web_port", plain("u32"), "port = 8080"),
        ],
    };
    let model = parse_container(&input).unwrap().unwrap();
    let generated = generate_container(&model);
    assert_eq!(generated.struct_name, "SimpleImage");
    assert_eq!(generated.image, "docker.io/library/nginx");
    let steps = &generated.steps;
    assert_eq!(steps.len(), 8);
    assert!(matches!(&steps[0], BuildStep::Command(c) if c == &vec!["nginx".to_string(), "-g".to_string(), "daemon off;".to_string()]));
    assert!(matches!(&steps[1], BuildStep::EnvVar { name, field, optional: false } if name == "PASSWORD" && field == "password"));
    assert!(matches!(&steps[2], BuildStep::EnvVar { name, field, optional: true } if name == "USER" && field == "user"));
    assert!(matches!(&steps[3], BuildStep::Arg { name, field, optional: false } if name == "--arg" && field == "arg"));
    assert!(matches!(&steps[4], BuildStep::Port { field, port: 8080, optional: false } if field == "web_port"));
    assert!(matches!(&steps[5], BuildStep::HealthCheck(c) if c == "curl http://localhost || exit 1"));
    assert!(matches!(&steps[6], BuildStep::WaitTime(1000)));
    assert!(matches!(&steps[7], BuildStep::WaitLog(l) if l == "test"));
}

#[test]
fn boolean_field_values_are_literals_of_the_wrong_kind() {
    let p = parse_field_property(&attr("contain_rs", "port = true")).unwrap();
    assert!(matches!(p.value, LiteralValue::Bool(true)));
    let mut input = simple_image();
    input.fields = vec![field("web_port", plain("u32"), "port = true")];
    assert!(matches!(parse_container(&input), Err(ParseError::ExpectedIntegerLiteral)));
    input.fields = vec![field("user", plain("String"), "env_var = false")];
    assert!(matches!(parse_container(&input), Err(ParseError::ExpectedStringLiteral)));
}

#[test]
fn quoted_strings_lex_back_to_their_value() {
    let value = "say \"hi\" \\ to C:\\temp\n\u{e9}";
    let quoted = quote_string(value);
    assert_eq!(quoted, "\"say \\\"hi\\\" \\\\ to C:\\\\temp\n\u{e9}\"");
    let tokens = lex(&quoted).unwrap();
    assert_eq!(tokens.len(), 1);
    assert!(matches!(&tokens[0], Token::Str(s) if s == value));
}

#[test]
fn derived_container_applies_the_steps() {
    let input = DeriveInput {
        struct_name: "SimpleImage".to_string(),
        attributes: vec![attr(
            "container",
            "image = \"docker.io/library/nginx:1.25\", command = [\"nginx\", \"-g\", \"daemon off;\"], health_check_command = \"curl http://localhost || exit 1\", wait_time = 1000",
        )],
        fields: vec![
            field("password", plain("String"), "env_var = \"PASSWORD\""),
            field("user", option(), "env_var = \"USER\""),
            field("arg", plain("String"), "arg = \"--arg\""),
            field("web_port", plain("u32"), "port = 80"),
        ],
    };
    let derived = generate_container(&parse_container(&input).unwrap().unwrap());
    let values = vec![
        None,
        Some("secret".to_string()),
        None,
        Some("value".to_string()),
        Some("8080".to_string()),
        None,
        None,
    ];
    let c = build_container(&derived, &values).unwrap();
    assert_eq!(c.image.name, "docker.io/library/nginx");
    assert_eq!(c.image.tag, "1.25");
    assert!(c.name.starts_with("contain-rs-"));
    assert_eq!(c.command, vec!["nginx", "-g", "daemon off;", "--arg", "value"]);
    assert_eq!(c.env_vars.len(), 1);
    assert_eq!(c.env_vars[0].key, "PASSWORD");
    assert_eq!(c.env_vars[0].value, "secret");
    assert_eq!(c.port_mappings.len(), 1);
    assert_eq!(c.port_mappings[0].source.number, "8080");
    assert_eq!(c.port_mappings[0].target.number, "80");
    assert_eq!(c.health_check.as_ref().unwrap().command, "curl http://localhost || exit 1");
    assert!(matches!(c.wait_strategy, Some(WaitStrategy::WaitTime { duration: 1000 })));
}

#[test]
fn derived_container_refuses_an_invalid_image() {
    let derived = ContainerImpl { struct_name: "S".to_string(), image: "::".to_string(), steps: vec![] };
    match build_container(&derived, &vec![]) {
        Err(ContainersError::InvalidImageName { name }) => assert_eq!(name, "::"),
        _ => panic!("expected an invalid image name"),
    }
}

#[test]
fn printed_properties_read_back() {
    let props = parse_properties(
        "image = \"docker.io/library/nginx\", command = [\"nginx\", \"-g\"], ports = [8080:80], wait_time = 2_000, wait_log = \"a \\\"b\\\"\"",
    )
    .unwrap();
    let text = print_property_list(&props);
    assert_eq!(
        text,
        "image = \"docker.io/library/nginx\" , command = [ \"nginx\" , \"-g\" , ] , ports = [ 8080 : 80 , ] , wait_time = 2000 , wait_log = \"a \\\"b\\\"\" , "
    );
    let again = parse_properties(&text).unwrap();
    assert_eq!(again.len(), 5);
    assert!(matches!(&again[0], Property::Image(i) if i == "docker.io/library/nginx"));
    assert!(matches!(&again[1], Property::Command(c) if c == &vec!["nginx".to_string(), "-g".to_string()]));
    assert!(matches!(&again[2], Property::Ports(p) if p.len() == 1 && p[0].0 == "8080" && p[0].1 == "80"));
    assert!(matches!(&again[3], Property::WaitTime(t) if t == "2000"));
    assert!(matches!(&again[4], Property::WaitLog(l) if l == "a \"b\""));
}
