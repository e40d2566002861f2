use hyperx::binding::BodyBinding;
use hyperx::generate::{http_client, translate_operation, ClientDefinition};
use hyperx::description::{
    get_meta_from_attributes, parse_method_params, Attribute, DescriptionError, FormalInput,
    InterfaceDescription, OperationDescription, Param,
};
use hyperx::method::{classify, HttpMethod};

fn attribute(name: &str, path: Option<&str>, data: Option<&str>) -> Attribute {
    Attribute {
        name: name.to_string(),
        path: path.map(|p| p.to_string()),
        data: data.map(|d| d.to_string()),
        encoded: None,
    }
}

fn named(name: &str, ty: &str) -> FormalInput {
    FormalInput::Named { name: name.to_string(), ty: ty.to_string() }
}

fn operation(name: &str, attributes: Vec<Attribute>, inputs: Vec<FormalInput>) -> OperationDescription {
    OperationDescription { name: name.to_string(), attributes, inputs }
}

fn placeholder_api() -> InterfaceDescription {
    InterfaceDescription {
        name: "JsonPlaceholderApi".to_string(),
        operations: vec![
            operation(
                "get_comments",
                vec![attribute("get", Some("/comments?postId={post_id}"), None)],
                vec![FormalInput::Receiver, named("post_id", "i32")],
            ),
            operation(
                "create_post",
                vec![attribute("post", Some("/posts"), Some("{data}"))],
                vec![FormalInput::Receiver, named("data", "String")],
            ),
        ],
    }
}

#[test]
fn classify_names_the_five_methods() {
    assert_eq!(classify("get"), HttpMethod::Get);
    assert_eq!(classify("post"), HttpMethod::Post);
    assert_eq!(classify("put"), HttpMethod::Put);
    assert_eq!(classify("patch"), HttpMethod::Patch);
    assert_eq!(classify("delete"), HttpMethod::Delete);
    assert_eq!(HttpMethod::from("patch"), HttpMethod::Patch);
}

#[test]
fn classify_rejects_other_tokens() {
    assert_eq!(classify("GET"), HttpMethod::Unsupported);
    assert_eq!(classify("Get"), HttpMethod::Unsupported);
    assert_eq!(classify(""), HttpMethod::Unsupported);
    assert_eq!(classify("head"), HttpMethod::Unsupported);
    assert_eq!(classify("get "), HttpMethod::Unsupported);
    assert_eq!(classify("options"), HttpMethod::Unsupported);
}

#[test]
fn method_tokens_round_trip() {
    for method in [
        HttpMethod::Get,
        HttpMethod::Post,
        HttpMethod::Put,
        HttpMethod::Patch,
        HttpMethod::Delete,
    ] {
        assert!(method.is_supported());
        assert_eq!(classify(method.token()), method);
    }
    assert!(!HttpMethod::Unsupported.is_supported());
    assert_eq!(HttpMethod::Unsupported.token(), "");
}

#[test]
fn only_post_put_patch_carry_a_body() {
    assert!(HttpMethod::Post.has_body());
    assert!(HttpMethod::Put.has_body());
    assert!(HttpMethod::Patch.has_body());
    assert!(!HttpMethod::Get.has_body());
    assert!(!HttpMethod::Delete.has_body());
    assert!(!HttpMethod::Unsupported.has_body());
}

#[test]
fn attributes_give_method_path_data_and_flag() {
    let attributes = vec![Attribute {
        name: "put".to_string(),
        path: Some("/posts/{id}".to_string()),
        data: Some("{body}".to_string()),
        encoded: Some(true),
    }];
    let meta = get_meta_from_attributes("update", &attributes).unwrap();
    assert_eq!(meta.method, HttpMethod::Put);
    assert_eq!(meta.attributes.path, "/posts/{id}");
    assert_eq!(meta.attributes.data, Some("{body}".to_string()));
    assert_eq!(meta.attributes.encoded, Some(true));
}

#[test]
fn attributes_default_to_no_data_and_no_flag() {
    let attributes = vec![attribute("get", Some("/posts"), None)];
    let meta = get_meta_from_attributes("list", &attributes).unwrap();
    assert_eq!(meta.attributes.data, None);
    assert_eq!(meta.attributes.encoded, None);
}

#[test]
fn first_verb_attribute_is_honoured() {
    let attributes = vec![
        attribute("doc", None, None),
        attribute("post", Some("/first"), None),
        attribute("get", Some("/second"), None),
    ];
    let meta = get_meta_from_attributes("op", &attributes).unwrap();
    assert_eq!(meta.method, HttpMethod::Post);
    assert_eq!(meta.attributes.path, "/first");
}

#[test]
fn no_attribute_is_a_missing_path() {
    let error = get_meta_from_attributes("lonely", &vec![]).unwrap_err();
    assert_eq!(error, DescriptionError::MissingPathAttribute { operation: "lonely".to_string() });
}

#[test]
fn no_verb_attribute_is_a_missing_path() {
    let attributes = vec![attribute("inline", None, None), attribute("fetch", Some("/x"), None)];
    let error = get_meta_from_attributes("op", &attributes).unwrap_err();
    assert_eq!(error, DescriptionError::MissingPathAttribute { operation: "op".to_string() });
}

#[test]
fn verb_without_path_is_a_missing_path() {
    let error = get_meta_from_attributes("op", &vec![attribute("get", None, None)]).unwrap_err();
    assert_eq!(error, DescriptionError::MissingPathAttribute { operation: "op".to_string() });
    let error =
        get_meta_from_attributes("op", &vec![attribute("get", Some(""), None)]).unwrap_err();
    assert_eq!(error, DescriptionError::MissingPathAttribute { operation: "op".to_string() });
}

#[test]
fn verb_without_path_is_not_passed_over() {
    let attributes = vec![attribute("get", None, None), attribute("post", Some("/x"), None)];
    assert!(get_meta_from_attributes("op", &attributes).is_err());
}

#[test]
fn parameters_keep_declaration_order() {
    let inputs = vec![FormalInput::Receiver, named("id", "i32"), named("key", "String")];
    let params = parse_method_params(&inputs);
    assert_eq!(
        params,
        vec![
            Param { ident: "id".to_string(), ty: "i32".to_string() },
            Param { ident: "key".to_string(), ty: "String".to_string() },
        ]
    );
}

#[test]
fn patterned_parameters_and_receiver_are_left_out() {
    let inputs = vec![
        FormalInput::Receiver,
        FormalInput::Patterned { ty: "(i32, i32)".to_string() },
        named("id", "i32"),
        FormalInput::Patterned { ty: "Point".to_string() },
    ];
    let params = parse_method_params(&inputs);
    assert_eq!(params, vec![Param { ident: "id".to_string(), ty: "i32".to_string() }]);
    assert_eq!(parse_method_params(&vec![]), vec![]);
}

#[test]
fn description_becomes_a_definition() {
    let definition: ClientDefinition = http_client(&placeholder_api()).unwrap();
    assert_eq!(definition.name, "JsonPlaceholderApi");
    assert_eq!(definition.operations.len(), 2);
    let comments = &definition.operations[0];
    assert_eq!(comments.name, "get_comments");
    assert_eq!(comments.method, HttpMethod::Get);
    assert_eq!(comments.path, "/comments?postId={post_id}");
    assert!(!comments.encoded);
    assert_eq!(comments.params, vec![Param { ident: "post_id".to_string(), ty: "i32".to_string() }]);
    assert_eq!(comments.placeholders, vec![0]);
    assert_eq!(comments.body, BodyBinding::Absent);
    let create = &definition.operations[1];
    assert_eq!(create.name, "create_post");
    assert_eq!(create.method, HttpMethod::Post);
    assert_eq!(create.placeholders, Vec::<usize>::new());
    assert_eq!(create.body, BodyBinding::Parameter(0));
}

#[test]
fn empty_description_becomes_an_empty_definition() {
    let description = InterfaceDescription { name: "Empty".to_string(), operations: vec![] };
    let definition = http_client(&description).unwrap();
    assert_eq!(definition.name, "Empty");
    assert!(definition.operations.is_empty());
}

#[test]
fn unbound_body_parameter_fails_generation() {
    let description = InterfaceDescription {
        name: "Api".to_string(),
        operations: vec![
            operation("fine", vec![attribute("get", Some("/a"), None)], vec![]),
            operation(
                "create",
                vec![attribute("post", Some("/posts"), Some("{payload}"))],
                vec![FormalInput::Receiver, named("data", "String")],
            ),
        ],
    };
    assert_eq!(
        http_client(&description),
        Err(DescriptionError::UnboundBodyParameter {
            operation: "create".to_string(),
            parameter: "payload".to_string(),
        })
    );
}

#[test]
fn operation_without_verb_fails_generation() {
    let description = InterfaceDescription {
        name: "Api".to_string(),
        operations: vec![
            operation("fine", vec![attribute("get", Some("/a"), None)], vec![]),
            operation("bare", vec![attribute("fetch", Some("/b"), None)], vec![]),
            operation("late", vec![attribute("post", Some("/c"), Some("{gone}"))], vec![]),
        ],
    };
    assert_eq!(
        http_client(&description),
        Err(DescriptionError::MissingPathAttribute { operation: "bare".to_string() })
    );
}

#[test]
fn first_failing_operation_gives_the_error() {
    let description = InterfaceDescription {
        name: "Api".to_string(),
        operations: vec![
            operation("first", vec![attribute("patch", Some("/c"), Some("{gone}"))], vec![]),
            operation("second", vec![], vec![]),
        ],
    };
    assert_eq!(
        http_client(&description),
        Err(DescriptionError::UnboundBodyParameter {
            operation: "first".to_string(),
            parameter: "gone".to_string(),
        })
    );
}

#[test]
fn data_is_not_consulted_for_get_and_delete() {
    for verb in ["get", "delete"] {
        let op = operation("op", vec![attribute(verb, Some("/x"), Some("{gone}"))], vec![]);
        let definition = translate_operation(&op).unwrap();
        assert_eq!(definition.body, BodyBinding::Absent);
    }
}

#[test]
fn data_is_consulted_for_post_put_and_patch() {
    for verb in ["post", "put", "patch"] {
        let op = operation("op", vec![attribute(verb, Some("/x"), Some("{gone}"))], vec![]);
        assert_eq!(
            translate_operation(&op),
            Err(DescriptionError::UnboundBodyParameter {
                operation: "op".to_string(),
                parameter: "gone".to_string(),
            })
        );
        let op = operation(
            "op",
            vec![attribute(verb, Some("/x"), Some("{b}"))],
            vec![named("a", "u8"), named("b", "String")],
        );
        let definition = translate_operation(&op).unwrap();
        assert_eq!(definition.method, classify(verb));
        assert_eq!(definition.body, BodyBinding::Parameter(1));
    }
}

#[test]
fn encoded_flag_is_kept() {
    let mut attr = attribute("get", Some("/x"), None);
    attr.encoded = Some(true);
    let definition = translate_operation(&operation("op", vec![attr], vec![])).unwrap();
    assert!(definition.encoded);
    let mut attr = attribute("get", Some("/x"), None);
    attr.encoded = Some(false);
    let definition = translate_operation(&operation("op", vec![attr], vec![])).unwrap();
    assert!(!definition.encoded);
}

#[test]
fn error_messages_name_operation_and_parameter() {
    let missing = DescriptionError::MissingPathAttribute { operation: "list".to_string() };
    assert_eq!(missing.message(), "No path attribute found on list");
    let unbound = DescriptionError::UnboundBodyParameter {
        operation: "create".to_string(),
        parameter: "data".to_string(),
    };
    assert_eq!(unbound.message(), "No matching param for {data} on create");
}

#[test]
fn tokens_convert_into_methods() {
    let method: HttpMethod = "delete".into();
    assert_eq!(method, HttpMethod::Delete);
    let method: HttpMethod = "trace".into();
    assert_eq!(method, HttpMethod::Unsupported);
}

#[test]
fn generated_definitions_are_well_formed() {
    let definition = http_client(&placeholder_api()).unwrap();
    assert!(definition.is_well_formed());
    assert!(definition.operations[0].is_well_formed());
    assert!(definition.operations[1].is_well_formed());
}

#[test]
fn tampered_definitions_are_not_well_formed() {
    let definition = http_client(&placeholder_api()).unwrap();

    let mut unbound = definition.clone();
    unbound.operations[0].placeholders = vec![];
    assert!(!unbound.is_well_formed());

    let mut out_of_range = definition.clone();
    out_of_range.operations[1].body = BodyBinding::Parameter(1);
    assert!(!out_of_range.is_well_formed());

    let mut body_on_get = definition.clone();
    body_on_get.operations[0].body = BodyBinding::Parameter(0);
    assert!(!body_on_get.is_well_formed());

    let mut no_method = definition.clone();
    no_method.operations[0].method = HttpMethod::Unsupported;
    assert!(!no_method.is_well_formed());

    let mut no_path = definition.clone();
    no_path.operations[1].path = String::new();
    assert!(!no_path.is_well_formed());

    let mut ambient_on_post = definition;
    ambient_on_post.operations[1].body = BodyBinding::Ambient("payload".to_string());
    assert!(ambient_on_post.is_well_formed());
}
