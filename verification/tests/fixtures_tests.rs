use turbomcp::test_helpers::{
    assert_invalid, assert_valid, test_initialize_request, test_prompt, test_prompt_argument,
    test_request, test_resource, test_tool,
};
use turbomcp::validation::ProtocolValidator;

#[test]
fn fixtures_are_valid() {
    let validator = ProtocolValidator::new();
    let results = vec![
        validator.validate_request(&test_request()),
        validator.validate_tool(&test_tool()),
        validator.validate_prompt(&test_prompt()),
        validator.validate_resource(&test_resource()),
        validator.validate_initialize_request(&test_initialize_request()),
    ];
    for result in &results {
        assert!(result.is_valid());
        assert_valid(result);
    }
}

#[test]
fn prompt_argument_fixture_names_itself() {
    let arg = test_prompt_argument("city");
    assert_eq!(arg.name, "city");
    assert_eq!(arg.title.as_deref(), Some("Argument city"));
    assert_eq!(arg.description.as_deref(), Some("Description for city"));
    assert_eq!(arg.required, Some(true));
}

#[test]
fn broken_fixture_is_invalid() {
    let validator = ProtocolValidator::new();
    let mut request = test_request();
    request.method = String::new();
    let result = validator.validate_request(&request);
    assert!(result.is_invalid());
    assert_invalid(&result);
    let mut resource = test_resource();
    resource.uri = "no scheme".to_string();
    let result = validator.validate_resource(&resource);
    assert!(result.is_invalid());
    assert_invalid(&result);
}
