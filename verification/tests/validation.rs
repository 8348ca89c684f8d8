use nova::error::NovaError;
use nova::validation::{
    max_length, min_length, required_string, validate_request, validation_outcome, NovaValidate, ValidationErrors,
};

#[derive(Debug)]
struct Payload {
    content: String,
}

impl NovaValidate for Payload {
    fn validate(&self) -> Result<(), ValidationErrors> {
        let mut errors = ValidationErrors::new();

        if let Some(err) = required_string("content", &self.content) {
            errors.push(err);
        }

        if errors.is_empty() {
            Ok(())
        } else {
            Err(errors)
        }
    }
}

#[test]
fn validation_validation_fails_for_blank_content() {
    let payload = Payload { content: "   ".to_string() };

    let result = validate_request(&payload);
    assert!(result.is_err());
}

#[test]
fn validation_validation_succeeds_for_non_blank_content() {
    let payload = Payload { content: "hello".to_string() };

    let result = validate_request(&payload);
    assert!(result.is_ok());
}

#[test]
fn field_checks_produce_messages() {
    assert_eq!(required_string("name", " \t\n").unwrap(), "name is required");
    assert_eq!(required_string("name", ""), Some("name is required".to_string()));
    assert_eq!(required_string("name", " x "), None);
    assert_eq!(min_length("pw", "abc", 8).unwrap(), "pw must be at least 8 characters");
    assert_eq!(min_length("pw", "abcdefgh", 8), None);
    assert_eq!(max_length("nick", "héllo!", 5).unwrap(), "nick must be at most 5 characters");
    assert_eq!(max_length("nick", "héllo", 5), None);
}

#[test]
fn collected_errors_are_joined() {
    let mut errors = ValidationErrors::new();
    assert!(errors.is_empty());
    assert!(ValidationErrors::default().is_empty());
    errors.push("a is required".to_string());
    errors.push("b must be at most 3 characters".to_string());
    assert!(!errors.is_empty());
    assert_eq!(errors.joined(), "a is required; b must be at most 3 characters");
    match errors.into_result() {
        Err(NovaError::ValidationError(m)) => assert_eq!(m, "a is required; b must be at most 3 characters"),
        other => panic!("unexpected {:?}", other),
    }
    assert!(ValidationErrors::new().into_result().is_ok());
    assert!(validation_outcome(Ok(())).is_ok());
    let mut one = ValidationErrors::new();
    one.push("only".to_string());
    match validation_outcome(Err(one)) {
        Err(NovaError::ValidationError(m)) => assert_eq!(m, "only"),
        other => panic!("unexpected {:?}", other),
    }
}

#[test]
fn check_hands_back_the_collector() {
    assert!(ValidationErrors::new().check().is_ok());
    let mut errors = ValidationErrors::new();
    errors.push("x is required".to_string());
    match errors.check() {
        Err(e) => assert_eq!(e.joined(), "x is required"),
        Ok(()) => panic!("errors were collected"),
    }
}

#[test]
fn validation_failure_carries_the_joined_messages() {
    let payload = Payload { content: "   ".to_string() };
    match validate_request(&payload) {
        Err(NovaError::ValidationError(m)) => assert_eq!(m, "content is required"),
        other => panic!("unexpected {:?}", other),
    }
    assert!(validate_request(&Payload { content: "hello".to_string() }).is_ok());
}
