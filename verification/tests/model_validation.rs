//! Field validation of the request payloads, the category set, and the
//! simple response wrapper.
use portfolio_core::contact::CreateContactMessage;
use portfolio_core::error::ApiResponse;
use portfolio_core::profile::UpdateProfile;
use portfolio_core::project::CreateProject;
use portfolio_core::skill::{CreateSkill, SkillCategory};

fn base_project() -> CreateProject {
    CreateProject {
        title: "Test Project".to_string(),
        description: "A test project description".to_string(),
        long_description: Some("A longer description".to_string()),
        technologies: vec!["Rust".to_string(), "SQLite".to_string()],
        github_url: Some("https://github.com/test/project".to_string()),
        demo_url: Some("https://demo.example.com".to_string()),
        image_url: Some("https://example.com/image.jpg".to_string()),
        category: "web".to_string(),
        featured: Some(true),
    }
}

#[test]
fn test_create_project_validation_success() {
    let project = base_project();
    assert!(project.validate().is_ok());
}

#[test]
fn test_create_project_validation_empty_title() {
    let project = CreateProject {
        title: "".to_string(),
        description: "A test project description".to_string(),
        long_description: None,
        technologies: vec!["Rust".to_string()],
        github_url: None,
        demo_url: None,
        image_url: None,
        category: "web".to_string(),
        featured: None,
    };
    assert!(project.validate().is_err());
}

#[test]
fn test_create_project_validation_invalid_url() {
    let project = CreateProject {
        title: "Test Project".to_string(),
        description: "A test project description".to_string(),
        long_description: None,
        technologies: vec!["Rust".to_string()],
        github_url: Some("not-a-url".to_string()),
        demo_url: None,
        image_url: None,
        category: "web".to_string(),
        featured: None,
    };
    assert!(project.validate().is_err());
}

#[test]
fn test_create_skill_validation_success() {
    let skill = CreateSkill {
        name: "Rust".to_string(),
        category: "Backend".to_string(),
        level: 4,
        years_experience: Some(3),
        description: Some("Systems programming language".to_string()),
    };
    assert!(skill.validate().is_ok());
}

#[test]
fn test_create_skill_validation_empty_name() {
    let skill = CreateSkill {
        name: "".to_string(),
        category: "Backend".to_string(),
        level: 4,
        years_experience: Some(3),
        description: None,
    };
    assert!(skill.validate().is_err());
}

#[test]
fn test_create_skill_validation_invalid_level() {
    let skill = CreateSkill {
        name: "Rust".to_string(),
        category: "Backend".to_string(),
        level: 6,
        years_experience: Some(3),
        description: None,
    };
    assert!(skill.validate().is_err());
}

#[test]
fn test_create_skill_validation_negative_years() {
    let skill = CreateSkill {
        name: "Rust".to_string(),
        category: "Backend".to_string(),
        level: 4,
        years_experience: Some(-1),
        description: None,
    };
    assert!(skill.validate().is_err());
}

#[test]
fn test_skill_category_enum() {
    assert_eq!(SkillCategory::Backend.as_str(), "Backend");
    assert!(SkillCategory::from_str("Frontend").is_some());
    assert!(SkillCategory::from_str("InvalidCategory").is_none());

    let all_categories = SkillCategory::all();
    assert!(all_categories.contains(&"Frontend"));
    assert!(all_categories.contains(&"Backend"));
}

#[test]
fn test_create_contact_message_validation_success() {
    let message = CreateContactMessage {
        name: "John Doe".to_string(),
        email: "john.doe@example.com".to_string(),
        subject: "Test Subject".to_string(),
        message: "This is a test message with sufficient content.".to_string(),
    };
    assert!(message.validate().is_ok());
}

#[test]
fn test_create_contact_message_validation_empty_name() {
    let message = CreateContactMessage {
        name: "".to_string(),
        email: "john.doe@example.com".to_string(),
        subject: "Test Subject".to_string(),
        message: "This is a test message.".to_string(),
    };
    assert!(message.validate().is_err());
}

#[test]
fn test_create_contact_message_validation_invalid_email() {
    let message = CreateContactMessage {
        name: "John Doe".to_string(),
        email: "invalid-email".to_string(),
        subject: "Test Subject".to_string(),
        message: "This is a test message.".to_string(),
    };
    assert!(message.validate().is_err());
}

#[test]
fn test_create_contact_message_sanitize() {
    let mut message = CreateContactMessage {
        name: "  John Doe  ".to_string(),
        email: "  JOHN.DOE@EXAMPLE.COM  ".to_string(),
        subject: "  Test Subject  ".to_string(),
        message: "  This is a test message.  ".to_string(),
    };
    message.sanitize();
    assert_eq!(message.name, "John Doe");
    assert_eq!(message.email, "john.doe@example.com");
    assert_eq!(message.subject, "Test Subject");
    assert_eq!(message.message, "This is a test message.");
}

#[test]
fn test_create_contact_message_valid_content() {
    let valid_message = CreateContactMessage {
        name: "John Doe".to_string(),
        email: "john@example.com".to_string(),
        subject: "Test".to_string(),
        message: "This is a valid message with multiple words.".to_string(),
    };
    assert!(valid_message.is_valid_content());

    let invalid_message = CreateContactMessage {
        name: "John Doe".to_string(),
        email: "john@example.com".to_string(),
        subject: "Test".to_string(),
        message: "123".to_string(),
    };
    assert!(!invalid_message.is_valid_content());
}

#[test]
fn test_update_profile_validation_success() {
    let update = UpdateProfile {
        name: Some("Jane Doe".to_string()),
        title: Some("Senior Developer".to_string()),
        bio: Some("Updated bio".to_string()),
        email: Some("jane.doe@example.com".to_string()),
        phone: Some("+0987654321".to_string()),
        location: Some("London, UK".to_string()),
        linkedin_url: Some("https://linkedin.com/in/janedoe".to_string()),
        github_url: Some("https://github.com/janedoe".to_string()),
        twitter_url: Some("https://twitter.com/janedoe".to_string()),
    };
    assert!(update.validate().is_ok());
}

#[test]
fn test_update_profile_validation_invalid_email() {
    let update = UpdateProfile {
        name: None,
        title: None,
        bio: None,
        email: Some("invalid-email".to_string()),
        phone: None,
        location: None,
        linkedin_url: None,
        github_url: None,
        twitter_url: None,
    };
    assert!(update.validate().is_err());
}

#[test]
fn test_update_profile_validation_invalid_url() {
    let update = UpdateProfile {
        name: None,
        title: None,
        bio: None,
        email: None,
        phone: None,
        location: None,
        linkedin_url: Some("not-a-url".to_string()),
        github_url: None,
        twitter_url: None,
    };
    assert!(update.validate().is_err());
}

#[test]
fn test_update_profile_has_updates() {
    let update_with_changes = UpdateProfile {
        name: Some("New Name".to_string()),
        title: None,
        bio: None,
        email: None,
        phone: None,
        location: None,
        linkedin_url: None,
        github_url: None,
        twitter_url: None,
    };
    assert!(update_with_changes.has_updates());

    let update_no_changes = UpdateProfile {
        name: None,
        title: None,
        bio: None,
        email: None,
        phone: None,
        location: None,
        linkedin_url: None,
        github_url: None,
        twitter_url: None,
    };
    assert!(!update_no_changes.has_updates());
}

#[test]
fn test_api_response_creation() {
    let response = ApiResponse::new("test data");
    assert!(response.success);
    assert_eq!(response.data, "test data");
    assert!(response.message.is_none());

    let response = ApiResponse::with_message("test data", "Success message".to_string());
    assert!(response.success);
    assert_eq!(response.data, "test data");
    assert_eq!(response.message, Some("Success message".to_string()));
}

#[test]
fn test_validation_messages_in_field_order() {
    let skill = CreateSkill {
        name: "".to_string(),
        category: "Backend".to_string(),
        level: 6,
        years_experience: Some(99),
        description: None,
    };
    let errors = skill.validate().unwrap_err();
    assert_eq!(
        errors,
        vec![
            "name: Skill name must be between 1 and 100 characters".to_string(),
            "level: Level must be between 1 and 5".to_string(),
            "years_experience: Years of experience must be between 0 and 50".to_string(),
        ]
    );
}
