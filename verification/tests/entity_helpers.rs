//! Entity helper methods: previews, recency, spam heuristics, social links,
//! technology JSON, level descriptions, and the error taxonomy.
use portfolio_core::contact::ContactMessage;
use portfolio_core::error::ApiError;
use portfolio_core::profile::Profile;
use portfolio_core::project::{CreateProject, Project};
use portfolio_core::skill::Skill;
use portfolio_core::text::matches_insensitive;

const NOW: i64 = 1_700_000_000;

fn test_contact_message() -> ContactMessage {
    ContactMessage {
        id: 1,
        name: "John Doe".to_string(),
        email: "john.doe@example.com".to_string(),
        subject: "Inquiry about services".to_string(),
        message: "Hello, I'm interested in your web development services. Could you please provide more information about your rates and availability?".to_string(),
        created_at: NOW,
    }
}

fn test_profile() -> Profile {
    Profile {
        id: 1,
        name: "John Doe".to_string(),
        title: "Full Stack Developer".to_string(),
        bio: "Passionate developer with expertise in modern web technologies.".to_string(),
        email: "john.doe@example.com".to_string(),
        phone: Some("+1234567890".to_string()),
        location: "Paris, France".to_string(),
        linkedin_url: Some("https://linkedin.com/in/johndoe".to_string()),
        github_url: Some("https://github.com/johndoe".to_string()),
        twitter_url: Some("https://twitter.com/johndoe".to_string()),
        updated_at: NOW,
    }
}

#[test]
fn test_contact_message_preview() {
    let message = test_contact_message();
    let preview = message.message_preview();
    assert!(preview.chars().count() <= 100);
    if message.message.chars().count() > 100 {
        assert!(preview.ends_with("..."));
    }
}

#[test]
fn test_contact_message_is_recent() {
    let recent_message = ContactMessage { created_at: NOW, ..test_contact_message() };
    assert!(recent_message.is_recent(NOW));

    let old_message = ContactMessage { created_at: NOW - 2 * 86400, ..test_contact_message() };
    assert!(!old_message.is_recent(NOW));
}

#[test]
fn test_contact_message_formatted_date() {
    let message = test_contact_message();
    let formatted = message.formatted_date();
    assert!(formatted.contains("UTC"));
    assert!(formatted.len() > 10);
}

#[test]
fn test_contact_message_spam_detection() {
    let spam_message = ContactMessage {
        subject: "URGENT: You won the lottery!".to_string(),
        message: "CONGRATULATIONS!!! Click here to claim your FREE MONEY!!!".to_string(),
        ..test_contact_message()
    };
    assert!(spam_message.is_likely_spam());

    let normal_message = test_contact_message();
    assert!(!normal_message.is_likely_spam());
}

#[test]
fn test_spam_detection_caps_and_exclamations() {
    let shouting = ContactMessage {
        subject: "Hello".to_string(),
        message: "PLEASE READ THIS WHOLE NOTE TODAY".to_string(),
        ..test_contact_message()
    };
    assert!(shouting.is_likely_spam());

    let excited = ContactMessage {
        subject: "Hello".to_string(),
        message: "hi!!!!!! there".to_string(),
        ..test_contact_message()
    };
    assert!(excited.is_likely_spam());
}

#[test]
fn test_profile_get_social_links() {
    let profile = test_profile();
    let links = profile.get_social_links();
    assert_eq!(links.len(), 3);
    assert!(links.iter().any(|(platform, _)| platform == "LinkedIn"));
    assert!(links.iter().any(|(platform, _)| platform == "GitHub"));
    assert!(links.iter().any(|(platform, _)| platform == "Twitter"));
}

#[test]
fn test_profile_is_complete() {
    let complete_profile = test_profile();
    assert!(complete_profile.is_complete());

    let incomplete_profile = Profile { name: "".to_string(), ..complete_profile };
    assert!(!incomplete_profile.is_complete());
}

#[test]
fn test_profile_display_name() {
    let profile = test_profile();
    assert_eq!(profile.display_name(), "John Doe");

    let profile_no_name = Profile { name: "".to_string(), ..profile };
    assert_eq!(profile_no_name.display_name(), "john.doe@example.com");
}

#[test]
fn test_create_project_technologies_json() {
    let project = CreateProject {
        title: "Test Project".to_string(),
        description: "A test project description".to_string(),
        long_description: None,
        technologies: vec!["Rust".to_string(), "SQLite".to_string()],
        github_url: None,
        demo_url: None,
        image_url: None,
        category: "web".to_string(),
        featured: None,
    };
    let json = project.technologies_as_json().unwrap();
    assert_eq!(json, r#"["Rust","SQLite"]"#);
}

#[test]
fn test_project_get_technologies() {
    let project = Project {
        id: 1,
        title: "Test Project".to_string(),
        description: "A test project".to_string(),
        long_description: None,
        technologies: r#"["Rust","SQLite"]"#.to_string(),
        github_url: None,
        demo_url: None,
        image_url: None,
        category: "web".to_string(),
        featured: false,
        created_at: NOW,
        updated_at: NOW,
    };
    let techs = project.get_technologies().unwrap();
    assert_eq!(techs, vec!["Rust", "SQLite"]);
}

#[test]
fn test_technologies_round_trip() {
    let project = CreateProject {
        title: "Round Trip".to_string(),
        description: "Encoding then parsing returns the list".to_string(),
        long_description: None,
        technologies: vec!["Rust".to_string(), "SQLite".to_string()],
        github_url: None,
        demo_url: None,
        image_url: None,
        category: "web".to_string(),
        featured: None,
    };
    let json = project.technologies_as_json().unwrap();
    let row = Project {
        id: 1,
        title: project.title.clone(),
        description: project.description.clone(),
        long_description: None,
        technologies: json,
        github_url: None,
        demo_url: None,
        image_url: None,
        category: "web".to_string(),
        featured: false,
        created_at: NOW,
        updated_at: NOW,
    };
    assert_eq!(row.get_technologies().unwrap(), project.technologies);
}

#[test]
fn test_get_technologies_rejects_bad_text() {
    let project = Project {
        id: 1,
        title: "Broken".to_string(),
        description: "Stored text is not a JSON array".to_string(),
        long_description: None,
        technologies: "not json".to_string(),
        github_url: None,
        demo_url: None,
        image_url: None,
        category: "web".to_string(),
        featured: false,
        created_at: NOW,
        updated_at: NOW,
    };
    assert!(project.get_technologies().is_err());
}

#[test]
fn test_skill_level_description() {
    let skill = Skill {
        id: 1,
        name: "Rust".to_string(),
        category: "Backend".to_string(),
        level: 4,
        years_experience: Some(3),
        description: None,
        created_at: NOW,
    };
    assert_eq!(skill.level_description(), "Advanced");
}

#[test]
fn test_skill_category_validation() {
    let skill = Skill {
        id: 1,
        name: "Rust".to_string(),
        category: "Backend".to_string(),
        level: 4,
        years_experience: Some(3),
        description: None,
        created_at: NOW,
    };
    assert!(skill.is_valid_category());

    let invalid_skill = Skill {
        id: 2,
        name: "Test".to_string(),
        category: "InvalidCategory".to_string(),
        level: 3,
        years_experience: None,
        description: None,
        created_at: NOW,
    };
    assert!(!invalid_skill.is_valid_category());
}

#[test]
fn test_api_error_status_codes() {
    assert_eq!(ApiError::NotFound("test".to_string()).status_code(), 404);
    assert_eq!(ApiError::Unauthorized.status_code(), 401);
    assert_eq!(ApiError::Forbidden.status_code(), 403);
    assert_eq!(ApiError::Validation("test".to_string()).status_code(), 400);
    assert_eq!(ApiError::ValidationErrors(vec!["a".to_string()]).status_code(), 400);
    assert_eq!(ApiError::BadRequest("test".to_string()).status_code(), 400);
    assert_eq!(ApiError::Serialization("test".to_string()).status_code(), 400);
    assert_eq!(ApiError::Conflict("test".to_string()).status_code(), 409);
    assert_eq!(ApiError::Database("row not found".to_string()).status_code(), 500);
    assert_eq!(ApiError::InternalServerError("test".to_string()).status_code(), 500);
}

#[test]
fn test_api_error_messages() {
    let error = ApiError::NotFound("User not found".to_string());
    assert_eq!(error.message(), "User not found");

    let error = ApiError::Unauthorized;
    assert_eq!(error.message(), "Unauthorized access");

    let error = ApiError::ValidationErrors(vec![
        "Name is required".to_string(),
        "Invalid email".to_string(),
    ]);
    assert_eq!(error.message(), "Name is required, Invalid email");

    let error = ApiError::Database("boom".to_string());
    assert_eq!(error.message(), "A database error occurred");
    assert_eq!(error.details(), Some("boom".to_string()));
}

#[test]
fn test_validation_errors_conversion() {
    let single = ApiError::from_validation_errors(vec!["name: Name is required".to_string()]);
    assert!(matches!(single, ApiError::Validation(_)));

    let several = ApiError::from_validation_errors(vec![
        "name: Name is required".to_string(),
        "email: Email must be a valid email address".to_string(),
    ]);
    match several {
        ApiError::ValidationErrors(errors) => {
            assert!(errors.len() >= 1);
            assert!(errors.iter().any(|e| e.contains("name")));
        }
        _ => panic!("Expected ValidationErrors"),
    }
}

#[test]
fn test_matches_insensitive() {
    assert!(matches_insensitive("Hello World", "WORLD"));
    assert!(!matches_insensitive("Hello World", "mars"));
}

#[test]
fn test_formatted_date_exact() {
    let message = ContactMessage { created_at: 1_700_000_000, ..test_contact_message() };
    assert_eq!(message.formatted_date(), "2023-11-14 22:13 UTC");
}

#[test]
fn test_sanitize_strips_control_characters() {
    let mut message = portfolio_core::contact::CreateContactMessage {
        name: "John\u{0007} Doe".to_string(),
        email: "john@example.com".to_string(),
        subject: "Line\none".to_string(),
        message: "Tab\tkept, bell\u{0007} dropped.".to_string(),
    };
    message.sanitize();
    assert_eq!(message.name, "John Doe");
    assert_eq!(message.subject, "Line\none");
    assert_eq!(message.message, "Tab\tkept, bell dropped.");
}

#[test]
fn test_valid_content_rejects_numeric_words() {
    let numeric = portfolio_core::contact::CreateContactMessage {
        name: "John Doe".to_string(),
        email: "john@example.com".to_string(),
        subject: "Numbers".to_string(),
        message: "123 456 789".to_string(),
    };
    assert!(!numeric.is_valid_content());
}
