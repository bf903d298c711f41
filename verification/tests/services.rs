//! Service scenarios: create, read, update, delete, search, pagination,
//! duplicate detection, the contact rate limit, and the route dispatch.
use portfolio_core::contact::{ContactService, CreateContactMessage};
use portfolio_core::error::ApiError;
use portfolio_core::profile::{ProfileService, UpdateProfile};
use portfolio_core::project::{CreateProject, ProjectService, UpdateProject};
use portfolio_core::routes::{
    cleanup_contact_messages, check_profile_exists, get_projects, get_skills, CleanupRequest,
    ProjectQuery, SkillQuery,
};
use portfolio_core::skill::{CreateSkill, SkillService, UpdateSkill};

const NOW: i64 = 1_700_000_000;

fn test_project() -> CreateProject {
    CreateProject {
        title: "Test Project".to_string(),
        description: "A test project description".to_string(),
        long_description: Some("A longer description".to_string()),
        technologies: vec!["Rust".to_string(), "SQLite".to_string()],
        github_url: Some("https://github.com/test/project".to_string()),
        demo_url: Some("https://demo.example.com".to_string()),
        image_url: Some("https://example.com/image.jpg".to_string()),
        category: "web".to_string(),
        featured: Some(true),
    }
}

fn test_skill() -> CreateSkill {
    CreateSkill {
        name: "Rust".to_string(),
        category: "Backend".to_string(),
        level: 4,
        years_experience: Some(3),
        description: Some("Systems programming language".to_string()),
    }
}

fn test_message() -> CreateContactMessage {
    CreateContactMessage {
        name: "John Doe".to_string(),
        email: "john.doe@example.com".to_string(),
        subject: "Test Subject".to_string(),
        message: "This is a test message with sufficient content for testing purposes.".to_string(),
    }
}

fn empty_profile_update() -> UpdateProfile {
    UpdateProfile::default()
}

fn seeded_profile_service() -> ProfileService {
    let mut service = ProfileService::new();
    service.repository.create_initial(
        "Test User".to_string(),
        "Test Title".to_string(),
        "Test bio".to_string(),
        "test@example.com".to_string(),
        "Test Location".to_string(),
        NOW,
    );
    service
}

// ---------------------------------------------------------------------------
// Projects.
// ---------------------------------------------------------------------------

#[test]
fn test_create_and_get_project() {
    let mut service = ProjectService::new();
    let created = service.create_project(test_project(), NOW).unwrap();
    assert_eq!(created.title, "Test Project");
    assert_eq!(created.category, "web");
    assert!(created.featured);

    let retrieved = service.get_project_by_id(created.id).unwrap();
    assert_eq!(retrieved.id, created.id);
    assert_eq!(retrieved.title, created.title);
}

#[test]
fn test_create_project_validation_error() {
    let mut service = ProjectService::new();
    let mut project_data = test_project();
    project_data.title = "".to_string();

    let result = service.create_project(project_data, NOW);
    match result.unwrap_err() {
        ApiError::Validation(_) => {}
        _ => panic!("Expected validation error"),
    }
    // No row was persisted by the rejected request.
    assert_eq!(service.get_all_projects().unwrap().len(), 0);
}

#[test]
fn test_create_duplicate_project() {
    let mut service = ProjectService::new();
    service.create_project(test_project(), NOW).unwrap();

    let result = service.create_project(test_project(), NOW);
    match result.unwrap_err() {
        ApiError::Conflict(_) => {}
        _ => panic!("Expected conflict error"),
    }
}

#[test]
fn test_duplicate_title_case_insensitive() {
    let mut service = ProjectService::new();
    let mut first = test_project();
    first.title = "Test".to_string();
    service.create_project(first, NOW).unwrap();

    let mut second = test_project();
    second.title = "test".to_string();
    let result = service.create_project(second, NOW);
    match result.unwrap_err() {
        ApiError::Conflict(e) => assert_eq!(e, "A project with this title already exists"),
        _ => panic!("Expected conflict error"),
    }
}

#[test]
fn test_update_project() {
    let mut service = ProjectService::new();
    let created = service.create_project(test_project(), NOW).unwrap();

    let update_data = UpdateProject {
        title: Some("Updated Title".to_string()),
        description: Some("Updated description".to_string()),
        featured: Some(false),
        ..Default::default()
    };
    let updated = service.update_project(created.id, update_data, NOW + 5).unwrap();
    assert_eq!(updated.title, "Updated Title");
    assert_eq!(updated.description, "Updated description");
    assert!(!updated.featured);

    // Reading back reflects the change and keeps untouched fields.
    let retrieved = service.get_project_by_id(created.id).unwrap();
    assert_eq!(retrieved.title, "Updated Title");
    assert_eq!(retrieved.category, created.category);
    assert_eq!(retrieved.long_description, created.long_description);
}

#[test]
fn test_update_project_no_fields() {
    let mut service = ProjectService::new();
    let created = service.create_project(test_project(), NOW).unwrap();
    let result = service.update_project(created.id, UpdateProject::default(), NOW);
    match result.unwrap_err() {
        ApiError::BadRequest(_) => {}
        _ => panic!("Expected bad request error"),
    }
}

#[test]
fn test_delete_project() {
    let mut service = ProjectService::new();
    let created = service.create_project(test_project(), NOW).unwrap();

    service.delete_project(created.id).unwrap();

    let result = service.get_project_by_id(created.id);
    match result.unwrap_err() {
        ApiError::NotFound(_) => {}
        _ => panic!("Expected not found error"),
    }
}

#[test]
fn test_delete_nonexistent_project() {
    let mut service = ProjectService::new();
    let result = service.delete_project(12345);
    match result.unwrap_err() {
        ApiError::NotFound(_) => {}
        _ => panic!("Expected not found error"),
    }
}

#[test]
fn test_search_projects() {
    let mut service = ProjectService::new();
    service.create_project(test_project(), NOW).unwrap();

    let results = service.search_projects("Test").unwrap();
    assert!(results.len() >= 1);
    assert!(results.iter().any(|p| p.title.contains("Test")));

    let empty = service.search_projects("   ");
    match empty.unwrap_err() {
        ApiError::BadRequest(_) => {}
        _ => panic!("Expected bad request error"),
    }
}

#[test]
fn test_get_projects_paginated() {
    let mut service = ProjectService::new();
    for i in 0..5 {
        let mut project_data = test_project();
        project_data.title = format!("Test Project {}", i);
        service.create_project(project_data, NOW + i).unwrap();
    }

    let (projects, total) = service.get_projects_paginated(1, 3).unwrap();
    assert!(projects.len() <= 3);
    assert_eq!(projects.len(), 3);
    assert_eq!(total, 5);

    let bad = service.get_projects_paginated(1, 0);
    match bad.unwrap_err() {
        ApiError::BadRequest(_) => {}
        _ => panic!("Expected bad request error"),
    }
}

#[test]
fn test_get_projects_route_pagination_envelope() {
    let mut service = ProjectService::new();
    for i in 0..5 {
        let mut project_data = test_project();
        project_data.title = format!("Test Project {}", i);
        service.create_project(project_data, NOW + i).unwrap();
    }
    let query = ProjectQuery {
        category: None,
        featured: None,
        search: None,
        page: Some(1),
        page_size: Some(3),
    };
    let response = get_projects(&service, &query).unwrap();
    assert!(response.success);
    let items = response.data.unwrap();
    let pagination = response.pagination.unwrap();
    assert_eq!(items.len(), 3);
    assert_eq!(pagination.page, 1);
    assert_eq!(pagination.page_size, 3);
    assert_eq!(pagination.total_count, 5);
    assert_eq!(pagination.total_pages, 2);
    // Newest first.
    assert_eq!(items[0].title, "Test Project 4");
}

#[test]
fn test_get_projects_route_filters() {
    let mut service = ProjectService::new();
    let mut web = test_project();
    web.title = "Web Project".to_string();
    web.category = "web".to_string();
    web.featured = Some(false);
    let mut mobile = test_project();
    mobile.title = "Mobile Project".to_string();
    mobile.category = "mobile".to_string();
    mobile.featured = Some(true);
    service.create_project(web, NOW).unwrap();
    service.create_project(mobile, NOW + 1).unwrap();

    let by_category = get_projects(
        &service,
        &ProjectQuery {
            category: Some("web".to_string()),
            featured: None,
            search: None,
            page: None,
            page_size: None,
        },
    )
    .unwrap();
    let items = by_category.data.unwrap();
    assert_eq!(items.len(), 1);
    assert_eq!(items[0].title, "Web Project");
    assert_eq!(items[0].technologies, vec!["Rust", "SQLite"]);

    let featured = get_projects(
        &service,
        &ProjectQuery {
            category: None,
            featured: Some(true),
            search: None,
            page: None,
            page_size: None,
        },
    )
    .unwrap();
    let items = featured.data.unwrap();
    assert_eq!(items.len(), 1);
    assert_eq!(items[0].title, "Mobile Project");
}

// ---------------------------------------------------------------------------
// Skills.
// ---------------------------------------------------------------------------

#[test]
fn test_create_and_get_skill() {
    let mut service = SkillService::new();
    let created = service.create_skill(test_skill(), NOW).unwrap();
    assert_eq!(created.name, "Rust");
    assert_eq!(created.category, "Backend");
    assert_eq!(created.level, 4);

    let retrieved = service.get_skill_by_id(created.id).unwrap();
    assert_eq!(retrieved.id, created.id);
    assert_eq!(retrieved.name, created.name);
}

#[test]
fn test_create_skill_invalid_category() {
    let mut service = SkillService::new();
    let mut skill_data = test_skill();
    skill_data.category = "InvalidCategory".to_string();

    let result = service.create_skill(skill_data, NOW);
    match result.unwrap_err() {
        ApiError::BadRequest(_) => {}
        _ => panic!("Expected bad request error"),
    }
}

#[test]
fn test_create_skill_level_out_of_range() {
    let mut service = SkillService::new();
    let mut skill_data = test_skill();
    skill_data.level = 6;

    let result = service.create_skill(skill_data, NOW);
    let err = result.unwrap_err();
    assert_eq!(err.status_code(), 400);
    match err {
        ApiError::Validation(msg) => assert_eq!(msg, "level: Level must be between 1 and 5"),
        _ => panic!("Expected a field validation error"),
    }
    assert_eq!(service.get_all_skills().unwrap().len(), 0);
}

#[test]
fn test_create_duplicate_skill() {
    let mut service = SkillService::new();
    service.create_skill(test_skill(), NOW).unwrap();

    let result = service.create_skill(test_skill(), NOW);
    match result.unwrap_err() {
        ApiError::Conflict(_) => {}
        _ => panic!("Expected conflict error"),
    }
}

#[test]
fn test_update_skill_then_get() {
    let mut service = SkillService::new();
    let created = service.create_skill(test_skill(), NOW).unwrap();

    let update = UpdateSkill {
        name: None,
        category: None,
        level: Some(5),
        years_experience: None,
        description: None,
    };
    let updated = service.update_skill(created.id, update).unwrap();
    assert_eq!(updated.level, 5);
    assert_eq!(updated.name, "Rust");

    let retrieved = service.get_skill_by_id(created.id).unwrap();
    assert_eq!(retrieved.level, 5);
    assert_eq!(retrieved.years_experience, Some(3));
}

#[test]
fn test_get_skills_by_category() {
    let mut service = SkillService::new();
    service.create_skill(test_skill(), NOW).unwrap();

    let skills = service.get_skills_by_category("Backend").unwrap();
    assert!(skills.len() >= 1);
    assert!(skills.iter().all(|s| s.category == "Backend"));
}

#[test]
fn test_get_skills_by_min_level() {
    let mut service = SkillService::new();
    service.create_skill(test_skill(), NOW).unwrap();

    let skills = service.get_skills_by_min_level(3).unwrap();
    assert!(skills.len() >= 1);
    assert!(skills.iter().all(|s| s.level >= 3));

    let bad = service.get_skills_by_min_level(0);
    match bad.unwrap_err() {
        ApiError::BadRequest(_) => {}
        _ => panic!("Expected bad request error"),
    }
}

#[test]
fn test_get_available_categories() {
    let service = SkillService::new();
    let categories = service.get_available_categories();
    assert!(categories.contains(&"Frontend"));
    assert!(categories.contains(&"Backend"));
    assert!(categories.contains(&"Database"));
}

#[test]
fn test_skills_route_dispatch() {
    let mut service = SkillService::new();
    service.create_skill(test_skill(), NOW).unwrap();
    let mut other = test_skill();
    other.name = "TypeScript".to_string();
    other.category = "Frontend".to_string();
    other.level = 3;
    service.create_skill(other, NOW).unwrap();

    let by_category = get_skills(
        &service,
        &SkillQuery { category: Some("Frontend".to_string()), min_level: None },
    )
    .unwrap();
    let items = by_category.data.unwrap();
    assert_eq!(items.len(), 1);
    assert_eq!(items[0].name, "TypeScript");

    let by_level = get_skills(&service, &SkillQuery { category: None, min_level: Some(4) }).unwrap();
    let items = by_level.data.unwrap();
    assert_eq!(items.len(), 1);
    assert_eq!(items[0].name, "Rust");

    let invalid = get_skills(
        &service,
        &SkillQuery { category: Some("Nowhere".to_string()), min_level: None },
    );
    assert!(invalid.is_err());
}

// ---------------------------------------------------------------------------
// Contact messages.
// ---------------------------------------------------------------------------

#[test]
fn test_submit_message() {
    let mut service = ContactService::new();
    let submitted = service.submit_message(test_message(), NOW).unwrap();
    assert_eq!(submitted.name, "John Doe");
    assert_eq!(submitted.email, "john.doe@example.com");
    assert_eq!(submitted.subject, "Test Subject");
}

#[test]
fn test_submit_message_validation_error() {
    let mut service = ContactService::new();
    let mut message_data = test_message();
    message_data.email = "invalid-email".to_string();

    let result = service.submit_message(message_data, NOW);
    match result.unwrap_err() {
        ApiError::Validation(_) | ApiError::ValidationErrors(_) => {}
        _ => panic!("Expected validation error"),
    }
    assert_eq!(service.get_all_messages().unwrap().len(), 0);
}

#[test]
fn test_submit_message_invalid_content() {
    let mut service = ContactService::new();
    let mut message_data = test_message();
    message_data.message = "123".to_string();

    let result = service.submit_message(message_data, NOW);
    match result.unwrap_err() {
        ApiError::BadRequest(_) => {}
        _ => panic!("Expected bad request error"),
    }
}

#[test]
fn test_rate_limit_fourth_message_rejected() {
    let mut service = ContactService::new();
    for i in 0..3 {
        let mut m = test_message();
        m.subject = format!("Subject {}", i);
        service.submit_message(m, NOW + i).unwrap();
    }
    // The fourth message from the same email within a day is rejected.
    let result = service.submit_message(test_message(), NOW + 100);
    match result.unwrap_err() {
        ApiError::BadRequest(_) => {}
        _ => panic!("Expected bad request error"),
    }
    // A different sender is unaffected.
    let mut other = test_message();
    other.email = "other@example.com".to_string();
    service.submit_message(other, NOW + 100).unwrap();
    // After a day has passed, the original sender may write again.
    let late = service.submit_message(test_message(), NOW + 2 * 86400);
    assert!(late.is_ok());
}

#[test]
fn test_get_all_messages() {
    let mut service = ContactService::new();
    service.submit_message(test_message(), NOW).unwrap();

    let messages = service.get_all_messages().unwrap();
    assert!(messages.len() >= 1);
}

#[test]
fn test_get_message_by_id() {
    let mut service = ContactService::new();
    let submitted = service.submit_message(test_message(), NOW).unwrap();
    let retrieved = service.get_message_by_id(submitted.id).unwrap();
    assert_eq!(retrieved.id, submitted.id);
    assert_eq!(retrieved.email, submitted.email);
}

#[test]
fn test_search_messages() {
    let mut service = ContactService::new();
    service.submit_message(test_message(), NOW).unwrap();

    let results = service.search_messages("John").unwrap();
    assert!(results.len() >= 1);
    assert!(results.iter().any(|m| m.name.contains("John")));
}

#[test]
fn test_get_message_stats() {
    let mut service = ContactService::new();
    service.submit_message(test_message(), NOW).unwrap();

    let stats = service.get_message_stats(NOW).unwrap();
    assert!(stats.total_messages >= 1);
    assert!(stats.messages_this_week >= 1);
    assert_eq!(stats.spam_messages, 0);
}

#[test]
fn test_delete_message_then_get() {
    let mut service = ContactService::new();
    let submitted = service.submit_message(test_message(), NOW).unwrap();
    service.delete_message(submitted.id).unwrap();
    let result = service.get_message_by_id(submitted.id);
    match result.unwrap_err() {
        ApiError::NotFound(_) => {}
        _ => panic!("Expected not found error"),
    }
}

#[test]
fn test_cleanup_old_messages() {
    let mut service = ContactService::new();
    let mut old = test_message();
    old.email = "old@example.com".to_string();
    service.submit_message(old, NOW - 40 * 86400).unwrap();
    service.submit_message(test_message(), NOW).unwrap();

    let too_soon = service.cleanup_old_messages(10, NOW);
    match too_soon.unwrap_err() {
        ApiError::BadRequest(_) => {}
        _ => panic!("Expected bad request error"),
    }

    let request = CleanupRequest { days: 30 };
    let response = cleanup_contact_messages(&mut service, &request, NOW).unwrap();
    let body = response.data.unwrap();
    assert_eq!(body.deleted_count, 1);
    assert_eq!(body.message, "Successfully deleted 1 old messages");
    assert_eq!(service.get_all_messages().unwrap().len(), 1);
}

// ---------------------------------------------------------------------------
// Profile.
// ---------------------------------------------------------------------------

#[test]
fn test_get_profile() {
    let service = seeded_profile_service();
    let profile = service.get_profile().unwrap();
    assert_eq!(profile.name, "Test User");
    assert_eq!(profile.title, "Test Title");
    assert_eq!(profile.email, "test@example.com");
}

#[test]
fn test_update_profile() {
    let mut service = seeded_profile_service();
    let update_data = UpdateProfile {
        name: Some("Updated Name".to_string()),
        title: Some("Updated Title".to_string()),
        bio: Some("Updated bio".to_string()),
        ..empty_profile_update()
    };
    let updated = service.update_profile(update_data, NOW + 10).unwrap();
    assert_eq!(updated.name, "Updated Name");
    assert_eq!(updated.title, "Updated Title");
    assert_eq!(updated.bio, "Updated bio");
    // Untouched fields survive the merge.
    assert_eq!(updated.email, "test@example.com");
    assert_eq!(updated.location, "Test Location");
}

#[test]
fn test_update_profile_validation_error() {
    let mut service = seeded_profile_service();
    let update_data = UpdateProfile {
        email: Some("invalid-email".to_string()),
        ..empty_profile_update()
    };
    let result = service.update_profile(update_data, NOW);
    match result.unwrap_err() {
        ApiError::Validation(_) | ApiError::ValidationErrors(_) => {}
        _ => panic!("Expected validation error"),
    }
}

#[test]
fn test_update_profile_empty_fields() {
    let mut service = seeded_profile_service();
    let update_data = UpdateProfile { name: Some("   ".to_string()), ..empty_profile_update() };
    let result = service.update_profile(update_data, NOW);
    match result.unwrap_err() {
        ApiError::BadRequest(_) => {}
        _ => panic!("Expected bad request error"),
    }
}

#[test]
fn test_profile_exists() {
    let service = seeded_profile_service();
    assert!(service.profile_exists().unwrap());

    let empty = ProfileService::new();
    assert!(!empty.profile_exists().unwrap());
    let response = check_profile_exists(&empty).unwrap();
    assert!(!response.data.unwrap().exists);
}

#[test]
fn test_get_profile_summary() {
    let service = seeded_profile_service();
    let summary = service.get_profile_summary().unwrap();
    assert_eq!(summary.name, "Test User");
    assert_eq!(summary.title, "Test Title");
    assert_eq!(summary.location, "Test Location");
    assert_eq!(summary.social_links.len(), 0);
}

#[test]
fn test_page_size_bounds() {
    let mut service = ProjectService::new();
    service.create_project(test_project(), NOW).unwrap();

    assert!(service.get_projects_paginated(1, 100).is_ok());
    match service.get_projects_paginated(1, 101).unwrap_err() {
        ApiError::BadRequest(_) => {}
        _ => panic!("Expected bad request error"),
    }
}

#[test]
fn test_multiple_validation_messages() {
    let mut service = SkillService::new();
    let skill = CreateSkill {
        name: "".to_string(),
        category: "Backend".to_string(),
        level: 6,
        years_experience: None,
        description: None,
    };
    match service.create_skill(skill, NOW).unwrap_err() {
        ApiError::ValidationErrors(errors) => {
            assert_eq!(errors.len(), 2);
            assert!(errors.iter().any(|e| e.starts_with("name:")));
            assert!(errors.iter().any(|e| e.starts_with("level:")));
        }
        _ => panic!("Expected a multi-message validation error"),
    }
}

#[test]
fn test_not_found_messages_carry_the_id() {
    let projects = ProjectService::new();
    match projects.get_project_by_id(42).unwrap_err() {
        ApiError::NotFound(m) => assert_eq!(m, "Project with ID 42 not found"),
        _ => panic!("Expected not found error"),
    }

    let mut skills = SkillService::new();
    match skills.delete_skill(-3).unwrap_err() {
        ApiError::NotFound(m) => assert_eq!(m, "Skill with ID -3 not found"),
        _ => panic!("Expected not found error"),
    }

    let contact = ContactService::new();
    match contact.get_message_by_id(7).unwrap_err() {
        ApiError::NotFound(m) => assert_eq!(m, "Contact message with ID 7 not found"),
        _ => panic!("Expected not found error"),
    }
}

#[test]
fn test_invalid_category_message_names_the_category() {
    let mut service = SkillService::new();
    let mut skill_data = test_skill();
    skill_data.category = "Gardening".to_string();
    match service.create_skill(skill_data, NOW).unwrap_err() {
        ApiError::BadRequest(m) => assert_eq!(m, "Invalid skill category: Gardening"),
        _ => panic!("Expected bad request error"),
    }
}

#[test]
fn test_get_by_email_filters_sender() {
    let mut service = ContactService::new();
    service.submit_message(test_message(), NOW).unwrap();
    let mut other = test_message();
    other.email = "other@example.com".to_string();
    service.submit_message(other, NOW + 1).unwrap();

    let mine = service.repository.get_by_email(&"john.doe@example.com".to_string());
    assert_eq!(mine.len(), 1);
    assert!(mine.iter().all(|m| m.email == "john.doe@example.com"));
}

#[test]
fn test_page_beyond_end_is_empty() {
    let mut service = ProjectService::new();
    service.create_project(test_project(), NOW).unwrap();

    let (items, total) = service.get_projects_paginated(5, 10).unwrap();
    assert_eq!(items.len(), 0);
    assert_eq!(total, 1);
}

#[test]
fn test_get_all_skills_sorted_by_category_then_name() {
    let mut service = SkillService::new();
    for (name, category, level) in [
        ("Rust", "Backend", 4),
        ("React", "Frontend", 3),
        ("Postgres", "Database", 3),
        ("Axum", "Backend", 3),
    ] {
        let skill = CreateSkill {
            name: name.to_string(),
            category: category.to_string(),
            level,
            years_experience: None,
            description: None,
        };
        service.create_skill(skill, NOW).unwrap();
    }
    let names: Vec<String> =
        service.get_all_skills().unwrap().into_iter().map(|s| s.name).collect();
    assert_eq!(names, vec!["Axum", "Rust", "Postgres", "React"]);
}

#[test]
fn test_skills_by_min_level_sorted_by_level_downward() {
    let mut service = SkillService::new();
    for (name, level) in [("Git", 2), ("Rust", 5), ("Docker", 3)] {
        let skill = CreateSkill {
            name: name.to_string(),
            category: "Tools".to_string(),
            level,
            years_experience: None,
            description: None,
        };
        service.create_skill(skill, NOW).unwrap();
    }
    let levels: Vec<i32> =
        service.get_skills_by_min_level(1).unwrap().into_iter().map(|s| s.level).collect();
    assert_eq!(levels, vec![5, 3, 2]);
}

#[test]
fn test_categories_sorted_and_distinct() {
    let mut service = SkillService::new();
    for (name, category) in [
        ("React", "Frontend"),
        ("Rust", "Backend"),
        ("Postgres", "Database"),
        ("Axum", "Backend"),
    ] {
        let skill = CreateSkill {
            name: name.to_string(),
            category: category.to_string(),
            level: 3,
            years_experience: None,
            description: None,
        };
        service.create_skill(skill, NOW).unwrap();
    }
    let categories = service.get_categories().unwrap();
    assert_eq!(categories, vec!["Backend", "Database", "Frontend"]);
}
