//! The route layer minus HTTP: the query parameter shapes, and the dispatch
//! that picks one service operation per request and wraps the result in the
//! response envelope. Filters apply in a fixed precedence: pagination, then
//! search, then field filters, then the plain listing.
use vstd::prelude::*;

use crate::contact::{
    contact_field_messages, kept_after, meaningful_content, message_stamps_at_most,
    recent_email_count, recent_from, search_matches_from, ContactMessage, ContactService,
    CreateContactMessage,
};
use crate::envelope::{
    page_slice, spec_offset, spec_total_pages, total_pages, ApiResponse, PaginationInfo,
};
use crate::error::{validation_messages_of, ApiError};
use crate::profile::ProfileService;
use crate::project::{
    featured_projects_from, project_matches_from, projects_in_category_from, Project,
    ProjectResponse, ProjectService,
};
use crate::skill::{
    categories_listing, category_of, invalid_category_text, skills_at_least, skills_in_category,
    sorted_skills, Skill, SkillService,
};
use crate::jsonlist::strings_of_json;
use crate::text::{dec_str, lower_of, stripped, trimmed, u64_to_string};

verus! {

/// Query parameters of the project listing.
pub struct ProjectQuery {
    pub category: Option<String>,
    pub featured: Option<bool>,
    pub search: Option<String>,
    pub page: Option<u32>,
    pub page_size: Option<u32>,
}

/// Query parameters of the skill listing.
pub struct SkillQuery {
    pub category: Option<String>,
    pub min_level: Option<i32>,
}

/// Query parameters of the contact message listing.
pub struct ContactQuery {
    pub search: Option<String>,
    pub days: Option<u32>,
    pub page: Option<u32>,
    pub page_size: Option<u32>,
}

/// Body of a cleanup request.
pub struct CleanupRequest {
    pub days: u32,
}

/// Result of a cleanup request.
pub struct CleanupResponse {
    pub deleted_count: u64,
    pub message: String,
}

/// Result of a contact form submission.
pub struct ContactSubmissionResponse {
    pub id: i32,
    pub submitted_at: i64,
    pub message: String,
}

/// The categories answer: those in use beside the fixed set.
pub struct SkillCategoriesResponse {
    pub used: Vec<String>,
    pub available: Vec<String>,
}

/// Whether the profile row exists.
pub struct ProfileExistsResponse {
    pub exists: bool,
}

/// How a stored project appears in a response.
pub open spec fn is_response_of(r: ProjectResponse, p: Project) -> bool {
    &&& r.id == p.id
    &&& r.title == p.title
    &&& r.description == p.description
    &&& r.long_description == p.long_description
    &&& r.github_url == p.github_url
    &&& r.demo_url == p.demo_url
    &&& r.image_url == p.image_url
    &&& r.category == p.category
    &&& r.featured == p.featured
    &&& r.created_at == p.created_at
    &&& match strings_of_json(p.technologies@) {
        Some(ts) => r.technologies.deep_view() == ts,
        None => r.technologies@.len() == 0,
    }
}

/// Whether a response list renders a project list element for element.
pub open spec fn are_responses_of(rs: Seq<ProjectResponse>, ps: Seq<Project>) -> bool {
    rs.len() == ps.len() && forall|i: int| 0 <= i < ps.len() ==> is_response_of(rs[i], ps[i])
}

/// Render each stored project in its response form.
fn responses_of(v: &Vec<Project>) -> (r: Vec<ProjectResponse>)
    ensures
        are_responses_of(r@, v@),
{
    let n: usize = v.len();
    let mut r: Vec<ProjectResponse> = Vec::new();
    let mut i: usize = 0;
    while i < n
        invariant
            n == v@.len(),
            i <= n,
            r@.len() == i,
            forall|k: int| 0 <= k < i ==> is_response_of(r@[k], v@[k]),
        decreases n - i,
    {
        r.push(ProjectResponse::from_project(&v[i]));
        i = i + 1;
    }
    r
}

/// List projects: pagination wins over search, search over the category
/// filter, the category filter over the featured filter, and a bare query
/// lists everything, newest first.
pub fn get_projects(service: &ProjectService, params: &ProjectQuery) -> (r: Result<
    ApiResponse<Vec<ProjectResponse>>,
    ApiError,
>)
    ensures
        ({
            let rows = service.repository.rows@;
            match (params.page, params.page_size) {
                (Some(page), Some(size)) => {
                    if !(1 <= size <= 100) {
                        r matches Err(ApiError::BadRequest(m)) && m@
                            == "Page size must be between 1 and 100"@
                    } else {
                        &&& r matches Ok(resp) && resp.success && (resp.data matches Some(list)
                            && are_responses_of(
                            list@,
                            page_slice(
                                rows.reverse(),
                                spec_offset(page as int, size as int),
                                size as int,
                            ),
                        ))
                        &&& r matches Ok(resp) && (resp.pagination matches Some(pg) && pg.page
                            == page && pg.page_size == size && pg.total_count == rows.len()
                            && pg.total_pages == spec_total_pages(rows.len() as int, size as int))
                    }
                },
                _ => match params.search {
                    Some(q) => {
                        if trimmed(q@).len() == 0 {
                            r matches Err(ApiError::BadRequest(m)) && m@
                                == "Search query cannot be empty"@
                        } else {
                            r matches Ok(resp) && resp.success && resp.pagination is None && (
                            resp.data matches Some(list) && are_responses_of(
                                list@,
                                project_matches_from(rows, lower_of(q@), 0),
                            ))
                        }
                    },
                    None => match params.category {
                        Some(c) => r matches Ok(resp) && resp.success && resp.pagination is None
                            && (resp.data matches Some(list) && are_responses_of(
                            list@,
                            projects_in_category_from(rows, c@, 0),
                        )),
                        None => match params.featured {
                            Some(true) => r matches Ok(resp) && resp.success && resp.pagination
                                is None && (resp.data matches Some(list) && are_responses_of(
                                list@,
                                featured_projects_from(rows, 0),
                            )),
                            _ => r matches Ok(resp) && resp.success && resp.pagination is None
                                && (resp.data matches Some(list) && are_responses_of(
                                list@,
                                rows.reverse(),
                            )),
                        },
                    },
                },
            }
        }),
{
    if let (Some(page), Some(page_size)) = (params.page, params.page_size) {
        let (projects, total_count) = match service.get_projects_paginated(page, page_size) {
            Ok(p) => p,
            Err(e) => {
                return Err(e);
            },
        };
        let pagination = PaginationInfo {
            page,
            page_size,
            total_count,
            total_pages: total_pages(total_count, page_size),
        };
        let list = responses_of(&projects);
        return Ok(ApiResponse::success_with_pagination(list, pagination));
    }
    if let Some(q) = &params.search {
        let projects = match service.search_projects(q.as_str()) {
            Ok(p) => p,
            Err(e) => {
                return Err(e);
            },
        };
        return Ok(ApiResponse::success(responses_of(&projects)));
    }
    if let Some(c) = &params.category {
        let projects = match service.get_projects_by_category(c.as_str()) {
            Ok(p) => p,
            Err(e) => {
                return Err(e);
            },
        };
        return Ok(ApiResponse::success(responses_of(&projects)));
    }
    if let Some(true) = params.featured {
        let projects = match service.get_featured_projects() {
            Ok(p) => p,
            Err(e) => {
                return Err(e);
            },
        };
        return Ok(ApiResponse::success(responses_of(&projects)));
    }
    let projects = match service.get_all_projects() {
        Ok(p) => p,
        Err(e) => {
            return Err(e);
        },
    };
    Ok(ApiResponse::success(responses_of(&projects)))
}

/// List skills: the category filter wins over the level filter, and a bare
/// query lists everything.
pub fn get_skills(service: &SkillService, params: &SkillQuery) -> (r: Result<
    ApiResponse<Vec<Skill>>,
    ApiError,
>)
    ensures
        ({
            let rows = service.repository.rows@;
            match params.category {
                Some(c) => {
                    if category_of(c@) is None {
                        r matches Err(ApiError::BadRequest(m)) && m@ == invalid_category_text(c@)
                    } else {
                        r matches Ok(resp) && resp.success && (resp.data matches Some(list)
                            && list@.to_multiset() == skills_in_category(rows, c@).to_multiset()
                            && sorted_skills(true, list@))
                    }
                },
                None => match params.min_level {
                    Some(level) => {
                        if !(1 <= level <= 5) {
                            r matches Err(ApiError::BadRequest(m)) && m@
                                == "Skill level must be between 1 and 5"@
                        } else {
                            r matches Ok(resp) && resp.success && (resp.data matches Some(list)
                                && list@.to_multiset() == skills_at_least(
                                rows,
                                level,
                            ).to_multiset() && sorted_skills(true, list@))
                        }
                    },
                    None => r matches Ok(resp) && resp.success && (resp.data matches Some(list)
                        && list@.to_multiset() == rows.to_multiset() && sorted_skills(
                        false,
                        list@,
                    )),
                },
            }
        }),
{
    if let Some(c) = &params.category {
        let skills = match service.get_skills_by_category(c.as_str()) {
            Ok(s) => s,
            Err(e) => {
                return Err(e);
            },
        };
        return Ok(ApiResponse::success(skills));
    }
    if let Some(level) = params.min_level {
        let skills = match service.get_skills_by_min_level(level) {
            Ok(s) => s,
            Err(e) => {
                return Err(e);
            },
        };
        return Ok(ApiResponse::success(skills));
    }
    let skills = match service.get_all_skills() {
        Ok(s) => s,
        Err(e) => {
            return Err(e);
        },
    };
    Ok(ApiResponse::success(skills))
}

/// The categories answer: those in use beside the fixed set.
pub fn get_skill_categories(service: &SkillService) -> (r: Result<
    ApiResponse<SkillCategoriesResponse>,
    ApiError,
>)
    ensures
        r matches Ok(resp) && resp.success && (resp.data matches Some(d) && categories_listing(
            service.repository.rows@,
            d.used@,
        ) && d.available.deep_view() =~= seq![
            "Frontend"@,
            "Backend"@,
            "Database"@,
            "DevOps"@,
            "Tools"@,
            "Mobile"@,
            "Other"@,
        ]),
{
    let used = match service.get_categories() {
        Ok(c) => c,
        Err(e) => {
            return Err(e);
        },
    };
    let fixed = service.get_available_categories();
    let mut available: Vec<String> = Vec::new();
    let mut i: usize = 0;
    while i < fixed.len()
        invariant
            i <= fixed@.len(),
            available.deep_view() =~= fixed.deep_view().take(i as int),
        decreases fixed@.len() - i,
    {
        let ghost prev = available.deep_view();
        available.push(String::from_str(fixed[i]));
        proof {
            assert(fixed.deep_view()[i as int] == fixed@[i as int]@);
            assert(available.deep_view() =~= prev.push(fixed@[i as int]@));
            assert(fixed.deep_view().take(i + 1 as int) =~= fixed.deep_view().take(i as int).push(
                fixed.deep_view()[i as int],
            ));
            assert(available.deep_view() =~= fixed.deep_view().take(i + 1 as int));
        }
        i = i + 1;
    }
    proof {
        assert(fixed.deep_view().take(fixed@.len() as int) =~= fixed.deep_view());
    }
    Ok(ApiResponse::success(SkillCategoriesResponse { used, available }))
}

/// List contact messages: pagination wins over search, search over the
/// recency filter, and a bare query lists everything, newest first.
pub fn get_contact_messages(service: &ContactService, params: &ContactQuery, now: i64) -> (r:
    Result<ApiResponse<Vec<ContactMessage>>, ApiError>)
    ensures
        ({
            let rows = service.repository.rows@;
            match (params.page, params.page_size) {
                (Some(page), Some(size)) => {
                    if !(1 <= size <= 100) {
                        r matches Err(ApiError::BadRequest(m)) && m@
                            == "Page size must be between 1 and 100"@
                    } else {
                        &&& r matches Ok(resp) && resp.success && (resp.data matches Some(list)
                            && list@ == page_slice(
                            rows.reverse(),
                            spec_offset(page as int, size as int),
                            size as int,
                        ))
                        &&& r matches Ok(resp) && (resp.pagination matches Some(pg) && pg.page
                            == page && pg.page_size == size && pg.total_count == rows.len()
                            && pg.total_pages == spec_total_pages(rows.len() as int, size as int))
                    }
                },
                _ => match params.search {
                    Some(q) => {
                        if trimmed(q@).len() == 0 {
                            r matches Err(ApiError::BadRequest(m)) && m@
                                == "Search query cannot be empty"@
                        } else {
                            r matches Ok(resp) && resp.success && resp.pagination is None && (
                            resp.data matches Some(list) && list@ == search_matches_from(
                                rows,
                                lower_of(q@),
                                0,
                            ))
                        }
                    },
                    None => match params.days {
                        Some(days) => {
                            if !(1 <= days <= 365) {
                                r matches Err(ApiError::BadRequest(m)) && m@
                                    == "Days must be between 1 and 365"@
                            } else {
                                r matches Ok(resp) && resp.success && resp.pagination is None
                                    && (resp.data matches Some(list) && list@ == recent_from(
                                    rows,
                                    now,
                                    days as i64,
                                    0,
                                ))
                            }
                        },
                        None => r matches Ok(resp) && resp.success && resp.pagination is None
                            && (resp.data matches Some(list) && list@ == rows.reverse()),
                    },
                },
            }
        }),
{
    if let (Some(page), Some(page_size)) = (params.page, params.page_size) {
        let (messages, total_count) = match service.get_messages_paginated(page, page_size) {
            Ok(p) => p,
            Err(e) => {
                return Err(e);
            },
        };
        let pagination = PaginationInfo {
            page,
            page_size,
            total_count,
            total_pages: total_pages(total_count, page_size),
        };
        return Ok(ApiResponse::success_with_pagination(messages, pagination));
    }
    if let Some(q) = &params.search {
        let messages = match service.search_messages(q.as_str()) {
            Ok(m) => m,
            Err(e) => {
                return Err(e);
            },
        };
        return Ok(ApiResponse::success(messages));
    }
    if let Some(days) = params.days {
        let messages = match service.get_recent_messages(days, now) {
            Ok(m) => m,
            Err(e) => {
                return Err(e);
            },
        };
        return Ok(ApiResponse::success(messages));
    }
    let messages = match service.get_all_messages() {
        Ok(m) => m,
        Err(e) => {
            return Err(e);
        },
    };
    Ok(ApiResponse::success(messages))
}

/// Submit a contact message and wrap the acknowledgement; the case split
/// mirrors the service, so acceptance is owed whenever the sanitized
/// submission passes every rule.
pub fn submit_contact_message(
    service: &mut ContactService,
    message_data: CreateContactMessage,
    now: i64,
) -> (r: Result<ApiResponse<ContactSubmissionResponse>, ApiError>)
    requires
        old(service).repository.wf(),
        old(service).repository.next_id < i32::MAX,
        message_stamps_at_most(old(service).repository.rows@, now),
    ensures
        final(service).repository.wf(),
        ({
            let sn = stripped(trimmed(message_data.name@));
            let se = lower_of(trimmed(message_data.email@));
            let ss = stripped(trimmed(message_data.subject@));
            let sm = stripped(trimmed(message_data.message@));
            let msgs = contact_field_messages(sn, se, ss, sm);
            let rows0 = old(service).repository.rows@;
            if msgs.len() > 0 {
                &&& r matches Err(e) && e.is_validation_kind() && validation_messages_of(e)
                    == msgs
                &&& final(service).repository == old(service).repository
            } else if !meaningful_content(sm) {
                &&& r matches Err(ApiError::BadRequest(m)) && m@
                    == "Message content appears to be invalid"@
                &&& final(service).repository == old(service).repository
            } else if recent_email_count(rows0, se, now) >= 3 {
                &&& r matches Err(ApiError::BadRequest(m)) && m@
                    == "Too many messages sent recently. Please wait before sending another message."@
                &&& final(service).repository == old(service).repository
            } else {
                &&& r matches Ok(resp) && resp.success && (resp.data matches Some(d) && d.id
                    == old(service).repository.next_id && d.submitted_at == now && d.message@
                    == "Thank you for your message! I'll get back to you soon."@)
                &&& r matches Ok(resp) && (resp.message matches Some(m) && m@
                    == "Message submitted successfully"@)
                &&& final(service).repository.rows@ == rows0.push(
                    final(service).repository.rows@.last(),
                )
                &&& ({
                    let stored = final(service).repository.rows@.last();
                    stored.id == old(service).repository.next_id && stored.name@ == sn
                        && stored.email@ == se && stored.subject@ == ss && stored.message@ == sm
                        && stored.created_at == now
                })
                &&& final(service).repository.next_id == old(service).repository.next_id + 1
            }
        }),
{
    let message = match service.submit_message(message_data, now) {
        Ok(m) => m,
        Err(e) => {
            return Err(e);
        },
    };
    let response = ContactSubmissionResponse {
        id: message.id,
        submitted_at: message.created_at,
        message: String::from_str("Thank you for your message! I'll get back to you soon."),
    };
    Ok(ApiResponse::success_with_message(response, String::from_str("Message submitted successfully")))
}

/// Clean up old messages and wrap the count in the acknowledgement.
pub fn cleanup_contact_messages(
    service: &mut ContactService,
    request: &CleanupRequest,
    now: i64,
) -> (r: Result<ApiResponse<CleanupResponse>, ApiError>)
    requires
        old(service).repository.wf(),
    ensures
        final(service).repository.wf(),
        request.days < 30 ==> (r matches Err(ApiError::BadRequest(m)) && m@
            == "Cannot delete messages newer than 30 days"@ && final(service).repository == old(
            service,
        ).repository),
        request.days >= 30 ==> (r matches Ok(resp) && resp.success && (resp.data matches Some(d)
            && final(service).repository.rows@ == kept_after(
            old(service).repository.rows@,
            now,
            request.days as i64,
        ) && d.deleted_count == old(service).repository.rows@.len() - final(service).repository.rows@.len() && d.message@ == "Successfully deleted "@ + dec_str(
            d.deleted_count as nat,
        ) + " old messages"@)),
{
    let deleted_count = match service.cleanup_old_messages(request.days, now) {
        Ok(c) => c,
        Err(e) => {
            return Err(e);
        },
    };
    let mut message = String::from_str("Successfully deleted ");
    let count_text = u64_to_string(deleted_count);
    message.append(count_text.as_str());
    message.append(" old messages");
    let response = CleanupResponse { deleted_count, message };
    Ok(ApiResponse::success(response))
}

/// Whether the profile exists, wrapped for the route.
pub fn check_profile_exists(service: &ProfileService) -> (r: Result<
    ApiResponse<ProfileExistsResponse>,
    ApiError,
>)
    ensures
        r matches Ok(resp) && resp.success && (resp.data matches Some(d) && d.exists == (
        service.repository.row is Some)),
{
    let present = match service.profile_exists() {
        Ok(b) => b,
        Err(e) => {
            return Err(e);
        },
    };
    Ok(ApiResponse::success(ProfileExistsResponse { exists: present }))
}

} // verus!
