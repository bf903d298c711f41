//! Projects: the entity with its JSON-encoded technology list, field
//! validation, the in-memory store with the repository operations, and the
//! service holding the duplicate-title rule.
use vstd::prelude::*;

use crate::envelope::{page_offset, page_slice, spec_offset};
use crate::error::{validation_messages_of, ApiError, ApiResult};
use crate::jsonlist::{decode_string_list, encode_string_list, json_of_strings, strings_of_json};
use crate::text::{
    clone_opt_string, contains_seq, i64_to_string, int_str, lower_of, str_contains_sub, str_eq,
    to_lowercase_string, trim_and_lower_string, trim_string, trimmed,
};
use crate::validate::{check_url, url_valid};

verus! {

/// A portfolio project; the technology list is persisted as JSON array text.
#[derive(Debug)]
pub struct Project {
    pub id: i32,
    pub title: String,
    pub description: String,
    pub long_description: Option<String>,
    pub technologies: String,
    pub github_url: Option<String>,
    pub demo_url: Option<String>,
    pub image_url: Option<String>,
    pub category: String,
    pub featured: bool,
    pub created_at: i64,
    pub updated_at: i64,
}

impl Clone for Project {
    fn clone(&self) -> (r: Self)
        ensures
            r == *self,
    {
        Project {
            id: self.id,
            title: self.title.clone(),
            description: self.description.clone(),
            long_description: clone_opt_string(&self.long_description),
            technologies: self.technologies.clone(),
            github_url: clone_opt_string(&self.github_url),
            demo_url: clone_opt_string(&self.demo_url),
            image_url: clone_opt_string(&self.image_url),
            category: self.category.clone(),
            featured: self.featured,
            created_at: self.created_at,
            updated_at: self.updated_at,
        }
    }
}

impl Project {
    /// Parse the stored technology list out of its JSON array text.
    pub fn get_technologies(&self) -> (r: Result<Vec<String>, String>)
        ensures
            r matches Ok(v) ==> strings_of_json(self.technologies@) == Some(v.deep_view()),
            r is Err ==> strings_of_json(self.technologies@) is None,
    {
        decode_string_list(self.technologies.as_str())
    }
}

/// A project as the API answers it: the technology list parsed back into a
/// vector, or empty when the stored text does not parse.
#[derive(Debug)]
pub struct ProjectResponse {
    pub id: i32,
    pub title: String,
    pub description: String,
    pub long_description: Option<String>,
    pub technologies: Vec<String>,
    pub github_url: Option<String>,
    pub demo_url: Option<String>,
    pub image_url: Option<String>,
    pub category: String,
    pub featured: bool,
    pub created_at: i64,
}

impl ProjectResponse {
    /// Build the response form of a stored row.
    pub fn from_project(p: &Project) -> (r: ProjectResponse)
        ensures
            r.id == p.id && r.title == p.title && r.description == p.description
                && r.long_description == p.long_description && r.github_url == p.github_url
                && r.demo_url == p.demo_url && r.image_url == p.image_url && r.category
                == p.category && r.featured == p.featured && r.created_at == p.created_at,
            match strings_of_json(p.technologies@) {
                Some(ts) => r.technologies.deep_view() == ts,
                None => r.technologies@.len() == 0,
            },
    {
        let technologies = match p.get_technologies() {
            Ok(v) => v,
            Err(_) => Vec::new(),
        };
        ProjectResponse {
            id: p.id,
            title: p.title.clone(),
            description: p.description.clone(),
            long_description: clone_opt_string(&p.long_description),
            technologies,
            github_url: clone_opt_string(&p.github_url),
            demo_url: clone_opt_string(&p.demo_url),
            image_url: clone_opt_string(&p.image_url),
            category: p.category.clone(),
            featured: p.featured,
            created_at: p.created_at,
        }
    }
}

/// Request payload for creating a project.
#[derive(Debug)]
pub struct CreateProject {
    pub title: String,
    pub description: String,
    pub long_description: Option<String>,
    pub technologies: Vec<String>,
    pub github_url: Option<String>,
    pub demo_url: Option<String>,
    pub image_url: Option<String>,
    pub category: String,
    pub featured: Option<bool>,
}

/// Clone a vector of strings.
fn clone_string_vec(v: &Vec<String>) -> (r: Vec<String>)
    ensures
        r@ == v@,
{
    let n: usize = v.len();
    let mut r: Vec<String> = Vec::new();
    let mut i: usize = 0;
    while i < n
        invariant
            n == v@.len(),
            i <= n,
            r@ == v@.subrange(0, i as int),
        decreases n - i,
    {
        r.push(v[i].clone());
        proof {
            assert(r@ =~= v@.subrange(0, i + 1 as int));
        }
        i = i + 1;
    }
    proof {
        assert(r@ =~= v@);
    }
    r
}

impl Clone for CreateProject {
    fn clone(&self) -> (r: Self)
        ensures
            r.title == self.title && r.description == self.description && r.long_description
                == self.long_description && r.technologies@ == self.technologies@ && r.github_url
                == self.github_url && r.demo_url == self.demo_url && r.image_url == self.image_url
                && r.category == self.category && r.featured == self.featured,
    {
        CreateProject {
            title: self.title.clone(),
            description: self.description.clone(),
            long_description: clone_opt_string(&self.long_description),
            technologies: clone_string_vec(&self.technologies),
            github_url: clone_opt_string(&self.github_url),
            demo_url: clone_opt_string(&self.demo_url),
            image_url: clone_opt_string(&self.image_url),
            category: self.category.clone(),
            featured: self.featured,
        }
    }
}

/// Request payload for updating a project; an absent field means no change.
#[derive(Debug)]
pub struct UpdateProject {
    pub title: Option<String>,
    pub description: Option<String>,
    pub long_description: Option<String>,
    pub technologies: Option<Vec<String>>,
    pub github_url: Option<String>,
    pub demo_url: Option<String>,
    pub image_url: Option<String>,
    pub category: Option<String>,
    pub featured: Option<bool>,
}

impl Clone for UpdateProject {
    fn clone(&self) -> (r: Self)
        ensures
            r.title == self.title && r.description == self.description && r.long_description
                == self.long_description && r.github_url == self.github_url && r.demo_url
                == self.demo_url && r.image_url == self.image_url && r.category == self.category
                && r.featured == self.featured,
            match (r.technologies, self.technologies) {
                (Some(v), Some(w)) => v@ == w@,
                (None, None) => true,
                _ => false,
            },
    {
        UpdateProject {
            title: clone_opt_string(&self.title),
            description: clone_opt_string(&self.description),
            long_description: clone_opt_string(&self.long_description),
            technologies: match &self.technologies {
                Some(v) => Some(clone_string_vec(v)),
                None => None,
            },
            github_url: clone_opt_string(&self.github_url),
            demo_url: clone_opt_string(&self.demo_url),
            image_url: clone_opt_string(&self.image_url),
            category: clone_opt_string(&self.category),
            featured: self.featured,
        }
    }
}

impl Default for UpdateProject {
    /// The payload that changes nothing.
    fn default() -> (r: Self)
        ensures
            r.title is None && r.description is None && r.long_description is None
                && r.technologies is None && r.github_url is None && r.demo_url is None
                && r.image_url is None && r.category is None && r.featured is None,
    {
        UpdateProject {
            title: None,
            description: None,
            long_description: None,
            technologies: None,
            github_url: None,
            demo_url: None,
            image_url: None,
            category: None,
            featured: None,
        }
    }
}

// ---------------------------------------------------------------------------
// Field validation.
// ---------------------------------------------------------------------------

/// The validation messages owed to a create payload, in field order.
pub open spec fn create_project_messages(d: CreateProject) -> Seq<Seq<char>> {
    (if 1 <= d.title@.len() <= 200 {
        Seq::<Seq<char>>::empty()
    } else {
        seq!["title: Title must be between 1 and 200 characters"@]
    }) + (if 1 <= d.description@.len() <= 500 {
        Seq::<Seq<char>>::empty()
    } else {
        seq!["description: Description must be between 1 and 500 characters"@]
    }) + (if match d.long_description {
        Some(s) => s@.len() <= 2000,
        None => true,
    } {
        Seq::<Seq<char>>::empty()
    } else {
        seq!["long_description: Long description must be less than 2000 characters"@]
    }) + (if d.technologies@.len() >= 1 {
        Seq::<Seq<char>>::empty()
    } else {
        seq!["technologies: At least one technology must be specified"@]
    }) + (if match d.github_url {
        Some(s) => url_valid(s@),
        None => true,
    } {
        Seq::<Seq<char>>::empty()
    } else {
        seq!["github_url: GitHub URL must be a valid URL"@]
    }) + (if match d.demo_url {
        Some(s) => url_valid(s@),
        None => true,
    } {
        Seq::<Seq<char>>::empty()
    } else {
        seq!["demo_url: Demo URL must be a valid URL"@]
    }) + (if match d.image_url {
        Some(s) => url_valid(s@),
        None => true,
    } {
        Seq::<Seq<char>>::empty()
    } else {
        seq!["image_url: Image URL must be a valid URL"@]
    }) + (if 1 <= d.category@.len() <= 50 {
        Seq::<Seq<char>>::empty()
    } else {
        seq!["category: Category must be between 1 and 50 characters"@]
    })
}

/// The validation messages owed to an update payload, in field order; absent
/// fields are not checked, and the technology list carries no constraint.
pub open spec fn update_project_messages(d: UpdateProject) -> Seq<Seq<char>> {
    (if match d.title {
        Some(s) => 1 <= s@.len() <= 200,
        None => true,
    } {
        Seq::<Seq<char>>::empty()
    } else {
        seq!["title: Title must be between 1 and 200 characters"@]
    }) + (if match d.description {
        Some(s) => 1 <= s@.len() <= 500,
        None => true,
    } {
        Seq::<Seq<char>>::empty()
    } else {
        seq!["description: Description must be between 1 and 500 characters"@]
    }) + (if match d.long_description {
        Some(s) => s@.len() <= 2000,
        None => true,
    } {
        Seq::<Seq<char>>::empty()
    } else {
        seq!["long_description: Long description must be less than 2000 characters"@]
    }) + (if match d.github_url {
        Some(s) => url_valid(s@),
        None => true,
    } {
        Seq::<Seq<char>>::empty()
    } else {
        seq!["github_url: GitHub URL must be a valid URL"@]
    }) + (if match d.demo_url {
        Some(s) => url_valid(s@),
        None => true,
    } {
        Seq::<Seq<char>>::empty()
    } else {
        seq!["demo_url: Demo URL must be a valid URL"@]
    }) + (if match d.image_url {
        Some(s) => url_valid(s@),
        None => true,
    } {
        Seq::<Seq<char>>::empty()
    } else {
        seq!["image_url: Image URL must be a valid URL"@]
    }) + (if match d.category {
        Some(s) => 1 <= s@.len() <= 50,
        None => true,
    } {
        Seq::<Seq<char>>::empty()
    } else {
        seq!["category: Category must be between 1 and 50 characters"@]
    })
}

impl CreateProject {
    /// Check the field constraints; `Err` carries one message per violated
    /// constraint, in field order.
    #[verifier::rlimit(100)]
    #[verifier::spinoff_prover]
    pub fn validate(&self) -> (r: Result<(), Vec<String>>)
        ensures
            r is Ok <==> create_project_messages(*self).len() == 0,
            r matches Err(v) ==> v.deep_view() == create_project_messages(*self),
    {
        let mut errors: Vec<String> = Vec::new();
        let title_len = self.title.as_str().unicode_len();
        if !(1 <= title_len && title_len <= 200) {
            errors.push(String::from_str("title: Title must be between 1 and 200 characters"));
        }
        let desc_len = self.description.as_str().unicode_len();
        if !(1 <= desc_len && desc_len <= 500) {
            errors.push(
                String::from_str("description: Description must be between 1 and 500 characters"),
            );
        }
        let long_ok = match &self.long_description {
            Some(s) => s.as_str().unicode_len() <= 2000,
            None => true,
        };
        if !long_ok {
            errors.push(
                String::from_str(
                    "long_description: Long description must be less than 2000 characters",
                ),
            );
        }
        if self.technologies.len() < 1 {
            errors.push(
                String::from_str("technologies: At least one technology must be specified"),
            );
        }
        let github_ok = match &self.github_url {
            Some(s) => check_url(s.as_str()),
            None => true,
        };
        if !github_ok {
            errors.push(String::from_str("github_url: GitHub URL must be a valid URL"));
        }
        let demo_ok = match &self.demo_url {
            Some(s) => check_url(s.as_str()),
            None => true,
        };
        if !demo_ok {
            errors.push(String::from_str("demo_url: Demo URL must be a valid URL"));
        }
        let image_ok = match &self.image_url {
            Some(s) => check_url(s.as_str()),
            None => true,
        };
        if !image_ok {
            errors.push(String::from_str("image_url: Image URL must be a valid URL"));
        }
        let cat_len = self.category.as_str().unicode_len();
        if !(1 <= cat_len && cat_len <= 50) {
            errors.push(String::from_str("category: Category must be between 1 and 50 characters"));
        }
        proof {
            assert(errors.deep_view() =~= create_project_messages(*self));
        }
        if errors.len() == 0 {
            Ok(())
        } else {
            Err(errors)
        }
    }

    /// Encode the technology list as JSON array text; encoding a list of
    /// strings always succeeds.
    pub fn technologies_as_json(&self) -> (r: Result<String, String>)
        ensures
            r is Ok,
            r matches Ok(s) ==> s@ == json_of_strings(self.technologies.deep_view())
                && strings_of_json(s@) == Some(self.technologies.deep_view()),
    {
        encode_string_list(&self.technologies)
    }
}

impl UpdateProject {
    /// Check the field constraints of the present fields; `Err` carries one
    /// message per violated constraint, in field order.
    #[verifier::rlimit(100)]
    #[verifier::spinoff_prover]
    pub fn validate(&self) -> (r: Result<(), Vec<String>>)
        ensures
            r is Ok <==> update_project_messages(*self).len() == 0,
            r matches Err(v) ==> v.deep_view() == update_project_messages(*self),
    {
        let mut errors: Vec<String> = Vec::new();
        let title_ok = match &self.title {
            Some(s) => {
                let n = s.as_str().unicode_len();
                1 <= n && n <= 200
            },
            None => true,
        };
        if !title_ok {
            errors.push(String::from_str("title: Title must be between 1 and 200 characters"));
        }
        let desc_ok = match &self.description {
            Some(s) => {
                let n = s.as_str().unicode_len();
                1 <= n && n <= 500
            },
            None => true,
        };
        if !desc_ok {
            errors.push(
                String::from_str("description: Description must be between 1 and 500 characters"),
            );
        }
        let long_ok = match &self.long_description {
            Some(s) => s.as_str().unicode_len() <= 2000,
            None => true,
        };
        if !long_ok {
            errors.push(
                String::from_str(
                    "long_description: Long description must be less than 2000 characters",
                ),
            );
        }
        let github_ok = match &self.github_url {
            Some(s) => check_url(s.as_str()),
            None => true,
        };
        if !github_ok {
            errors.push(String::from_str("github_url: GitHub URL must be a valid URL"));
        }
        let demo_ok = match &self.demo_url {
            Some(s) => check_url(s.as_str()),
            None => true,
        };
        if !demo_ok {
            errors.push(String::from_str("demo_url: Demo URL must be a valid URL"));
        }
        let image_ok = match &self.image_url {
            Some(s) => check_url(s.as_str()),
            None => true,
        };
        if !image_ok {
            errors.push(String::from_str("image_url: Image URL must be a valid URL"));
        }
        let cat_ok = match &self.category {
            Some(s) => {
                let n = s.as_str().unicode_len();
                1 <= n && n <= 50
            },
            None => true,
        };
        if !cat_ok {
            errors.push(String::from_str("category: Category must be between 1 and 50 characters"));
        }
        proof {
            assert(errors.deep_view() =~= update_project_messages(*self));
        }
        if errors.len() == 0 {
            Ok(())
        } else {
            Err(errors)
        }
    }

    /// Encode the technology list as JSON array text, when one is present;
    /// encoding a list of strings always succeeds.
    pub fn technologies_as_json(&self) -> (r: Result<Option<String>, String>)
        ensures
            r is Ok,
            r matches Ok(o) ==> match (o, self.technologies) {
                (Some(s), Some(ts)) => s@ == json_of_strings(ts.deep_view()) && strings_of_json(s@)
                    == Some(ts.deep_view()),
                (None, None) => true,
                _ => false,
            },
    {
        match &self.technologies {
            Some(ts) => {
                match encode_string_list(ts) {
                    Ok(s) => Ok(Some(s)),
                    Err(e) => Err(e),
                }
            },
            None => Ok(None),
        }
    }

    /// Whether any field is being updated.
    pub fn has_updates(&self) -> (r: bool)
        ensures
            r == (self.title is Some || self.description is Some || self.long_description is Some
                || self.technologies is Some || self.github_url is Some || self.demo_url is Some
                || self.image_url is Some || self.category is Some || self.featured is Some),
    {
        self.title.is_some() || self.description.is_some() || self.long_description.is_some()
            || self.technologies.is_some() || self.github_url.is_some() || self.demo_url.is_some()
            || self.image_url.is_some() || self.category.is_some() || self.featured.is_some()
    }
}

// ---------------------------------------------------------------------------
// The store: repository operations over an in-memory table.
// ---------------------------------------------------------------------------

/// Position of the row with the given id, if any.
pub open spec fn project_idx(rows: Seq<Project>, id: i32) -> Option<int>
    decreases rows.len(),
{
    if rows.len() == 0 {
        None
    } else if rows[0].id == id {
        Some(0int)
    } else {
        match project_idx(rows.drop_first(), id) {
            Some(i) => Some(i + 1),
            None => None,
        }
    }
}

/// The row with the given id, if any.
pub open spec fn find_project(rows: Seq<Project>, id: i32) -> Option<Project> {
    match project_idx(rows, id) {
        Some(i) => Some(rows[i]),
        None => None,
    }
}

/// What `project_idx` finds: the first position whose row carries the id.
pub proof fn lemma_project_idx(rows: Seq<Project>, id: i32)
    ensures
        match project_idx(rows, id) {
            Some(i) => 0 <= i < rows.len() && rows[i].id == id && forall|k: int|
                0 <= k < i ==> rows[k].id != id,
            None => forall|k: int| 0 <= k < rows.len() ==> rows[k].id != id,
        },
    decreases rows.len(),
{
    if rows.len() > 0 && rows[0].id != id {
        let rest = rows.drop_first();
        lemma_project_idx(rest, id);
        match project_idx(rest, id) {
            Some(i) => {
                assert(rows[i + 1] == rest[i]);
                assert forall|k: int| 0 <= k < i + 1 implies rows[k].id != id by {
                    if k >= 1 {
                        assert(rest[k - 1].id != id);
                    }
                }
            },
            None => {
                assert forall|k: int| 0 <= k < rows.len() implies rows[k].id != id by {
                    if k >= 1 {
                        assert(rest[k - 1].id != id);
                    }
                }
            },
        }
    }
}

/// Whether every row was created at or before `now`: what a monotone clock
/// guarantees of a table it has filled.
pub open spec fn project_stamps_at_most(rows: Seq<Project>, now: i64) -> bool {
    forall|k: int| 0 <= k < rows.len() ==> (#[trigger] rows[k]).created_at <= now
}

/// The rows of one category, newest first, taken from position `j` on.
pub open spec fn projects_in_category_from(
    rows: Seq<Project>,
    cat: Seq<char>,
    j: int,
) -> Seq<Project>
    decreases rows.len() - j,
{
    if j < 0 || j >= rows.len() {
        Seq::empty()
    } else {
        projects_in_category_from(rows, cat, j + 1) + if rows[j].category@ == cat {
            seq![rows[j]]
        } else {
            Seq::empty()
        }
    }
}

/// The featured rows, newest first, taken from position `j` on.
pub open spec fn featured_projects_from(rows: Seq<Project>, j: int) -> Seq<Project>
    decreases rows.len() - j,
{
    if j < 0 || j >= rows.len() {
        Seq::empty()
    } else {
        featured_projects_from(rows, j + 1) + if rows[j].featured {
            seq![rows[j]]
        } else {
            Seq::empty()
        }
    }
}

/// Whether a search query hits a row: a case-insensitive substring match on
/// the title or the description.
pub open spec fn search_hits_project(p: Project, lquery: Seq<char>) -> bool {
    ||| contains_seq(lower_of(p.title@), lquery)
    ||| contains_seq(lower_of(p.description@), lquery)
}

/// The rows a search query hits, newest first, taken from position `j` on.
pub open spec fn project_matches_from(rows: Seq<Project>, lquery: Seq<char>, j: int) -> Seq<
    Project,
>
    decreases rows.len() - j,
{
    if j < 0 || j >= rows.len() {
        Seq::empty()
    } else {
        project_matches_from(rows, lquery, j + 1) + if search_hits_project(rows[j], lquery) {
            seq![rows[j]]
        } else {
            Seq::empty()
        }
    }
}

/// The project table: rows in insertion order, and the next id to hand out.
pub struct ProjectStore {
    pub rows: Vec<Project>,
    pub next_id: i32,
}

impl ProjectStore {
    /// Ids are positive, unique, and below the next id to hand out; rows
    /// were inserted with nondecreasing creation stamps, so reverse insertion
    /// order is creation time descending.
    pub open spec fn wf(&self) -> bool {
        &&& 1 <= self.next_id
        &&& forall|k: int| 0 <= k < self.rows@.len() ==> 1 <= (#[trigger] self.rows@[k]).id
            < self.next_id
        &&& forall|j: int, k: int|
            0 <= j < k < self.rows@.len() ==> self.rows@[j].id != self.rows@[k].id
        &&& forall|j: int, k: int|
            0 <= j < k < self.rows@.len() ==> self.rows@[j].created_at
                <= self.rows@[k].created_at
    }

    /// An empty table.
    pub fn new() -> (r: Self)
        ensures
            r.wf(),
            r.rows@ == Seq::<Project>::empty(),
            r.next_id == 1,
    {
        ProjectStore { rows: Vec::new(), next_id: 1 }
    }

    /// All rows, newest first.
    pub fn get_all(&self) -> (r: Vec<Project>)
        ensures
            r@ == self.rows@.reverse(),
            self.wf() ==> forall|p: int, q: int|
                0 <= p < q < r@.len() ==> (#[trigger] r@[p]).created_at >= (
                #[trigger] r@[q]).created_at,
    {
        let n: usize = self.rows.len();
        let mut r: Vec<Project> = Vec::new();
        let mut i: usize = n;
        while i > 0
            invariant
                n == self.rows@.len(),
                i <= n,
                r@.len() == n - i,
                forall|t: int| 0 <= t < r@.len() ==> r@[t] == self.rows@[n - 1 - t],
            decreases i,
        {
            i = i - 1;
            r.push(self.rows[i].clone());
        }
        proof {
            assert(r@ =~= self.rows@.reverse());
        }
        r
    }

    /// The row with the given id, if any.
    pub fn get_by_id(&self, id: i32) -> (r: Option<Project>)
        ensures
            r == find_project(self.rows@, id),
    {
        let n: usize = self.rows.len();
        let mut i: usize = 0;
        while i < n
            invariant
                n == self.rows@.len(),
                i <= n,
                forall|k: int| 0 <= k < i ==> self.rows@[k].id != id,
            decreases n - i,
        {
            if self.rows[i].id == id {
                proof {
                    lemma_project_idx(self.rows@, id);
                }
                return Some(self.rows[i].clone());
            }
            i = i + 1;
        }
        proof {
            lemma_project_idx(self.rows@, id);
        }
        None
    }

    /// The rows of one category, newest first.
    pub fn get_by_category(&self, category: &str) -> (r: Vec<Project>)
        ensures
            r@ == projects_in_category_from(self.rows@, category@, 0),
            self.wf() ==> forall|p: int, q: int|
                0 <= p < q < r@.len() ==> (#[trigger] r@[p]).created_at >= (
                #[trigger] r@[q]).created_at,
    {
        let n: usize = self.rows.len();
        let mut r: Vec<Project> = Vec::new();
        let mut i: usize = n;
        while i > 0
            invariant
                n == self.rows@.len(),
                i <= n,
                r@ == projects_in_category_from(self.rows@, category@, i as int),
                forall|t: int|
                    0 <= t < r@.len() ==> exists|k: int|
                        i <= k < n && #[trigger] r@[t] == self.rows@[k],
                self.wf() ==> forall|t1: int, t2: int|
                    0 <= t1 < t2 < r@.len() ==> (#[trigger] r@[t1]).created_at >= (
                    #[trigger] r@[t2]).created_at,
            decreases i,
        {
            i = i - 1;
            if str_eq(self.rows[i].category.as_str(), category) {
                let ghost r0 = r@;
                r.push(self.rows[i].clone());
                proof {
                    assert(r@[r@.len() - 1] == self.rows@[i as int]);
                    assert(forall|t: int|
                        0 <= t < r0.len() ==> exists|k: int|
                            i + 1 <= k < n && #[trigger] r0[t] == self.rows@[k]);
                    if self.wf() {
                        assert forall|t1: int, t2: int|
                            0 <= t1 < t2 < r@.len() implies (#[trigger] r@[t1]).created_at >= (
                            #[trigger] r@[t2]).created_at by {
                            if t2 == r@.len() - 1 {
                                let k = choose|k: int|
                                    i + 1 <= k < n && r0[t1] == self.rows@[k];
                                assert(self.rows@[i as int].created_at
                                    <= self.rows@[k].created_at);
                            }
                        }
                    }
                }
            }
        }
        r
    }

    /// The featured rows, newest first.
    pub fn get_featured(&self) -> (r: Vec<Project>)
        ensures
            r@ == featured_projects_from(self.rows@, 0),
            self.wf() ==> forall|p: int, q: int|
                0 <= p < q < r@.len() ==> (#[trigger] r@[p]).created_at >= (
                #[trigger] r@[q]).created_at,
    {
        let n: usize = self.rows.len();
        let mut r: Vec<Project> = Vec::new();
        let mut i: usize = n;
        while i > 0
            invariant
                n == self.rows@.len(),
                i <= n,
                r@ == featured_projects_from(self.rows@, i as int),
                forall|t: int|
                    0 <= t < r@.len() ==> exists|k: int|
                        i <= k < n && #[trigger] r@[t] == self.rows@[k],
                self.wf() ==> forall|t1: int, t2: int|
                    0 <= t1 < t2 < r@.len() ==> (#[trigger] r@[t1]).created_at >= (
                    #[trigger] r@[t2]).created_at,
            decreases i,
        {
            i = i - 1;
            if self.rows[i].featured {
                let ghost r0 = r@;
                r.push(self.rows[i].clone());
                proof {
                    assert(r@[r@.len() - 1] == self.rows@[i as int]);
                    assert(forall|t: int|
                        0 <= t < r0.len() ==> exists|k: int|
                            i + 1 <= k < n && #[trigger] r0[t] == self.rows@[k]);
                    if self.wf() {
                        assert forall|t1: int, t2: int|
                            0 <= t1 < t2 < r@.len() implies (#[trigger] r@[t1]).created_at >= (
                            #[trigger] r@[t2]).created_at by {
                            if t2 == r@.len() - 1 {
                                let k = choose|k: int|
                                    i + 1 <= k < n && r0[t1] == self.rows@[k];
                                assert(self.rows@[i as int].created_at
                                    <= self.rows@[k].created_at);
                            }
                        }
                    }
                }
            }
        }
        r
    }

    /// Insert a new row built from the (already sanitized) payload and its
    /// encoded technology list, stamped with `now`; the stamp may not lie
    /// before an existing row's.
    pub fn create(&mut self, d: &CreateProject, technologies_json: String, now: i64) -> (r:
        Project)
        requires
            old(self).wf(),
            old(self).next_id < i32::MAX,
            project_stamps_at_most(old(self).rows@, now),
        ensures
            final(self).wf(),
            r.id == old(self).next_id && r.title == d.title && r.description == d.description
                && r.long_description == d.long_description && r.technologies == technologies_json
                && r.github_url == d.github_url && r.demo_url == d.demo_url && r.image_url
                == d.image_url && r.category == d.category && r.featured == (match d.featured {
                Some(b) => b,
                None => false,
            }) && r.created_at == now && r.updated_at == now,
            final(self).rows@ == old(self).rows@.push(r),
            final(self).next_id == old(self).next_id + 1,
    {
        let row = Project {
            id: self.next_id,
            title: d.title.clone(),
            description: d.description.clone(),
            long_description: clone_opt_string(&d.long_description),
            technologies: technologies_json,
            github_url: clone_opt_string(&d.github_url),
            demo_url: clone_opt_string(&d.demo_url),
            image_url: clone_opt_string(&d.image_url),
            category: d.category.clone(),
            featured: match d.featured {
                Some(b) => b,
                None => false,
            },
            created_at: now,
            updated_at: now,
        };
        let out = row.clone();
        self.rows.push(row);
        self.next_id = self.next_id + 1;
        out
    }

    /// Merge an update payload and its encoded technology list into the row
    /// with the given id; the merge stamps the update time.
    pub fn update(
        &mut self,
        id: i32,
        u: &UpdateProject,
        technologies_json: Option<String>,
        now: i64,
    ) -> (r: Option<Project>)
        requires
            old(self).wf(),
        ensures
            final(self).wf(),
            final(self).next_id == old(self).next_id,
            match project_idx(old(self).rows@, id) {
                Some(i) => {
                    let row = old(self).rows@[i];
                    &&& r matches Some(p)
                    &&& p.id == row.id
                    &&& p.title == (match u.title {
                        Some(t) => t,
                        None => row.title,
                    })
                    &&& p.description == (match u.description {
                        Some(t) => t,
                        None => row.description,
                    })
                    &&& p.long_description == (match u.long_description {
                        Some(t) => Some(t),
                        None => row.long_description,
                    })
                    &&& p.technologies == (match technologies_json {
                        Some(t) => t,
                        None => row.technologies,
                    })
                    &&& p.github_url == (match u.github_url {
                        Some(t) => Some(t),
                        None => row.github_url,
                    })
                    &&& p.demo_url == (match u.demo_url {
                        Some(t) => Some(t),
                        None => row.demo_url,
                    })
                    &&& p.image_url == (match u.image_url {
                        Some(t) => Some(t),
                        None => row.image_url,
                    })
                    &&& p.category == (match u.category {
                        Some(t) => t,
                        None => row.category,
                    })
                    &&& p.featured == (match u.featured {
                        Some(b) => b,
                        None => row.featured,
                    })
                    &&& p.created_at == row.created_at
                    &&& p.updated_at == now
                    &&& final(self).rows@ == old(self).rows@.update(i, p)
                },
                None => r is None && *final(self) == *old(self),
            },
    {
        let n: usize = self.rows.len();
        let mut i: usize = 0;
        while i < n
            invariant
                *self == *old(self),
                old(self).wf(),
                n == self.rows@.len(),
                i <= n,
                forall|k: int| 0 <= k < i ==> self.rows@[k].id != id,
            decreases n - i,
        {
            if self.rows[i].id == id {
                proof {
                    lemma_project_idx(self.rows@, id);
                }
                let row = &self.rows[i];
                let merged = Project {
                    id: row.id,
                    title: match &u.title {
                        Some(t) => t.clone(),
                        None => row.title.clone(),
                    },
                    description: match &u.description {
                        Some(t) => t.clone(),
                        None => row.description.clone(),
                    },
                    long_description: match &u.long_description {
                        Some(t) => Some(t.clone()),
                        None => clone_opt_string(&row.long_description),
                    },
                    technologies: match technologies_json {
                        Some(t) => t,
                        None => row.technologies.clone(),
                    },
                    github_url: match &u.github_url {
                        Some(t) => Some(t.clone()),
                        None => clone_opt_string(&row.github_url),
                    },
                    demo_url: match &u.demo_url {
                        Some(t) => Some(t.clone()),
                        None => clone_opt_string(&row.demo_url),
                    },
                    image_url: match &u.image_url {
                        Some(t) => Some(t.clone()),
                        None => clone_opt_string(&row.image_url),
                    },
                    category: match &u.category {
                        Some(t) => t.clone(),
                        None => row.category.clone(),
                    },
                    featured: match u.featured {
                        Some(b) => b,
                        None => row.featured,
                    },
                    created_at: row.created_at,
                    updated_at: now,
                };
                let out = merged.clone();
                self.rows.remove(i);
                self.rows.insert(i, merged);
                proof {
                    assert(self.rows@ =~= old(self).rows@.update(i as int, out));
                    assert(forall|k: int|
                        0 <= k < self.rows@.len() ==> (#[trigger] self.rows@[k]).id == old(
                            self,
                        ).rows@[k].id);
                    assert(forall|k: int|
                        0 <= k < self.rows@.len() ==> (#[trigger] self.rows@[k]).created_at == old(
                            self,
                        ).rows@[k].created_at);
                    assert forall|k: int|
                        0 <= k < self.rows@.len() implies 1 <= (#[trigger] self.rows@[k]).id
                        < self.next_id by {
                        assert(1 <= old(self).rows@[k].id < old(self).next_id);
                    }
                    assert forall|j: int, k: int|
                        0 <= j < k < self.rows@.len() implies self.rows@[j].id
                        != self.rows@[k].id by {
                        assert(old(self).rows@[j].id != old(self).rows@[k].id);
                    }
                    assert forall|j: int, k: int|
                        0 <= j < k < self.rows@.len() implies self.rows@[j].created_at
                        <= self.rows@[k].created_at by {
                        assert(old(self).rows@[j].created_at <= old(self).rows@[k].created_at);
                    }
                }
                return Some(out);
            }
            i = i + 1;
        }
        proof {
            lemma_project_idx(self.rows@, id);
        }
        None
    }

    /// Remove the row with the given id; the result says whether it existed.
    pub fn delete(&mut self, id: i32) -> (r: bool)
        requires
            old(self).wf(),
        ensures
            final(self).wf(),
            final(self).next_id == old(self).next_id,
            match project_idx(old(self).rows@, id) {
                Some(i) => r && final(self).rows@ == old(self).rows@.remove(i),
                None => !r && *final(self) == *old(self),
            },
    {
        let n: usize = self.rows.len();
        let mut i: usize = 0;
        while i < n
            invariant
                *self == *old(self),
                old(self).wf(),
                n == self.rows@.len(),
                i <= n,
                forall|k: int| 0 <= k < i ==> self.rows@[k].id != id,
            decreases n - i,
        {
            if self.rows[i].id == id {
                proof {
                    lemma_project_idx(self.rows@, id);
                }
                self.rows.remove(i);
                proof {
                    assert(forall|k: int|
                        0 <= k < self.rows@.len() ==> #[trigger] self.rows@[k] == (if k < i {
                            old(self).rows@[k]
                        } else {
                            old(self).rows@[k + 1]
                        }));
                    assert forall|k: int|
                        0 <= k < self.rows@.len() implies 1 <= (#[trigger] self.rows@[k]).id
                        < self.next_id by {
                        if k < i {
                            assert(1 <= old(self).rows@[k].id < old(self).next_id);
                        } else {
                            assert(1 <= old(self).rows@[k + 1].id < old(self).next_id);
                        }
                    }
                    assert forall|j: int, k: int|
                        0 <= j < k < self.rows@.len() implies self.rows@[j].id != self.rows@[k].id
                        && self.rows@[j].created_at <= self.rows@[k].created_at by {
                        let jo: int = if j < i {
                            j
                        } else {
                            j + 1
                        };
                        let ko: int = if k < i {
                            k
                        } else {
                            k + 1
                        };
                        assert(old(self).rows@[jo].id != old(self).rows@[ko].id);
                        assert(old(self).rows@[jo].created_at <= old(self).rows@[ko].created_at);
                    }
                }
                return true;
            }
            i = i + 1;
        }
        proof {
            lemma_project_idx(self.rows@, id);
        }
        false
    }

    /// The page a limit and an offset cut out of the newest-first listing.
    pub fn get_paginated(&self, limit: u64, offset: u64) -> (r: Vec<Project>)
        ensures
            r@ == page_slice(self.rows@.reverse(), offset as int, limit as int),
            self.wf() ==> forall|p: int, q: int|
                0 <= p < q < r@.len() ==> (#[trigger] r@[p]).created_at >= (
                #[trigger] r@[q]).created_at,
    {
        let n: usize = self.rows.len();
        let start64: u64 = if offset > n as u64 {
            n as u64
        } else {
            offset
        };
        let start: usize = start64 as usize;
        let room: u64 = (n - start) as u64;
        let take64: u64 = if limit > room {
            room
        } else {
            limit
        };
        let end: usize = start + take64 as usize;
        let mut r: Vec<Project> = Vec::new();
        let mut j: usize = start;
        while j < end
            invariant
                n == self.rows@.len(),
                start <= j <= end <= n,
                r@.len() == j - start,
                forall|t: int| 0 <= t < r@.len() ==> r@[t] == self.rows@[n - 1 - start - t],
            decreases end - j,
        {
            r.push(self.rows[n - 1 - j].clone());
            j = j + 1;
        }
        proof {
            assert(r@ =~= page_slice(self.rows@.reverse(), offset as int, limit as int));
        }
        r
    }

    /// Number of rows.
    pub fn count(&self) -> (r: usize)
        ensures
            r == self.rows@.len(),
    {
        self.rows.len()
    }

    /// The rows a search query hits, newest first; the match is a
    /// case-insensitive substring match on title and description.
    pub fn search(&self, query: &str) -> (r: Vec<Project>)
        ensures
            r@ == project_matches_from(self.rows@, lower_of(query@), 0),
            self.wf() ==> forall|p: int, q: int|
                0 <= p < q < r@.len() ==> (#[trigger] r@[p]).created_at >= (
                #[trigger] r@[q]).created_at,
    {
        let lq = to_lowercase_string(query);
        let n: usize = self.rows.len();
        let mut r: Vec<Project> = Vec::new();
        let mut i: usize = n;
        while i > 0
            invariant
                n == self.rows@.len(),
                i <= n,
                lq@ == lower_of(query@),
                r@ == project_matches_from(self.rows@, lower_of(query@), i as int),
                forall|t: int|
                    0 <= t < r@.len() ==> exists|k: int|
                        i <= k < n && #[trigger] r@[t] == self.rows@[k],
                self.wf() ==> forall|t1: int, t2: int|
                    0 <= t1 < t2 < r@.len() ==> (#[trigger] r@[t1]).created_at >= (
                    #[trigger] r@[t2]).created_at,
            decreases i,
        {
            i = i - 1;
            let lt = to_lowercase_string(self.rows[i].title.as_str());
            let ld = to_lowercase_string(self.rows[i].description.as_str());
            let hit = str_contains_sub(lt.as_str(), lq.as_str()) || str_contains_sub(
                ld.as_str(),
                lq.as_str(),
            );
            if hit {
                let ghost r0 = r@;
                r.push(self.rows[i].clone());
                proof {
                    assert(r@[r@.len() - 1] == self.rows@[i as int]);
                    assert(forall|t: int|
                        0 <= t < r0.len() ==> exists|k: int|
                            i + 1 <= k < n && #[trigger] r0[t] == self.rows@[k]);
                    if self.wf() {
                        assert forall|t1: int, t2: int|
                            0 <= t1 < t2 < r@.len() implies (#[trigger] r@[t1]).created_at >= (
                            #[trigger] r@[t2]).created_at by {
                            if t2 == r@.len() - 1 {
                                let k = choose|k: int|
                                    i + 1 <= k < n && r0[t1] == self.rows@[k];
                                assert(self.rows@[i as int].created_at
                                    <= self.rows@[k].created_at);
                            }
                        }
                    }
                }
            }
        }
        r
    }

    /// Whether some row's title equals the given lowercased title,
    /// case-insensitively.
    pub fn contains_title_insensitive(&self, ltitle: &String) -> (r: bool)
        ensures
            r == exists|k: int|
                0 <= k < self.rows@.len() && lower_of((#[trigger] self.rows@[k]).title@)
                    == ltitle@,
    {
        let n: usize = self.rows.len();
        let mut i: usize = 0;
        while i < n
            invariant
                n == self.rows@.len(),
                i <= n,
                forall|k: int|
                    0 <= k < i ==> lower_of((#[trigger] self.rows@[k]).title@) != ltitle@,
            decreases n - i,
        {
            let lt = to_lowercase_string(self.rows[i].title.as_str());
            if lt.eq(ltitle) {
                return true;
            }
            i = i + 1;
        }
        false
    }
}

// ---------------------------------------------------------------------------
// The service: validation, normalization and business rules above the store.
// ---------------------------------------------------------------------------

/// The message reported when a project id is unknown.
pub open spec fn project_not_found_text(id: i32) -> Seq<char> {
    "Project with ID "@ + int_str(id as int) + " not found"@
}

/// Render the not-found message for a project id.
fn project_not_found_message(id: i32) -> (r: String)
    ensures
        r@ == project_not_found_text(id),
{
    let mut m = String::from_str("Project with ID ");
    let num = i64_to_string(id as i64);
    m.append(num.as_str());
    m.append(" not found");
    m
}

/// Project business logic over the in-memory store.
pub struct ProjectService {
    pub repository: ProjectStore,
}

impl ProjectService {
    /// A service over an empty store.
    pub fn new() -> (r: Self)
        ensures
            r.repository.wf(),
            r.repository.rows@ == Seq::<Project>::empty(),
            r.repository.next_id == 1,
    {
        ProjectService { repository: ProjectStore::new() }
    }

    /// All projects, newest first.
    pub fn get_all_projects(&self) -> (r: ApiResult<Vec<Project>>)
        ensures
            r matches Ok(v) && v@ == self.repository.rows@.reverse(),
    {
        Ok(self.repository.get_all())
    }

    /// The project with the given id, or a not-found error.
    pub fn get_project_by_id(&self, id: i32) -> (r: ApiResult<Project>)
        ensures
            match find_project(self.repository.rows@, id) {
                Some(p) => r matches Ok(x) && x == p,
                None => r matches Err(ApiError::NotFound(m)) && m@ == project_not_found_text(id),
            },
    {
        match self.repository.get_by_id(id) {
            Some(p) => Ok(p),
            None => Err(ApiError::NotFound(project_not_found_message(id))),
        }
    }

    /// The projects of one category, newest first.
    pub fn get_projects_by_category(&self, category: &str) -> (r: ApiResult<Vec<Project>>)
        ensures
            r matches Ok(v) && v@ == projects_in_category_from(self.repository.rows@, category@, 0),
    {
        Ok(self.repository.get_by_category(category))
    }

    /// The featured projects, newest first.
    pub fn get_featured_projects(&self) -> (r: ApiResult<Vec<Project>>)
        ensures
            r matches Ok(v) && v@ == featured_projects_from(self.repository.rows@, 0),
    {
        Ok(self.repository.get_featured())
    }

    /// Create a project: reject field violations and a duplicate title
    /// (case-insensitively); otherwise store the trimmed payload, its
    /// category lowercased and its technology list encoded as JSON, stamped
    /// with `now`.
    pub fn create_project(&mut self, project_data: CreateProject, now: i64) -> (r: ApiResult<
        Project,
    >)
        requires
            old(self).repository.wf(),
            old(self).repository.next_id < i32::MAX,
            project_stamps_at_most(old(self).repository.rows@, now),
        ensures
            final(self).repository.wf(),
            ({
                let msgs = create_project_messages(project_data);
                let rows0 = old(self).repository.rows@;
                let tl = lower_of(trimmed(project_data.title@));
                if msgs.len() > 0 {
                    &&& r matches Err(e) && e.is_validation_kind() && validation_messages_of(e)
                        == msgs && (e is Validation <==> msgs.len() == 1)
                    &&& final(self).repository == old(self).repository
                } else if exists|k: int|
                    0 <= k < rows0.len() && lower_of((#[trigger] rows0[k]).title@) == tl {
                    &&& r matches Err(ApiError::Conflict(m)) && m@
                        == "A project with this title already exists"@
                    &&& final(self).repository == old(self).repository
                } else {
                    &&& r matches Ok(p) && p.id == old(self).repository.next_id && p.title@
                        == trimmed(project_data.title@) && p.description@ == trimmed(
                        project_data.description@,
                    ) && p.long_description == project_data.long_description && p.technologies@
                        == json_of_strings(project_data.technologies.deep_view())
                        && strings_of_json(p.technologies@) == Some(
                        project_data.technologies.deep_view(),
                    ) && p.github_url == project_data.github_url && p.demo_url
                        == project_data.demo_url && p.image_url == project_data.image_url
                        && p.category@ == lower_of(trimmed(project_data.category@)) && p.featured
                        == (match project_data.featured {
                        Some(b) => b,
                        None => false,
                    }) && p.created_at == now && p.updated_at == now
                    &&& r matches Ok(p) && final(self).repository.rows@ == rows0.push(p)
                    &&& final(self).repository.next_id == old(self).repository.next_id + 1
                }
            }),
    {
        if let Err(msgs) = project_data.validate() {
            return Err(ApiError::from_validation_errors(msgs));
        }
        if project_data.technologies.len() == 0 {
            return Err(
                ApiError::Validation(
                    String::from_str("At least one technology must be specified"),
                ),
            );
        }
        let title = trim_string(project_data.title.as_str());
        let description = trim_string(project_data.description.as_str());
        let category = trim_and_lower_string(project_data.category.as_str());
        let ltitle = to_lowercase_string(title.as_str());
        if self.repository.contains_title_insensitive(&ltitle) {
            return Err(
                ApiError::Conflict(String::from_str("A project with this title already exists")),
            );
        }
        let technologies_json = encode_string_list(&project_data.technologies).unwrap();
        let sanitized = CreateProject {
            title,
            description,
            long_description: clone_opt_string(&project_data.long_description),
            technologies: clone_string_vec(&project_data.technologies),
            github_url: clone_opt_string(&project_data.github_url),
            demo_url: clone_opt_string(&project_data.demo_url),
            image_url: clone_opt_string(&project_data.image_url),
            category,
            featured: project_data.featured,
        };
        let project = self.repository.create(&sanitized, technologies_json, now);
        Ok(project)
    }

    /// Update a project: reject field violations and an empty payload;
    /// otherwise merge the trimmed payload into the stored row, the category
    /// lowercased, the technology list re-encoded, and the update time
    /// stamped with `now`.
    pub fn update_project(&mut self, id: i32, project_data: UpdateProject, now: i64) -> (r:
        ApiResult<Project>)
        requires
            old(self).repository.wf(),
        ensures
            final(self).repository.wf(),
            final(self).repository.next_id == old(self).repository.next_id,
            ({
                let msgs = update_project_messages(project_data);
                let rows0 = old(self).repository.rows@;
                let any = project_data.title is Some || project_data.description is Some
                    || project_data.long_description is Some || project_data.technologies is Some
                    || project_data.github_url is Some || project_data.demo_url is Some
                    || project_data.image_url is Some || project_data.category is Some
                    || project_data.featured is Some;
                if msgs.len() > 0 {
                    &&& r matches Err(e) && e.is_validation_kind() && validation_messages_of(e)
                        == msgs
                    &&& final(self).repository == old(self).repository
                } else if !any {
                    &&& r matches Err(ApiError::BadRequest(m)) && m@ == "No updates provided"@
                    &&& final(self).repository == old(self).repository
                } else {
                    match project_idx(rows0, id) {
                        Some(i) => {
                            let row = rows0[i];
                            &&& r matches Ok(p) && p.id == row.id && p.title@ == (
                            match project_data.title {
                                Some(t) => trimmed(t@),
                                None => row.title@,
                            }) && p.description@ == (match project_data.description {
                                Some(t) => trimmed(t@),
                                None => row.description@,
                            }) && p.long_description == (match project_data.long_description {
                                Some(t) => Some(t),
                                None => row.long_description,
                            }) && (match project_data.technologies {
                                Some(ts) => p.technologies@ == json_of_strings(ts.deep_view())
                                    && strings_of_json(p.technologies@) == Some(ts.deep_view()),
                                None => p.technologies == row.technologies,
                            }) && p.github_url == (match project_data.github_url {
                                Some(t) => Some(t),
                                None => row.github_url,
                            }) && p.demo_url == (match project_data.demo_url {
                                Some(t) => Some(t),
                                None => row.demo_url,
                            }) && p.image_url == (match project_data.image_url {
                                Some(t) => Some(t),
                                None => row.image_url,
                            }) && p.category@ == (match project_data.category {
                                Some(t) => lower_of(trimmed(t@)),
                                None => row.category@,
                            }) && p.featured == (match project_data.featured {
                                Some(b) => b,
                                None => row.featured,
                            }) && p.created_at == row.created_at && p.updated_at == now
                            &&& r matches Ok(p) && final(self).repository.rows@ == rows0.update(
                                i,
                                p,
                            )
                        },
                        None => r matches Err(ApiError::NotFound(m)) && m@
                            == project_not_found_text(id) && final(self).repository == old(
                            self,
                        ).repository,
                    }
                }
            }),
    {
        if let Err(msgs) = project_data.validate() {
            return Err(ApiError::from_validation_errors(msgs));
        }
        if !project_data.has_updates() {
            return Err(ApiError::BadRequest(String::from_str("No updates provided")));
        }
        let technologies_json = project_data.technologies_as_json().unwrap();
        let sanitized = UpdateProject {
            title: match &project_data.title {
                Some(t) => Some(trim_string(t.as_str())),
                None => None,
            },
            description: match &project_data.description {
                Some(t) => Some(trim_string(t.as_str())),
                None => None,
            },
            long_description: clone_opt_string(&project_data.long_description),
            technologies: None,
            github_url: clone_opt_string(&project_data.github_url),
            demo_url: clone_opt_string(&project_data.demo_url),
            image_url: clone_opt_string(&project_data.image_url),
            category: match &project_data.category {
                Some(t) => Some(trim_and_lower_string(t.as_str())),
                None => None,
            },
            featured: project_data.featured,
        };
        match self.repository.update(id, &sanitized, technologies_json, now) {
            Some(p) => Ok(p),
            None => Err(ApiError::NotFound(project_not_found_message(id))),
        }
    }

    /// Delete a project; a missing id is a not-found error.
    pub fn delete_project(&mut self, id: i32) -> (r: ApiResult<()>)
        requires
            old(self).repository.wf(),
        ensures
            final(self).repository.wf(),
            final(self).repository.next_id == old(self).repository.next_id,
            match project_idx(old(self).repository.rows@, id) {
                Some(i) => r is Ok && final(self).repository.rows@ == old(self).repository.rows@.remove(i),
                None => r matches Err(ApiError::NotFound(m)) && m@ == project_not_found_text(id)
                    && final(self).repository == old(self).repository,
            },
    {
        if self.repository.delete(id) {
            Ok(())
        } else {
            Err(ApiError::NotFound(project_not_found_message(id)))
        }
    }

    /// The projects a search query hits, newest first; a blank query is a
    /// bad request.
    pub fn search_projects(&self, query: &str) -> (r: ApiResult<Vec<Project>>)
        ensures
            trimmed(query@).len() == 0 ==> (r matches Err(ApiError::BadRequest(m)) && m@
                == "Search query cannot be empty"@),
            trimmed(query@).len() > 0 ==> (r matches Ok(v) && v@ == project_matches_from(
                self.repository.rows@,
                lower_of(query@),
                0,
            )),
    {
        let t = trim_string(query);
        if t.as_str().unicode_len() == 0 {
            return Err(ApiError::BadRequest(String::from_str("Search query cannot be empty")));
        }
        Ok(self.repository.search(query))
    }

    /// One page of the newest-first listing, with the total count; page
    /// sizes outside one to a hundred are a bad request.
    pub fn get_projects_paginated(&self, page: u32, page_size: u32) -> (r: ApiResult<
        (Vec<Project>, u64),
    >)
        ensures
            !(1 <= page_size <= 100) ==> (r matches Err(ApiError::BadRequest(m)) && m@
                == "Page size must be between 1 and 100"@),
            1 <= page_size <= 100 ==> (r matches Ok(p) && p.0@ == page_slice(
                self.repository.rows@.reverse(),
                spec_offset(page as int, page_size as int),
                page_size as int,
            ) && p.1 == self.repository.rows@.len()),
    {
        if page_size == 0 || page_size > 100 {
            return Err(
                ApiError::BadRequest(String::from_str("Page size must be between 1 and 100")),
            );
        }
        let offset = page_offset(page, page_size);
        let items = self.repository.get_paginated(page_size as u64, offset);
        let total = self.repository.count() as u64;
        Ok((items, total))
    }
}

} // verus!
