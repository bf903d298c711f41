//! Skills: the entity, its fixed category set, field validation, the
//! in-memory store with the repository operations, and the service holding
//! the business rules.
use vstd::prelude::*;

use crate::error::{validation_messages_of, ApiError, ApiResult};
use vstd::seq_lib::{lemma_multiset_commutative, to_multiset_build};

use crate::text::{
    chars_le, clone_opt_string, i64_to_string, int_str, lemma_chars_le_antisym,
    lemma_chars_le_total, lemma_chars_le_trans, lower_of, str_eq, str_le, string_list_contains,
    to_lowercase_string, trim_string, trimmed,
};

verus! {

/// A technical skill.
#[derive(Debug)]
pub struct Skill {
    pub id: i32,
    pub name: String,
    pub category: String,
    pub level: i32,
    pub years_experience: Option<i32>,
    pub description: Option<String>,
    pub created_at: i64,
}

impl Clone for Skill {
    fn clone(&self) -> (r: Self)
        ensures
            r == *self,
    {
        Skill {
            id: self.id,
            name: self.name.clone(),
            category: self.category.clone(),
            level: self.level,
            years_experience: self.years_experience,
            description: clone_opt_string(&self.description),
            created_at: self.created_at,
        }
    }
}

/// Request payload for creating a skill.
#[derive(Debug)]
pub struct CreateSkill {
    pub name: String,
    pub category: String,
    pub level: i32,
    pub years_experience: Option<i32>,
    pub description: Option<String>,
}

impl Clone for CreateSkill {
    fn clone(&self) -> (r: Self)
        ensures
            r == *self,
    {
        CreateSkill {
            name: self.name.clone(),
            category: self.category.clone(),
            level: self.level,
            years_experience: self.years_experience,
            description: clone_opt_string(&self.description),
        }
    }
}

/// Request payload for updating a skill; an absent field means no change.
#[derive(Debug)]
pub struct UpdateSkill {
    pub name: Option<String>,
    pub category: Option<String>,
    pub level: Option<i32>,
    pub years_experience: Option<i32>,
    pub description: Option<String>,
}

impl Clone for UpdateSkill {
    fn clone(&self) -> (r: Self)
        ensures
            r == *self,
    {
        UpdateSkill {
            name: clone_opt_string(&self.name),
            category: clone_opt_string(&self.category),
            level: self.level,
            years_experience: self.years_experience,
            description: clone_opt_string(&self.description),
        }
    }
}

impl Default for UpdateSkill {
    /// The payload that changes nothing.
    fn default() -> (r: Self)
        ensures
            r.name is None && r.category is None && r.level is None && r.years_experience is None
                && r.description is None,
    {
        UpdateSkill {
            name: None,
            category: None,
            level: None,
            years_experience: None,
            description: None,
        }
    }
}

// ---------------------------------------------------------------------------
// Field validation.
// ---------------------------------------------------------------------------

/// The validation messages owed to a create payload, in field order.
pub open spec fn create_skill_messages(d: CreateSkill) -> Seq<Seq<char>> {
    (if 1 <= d.name@.len() <= 100 {
        Seq::<Seq<char>>::empty()
    } else {
        seq!["name: Skill name must be between 1 and 100 characters"@]
    }) + (if 1 <= d.category@.len() <= 50 {
        Seq::<Seq<char>>::empty()
    } else {
        seq!["category: Category must be between 1 and 50 characters"@]
    }) + (if 1 <= d.level <= 5 {
        Seq::<Seq<char>>::empty()
    } else {
        seq!["level: Level must be between 1 and 5"@]
    }) + (if match d.years_experience {
        Some(y) => 0 <= y <= 50,
        None => true,
    } {
        Seq::<Seq<char>>::empty()
    } else {
        seq!["years_experience: Years of experience must be between 0 and 50"@]
    }) + (if match d.description {
        Some(s) => s@.len() <= 500,
        None => true,
    } {
        Seq::<Seq<char>>::empty()
    } else {
        seq!["description: Description must be less than 500 characters"@]
    })
}

/// The validation messages owed to an update payload, in field order; absent
/// fields are not checked.
pub open spec fn update_skill_messages(d: UpdateSkill) -> Seq<Seq<char>> {
    (if match d.name {
        Some(s) => 1 <= s@.len() <= 100,
        None => true,
    } {
        Seq::<Seq<char>>::empty()
    } else {
        seq!["name: Skill name must be between 1 and 100 characters"@]
    }) + (if match d.category {
        Some(s) => 1 <= s@.len() <= 50,
        None => true,
    } {
        Seq::<Seq<char>>::empty()
    } else {
        seq!["category: Category must be between 1 and 50 characters"@]
    }) + (if match d.level {
        Some(l) => 1 <= l <= 5,
        None => true,
    } {
        Seq::<Seq<char>>::empty()
    } else {
        seq!["level: Level must be between 1 and 5"@]
    }) + (if match d.years_experience {
        Some(y) => 0 <= y <= 50,
        None => true,
    } {
        Seq::<Seq<char>>::empty()
    } else {
        seq!["years_experience: Years of experience must be between 0 and 50"@]
    }) + (if match d.description {
        Some(s) => s@.len() <= 500,
        None => true,
    } {
        Seq::<Seq<char>>::empty()
    } else {
        seq!["description: Description must be less than 500 characters"@]
    })
}

impl CreateSkill {
    /// Check the field constraints; `Err` carries one message per violated
    /// constraint, in field order.
    pub fn validate(&self) -> (r: Result<(), Vec<String>>)
        ensures
            r is Ok <==> create_skill_messages(*self).len() == 0,
            r matches Err(v) ==> v.deep_view() == create_skill_messages(*self),
    {
        let mut errors: Vec<String> = Vec::new();
        let name_len = self.name.as_str().unicode_len();
        if !(1 <= name_len && name_len <= 100) {
            errors.push(String::from_str("name: Skill name must be between 1 and 100 characters"));
        }
        let cat_len = self.category.as_str().unicode_len();
        if !(1 <= cat_len && cat_len <= 50) {
            errors.push(String::from_str("category: Category must be between 1 and 50 characters"));
        }
        if !(1 <= self.level && self.level <= 5) {
            errors.push(String::from_str("level: Level must be between 1 and 5"));
        }
        let years_ok = match self.years_experience {
            Some(y) => 0 <= y && y <= 50,
            None => true,
        };
        if !years_ok {
            errors.push(
                String::from_str("years_experience: Years of experience must be between 0 and 50"),
            );
        }
        let desc_ok = match &self.description {
            Some(s) => s.as_str().unicode_len() <= 500,
            None => true,
        };
        if !desc_ok {
            errors.push(
                String::from_str("description: Description must be less than 500 characters"),
            );
        }
        proof {
            assert(errors.deep_view() =~= create_skill_messages(*self));
        }
        if errors.len() == 0 {
            Ok(())
        } else {
            Err(errors)
        }
    }
}

impl UpdateSkill {
    /// Check the field constraints of the present fields; `Err` carries one
    /// message per violated constraint, in field order.
    pub fn validate(&self) -> (r: Result<(), Vec<String>>)
        ensures
            r is Ok <==> update_skill_messages(*self).len() == 0,
            r matches Err(v) ==> v.deep_view() == update_skill_messages(*self),
    {
        let mut errors: Vec<String> = Vec::new();
        let name_ok = match &self.name {
            Some(s) => {
                let n = s.as_str().unicode_len();
                1 <= n && n <= 100
            },
            None => true,
        };
        if !name_ok {
            errors.push(String::from_str("name: Skill name must be between 1 and 100 characters"));
        }
        let cat_ok = match &self.category {
            Some(s) => {
                let n = s.as_str().unicode_len();
                1 <= n && n <= 50
            },
            None => true,
        };
        if !cat_ok {
            errors.push(String::from_str("category: Category must be between 1 and 50 characters"));
        }
        let level_ok = match self.level {
            Some(l) => 1 <= l && l <= 5,
            None => true,
        };
        if !level_ok {
            errors.push(String::from_str("level: Level must be between 1 and 5"));
        }
        let years_ok = match self.years_experience {
            Some(y) => 0 <= y && y <= 50,
            None => true,
        };
        if !years_ok {
            errors.push(
                String::from_str("years_experience: Years of experience must be between 0 and 50"),
            );
        }
        let desc_ok = match &self.description {
            Some(s) => s.as_str().unicode_len() <= 500,
            None => true,
        };
        if !desc_ok {
            errors.push(
                String::from_str("description: Description must be less than 500 characters"),
            );
        }
        proof {
            assert(errors.deep_view() =~= update_skill_messages(*self));
        }
        if errors.len() == 0 {
            Ok(())
        } else {
            Err(errors)
        }
    }

    /// Whether any field is being updated.
    pub fn has_updates(&self) -> (r: bool)
        ensures
            r == (self.name is Some || self.category is Some || self.level is Some
                || self.years_experience is Some || self.description is Some),
    {
        self.name.is_some() || self.category.is_some() || self.level.is_some()
            || self.years_experience.is_some() || self.description.is_some()
    }
}

// ---------------------------------------------------------------------------
// The fixed category set.
// ---------------------------------------------------------------------------

/// The closed set of skill categories.
#[derive(Clone, Copy, PartialEq, Eq, Structural, Debug)]
pub enum SkillCategory {
    Frontend,
    Backend,
    Database,
    DevOps,
    Tools,
    Mobile,
    Other,
}

/// The string representation of each category.
pub open spec fn category_name(c: SkillCategory) -> Seq<char> {
    match c {
        SkillCategory::Frontend => "Frontend"@,
        SkillCategory::Backend => "Backend"@,
        SkillCategory::Database => "Database"@,
        SkillCategory::DevOps => "DevOps"@,
        SkillCategory::Tools => "Tools"@,
        SkillCategory::Mobile => "Mobile"@,
        SkillCategory::Other => "Other"@,
    }
}

/// The category a string names, if any: the inverse of `category_name`.
pub open spec fn category_of(s: Seq<char>) -> Option<SkillCategory> {
    if s == "Frontend"@ {
        Some(SkillCategory::Frontend)
    } else if s == "Backend"@ {
        Some(SkillCategory::Backend)
    } else if s == "Database"@ {
        Some(SkillCategory::Database)
    } else if s == "DevOps"@ {
        Some(SkillCategory::DevOps)
    } else if s == "Tools"@ {
        Some(SkillCategory::Tools)
    } else if s == "Mobile"@ {
        Some(SkillCategory::Mobile)
    } else if s == "Other"@ {
        Some(SkillCategory::Other)
    } else {
        None
    }
}

impl SkillCategory {
    /// The fixed string for this category.
    pub fn as_str(&self) -> (r: &'static str)
        ensures
            r@ == category_name(*self),
    {
        match self {
            SkillCategory::Frontend => "Frontend",
            SkillCategory::Backend => "Backend",
            SkillCategory::Database => "Database",
            SkillCategory::DevOps => "DevOps",
            SkillCategory::Tools => "Tools",
            SkillCategory::Mobile => "Mobile",
            SkillCategory::Other => "Other",
        }
    }

    /// Parse a category string; only the seven fixed names are accepted.
    pub fn from_str(s: &str) -> (r: Option<SkillCategory>)
        ensures
            r == category_of(s@),
    {
        if str_eq(s, "Frontend") {
            Some(SkillCategory::Frontend)
        } else if str_eq(s, "Backend") {
            Some(SkillCategory::Backend)
        } else if str_eq(s, "Database") {
            Some(SkillCategory::Database)
        } else if str_eq(s, "DevOps") {
            Some(SkillCategory::DevOps)
        } else if str_eq(s, "Tools") {
            Some(SkillCategory::Tools)
        } else if str_eq(s, "Mobile") {
            Some(SkillCategory::Mobile)
        } else if str_eq(s, "Other") {
            Some(SkillCategory::Other)
        } else {
            None
        }
    }

    /// Every category name, in the fixed order.
    pub fn all() -> (r: Vec<&'static str>)
        ensures
            r.deep_view() =~= seq![
                "Frontend"@,
                "Backend"@,
                "Database"@,
                "DevOps"@,
                "Tools"@,
                "Mobile"@,
                "Other"@,
            ],
    {
        let mut v: Vec<&'static str> = Vec::new();
        v.push("Frontend");
        v.push("Backend");
        v.push("Database");
        v.push("DevOps");
        v.push("Tools");
        v.push("Mobile");
        v.push("Other");
        proof {
            assert(v.deep_view() =~= seq![
                "Frontend"@,
                "Backend"@,
                "Database"@,
                "DevOps"@,
                "Tools"@,
                "Mobile"@,
                "Other"@,
            ]);
        }
        v
    }
}

/// The description owed to each skill level.
pub open spec fn spec_level_description(level: i32) -> Seq<char> {
    if level == 1 {
        "Beginner"@
    } else if level == 2 {
        "Novice"@
    } else if level == 3 {
        "Intermediate"@
    } else if level == 4 {
        "Advanced"@
    } else if level == 5 {
        "Expert"@
    } else {
        "Unknown"@
    }
}

impl Skill {
    /// The skill level as a descriptive word.
    pub fn level_description(&self) -> (r: &'static str)
        ensures
            r@ == spec_level_description(self.level),
    {
        if self.level == 1 {
            "Beginner"
        } else if self.level == 2 {
            "Novice"
        } else if self.level == 3 {
            "Intermediate"
        } else if self.level == 4 {
            "Advanced"
        } else if self.level == 5 {
            "Expert"
        } else {
            "Unknown"
        }
    }

    /// Whether the stored category string names one of the fixed categories.
    pub fn is_valid_category(&self) -> (r: bool)
        ensures
            r == (category_of(self.category@) is Some),
    {
        SkillCategory::from_str(self.category.as_str()).is_some()
    }
}

// ---------------------------------------------------------------------------
// The store: repository operations over an in-memory table.
// ---------------------------------------------------------------------------

/// Position of the row with the given id, if any.
pub open spec fn skill_idx(rows: Seq<Skill>, id: i32) -> Option<int>
    decreases rows.len(),
{
    if rows.len() == 0 {
        None
    } else if rows[0].id == id {
        Some(0int)
    } else {
        match skill_idx(rows.drop_first(), id) {
            Some(i) => Some(i + 1),
            None => None,
        }
    }
}

/// The row with the given id, if any.
pub open spec fn find_skill(rows: Seq<Skill>, id: i32) -> Option<Skill> {
    match skill_idx(rows, id) {
        Some(i) => Some(rows[i]),
        None => None,
    }
}

/// What `skill_idx` finds: the first position whose row carries the id.
pub proof fn lemma_skill_idx(rows: Seq<Skill>, id: i32)
    ensures
        match skill_idx(rows, id) {
            Some(i) => 0 <= i < rows.len() && rows[i].id == id && forall|k: int|
                0 <= k < i ==> rows[k].id != id,
            None => forall|k: int| 0 <= k < rows.len() ==> rows[k].id != id,
        },
    decreases rows.len(),
{
    if rows.len() > 0 && rows[0].id != id {
        let rest = rows.drop_first();
        lemma_skill_idx(rest, id);
        match skill_idx(rest, id) {
            Some(i) => {
                assert(rows[i + 1] == rest[i]);
                assert forall|k: int| 0 <= k < i + 1 implies rows[k].id != id by {
                    if k >= 1 {
                        assert(rest[k - 1].id != id);
                    }
                }
            },
            None => {
                assert forall|k: int| 0 <= k < rows.len() implies rows[k].id != id by {
                    if k >= 1 {
                        assert(rest[k - 1].id != id);
                    }
                }
            },
        }
    }
}

/// The row a create payload becomes.
pub open spec fn new_skill(d: CreateSkill, id: i32, now: i64) -> Skill {
    Skill {
        id: id,
        name: d.name,
        category: d.category,
        level: d.level,
        years_experience: d.years_experience,
        description: d.description,
        created_at: now,
    }
}

/// The keep-existing-if-absent merge of an update payload into a row.
pub open spec fn merged_skill(row: Skill, u: UpdateSkill) -> Skill {
    Skill {
        id: row.id,
        name: match u.name {
            Some(s) => s,
            None => row.name,
        },
        category: match u.category {
            Some(s) => s,
            None => row.category,
        },
        level: match u.level {
            Some(l) => l,
            None => row.level,
        },
        years_experience: match u.years_experience {
            Some(y) => Some(y),
            None => row.years_experience,
        },
        description: match u.description {
            Some(s) => Some(s),
            None => row.description,
        },
        created_at: row.created_at,
    }
}

/// The rows with the given category, in stored order, up to position `n`.
pub open spec fn skills_in_category_upto(rows: Seq<Skill>, cat: Seq<char>, n: int) -> Seq<Skill>
    decreases n,
{
    if n <= 0 {
        Seq::empty()
    } else {
        skills_in_category_upto(rows, cat, n - 1) + if rows[n - 1].category@ == cat {
            seq![rows[n - 1]]
        } else {
            Seq::empty()
        }
    }
}

/// The rows with the given category, in stored order.
pub open spec fn skills_in_category(rows: Seq<Skill>, cat: Seq<char>) -> Seq<Skill> {
    skills_in_category_upto(rows, cat, rows.len() as int)
}

/// The rows at or above the given level, in stored order, up to position `n`.
pub open spec fn skills_at_least_upto(rows: Seq<Skill>, min: i32, n: int) -> Seq<Skill>
    decreases n,
{
    if n <= 0 {
        Seq::empty()
    } else {
        skills_at_least_upto(rows, min, n - 1) + if rows[n - 1].level >= min {
            seq![rows[n - 1]]
        } else {
            Seq::empty()
        }
    }
}

/// The rows at or above the given level, in stored order.
pub open spec fn skills_at_least(rows: Seq<Skill>, min: i32) -> Seq<Skill> {
    skills_at_least_upto(rows, min, rows.len() as int)
}

// ---------------------------------------------------------------------------
// Listing orders.
// ---------------------------------------------------------------------------

/// Whether `a` sorts at or before `b` in a listing: by level downward and
/// then name when `by_level` is set, else by category and then name.
pub open spec fn skill_before(by_level: bool, a: Skill, b: Skill) -> bool {
    if by_level {
        a.level > b.level || (a.level == b.level && chars_le(a.name@, b.name@))
    } else {
        chars_le(a.category@, b.category@) && (a.category@ == b.category@ ==> chars_le(
            a.name@,
            b.name@,
        ))
    }
}

/// Whether a listing is sorted for its order.
pub open spec fn sorted_skills(by_level: bool, s: Seq<Skill>) -> bool {
    forall|p: int, q: int|
        0 <= p < q < s.len() ==> skill_before(by_level, #[trigger] s[p], #[trigger] s[q])
}

/// Either of two skills sorts at or before the other.
proof fn lemma_skill_before_total(by_level: bool, a: Skill, b: Skill)
    ensures
        skill_before(by_level, a, b) || skill_before(by_level, b, a),
{
    lemma_chars_le_total(a.name@, b.name@);
    lemma_chars_le_total(a.category@, b.category@);
    lemma_chars_le_total(a.category@, a.category@);
    lemma_chars_le_total(b.category@, b.category@);
}

/// The listing order is transitive.
proof fn lemma_skill_before_trans(by_level: bool, a: Skill, b: Skill, c: Skill)
    requires
        skill_before(by_level, a, b),
        skill_before(by_level, b, c),
    ensures
        skill_before(by_level, a, c),
{
    if by_level {
        if a.level == b.level && b.level == c.level {
            lemma_chars_le_trans(a.name@, b.name@, c.name@);
        }
    } else {
        lemma_chars_le_trans(a.category@, b.category@, c.category@);
        if a.category@ == c.category@ {
            if a.category@ != b.category@ {
                lemma_chars_le_antisym(a.category@, b.category@);
            }
            lemma_chars_le_trans(a.name@, b.name@, c.name@);
        }
    }
}

/// Compare two skills in the listing order.
fn skill_before_exec(by_level: bool, a: &Skill, b: &Skill) -> (r: bool)
    ensures
        r == skill_before(by_level, *a, *b),
{
    if by_level {
        if a.level != b.level {
            a.level > b.level
        } else {
            str_le(a.name.as_str(), b.name.as_str())
        }
    } else {
        if !str_eq(a.category.as_str(), b.category.as_str()) {
            str_le(a.category.as_str(), b.category.as_str())
        } else {
            proof {
                lemma_chars_le_total(a.category@, a.category@);
            }
            str_le(a.name.as_str(), b.name.as_str())
        }
    }
}

/// Inserting an element anywhere adds exactly it to the multiset of a
/// listing.
proof fn lemma_insert_to_multiset<A>(s: Seq<A>, i: int, x: A)
    requires
        0 <= i <= s.len(),
    ensures
        s.insert(i, x).to_multiset() =~= s.to_multiset().insert(x),
{
    broadcast use vstd::multiset::group_multiset_axioms;

    let left = s.subrange(0, i);
    let right = s.subrange(i, s.len() as int);
    assert(s =~= left + right);
    assert(s.insert(i, x) =~= left.push(x) + right);
    lemma_multiset_commutative(left.push(x), right);
    lemma_multiset_commutative(left, right);
    to_multiset_build(left, x);
}

/// Sort a listing for its order; the result is a sorted rearrangement.
fn sort_skills(v: &Vec<Skill>, by_level: bool) -> (r: Vec<Skill>)
    ensures
        r@.to_multiset() == v@.to_multiset(),
        sorted_skills(by_level, r@),
{
    broadcast use vstd::seq_lib::group_to_multiset_ensures;

    let n: usize = v.len();
    let mut out: Vec<Skill> = Vec::new();
    let mut i: usize = 0;
    while i < n
        invariant
            n == v@.len(),
            i <= n,
            out@.to_multiset() == v@.subrange(0, i as int).to_multiset(),
            sorted_skills(by_level, out@),
        decreases n - i,
    {
        let row = v[i].clone();
        let ghost inserted = row;
        let mut j: usize = 0;
        while j < out.len() && skill_before_exec(by_level, &out[j], &row)
            invariant
                j <= out@.len(),
                row == inserted,
                forall|k: int| 0 <= k < j ==> skill_before(by_level, #[trigger] out@[k], inserted),
            decreases out@.len() - j,
        {
            j = j + 1;
        }
        proof {
            if j < out@.len() {
                lemma_skill_before_total(by_level, out@[j as int], inserted);
            }
        }
        let ghost out0 = out@;
        out.insert(j, row);
        proof {
            assert(out@ =~= out0.insert(j as int, inserted));
            lemma_insert_to_multiset(out0, j as int, inserted);
            assert(v@.subrange(0, i + 1 as int) =~= v@.subrange(0, i as int).push(v@[i as int]));
            to_multiset_build(v@.subrange(0, i as int), v@[i as int]);
            assert(out@.to_multiset() =~= v@.subrange(0, i + 1 as int).to_multiset());
            assert forall|p: int, q: int|
                0 <= p < q < out@.len() implies skill_before(
                by_level,
                #[trigger] out@[p],
                #[trigger] out@[q],
            ) by {
                if q == j {
                    assert(skill_before(by_level, out0[p], inserted));
                } else if p == j {
                    if q - 1 > j {
                        lemma_skill_before_trans(by_level, inserted, out0[j as int], out0[q - 1]);
                    }
                } else if p < j && q > j {
                    assert(skill_before(by_level, out0[p], out0[q - 1]));
                }
            }
        }
        i = i + 1;
    }
    proof {
        assert(v@.subrange(0, n as int) =~= v@);
    }
    out
}

/// Whether a string listing is sorted by characters.
pub open spec fn sorted_strings(s: Seq<String>) -> bool {
    forall|p: int, q: int| 0 <= p < q < s.len() ==> chars_le((#[trigger] s[p])@, (#[trigger] s[q])@)
}

/// Whether a listing renders the categories of a table: it holds exactly
/// the categories in use, each once, sorted by characters.
pub open spec fn categories_listing(rows: Seq<Skill>, v: Seq<String>) -> bool {
    &&& forall|c: Seq<char>|
        #[trigger] categories_in_use(rows).contains(c) <==> exists|k: int|
            0 <= k < v.len() && (#[trigger] v[k])@ == c
    &&& sorted_strings(v)
    &&& forall|p: int, q: int| 0 <= p < q < v.len() ==> (#[trigger] v[p])@ != (#[trigger] v[q])@
}

/// Sort a string listing by characters; the result is a sorted
/// rearrangement.
fn sort_strings(v: &Vec<String>) -> (r: Vec<String>)
    ensures
        r@.to_multiset() == v@.to_multiset(),
        sorted_strings(r@),
{
    broadcast use vstd::seq_lib::group_to_multiset_ensures;

    let n: usize = v.len();
    let mut out: Vec<String> = Vec::new();
    let mut i: usize = 0;
    while i < n
        invariant
            n == v@.len(),
            i <= n,
            out@.to_multiset() == v@.subrange(0, i as int).to_multiset(),
            sorted_strings(out@),
        decreases n - i,
    {
        let item = v[i].clone();
        let ghost inserted = item;
        let mut j: usize = 0;
        while j < out.len() && str_le(out[j].as_str(), item.as_str())
            invariant
                j <= out@.len(),
                item == inserted,
                forall|k: int| 0 <= k < j ==> chars_le((#[trigger] out@[k])@, inserted@),
            decreases out@.len() - j,
        {
            j = j + 1;
        }
        proof {
            if j < out@.len() {
                lemma_chars_le_total(out@[j as int]@, inserted@);
            }
        }
        let ghost out0 = out@;
        out.insert(j, item);
        proof {
            assert(out@ =~= out0.insert(j as int, inserted));
            lemma_insert_to_multiset(out0, j as int, inserted);
            assert(v@.subrange(0, i + 1 as int) =~= v@.subrange(0, i as int).push(v@[i as int]));
            to_multiset_build(v@.subrange(0, i as int), v@[i as int]);
            assert(out@.to_multiset() =~= v@.subrange(0, i + 1 as int).to_multiset());
            assert forall|p: int, q: int|
                0 <= p < q < out@.len() implies chars_le(
                (#[trigger] out@[p])@,
                (#[trigger] out@[q])@,
            ) by {
                if q == j {
                    assert(chars_le(out0[p]@, inserted@));
                } else if p == j {
                    if q - 1 > j {
                        lemma_chars_le_trans(inserted@, out0[j as int]@, out0[q - 1]@);
                    }
                } else if p < j && q > j {
                    assert(chars_le(out0[p]@, out0[q - 1]@));
                }
            }
        }
        i = i + 1;
    }
    proof {
        assert(v@.subrange(0, n as int) =~= v@);
    }
    out
}

/// The distinct categories in use, in order of first appearance, up to
/// position `n`.
pub open spec fn categories_upto(rows: Seq<Skill>, n: int) -> Seq<Seq<char>>
    decreases n,
{
    if n <= 0 {
        Seq::empty()
    } else {
        let prev = categories_upto(rows, n - 1);
        prev + if prev.contains(rows[n - 1].category@) {
            Seq::empty()
        } else {
            seq![rows[n - 1].category@]
        }
    }
}

/// The distinct categories in use, in order of first appearance.
pub open spec fn categories_in_use(rows: Seq<Skill>) -> Seq<Seq<char>> {
    categories_upto(rows, rows.len() as int)
}

/// The categories a table uses never repeat within the listing.
pub proof fn lemma_categories_distinct(rows: Seq<Skill>, n: int)
    requires
        0 <= n <= rows.len(),
    ensures
        forall|p: int, q: int|
            0 <= p < q < categories_upto(rows, n).len() ==> categories_upto(rows, n)[p]
                != categories_upto(rows, n)[q],
    decreases n,
{
    if n > 0 {
        lemma_categories_distinct(rows, n - 1);
        let prev = categories_upto(rows, n - 1);
        let cur = categories_upto(rows, n);
        if !prev.contains(rows[n - 1].category@) {
            assert(forall|p: int| 0 <= p < prev.len() ==> prev[p] != rows[n - 1].category@);
            assert(forall|p: int| 0 <= p < prev.len() ==> cur[p] == prev[p]);
        }
    }
}

/// The skills table: rows in insertion order, and the next id to hand out.
pub struct SkillStore {
    pub rows: Vec<Skill>,
    pub next_id: i32,
}

impl SkillStore {
    /// Ids are positive, unique, and below the next id to hand out.
    pub open spec fn wf(&self) -> bool {
        &&& 1 <= self.next_id
        &&& forall|k: int| 0 <= k < self.rows@.len() ==> 1 <= (#[trigger] self.rows@[k]).id
            < self.next_id
        &&& forall|j: int, k: int|
            0 <= j < k < self.rows@.len() ==> self.rows@[j].id != self.rows@[k].id
    }

    /// An empty table.
    pub fn new() -> (r: Self)
        ensures
            r.wf(),
            r.rows@ == Seq::<Skill>::empty(),
            r.next_id == 1,
    {
        SkillStore { rows: Vec::new(), next_id: 1 }
    }

    /// All rows, sorted by category and then name.
    pub fn get_all(&self) -> (r: Vec<Skill>)
        ensures
            r@.to_multiset() == self.rows@.to_multiset(),
            sorted_skills(false, r@),
    {
        let n: usize = self.rows.len();
        let mut rows: Vec<Skill> = Vec::new();
        let mut i: usize = 0;
        while i < n
            invariant
                n == self.rows@.len(),
                i <= n,
                rows@ == self.rows@.subrange(0, i as int),
            decreases n - i,
        {
            rows.push(self.rows[i].clone());
            proof {
                assert(rows@ =~= self.rows@.subrange(0, i + 1 as int));
            }
            i = i + 1;
        }
        proof {
            assert(rows@ =~= self.rows@);
        }
        sort_skills(&rows, false)
    }

    /// The row with the given id, if any.
    pub fn get_by_id(&self, id: i32) -> (r: Option<Skill>)
        ensures
            r == find_skill(self.rows@, id),
    {
        let n: usize = self.rows.len();
        let mut i: usize = 0;
        while i < n
            invariant
                n == self.rows@.len(),
                i <= n,
                forall|k: int| 0 <= k < i ==> self.rows@[k].id != id,
            decreases n - i,
        {
            if self.rows[i].id == id {
                proof {
                    lemma_skill_idx(self.rows@, id);
                }
                return Some(self.rows[i].clone());
            }
            i = i + 1;
        }
        proof {
            lemma_skill_idx(self.rows@, id);
        }
        None
    }

    /// The rows with the given category, sorted by level downward and then
    /// name.
    pub fn get_by_category(&self, category: &str) -> (r: Vec<Skill>)
        ensures
            r@.to_multiset() == skills_in_category(self.rows@, category@).to_multiset(),
            sorted_skills(true, r@),
    {
        let n: usize = self.rows.len();
        let mut rows: Vec<Skill> = Vec::new();
        let mut i: usize = 0;
        while i < n
            invariant
                n == self.rows@.len(),
                i <= n,
                rows@ == skills_in_category_upto(self.rows@, category@, i as int),
            decreases n - i,
        {
            if str_eq(self.rows[i].category.as_str(), category) {
                rows.push(self.rows[i].clone());
            }
            i = i + 1;
        }
        sort_skills(&rows, true)
    }

    /// The rows at or above the given level, sorted by level downward and
    /// then name.
    pub fn get_by_min_level(&self, min_level: i32) -> (r: Vec<Skill>)
        ensures
            r@.to_multiset() == skills_at_least(self.rows@, min_level).to_multiset(),
            sorted_skills(true, r@),
    {
        let n: usize = self.rows.len();
        let mut rows: Vec<Skill> = Vec::new();
        let mut i: usize = 0;
        while i < n
            invariant
                n == self.rows@.len(),
                i <= n,
                rows@ == skills_at_least_upto(self.rows@, min_level, i as int),
            decreases n - i,
        {
            if self.rows[i].level >= min_level {
                rows.push(self.rows[i].clone());
            }
            i = i + 1;
        }
        sort_skills(&rows, true)
    }

    /// Insert a new row built from the payload, stamped with `now`.
    pub fn create(&mut self, d: &CreateSkill, now: i64) -> (r: Skill)
        requires
            old(self).wf(),
            old(self).next_id < i32::MAX,
        ensures
            final(self).wf(),
            r == new_skill(*d, old(self).next_id, now),
            final(self).rows@ == old(self).rows@.push(r),
            final(self).next_id == old(self).next_id + 1,
    {
        let row = Skill {
            id: self.next_id,
            name: d.name.clone(),
            category: d.category.clone(),
            level: d.level,
            years_experience: d.years_experience,
            description: clone_opt_string(&d.description),
            created_at: now,
        };
        let out = row.clone();
        self.rows.push(row);
        self.next_id = self.next_id + 1;
        out
    }

    /// Merge an update payload into the row with the given id; the merged
    /// row is returned, or nothing when the id is unknown.
    pub fn update(&mut self, id: i32, u: &UpdateSkill) -> (r: Option<Skill>)
        requires
            old(self).wf(),
        ensures
            final(self).wf(),
            final(self).next_id == old(self).next_id,
            match skill_idx(old(self).rows@, id) {
                Some(i) => {
                    &&& r matches Some(s)
                    &&& s == merged_skill(old(self).rows@[i], *u)
                    &&& final(self).rows@ == old(self).rows@.update(i, s)
                },
                None => r is None && *final(self) == *old(self),
            },
    {
        let n: usize = self.rows.len();
        let mut i: usize = 0;
        while i < n
            invariant
                *self == *old(self),
                old(self).wf(),
                n == self.rows@.len(),
                i <= n,
                forall|k: int| 0 <= k < i ==> self.rows@[k].id != id,
            decreases n - i,
        {
            if self.rows[i].id == id {
                proof {
                    lemma_skill_idx(self.rows@, id);
                }
                let row = &self.rows[i];
                let merged = Skill {
                    id: row.id,
                    name: match &u.name {
                        Some(s) => s.clone(),
                        None => row.name.clone(),
                    },
                    category: match &u.category {
                        Some(s) => s.clone(),
                        None => row.category.clone(),
                    },
                    level: match u.level {
                        Some(l) => l,
                        None => row.level,
                    },
                    years_experience: match u.years_experience {
                        Some(y) => Some(y),
                        None => row.years_experience,
                    },
                    description: match &u.description {
                        Some(s) => Some(s.clone()),
                        None => clone_opt_string(&row.description),
                    },
                    created_at: row.created_at,
                };
                let out = merged.clone();
                self.rows.remove(i);
                self.rows.insert(i, merged);
                proof {
                    assert(self.rows@ =~= old(self).rows@.update(
                        i as int,
                        merged_skill(old(self).rows@[i as int], *u),
                    ));
                    assert(forall|k: int|
                        0 <= k < self.rows@.len() ==> (#[trigger] self.rows@[k]).id == old(
                            self,
                        ).rows@[k].id);
                    assert forall|k: int|
                        0 <= k < self.rows@.len() implies 1 <= (#[trigger] self.rows@[k]).id
                        < self.next_id by {
                        assert(1 <= old(self).rows@[k].id < old(self).next_id);
                    }
                    assert forall|j: int, k: int|
                        0 <= j < k < self.rows@.len() implies self.rows@[j].id
                        != self.rows@[k].id by {
                        assert(old(self).rows@[j].id != old(self).rows@[k].id);
                    }
                }
                return Some(out);
            }
            i = i + 1;
        }
        proof {
            lemma_skill_idx(self.rows@, id);
        }
        None
    }

    /// Remove the row with the given id; the result says whether it existed.
    pub fn delete(&mut self, id: i32) -> (r: bool)
        requires
            old(self).wf(),
        ensures
            final(self).wf(),
            final(self).next_id == old(self).next_id,
            match skill_idx(old(self).rows@, id) {
                Some(i) => r && final(self).rows@ == old(self).rows@.remove(i),
                None => !r && *final(self) == *old(self),
            },
    {
        let n: usize = self.rows.len();
        let mut i: usize = 0;
        while i < n
            invariant
                *self == *old(self),
                old(self).wf(),
                n == self.rows@.len(),
                i <= n,
                forall|k: int| 0 <= k < i ==> self.rows@[k].id != id,
            decreases n - i,
        {
            if self.rows[i].id == id {
                proof {
                    lemma_skill_idx(self.rows@, id);
                }
                self.rows.remove(i);
                proof {
                    assert(forall|k: int|
                        0 <= k < self.rows@.len() ==> #[trigger] self.rows@[k] == (if k < i {
                            old(self).rows@[k]
                        } else {
                            old(self).rows@[k + 1]
                        }));
                    assert forall|k: int|
                        0 <= k < self.rows@.len() implies 1 <= (#[trigger] self.rows@[k]).id
                        < self.next_id by {
                        if k < i {
                            assert(1 <= old(self).rows@[k].id < old(self).next_id);
                        } else {
                            assert(1 <= old(self).rows@[k + 1].id < old(self).next_id);
                        }
                    }
                    assert forall|j: int, k: int|
                        0 <= j < k < self.rows@.len() implies self.rows@[j].id
                        != self.rows@[k].id by {
                        let jo: int = if j < i {
                            j
                        } else {
                            j + 1
                        };
                        let ko: int = if k < i {
                            k
                        } else {
                            k + 1
                        };
                        assert(old(self).rows@[jo].id != old(self).rows@[ko].id);
                    }
                }
                return true;
            }
            i = i + 1;
        }
        proof {
            lemma_skill_idx(self.rows@, id);
        }
        false
    }

    /// Number of rows.
    pub fn count(&self) -> (r: usize)
        ensures
            r == self.rows@.len(),
    {
        self.rows.len()
    }

    /// The distinct categories in use, sorted by characters: the listing
    /// holds exactly the categories of the table, each once.
    pub fn get_categories(&self) -> (r: Vec<String>)
        ensures
            categories_listing(self.rows@, r@),
    {
        broadcast use vstd::seq_lib::group_to_multiset_ensures;

        let n: usize = self.rows.len();
        let mut deduped: Vec<String> = Vec::new();
        let mut i: usize = 0;
        while i < n
            invariant
                n == self.rows@.len(),
                i <= n,
                deduped.deep_view() == categories_upto(self.rows@, i as int),
            decreases n - i,
        {
            if !string_list_contains(&deduped, &self.rows[i].category) {
                deduped.push(self.rows[i].category.clone());
                proof {
                    assert(deduped.deep_view() =~= categories_upto(self.rows@, i + 1 as int));
                }
            } else {
                proof {
                    assert(deduped.deep_view() =~= categories_upto(self.rows@, i + 1 as int));
                }
            }
            i = i + 1;
        }
        let r = sort_strings(&deduped);
        proof {
            let cats = categories_in_use(self.rows@);
            lemma_categories_distinct(self.rows@, n as int);
            assert(forall|k: int|
                0 <= k < deduped@.len() ==> (#[trigger] deduped@[k])@ == cats[k]);
            assert forall|p: int, q: int|
                0 <= p < q < deduped@.len() implies deduped@[p] != deduped@[q] by {
                assert(cats[p] != cats[q]);
            }
            deduped@.lemma_multiset_has_no_duplicates();
            r@.lemma_multiset_has_no_duplicates_conv();
            assert forall|c: Seq<char>|
                #[trigger] cats.contains(c) <==> exists|k: int|
                    0 <= k < r@.len() && (#[trigger] r@[k])@ == c by {
                if cats.contains(c) {
                    let j = choose|j: int| 0 <= j < cats.len() && cats[j] == c;
                    let x = deduped@[j];
                    assert(deduped@.contains(x));
                    assert(deduped@.to_multiset().count(x) > 0);
                    assert(r@.to_multiset().count(x) > 0);
                    assert(r@.contains(x));
                    let k = choose|k: int| 0 <= k < r@.len() && r@[k] == x;
                    assert(r@[k]@ == c);
                }
                if exists|k: int| 0 <= k < r@.len() && (#[trigger] r@[k])@ == c {
                    let k = choose|k: int| 0 <= k < r@.len() && (#[trigger] r@[k])@ == c;
                    let x = r@[k];
                    assert(r@.contains(x));
                    assert(r@.to_multiset().count(x) > 0);
                    assert(deduped@.to_multiset().count(x) > 0);
                    assert(deduped@.contains(x));
                    let j = choose|j: int| 0 <= j < deduped@.len() && deduped@[j] == x;
                    assert(cats[j] == c);
                }
            }
            assert forall|p: int, q: int|
                0 <= p < q < r@.len() implies (#[trigger] r@[p])@ != (#[trigger] r@[q])@ by {
                if r@[p]@ == r@[q]@ {
                    assert(r@.contains(r@[p]));
                    assert(r@.contains(r@[q]));
                    assert(r@.to_multiset().count(r@[p]) > 0);
                    assert(r@.to_multiset().count(r@[q]) > 0);
                    assert(deduped@.to_multiset().count(r@[p]) > 0);
                    assert(deduped@.to_multiset().count(r@[q]) > 0);
                    assert(deduped@.contains(r@[p]));
                    assert(deduped@.contains(r@[q]));
                    let j1 = choose|j: int| 0 <= j < deduped@.len() && deduped@[j] == r@[p];
                    let j2 = choose|j: int| 0 <= j < deduped@.len() && deduped@[j] == r@[q];
                    assert(cats[j1] == cats[j2]);
                    assert(j1 == j2);
                    assert(r@[p] == r@[q]);
                }
            }
        }
        r
    }

    /// Whether some row's name equals the given lowercased name,
    /// case-insensitively.
    pub fn contains_name_insensitive(&self, lname: &String) -> (r: bool)
        ensures
            r == exists|k: int|
                0 <= k < self.rows@.len() && lower_of((#[trigger] self.rows@[k]).name@) == lname@,
    {
        let n: usize = self.rows.len();
        let mut i: usize = 0;
        while i < n
            invariant
                n == self.rows@.len(),
                i <= n,
                forall|k: int|
                    0 <= k < i ==> lower_of((#[trigger] self.rows@[k]).name@) != lname@,
            decreases n - i,
        {
            let rl = to_lowercase_string(self.rows[i].name.as_str());
            if rl.eq(lname) {
                return true;
            }
            i = i + 1;
        }
        false
    }
}

// ---------------------------------------------------------------------------
// The service: validation, normalization and business rules above the store.
// ---------------------------------------------------------------------------

/// Whether an update payload names a category outside the fixed set.
pub open spec fn bad_update_category(u: UpdateSkill) -> bool {
    match u.category {
        Some(c) => category_of(c@) is None,
        None => false,
    }
}

/// The message reported when a skill id is unknown.
pub open spec fn skill_not_found_text(id: i32) -> Seq<char> {
    "Skill with ID "@ + int_str(id as int) + " not found"@
}

/// Render the not-found message for a skill id.
fn skill_not_found_message(id: i32) -> (r: String)
    ensures
        r@ == skill_not_found_text(id),
{
    let mut m = String::from_str("Skill with ID ");
    let num = i64_to_string(id as i64);
    m.append(num.as_str());
    m.append(" not found");
    m
}

/// The message reported for a category outside the fixed set.
pub open spec fn invalid_category_text(category: Seq<char>) -> Seq<char> {
    "Invalid skill category: "@ + category
}

/// Render the invalid-category message.
fn invalid_category_message(category: &str) -> (r: String)
    ensures
        r@ == invalid_category_text(category@),
{
    let mut m = String::from_str("Invalid skill category: ");
    m.append(category);
    m
}

/// Skill business logic over the in-memory store.
pub struct SkillService {
    pub repository: SkillStore,
}

impl SkillService {
    /// A service over an empty store.
    pub fn new() -> (r: Self)
        ensures
            r.repository.wf(),
            r.repository.rows@ == Seq::<Skill>::empty(),
            r.repository.next_id == 1,
    {
        SkillService { repository: SkillStore::new() }
    }

    /// All skills, sorted by category and then name.
    pub fn get_all_skills(&self) -> (r: ApiResult<Vec<Skill>>)
        ensures
            r matches Ok(v) && v@.to_multiset() == self.repository.rows@.to_multiset()
                && sorted_skills(false, v@),
    {
        Ok(self.repository.get_all())
    }

    /// The skill with the given id, or a not-found error.
    pub fn get_skill_by_id(&self, id: i32) -> (r: ApiResult<Skill>)
        ensures
            match find_skill(self.repository.rows@, id) {
                Some(s) => r matches Ok(x) && x == s,
                None => r matches Err(ApiError::NotFound(m)) && m@ == skill_not_found_text(id),
            },
    {
        match self.repository.get_by_id(id) {
            Some(s) => Ok(s),
            None => Err(ApiError::NotFound(skill_not_found_message(id))),
        }
    }

    /// The skills of one category; a category outside the fixed set is a bad
    /// request.
    pub fn get_skills_by_category(&self, category: &str) -> (r: ApiResult<Vec<Skill>>)
        ensures
            category_of(category@) is None ==> (r matches Err(ApiError::BadRequest(m)) && m@
                == invalid_category_text(category@)),
            category_of(category@) is Some ==> (r matches Ok(v) && v@.to_multiset()
                == skills_in_category(self.repository.rows@, category@).to_multiset()
                && sorted_skills(true, v@)),
    {
        if SkillCategory::from_str(category).is_none() {
            return Err(ApiError::BadRequest(invalid_category_message(category)));
        }
        Ok(self.repository.get_by_category(category))
    }

    /// The skills at or above a level; levels outside one to five are a bad
    /// request.
    pub fn get_skills_by_min_level(&self, min_level: i32) -> (r: ApiResult<Vec<Skill>>)
        ensures
            !(1 <= min_level <= 5) ==> (r matches Err(ApiError::BadRequest(m)) && m@
                == "Skill level must be between 1 and 5"@),
            1 <= min_level <= 5 ==> (r matches Ok(v) && v@.to_multiset() == skills_at_least(
                self.repository.rows@,
                min_level,
            ).to_multiset() && sorted_skills(true, v@)),
    {
        if min_level < 1 || min_level > 5 {
            return Err(
                ApiError::BadRequest(String::from_str("Skill level must be between 1 and 5")),
            );
        }
        Ok(self.repository.get_by_min_level(min_level))
    }

    /// Create a skill: reject field violations, a category outside the fixed
    /// set, and a duplicate name (case-insensitively); otherwise store the
    /// trimmed payload stamped with `now`.
    pub fn create_skill(&mut self, skill_data: CreateSkill, now: i64) -> (r: ApiResult<Skill>)
        requires
            old(self).repository.wf(),
            old(self).repository.next_id < i32::MAX,
        ensures
            final(self).repository.wf(),
            ({
                let msgs = create_skill_messages(skill_data);
                let rows0 = old(self).repository.rows@;
                if msgs.len() > 0 {
                    &&& r matches Err(e) && e.is_validation_kind() && validation_messages_of(e)
                        == msgs && (e is Validation <==> msgs.len() == 1)
                    &&& final(self).repository == old(self).repository
                } else if category_of(skill_data.category@) is None {
                    &&& r matches Err(ApiError::BadRequest(m)) && m@ == invalid_category_text(
                        skill_data.category@,
                    )
                    &&& final(self).repository == old(self).repository
                } else if exists|k: int|
                    0 <= k < rows0.len() && lower_of((#[trigger] rows0[k]).name@) == lower_of(
                        trimmed(skill_data.name@),
                    ) {
                    &&& r matches Err(ApiError::Conflict(m)) && m@
                        == "A skill with this name already exists"@
                    &&& final(self).repository == old(self).repository
                } else {
                    &&& r matches Ok(s) && s.id == old(self).repository.next_id && s.name@
                        == trimmed(skill_data.name@) && s.category@ == trimmed(
                        skill_data.category@,
                    ) && s.level == skill_data.level && s.years_experience
                        == skill_data.years_experience && s.description == skill_data.description
                        && s.created_at == now && final(self).repository.rows@ == rows0.push(s)
                    &&& final(self).repository.next_id == old(self).repository.next_id + 1
                }
            }),
    {
        if let Err(msgs) = skill_data.validate() {
            return Err(ApiError::from_validation_errors(msgs));
        }
        if SkillCategory::from_str(skill_data.category.as_str()).is_none() {
            return Err(ApiError::BadRequest(invalid_category_message(skill_data.category.as_str())));
        }
        let name = trim_string(skill_data.name.as_str());
        let category = trim_string(skill_data.category.as_str());
        let lname = to_lowercase_string(name.as_str());
        if self.repository.contains_name_insensitive(&lname) {
            return Err(ApiError::Conflict(String::from_str("A skill with this name already exists")));
        }
        let sanitized = CreateSkill {
            name,
            category,
            level: skill_data.level,
            years_experience: skill_data.years_experience,
            description: clone_opt_string(&skill_data.description),
        };
        let skill = self.repository.create(&sanitized, now);
        Ok(skill)
    }

    /// Update a skill: reject field violations, an empty payload, and a
    /// category outside the fixed set; otherwise merge the trimmed payload
    /// into the stored row.
    pub fn update_skill(&mut self, id: i32, skill_data: UpdateSkill) -> (r: ApiResult<Skill>)
        requires
            old(self).repository.wf(),
        ensures
            final(self).repository.wf(),
            final(self).repository.next_id == old(self).repository.next_id,
            ({
                let msgs = update_skill_messages(skill_data);
                let rows0 = old(self).repository.rows@;
                let any = skill_data.name is Some || skill_data.category is Some
                    || skill_data.level is Some || skill_data.years_experience is Some
                    || skill_data.description is Some;
                if msgs.len() > 0 {
                    &&& r matches Err(e) && e.is_validation_kind() && validation_messages_of(e)
                        == msgs
                    &&& final(self).repository == old(self).repository
                } else if !any {
                    &&& r matches Err(ApiError::BadRequest(m)) && m@ == "No updates provided"@
                    &&& final(self).repository == old(self).repository
                } else if bad_update_category(skill_data) {
                    &&& r matches Err(ApiError::BadRequest(m)) && (skill_data.category matches Some(
                        c,
                    ) && m@ == invalid_category_text(c@))
                    &&& final(self).repository == old(self).repository
                } else {
                    match skill_idx(rows0, id) {
                        Some(i) => {
                            &&& r matches Ok(s) && s.id == rows0[i].id && s.name@ == (
                            match skill_data.name {
                                Some(nm) => trimmed(nm@),
                                None => rows0[i].name@,
                            }) && s.category@ == (match skill_data.category {
                                Some(c) => trimmed(c@),
                                None => rows0[i].category@,
                            }) && s.level == (match skill_data.level {
                                Some(l) => l,
                                None => rows0[i].level,
                            }) && s.years_experience == (match skill_data.years_experience {
                                Some(y) => Some(y),
                                None => rows0[i].years_experience,
                            }) && s.description == (match skill_data.description {
                                Some(d) => Some(d),
                                None => rows0[i].description,
                            }) && s.created_at == rows0[i].created_at && final(self).repository.rows@ == rows0.update(i, s)
                        },
                        None => r matches Err(ApiError::NotFound(m)) && m@
                            == skill_not_found_text(id) && final(self).repository == old(
                            self,
                        ).repository,
                    }
                }
            }),
    {
        if let Err(msgs) = skill_data.validate() {
            return Err(ApiError::from_validation_errors(msgs));
        }
        let any = skill_data.name.is_some() || skill_data.category.is_some()
            || skill_data.level.is_some() || skill_data.years_experience.is_some()
            || skill_data.description.is_some();
        if !any {
            return Err(ApiError::BadRequest(String::from_str("No updates provided")));
        }
        if let Some(c) = &skill_data.category {
            if SkillCategory::from_str(c.as_str()).is_none() {
                return Err(ApiError::BadRequest(invalid_category_message(c.as_str())));
            }
        }
        let sanitized = UpdateSkill {
            name: match &skill_data.name {
                Some(s) => Some(trim_string(s.as_str())),
                None => None,
            },
            category: match &skill_data.category {
                Some(s) => Some(trim_string(s.as_str())),
                None => None,
            },
            level: skill_data.level,
            years_experience: skill_data.years_experience,
            description: clone_opt_string(&skill_data.description),
        };
        match self.repository.update(id, &sanitized) {
            Some(s) => Ok(s),
            None => Err(ApiError::NotFound(skill_not_found_message(id))),
        }
    }

    /// Delete a skill; a missing id is a not-found error.
    pub fn delete_skill(&mut self, id: i32) -> (r: ApiResult<()>)
        requires
            old(self).repository.wf(),
        ensures
            final(self).repository.wf(),
            final(self).repository.next_id == old(self).repository.next_id,
            match skill_idx(old(self).repository.rows@, id) {
                Some(i) => r is Ok && final(self).repository.rows@ == old(self).repository.rows@.remove(i),
                None => r matches Err(ApiError::NotFound(m)) && m@ == skill_not_found_text(id)
                    && final(self).repository == old(self).repository,
            },
    {
        if self.repository.delete(id) {
            Ok(())
        } else {
            Err(ApiError::NotFound(skill_not_found_message(id)))
        }
    }

    /// The distinct categories in use, sorted by characters.
    pub fn get_categories(&self) -> (r: ApiResult<Vec<String>>)
        ensures
            r matches Ok(v) && categories_listing(self.repository.rows@, v@),
    {
        Ok(self.repository.get_categories())
    }

    /// The fixed category set.
    pub fn get_available_categories(&self) -> (r: Vec<&'static str>)
        ensures
            r.deep_view() =~= seq![
                "Frontend"@,
                "Backend"@,
                "Database"@,
                "DevOps"@,
                "Tools"@,
                "Mobile"@,
                "Other"@,
            ],
    {
        SkillCategory::all()
    }
}

} // verus!

