//! The profile: a singleton entity with partial-merge updates, field
//! validation, the in-memory store, and the service above it.
use vstd::prelude::*;

use crate::error::{validation_messages_of, ApiError, ApiResult};
use crate::text::{clone_opt_string, lower_of, trim_and_lower_string, trim_string, trimmed};
use crate::validate::{check_email, check_url, email_valid, url_valid};

verus! {

/// The developer's profile; one row with a fixed id.
#[derive(Debug)]
pub struct Profile {
    pub id: i32,
    pub name: String,
    pub title: String,
    pub bio: String,
    pub email: String,
    pub phone: Option<String>,
    pub location: String,
    pub linkedin_url: Option<String>,
    pub github_url: Option<String>,
    pub twitter_url: Option<String>,
    pub updated_at: i64,
}

impl Clone for Profile {
    fn clone(&self) -> (r: Self)
        ensures
            r == *self,
    {
        Profile {
            id: self.id,
            name: self.name.clone(),
            title: self.title.clone(),
            bio: self.bio.clone(),
            email: self.email.clone(),
            phone: clone_opt_string(&self.phone),
            location: self.location.clone(),
            linkedin_url: clone_opt_string(&self.linkedin_url),
            github_url: clone_opt_string(&self.github_url),
            twitter_url: clone_opt_string(&self.twitter_url),
            updated_at: self.updated_at,
        }
    }
}

/// Request payload for updating the profile; an absent field means no
/// change.
#[derive(Debug)]
pub struct UpdateProfile {
    pub name: Option<String>,
    pub title: Option<String>,
    pub bio: Option<String>,
    pub email: Option<String>,
    pub phone: Option<String>,
    pub location: Option<String>,
    pub linkedin_url: Option<String>,
    pub github_url: Option<String>,
    pub twitter_url: Option<String>,
}

impl Clone for UpdateProfile {
    fn clone(&self) -> (r: Self)
        ensures
            r == *self,
    {
        UpdateProfile {
            name: clone_opt_string(&self.name),
            title: clone_opt_string(&self.title),
            bio: clone_opt_string(&self.bio),
            email: clone_opt_string(&self.email),
            phone: clone_opt_string(&self.phone),
            location: clone_opt_string(&self.location),
            linkedin_url: clone_opt_string(&self.linkedin_url),
            github_url: clone_opt_string(&self.github_url),
            twitter_url: clone_opt_string(&self.twitter_url),
        }
    }
}

impl Default for UpdateProfile {
    /// The payload that changes nothing.
    fn default() -> (r: Self)
        ensures
            r.name is None && r.title is None && r.bio is None && r.email is None && r.phone
                is None && r.location is None && r.linkedin_url is None && r.github_url is None
                && r.twitter_url is None,
    {
        UpdateProfile {
            name: None,
            title: None,
            bio: None,
            email: None,
            phone: None,
            location: None,
            linkedin_url: None,
            github_url: None,
            twitter_url: None,
        }
    }
}

// ---------------------------------------------------------------------------
// Field validation.
// ---------------------------------------------------------------------------

/// The validation messages owed to the name, title and bio fields.
pub open spec fn profile_text_messages(d: UpdateProfile) -> Seq<Seq<char>> {
    (if match d.name {
        Some(s) => 1 <= s@.len() <= 100,
        None => true,
    } {
        Seq::<Seq<char>>::empty()
    } else {
        seq!["name: Name must be between 1 and 100 characters"@]
    }) + (if match d.title {
        Some(s) => 1 <= s@.len() <= 200,
        None => true,
    } {
        Seq::<Seq<char>>::empty()
    } else {
        seq!["title: Title must be between 1 and 200 characters"@]
    }) + (if match d.bio {
        Some(s) => 1 <= s@.len() <= 1000,
        None => true,
    } {
        Seq::<Seq<char>>::empty()
    } else {
        seq!["bio: Bio must be between 1 and 1000 characters"@]
    })
}

/// The validation messages owed to the email, phone and location fields.
pub open spec fn profile_reach_messages(d: UpdateProfile) -> Seq<Seq<char>> {
    (if match d.email {
        Some(s) => email_valid(s@),
        None => true,
    } {
        Seq::<Seq<char>>::empty()
    } else {
        seq!["email: Email must be a valid email address"@]
    }) + (if match d.phone {
        Some(s) => s@.len() <= 20,
        None => true,
    } {
        Seq::<Seq<char>>::empty()
    } else {
        seq!["phone: Phone number must be less than 20 characters"@]
    }) + (if match d.location {
        Some(s) => 1 <= s@.len() <= 100,
        None => true,
    } {
        Seq::<Seq<char>>::empty()
    } else {
        seq!["location: Location must be between 1 and 100 characters"@]
    })
}

/// The validation messages owed to the three social link fields.
pub open spec fn profile_url_messages(d: UpdateProfile) -> Seq<Seq<char>> {
    (if match d.linkedin_url {
        Some(s) => url_valid(s@),
        None => true,
    } {
        Seq::<Seq<char>>::empty()
    } else {
        seq!["linkedin_url: LinkedIn URL must be a valid URL"@]
    }) + (if match d.github_url {
        Some(s) => url_valid(s@),
        None => true,
    } {
        Seq::<Seq<char>>::empty()
    } else {
        seq!["github_url: GitHub URL must be a valid URL"@]
    }) + (if match d.twitter_url {
        Some(s) => url_valid(s@),
        None => true,
    } {
        Seq::<Seq<char>>::empty()
    } else {
        seq!["twitter_url: Twitter URL must be a valid URL"@]
    })
}

/// The validation messages owed to an update payload, in field order; absent
/// fields are not checked.
pub open spec fn update_profile_messages(d: UpdateProfile) -> Seq<Seq<char>> {
    profile_text_messages(d) + profile_reach_messages(d) + profile_url_messages(d)
}

impl UpdateProfile {
    /// Check the field constraints of the present fields; `Err` carries one
    /// message per violated constraint, in field order.
    #[verifier::rlimit(100)]
    #[verifier::spinoff_prover]
    pub fn validate(&self) -> (r: Result<(), Vec<String>>)
        ensures
            r is Ok <==> update_profile_messages(*self).len() == 0,
            r matches Err(v) ==> v.deep_view() == update_profile_messages(*self),
    {
        let mut errors: Vec<String> = Vec::new();
        let name_ok = match &self.name {
            Some(s) => {
                let n = s.as_str().unicode_len();
                1 <= n && n <= 100
            },
            None => true,
        };
        if !name_ok {
            errors.push(String::from_str("name: Name must be between 1 and 100 characters"));
        }
        let title_ok = match &self.title {
            Some(s) => {
                let n = s.as_str().unicode_len();
                1 <= n && n <= 200
            },
            None => true,
        };
        if !title_ok {
            errors.push(String::from_str("title: Title must be between 1 and 200 characters"));
        }
        let bio_ok = match &self.bio {
            Some(s) => {
                let n = s.as_str().unicode_len();
                1 <= n && n <= 1000
            },
            None => true,
        };
        if !bio_ok {
            errors.push(String::from_str("bio: Bio must be between 1 and 1000 characters"));
        }
        proof {
            assert(errors.deep_view() =~= profile_text_messages(*self));
        }
        let ghost after_text = errors.deep_view();
        let email_ok = match &self.email {
            Some(s) => check_email(s.as_str()),
            None => true,
        };
        if !email_ok {
            errors.push(String::from_str("email: Email must be a valid email address"));
        }
        let phone_ok = match &self.phone {
            Some(s) => s.as_str().unicode_len() <= 20,
            None => true,
        };
        if !phone_ok {
            errors.push(String::from_str("phone: Phone number must be less than 20 characters"));
        }
        let location_ok = match &self.location {
            Some(s) => {
                let n = s.as_str().unicode_len();
                1 <= n && n <= 100
            },
            None => true,
        };
        if !location_ok {
            errors.push(
                String::from_str("location: Location must be between 1 and 100 characters"),
            );
        }
        proof {
            assert(errors.deep_view() =~= after_text + profile_reach_messages(*self));
        }
        let ghost after_reach = errors.deep_view();
        let linkedin_ok = match &self.linkedin_url {
            Some(s) => check_url(s.as_str()),
            None => true,
        };
        if !linkedin_ok {
            errors.push(String::from_str("linkedin_url: LinkedIn URL must be a valid URL"));
        }
        let github_ok = match &self.github_url {
            Some(s) => check_url(s.as_str()),
            None => true,
        };
        if !github_ok {
            errors.push(String::from_str("github_url: GitHub URL must be a valid URL"));
        }
        let twitter_ok = match &self.twitter_url {
            Some(s) => check_url(s.as_str()),
            None => true,
        };
        if !twitter_ok {
            errors.push(String::from_str("twitter_url: Twitter URL must be a valid URL"));
        }
        proof {
            assert(errors.deep_view() =~= after_reach + profile_url_messages(*self));
            assert(errors.deep_view() =~= update_profile_messages(*self));
        }
        if errors.len() == 0 {
            Ok(())
        } else {
            Err(errors)
        }
    }

    /// Whether any field is being updated.
    pub fn has_updates(&self) -> (r: bool)
        ensures
            r == (self.name is Some || self.title is Some || self.bio is Some || self.email
                is Some || self.phone is Some || self.location is Some || self.linkedin_url
                is Some || self.github_url is Some || self.twitter_url is Some),
    {
        self.name.is_some() || self.title.is_some() || self.bio.is_some() || self.email.is_some()
            || self.phone.is_some() || self.location.is_some() || self.linkedin_url.is_some()
            || self.github_url.is_some() || self.twitter_url.is_some()
    }
}

// ---------------------------------------------------------------------------
// Derived views of the profile.
// ---------------------------------------------------------------------------

/// The social links a profile carries: platform name and address, in the
/// fixed platform order.
pub open spec fn social_links_of(p: Profile) -> Seq<(Seq<char>, Seq<char>)> {
    (match p.linkedin_url {
        Some(u) => seq![("LinkedIn"@, u@)],
        None => Seq::empty(),
    }) + (match p.github_url {
        Some(u) => seq![("GitHub"@, u@)],
        None => Seq::empty(),
    }) + (match p.twitter_url {
        Some(u) => seq![("Twitter"@, u@)],
        None => Seq::empty(),
    })
}

impl Profile {
    /// The social links, as platform and address pairs.
    pub fn get_social_links(&self) -> (r: Vec<(String, String)>)
        ensures
            Seq::new(r@.len(), |i: int| (r@[i].0@, r@[i].1@)) == social_links_of(*self),
    {
        let mut links: Vec<(String, String)> = Vec::new();
        if let Some(linkedin) = &self.linkedin_url {
            links.push((String::from_str("LinkedIn"), linkedin.clone()));
        }
        if let Some(github) = &self.github_url {
            links.push((String::from_str("GitHub"), github.clone()));
        }
        if let Some(twitter) = &self.twitter_url {
            links.push((String::from_str("Twitter"), twitter.clone()));
        }
        proof {
            assert(Seq::new(links@.len(), |i: int| (links@[i].0@, links@[i].1@)) =~= social_links_of(
                *self,
            ));
        }
        links
    }

    /// Whether the basic fields are all filled in.
    pub fn is_complete(&self) -> (r: bool)
        ensures
            r == (self.name@.len() > 0 && self.title@.len() > 0 && self.bio@.len() > 0
                && self.email@.len() > 0 && self.location@.len() > 0),
    {
        !self.name.as_str().is_empty() && !self.title.as_str().is_empty()
            && !self.bio.as_str().is_empty() && !self.email.as_str().is_empty()
            && !self.location.as_str().is_empty()
    }

    /// The name to display: the name, or the email when the name is empty.
    pub fn display_name(&self) -> (r: &str)
        ensures
            self.name@.len() == 0 ==> r@ == self.email@,
            self.name@.len() > 0 ==> r@ == self.name@,
    {
        if self.name.as_str().is_empty() {
            self.email.as_str()
        } else {
            self.name.as_str()
        }
    }
}

// ---------------------------------------------------------------------------
// The store: the singleton row.
// ---------------------------------------------------------------------------

/// The profile table: at most one row.
pub struct ProfileStore {
    pub row: Option<Profile>,
}

impl ProfileStore {
    /// An empty table.
    pub fn new() -> (r: Self)
        ensures
            r.row is None,
    {
        ProfileStore { row: None }
    }

    /// The row, if one has been created.
    pub fn get(&self) -> (r: Option<Profile>)
        ensures
            r == self.row,
    {
        match &self.row {
            Some(p) => Some(p.clone()),
            None => None,
        }
    }

    /// Merge an update payload into the row, stamping the update time; the
    /// merged row is returned, or nothing when none exists.
    pub fn update(&mut self, u: &UpdateProfile, now: i64) -> (r: Option<Profile>)
        ensures
            match old(self).row {
                Some(row) => {
                    &&& r matches Some(p)
                    &&& p.id == row.id
                    &&& p.name == (match u.name {
                        Some(v) => v,
                        None => row.name,
                    })
                    &&& p.title == (match u.title {
                        Some(v) => v,
                        None => row.title,
                    })
                    &&& p.bio == (match u.bio {
                        Some(v) => v,
                        None => row.bio,
                    })
                    &&& p.email == (match u.email {
                        Some(v) => v,
                        None => row.email,
                    })
                    &&& p.phone == (match u.phone {
                        Some(v) => Some(v),
                        None => row.phone,
                    })
                    &&& p.location == (match u.location {
                        Some(v) => v,
                        None => row.location,
                    })
                    &&& p.linkedin_url == (match u.linkedin_url {
                        Some(v) => Some(v),
                        None => row.linkedin_url,
                    })
                    &&& p.github_url == (match u.github_url {
                        Some(v) => Some(v),
                        None => row.github_url,
                    })
                    &&& p.twitter_url == (match u.twitter_url {
                        Some(v) => Some(v),
                        None => row.twitter_url,
                    })
                    &&& p.updated_at == now
                    &&& final(self).row == Some(p)
                },
                None => r is None && *final(self) == *old(self),
            },
    {
        match &self.row {
            Some(row) => {
                let merged = Profile {
                    id: row.id,
                    name: match &u.name {
                        Some(v) => v.clone(),
                        None => row.name.clone(),
                    },
                    title: match &u.title {
                        Some(v) => v.clone(),
                        None => row.title.clone(),
                    },
                    bio: match &u.bio {
                        Some(v) => v.clone(),
                        None => row.bio.clone(),
                    },
                    email: match &u.email {
                        Some(v) => v.clone(),
                        None => row.email.clone(),
                    },
                    phone: match &u.phone {
                        Some(v) => Some(v.clone()),
                        None => clone_opt_string(&row.phone),
                    },
                    location: match &u.location {
                        Some(v) => v.clone(),
                        None => row.location.clone(),
                    },
                    linkedin_url: match &u.linkedin_url {
                        Some(v) => Some(v.clone()),
                        None => clone_opt_string(&row.linkedin_url),
                    },
                    github_url: match &u.github_url {
                        Some(v) => Some(v.clone()),
                        None => clone_opt_string(&row.github_url),
                    },
                    twitter_url: match &u.twitter_url {
                        Some(v) => Some(v.clone()),
                        None => clone_opt_string(&row.twitter_url),
                    },
                    updated_at: now,
                };
                let out = merged.clone();
                self.row = Some(merged);
                Some(out)
            },
            None => None,
        }
    }

    /// Create or replace the initial row with the given basic fields.
    pub fn create_initial(
        &mut self,
        name: String,
        title: String,
        bio: String,
        email: String,
        location: String,
        now: i64,
    ) -> (r: Profile)
        ensures
            r.id == 1 && r.name == name && r.title == title && r.bio == bio && r.email == email
                && r.phone is None && r.location == location && r.linkedin_url is None
                && r.github_url is None && r.twitter_url is None && r.updated_at == now,
            final(self).row == Some(r),
    {
        let row = Profile {
            id: 1,
            name,
            title,
            bio,
            email,
            phone: None,
            location,
            linkedin_url: None,
            github_url: None,
            twitter_url: None,
            updated_at: now,
        };
        let out = row.clone();
        self.row = Some(row);
        out
    }

    /// Whether the row is present.
    pub fn has_row(&self) -> (r: bool)
        ensures
            r == (self.row is Some),
    {
        self.row.is_some()
    }
}

// ---------------------------------------------------------------------------
// The service: validation, normalization and the merge above the store.
// ---------------------------------------------------------------------------

/// The public-safe subset of the profile.
#[derive(Debug)]
pub struct ProfileSummary {
    pub name: String,
    pub title: String,
    pub location: String,
    pub social_links: Vec<(String, String)>,
}

/// Whether a present free-text field trims to nothing: the emptiness rule
/// for profile updates.
pub open spec fn blank_field(f: Option<String>) -> bool {
    match f {
        Some(s) => trimmed(s@).len() == 0,
        None => false,
    }
}

/// Profile business logic over the singleton store.
pub struct ProfileService {
    pub repository: ProfileStore,
}

impl ProfileService {
    /// A service over an empty store.
    pub fn new() -> (r: Self)
        ensures
            r.repository.row is None,
    {
        ProfileService { repository: ProfileStore::new() }
    }

    /// The profile, or a not-found error when none has been created.
    pub fn get_profile(&self) -> (r: ApiResult<Profile>)
        ensures
            match self.repository.row {
                Some(p) => r matches Ok(x) && x == p,
                None => r matches Err(ApiError::NotFound(m)) && m@ == "Profile not found"@,
            },
    {
        match self.repository.get() {
            Some(p) => Ok(p),
            None => Err(ApiError::NotFound(String::from_str("Profile not found"))),
        }
    }

    /// Update the profile: reject field violations, an empty payload, and a
    /// free-text field that trims to nothing; otherwise merge the trimmed
    /// payload, the email lowercased, stamping the update time with `now`.
    pub fn update_profile(&mut self, profile_data: UpdateProfile, now: i64) -> (r: ApiResult<
        Profile,
    >)
        ensures
            ({
                let msgs = update_profile_messages(profile_data);
                let any = profile_data.name is Some || profile_data.title is Some
                    || profile_data.bio is Some || profile_data.email is Some || profile_data.phone
                    is Some || profile_data.location is Some || profile_data.linkedin_url is Some
                    || profile_data.github_url is Some || profile_data.twitter_url is Some;
                if msgs.len() > 0 {
                    &&& r matches Err(e) && e.is_validation_kind() && validation_messages_of(e)
                        == msgs
                    &&& final(self).repository == old(self).repository
                } else if !any {
                    &&& r matches Err(ApiError::BadRequest(m)) && m@ == "No updates provided"@
                    &&& final(self).repository == old(self).repository
                } else if blank_field(profile_data.name) {
                    &&& r matches Err(ApiError::BadRequest(m)) && m@ == "Name cannot be empty"@
                    &&& final(self).repository == old(self).repository
                } else if blank_field(profile_data.title) {
                    &&& r matches Err(ApiError::BadRequest(m)) && m@ == "Title cannot be empty"@
                    &&& final(self).repository == old(self).repository
                } else if blank_field(profile_data.bio) {
                    &&& r matches Err(ApiError::BadRequest(m)) && m@ == "Bio cannot be empty"@
                    &&& final(self).repository == old(self).repository
                } else if blank_field(profile_data.location) {
                    &&& r matches Err(ApiError::BadRequest(m)) && m@ == "Location cannot be empty"@
                    &&& final(self).repository == old(self).repository
                } else {
                    match old(self).repository.row {
                        Some(row) => {
                            &&& r matches Ok(p)
                            &&& p.id == row.id
                            &&& p.name@ == (match profile_data.name {
                                Some(v) => trimmed(v@),
                                None => row.name@,
                            })
                            &&& p.title@ == (match profile_data.title {
                                Some(v) => trimmed(v@),
                                None => row.title@,
                            })
                            &&& p.bio@ == (match profile_data.bio {
                                Some(v) => trimmed(v@),
                                None => row.bio@,
                            })
                            &&& p.email@ == (match profile_data.email {
                                Some(v) => lower_of(trimmed(v@)),
                                None => row.email@,
                            })
                            &&& p.phone == (match profile_data.phone {
                                Some(v) => Some(v),
                                None => row.phone,
                            })
                            &&& p.location@ == (match profile_data.location {
                                Some(v) => trimmed(v@),
                                None => row.location@,
                            })
                            &&& p.linkedin_url == (match profile_data.linkedin_url {
                                Some(v) => Some(v),
                                None => row.linkedin_url,
                            })
                            &&& p.github_url == (match profile_data.github_url {
                                Some(v) => Some(v),
                                None => row.github_url,
                            })
                            &&& p.twitter_url == (match profile_data.twitter_url {
                                Some(v) => Some(v),
                                None => row.twitter_url,
                            })
                            &&& p.updated_at == now
                            &&& final(self).repository.row == Some(p)
                        },
                        None => r matches Err(ApiError::NotFound(m)) && m@ == "Profile not found"@
                            && final(self).repository == old(self).repository,
                    }
                }
            }),
    {
        if let Err(msgs) = profile_data.validate() {
            return Err(ApiError::from_validation_errors(msgs));
        }
        if !profile_data.has_updates() {
            return Err(ApiError::BadRequest(String::from_str("No updates provided")));
        }
        let name = match &profile_data.name {
            Some(v) => {
                let t = trim_string(v.as_str());
                if t.as_str().is_empty() {
                    return Err(ApiError::BadRequest(String::from_str("Name cannot be empty")));
                }
                Some(t)
            },
            None => None,
        };
        let title = match &profile_data.title {
            Some(v) => {
                let t = trim_string(v.as_str());
                if t.as_str().is_empty() {
                    return Err(ApiError::BadRequest(String::from_str("Title cannot be empty")));
                }
                Some(t)
            },
            None => None,
        };
        let bio = match &profile_data.bio {
            Some(v) => {
                let t = trim_string(v.as_str());
                if t.as_str().is_empty() {
                    return Err(ApiError::BadRequest(String::from_str("Bio cannot be empty")));
                }
                Some(t)
            },
            None => None,
        };
        let email = match &profile_data.email {
            Some(v) => Some(trim_and_lower_string(v.as_str())),
            None => None,
        };
        let location = match &profile_data.location {
            Some(v) => {
                let t = trim_string(v.as_str());
                if t.as_str().is_empty() {
                    return Err(
                        ApiError::BadRequest(String::from_str("Location cannot be empty")),
                    );
                }
                Some(t)
            },
            None => None,
        };
        let sanitized = UpdateProfile {
            name,
            title,
            bio,
            email,
            phone: clone_opt_string(&profile_data.phone),
            location,
            linkedin_url: clone_opt_string(&profile_data.linkedin_url),
            github_url: clone_opt_string(&profile_data.github_url),
            twitter_url: clone_opt_string(&profile_data.twitter_url),
        };
        match self.repository.update(&sanitized, now) {
            Some(p) => Ok(p),
            None => Err(ApiError::NotFound(String::from_str("Profile not found"))),
        }
    }

    /// Whether the profile exists.
    pub fn profile_exists(&self) -> (r: ApiResult<bool>)
        ensures
            r matches Ok(b) && b == (self.repository.row is Some),
    {
        Ok(self.repository.has_row())
    }

    /// The public-safe subset: name, title, location and the social links.
    pub fn get_profile_summary(&self) -> (r: ApiResult<ProfileSummary>)
        ensures
            match self.repository.row {
                Some(p) => r matches Ok(s) && s.name == p.name && s.title == p.title && s.location
                    == p.location && Seq::new(
                    s.social_links@.len(),
                    |i: int| (s.social_links@[i].0@, s.social_links@[i].1@),
                ) == social_links_of(p),
                None => r matches Err(ApiError::NotFound(m)) && m@ == "Profile not found"@,
            },
    {
        let profile = match self.repository.get() {
            Some(p) => p,
            None => {
                return Err(ApiError::NotFound(String::from_str("Profile not found")));
            },
        };
        let social_links = profile.get_social_links();
        Ok(
            ProfileSummary {
                name: profile.name,
                title: profile.title,
                location: profile.location,
                social_links,
            },
        )
    }
}

} // verus!
