//! Contact messages: the entity, sanitization and validation of submissions,
//! spam heuristics, the in-memory store with the repository operations, and
//! the service holding the rate limit and the admin operations.
use vstd::prelude::*;

use crate::envelope::{page_offset, page_slice, spec_offset};
use crate::error::{validation_messages_of, ApiError, ApiResult};
use crate::text::{
    all_num_or_space, alpha_count, chars_of, contains_seq, count_alpha_and_upper, count_char,
    count_words, i64_to_string, int_str, lower_of, occurrences, str_contains_sub,
    string_from_chars, stripped, to_lowercase_string, trim_and_lower_string,
    trim_and_strip_string, trim_string, trimmed, upper_alpha_count, word_count,
};
use crate::validate::{check_email, email_valid};

verus! {

/// Number of seconds in one day.
pub const DAY_SECONDS: i64 = 86400;

/// A message received through the contact form.
#[derive(Debug)]
pub struct ContactMessage {
    pub id: i32,
    pub name: String,
    pub email: String,
    pub subject: String,
    pub message: String,
    pub created_at: i64,
}

impl Clone for ContactMessage {
    fn clone(&self) -> (r: Self)
        ensures
            r == *self,
    {
        ContactMessage {
            id: self.id,
            name: self.name.clone(),
            email: self.email.clone(),
            subject: self.subject.clone(),
            message: self.message.clone(),
            created_at: self.created_at,
        }
    }
}

/// Request payload of a contact form submission.
#[derive(Debug)]
pub struct CreateContactMessage {
    pub name: String,
    pub email: String,
    pub subject: String,
    pub message: String,
}

impl Clone for CreateContactMessage {
    fn clone(&self) -> (r: Self)
        ensures
            r == *self,
    {
        CreateContactMessage {
            name: self.name.clone(),
            email: self.email.clone(),
            subject: self.subject.clone(),
            message: self.message.clone(),
        }
    }
}

// ---------------------------------------------------------------------------
// Sanitization and field validation.
// ---------------------------------------------------------------------------

/// The validation messages owed to submission fields, in field order.
pub open spec fn contact_field_messages(
    name: Seq<char>,
    email: Seq<char>,
    subject: Seq<char>,
    message: Seq<char>,
) -> Seq<Seq<char>> {
    (if 1 <= name.len() <= 100 {
        Seq::<Seq<char>>::empty()
    } else {
        seq!["name: Name must be between 1 and 100 characters"@]
    }) + (if email_valid(email) {
        Seq::<Seq<char>>::empty()
    } else {
        seq!["email: Email must be a valid email address"@]
    }) + (if 1 <= subject.len() <= 200 {
        Seq::<Seq<char>>::empty()
    } else {
        seq!["subject: Subject must be between 1 and 200 characters"@]
    }) + (if 1 <= message.len() <= 2000 {
        Seq::<Seq<char>>::empty()
    } else {
        seq!["message: Message must be between 1 and 2000 characters"@]
    })
}

/// Whether a message body has meaningful content: at least three words and
/// not made of digits and whitespace alone.
pub open spec fn meaningful_content(message: Seq<char>) -> bool {
    word_count(message) >= 3 && !all_num_or_space(message)
}

impl CreateContactMessage {
    /// Check the field constraints; `Err` carries one message per violated
    /// constraint, in field order.
    pub fn validate(&self) -> (r: Result<(), Vec<String>>)
        ensures
            r is Ok <==> contact_field_messages(
                self.name@,
                self.email@,
                self.subject@,
                self.message@,
            ).len() == 0,
            r matches Err(v) ==> v.deep_view() == contact_field_messages(
                self.name@,
                self.email@,
                self.subject@,
                self.message@,
            ),
    {
        let mut errors: Vec<String> = Vec::new();
        let name_len = self.name.as_str().unicode_len();
        if !(1 <= name_len && name_len <= 100) {
            errors.push(String::from_str("name: Name must be between 1 and 100 characters"));
        }
        if !check_email(self.email.as_str()) {
            errors.push(String::from_str("email: Email must be a valid email address"));
        }
        let subject_len = self.subject.as_str().unicode_len();
        if !(1 <= subject_len && subject_len <= 200) {
            errors.push(String::from_str("subject: Subject must be between 1 and 200 characters"));
        }
        let message_len = self.message.as_str().unicode_len();
        if !(1 <= message_len && message_len <= 2000) {
            errors.push(String::from_str("message: Message must be between 1 and 2000 characters"));
        }
        proof {
            assert(errors.deep_view() =~= contact_field_messages(
                self.name@,
                self.email@,
                self.subject@,
                self.message@,
            ));
        }
        if errors.len() == 0 {
            Ok(())
        } else {
            Err(errors)
        }
    }

    /// Sanitize the submission in place: trim every field, lowercase the
    /// email, and strip control characters (keeping newline and tab) from
    /// the free-text fields.
    pub fn sanitize(&mut self)
        ensures
            final(self).name@ == stripped(trimmed(old(self).name@)),
            final(self).email@ == lower_of(trimmed(old(self).email@)),
            final(self).subject@ == stripped(trimmed(old(self).subject@)),
            final(self).message@ == stripped(trimmed(old(self).message@)),
    {
        self.name = trim_and_strip_string(self.name.as_str());
        self.email = trim_and_lower_string(self.email.as_str());
        self.subject = trim_and_strip_string(self.subject.as_str());
        self.message = trim_and_strip_string(self.message.as_str());
    }

    /// Whether the message body has meaningful content.
    pub fn is_valid_content(&self) -> (r: bool)
        ensures
            r == meaningful_content(self.message@),
    {
        let v = chars_of(self.message.as_str());
        let words = count_words(&v);
        if words < 3 {
            return false;
        }
        let numeric = crate::text::chars_all_num_or_space(&v);
        !numeric
    }
}

// ---------------------------------------------------------------------------
// Recency, preview and spam heuristics.
// ---------------------------------------------------------------------------

/// Whether a message was created within the day before `now`.
pub open spec fn recent_at(created_at: i64, now: i64) -> bool {
    now - created_at < DAY_SECONDS
}

/// Whether every row was created at or before `now`: what a monotone clock
/// guarantees of a table it has filled.
pub open spec fn message_stamps_at_most(rows: Seq<ContactMessage>, now: i64) -> bool {
    forall|k: int| 0 <= k < rows.len() ==> (#[trigger] rows[k]).created_at <= now
}

/// Whether a message hits the spam heuristics: a flagged keyword in the
/// lowercased body or subject, over half of the alphabetic characters
/// uppercase, or more than five exclamation marks.
pub open spec fn spec_is_spam(subject: Seq<char>, message: Seq<char>) -> bool {
    ||| has_spam_keyword(lower_of(message), lower_of(subject))
    ||| (alpha_count(message) > 0 && 2 * upper_alpha_count(message) > alpha_count(message))
    ||| occurrences(message, '!') > 5
}

/// Whether one of the flagged keywords occurs in the lowercased body or
/// subject.
pub open spec fn has_spam_keyword(lmessage: Seq<char>, lsubject: Seq<char>) -> bool {
    ||| contains_seq(lmessage, "viagra"@) || contains_seq(lsubject, "viagra"@)
    ||| contains_seq(lmessage, "casino"@) || contains_seq(lsubject, "casino"@)
    ||| contains_seq(lmessage, "lottery"@) || contains_seq(lsubject, "lottery"@)
    ||| contains_seq(lmessage, "winner"@) || contains_seq(lsubject, "winner"@)
    ||| contains_seq(lmessage, "congratulations"@) || contains_seq(lsubject, "congratulations"@)
    ||| contains_seq(lmessage, "click here"@) || contains_seq(lsubject, "click here"@)
    ||| contains_seq(lmessage, "free money"@) || contains_seq(lsubject, "free money"@)
    ||| contains_seq(lmessage, "urgent"@) || contains_seq(lsubject, "urgent"@)
    ||| contains_seq(lmessage, "act now"@) || contains_seq(lsubject, "act now"@)
    ||| contains_seq(lmessage, "limited time"@) || contains_seq(lsubject, "limited time"@)
}

/// What the outside date formatter renders an epoch second count as.
pub uninterp spec fn formatted_utc(t: i64) -> Seq<char>;

/// Relies on chrono's UTC timestamp formatting: the rendering depends on
/// the timestamp alone.
#[verifier::external_body]
fn format_timestamp(t: i64) -> (r: String)
    ensures
        r@ == formatted_utc(t),
{
    match chrono::DateTime::from_timestamp(t, 0) {
        Some(d) => d.format("%Y-%m-%d %H:%M UTC").to_string(),
        None => String::new(),
    }
}

impl ContactMessage {
    /// A short preview: the whole body when it has at most a hundred
    /// characters, else the first ninety-seven and an ellipsis.
    pub fn message_preview(&self) -> (r: String)
        ensures
            self.message@.len() <= 100 ==> r@ == self.message@,
            self.message@.len() > 100 ==> r@ == self.message@.subrange(0, 97) + "..."@,
    {
        let v = chars_of(self.message.as_str());
        if v.len() <= 100 {
            self.message.clone()
        } else {
            let mut p: Vec<char> = Vec::new();
            let mut i: usize = 0;
            while i < 97
                invariant
                    v@ == self.message@,
                    v@.len() > 100,
                    i <= 97,
                    p@ == self.message@.subrange(0, i as int),
                decreases 97 - i,
            {
                p.push(v[i]);
                proof {
                    assert(p@ =~= self.message@.subrange(0, i + 1 as int));
                }
                i = i + 1;
            }
            let mut s = string_from_chars(&p);
            s.append("...");
            s
        }
    }

    /// Whether the message was created within the day before `now`.
    pub fn is_recent(&self, now: i64) -> (r: bool)
        ensures
            r == recent_at(self.created_at, now),
    {
        let diff: i128 = now as i128 - self.created_at as i128;
        diff < DAY_SECONDS as i128
    }

    /// The creation time rendered as a UTC date.
    pub fn formatted_date(&self) -> (r: String)
        ensures
            r@ == formatted_utc(self.created_at),
    {
        format_timestamp(self.created_at)
    }

    /// Whether the message hits the spam heuristics.
    pub fn is_likely_spam(&self) -> (r: bool)
        ensures
            r == spec_is_spam(self.subject@, self.message@),
    {
        let lm = to_lowercase_string(self.message.as_str());
        let ls = to_lowercase_string(self.subject.as_str());
        let keyword_hit = str_contains_sub(lm.as_str(), "viagra") || str_contains_sub(
            ls.as_str(),
            "viagra",
        ) || str_contains_sub(lm.as_str(), "casino") || str_contains_sub(ls.as_str(), "casino")
            || str_contains_sub(lm.as_str(), "lottery") || str_contains_sub(ls.as_str(), "lottery")
            || str_contains_sub(lm.as_str(), "winner") || str_contains_sub(ls.as_str(), "winner")
            || str_contains_sub(lm.as_str(), "congratulations") || str_contains_sub(
            ls.as_str(),
            "congratulations",
        ) || str_contains_sub(lm.as_str(), "click here") || str_contains_sub(
            ls.as_str(),
            "click here",
        ) || str_contains_sub(lm.as_str(), "free money") || str_contains_sub(
            ls.as_str(),
            "free money",
        ) || str_contains_sub(lm.as_str(), "urgent") || str_contains_sub(ls.as_str(), "urgent")
            || str_contains_sub(lm.as_str(), "act now") || str_contains_sub(ls.as_str(), "act now")
            || str_contains_sub(lm.as_str(), "limited time") || str_contains_sub(
            ls.as_str(),
            "limited time",
        );
        if keyword_hit {
            return true;
        }
        let mv = chars_of(self.message.as_str());
        let counts = count_alpha_and_upper(&mv);
        let excessive_caps = counts.0 > 0 && counts.1 > counts.0 - counts.1;
        if excessive_caps {
            return true;
        }
        let exclamations = count_char(&mv, '!');
        exclamations > 5
    }
}

// ---------------------------------------------------------------------------
// The store: repository operations over an in-memory table.
// ---------------------------------------------------------------------------

/// Position of the row with the given id, if any.
pub open spec fn message_idx(rows: Seq<ContactMessage>, id: i32) -> Option<int>
    decreases rows.len(),
{
    if rows.len() == 0 {
        None
    } else if rows[0].id == id {
        Some(0int)
    } else {
        match message_idx(rows.drop_first(), id) {
            Some(i) => Some(i + 1),
            None => None,
        }
    }
}

/// The row with the given id, if any.
pub open spec fn find_message(rows: Seq<ContactMessage>, id: i32) -> Option<ContactMessage> {
    match message_idx(rows, id) {
        Some(i) => Some(rows[i]),
        None => None,
    }
}

/// What `message_idx` finds: the first position whose row carries the id.
pub proof fn lemma_message_idx(rows: Seq<ContactMessage>, id: i32)
    ensures
        match message_idx(rows, id) {
            Some(i) => 0 <= i < rows.len() && rows[i].id == id && forall|k: int|
                0 <= k < i ==> rows[k].id != id,
            None => forall|k: int| 0 <= k < rows.len() ==> rows[k].id != id,
        },
    decreases rows.len(),
{
    if rows.len() > 0 && rows[0].id != id {
        let rest = rows.drop_first();
        lemma_message_idx(rest, id);
        match message_idx(rest, id) {
            Some(i) => {
                assert(rows[i + 1] == rest[i]);
                assert forall|k: int| 0 <= k < i + 1 implies rows[k].id != id by {
                    if k >= 1 {
                        assert(rest[k - 1].id != id);
                    }
                }
            },
            None => {
                assert forall|k: int| 0 <= k < rows.len() implies rows[k].id != id by {
                    if k >= 1 {
                        assert(rest[k - 1].id != id);
                    }
                }
            },
        }
    }
}

/// The rows with the given email, newest first, taken from position `j` on.
pub open spec fn email_matches_from(
    rows: Seq<ContactMessage>,
    email: Seq<char>,
    j: int,
) -> Seq<ContactMessage>
    decreases rows.len() - j,
{
    if j < 0 || j >= rows.len() {
        Seq::empty()
    } else {
        email_matches_from(rows, email, j + 1) + if rows[j].email@ == email {
            seq![rows[j]]
        } else {
            Seq::empty()
        }
    }
}

/// Whether a search query hits a row: a case-insensitive substring match on
/// the name, the email or the subject.
pub open spec fn search_hits_message(m: ContactMessage, lquery: Seq<char>) -> bool {
    ||| contains_seq(lower_of(m.name@), lquery)
    ||| contains_seq(lower_of(m.email@), lquery)
    ||| contains_seq(lower_of(m.subject@), lquery)
}

/// The rows a search query hits, newest first, taken from position `j` on.
pub open spec fn search_matches_from(
    rows: Seq<ContactMessage>,
    lquery: Seq<char>,
    j: int,
) -> Seq<ContactMessage>
    decreases rows.len() - j,
{
    if j < 0 || j >= rows.len() {
        Seq::empty()
    } else {
        search_matches_from(rows, lquery, j + 1) + if search_hits_message(rows[j], lquery) {
            seq![rows[j]]
        } else {
            Seq::empty()
        }
    }
}

/// Whether a message falls within the last `days` days before `now`.
pub open spec fn within_days(created_at: i64, now: i64, days: i64) -> bool {
    created_at >= now - days * DAY_SECONDS
}

/// The rows within the last `days` days, newest first, taken from position
/// `j` on.
pub open spec fn recent_from(
    rows: Seq<ContactMessage>,
    now: i64,
    days: i64,
    j: int,
) -> Seq<ContactMessage>
    decreases rows.len() - j,
{
    if j < 0 || j >= rows.len() {
        Seq::empty()
    } else {
        recent_from(rows, now, days, j + 1) + if within_days(rows[j].created_at, now, days) {
            seq![rows[j]]
        } else {
            Seq::empty()
        }
    }
}

/// The rows kept by a cleanup with the given cutoff, in stored order, up to
/// position `n`: those at or after the cutoff.
pub open spec fn kept_after_upto(
    rows: Seq<ContactMessage>,
    now: i64,
    days: i64,
    n: int,
) -> Seq<ContactMessage>
    decreases n,
{
    if n <= 0 {
        Seq::empty()
    } else {
        kept_after_upto(rows, now, days, n - 1) + if rows[n - 1].created_at >= now - days
            * DAY_SECONDS {
            seq![rows[n - 1]]
        } else {
            Seq::empty()
        }
    }
}

/// The rows kept by a cleanup with the given cutoff, in stored order.
pub open spec fn kept_after(rows: Seq<ContactMessage>, now: i64, days: i64) -> Seq<
    ContactMessage,
> {
    kept_after_upto(rows, now, days, rows.len() as int)
}

/// How many of the first `n` rows carry the given email and fall within the
/// day before `now`.
pub open spec fn recent_email_upto(
    rows: Seq<ContactMessage>,
    email: Seq<char>,
    now: i64,
    n: int,
) -> int
    decreases n,
{
    if n <= 0 {
        0
    } else {
        recent_email_upto(rows, email, now, n - 1) + if rows[n - 1].email@ == email && recent_at(
            rows[n - 1].created_at,
            now,
        ) {
            1int
        } else {
            0int
        }
    }
}

/// How many rows carry the given email and fall within the day before `now`.
pub open spec fn recent_email_count(rows: Seq<ContactMessage>, email: Seq<char>, now: i64) -> int {
    recent_email_upto(rows, email, now, rows.len() as int)
}

/// How many of the first `n` rows fall within the last `days` days and hit
/// the spam heuristics.
pub open spec fn spam_recent_upto(rows: Seq<ContactMessage>, now: i64, days: i64, n: int) -> int
    decreases n,
{
    if n <= 0 {
        0
    } else {
        spam_recent_upto(rows, now, days, n - 1) + if within_days(rows[n - 1].created_at, now, days)
            && spec_is_spam(rows[n - 1].subject@, rows[n - 1].message@) {
            1int
        } else {
            0int
        }
    }
}

/// How many rows fall within the last `days` days and hit the spam
/// heuristics.
pub open spec fn spam_recent_count(rows: Seq<ContactMessage>, now: i64, days: i64) -> int {
    spam_recent_upto(rows, now, days, rows.len() as int)
}

/// The contact message table: rows in insertion order, and the next id to
/// hand out.
pub struct ContactStore {
    pub rows: Vec<ContactMessage>,
    pub next_id: i32,
}

impl ContactStore {
    /// Ids are positive, unique, and below the next id to hand out; rows
    /// were inserted with nondecreasing creation stamps, so reverse insertion
    /// order is creation time descending.
    pub open spec fn wf(&self) -> bool {
        &&& 1 <= self.next_id
        &&& forall|k: int| 0 <= k < self.rows@.len() ==> 1 <= (#[trigger] self.rows@[k]).id
            < self.next_id
        &&& forall|j: int, k: int|
            0 <= j < k < self.rows@.len() ==> self.rows@[j].id != self.rows@[k].id
        &&& forall|j: int, k: int|
            0 <= j < k < self.rows@.len() ==> self.rows@[j].created_at
                <= self.rows@[k].created_at
    }

    /// An empty table.
    pub fn new() -> (r: Self)
        ensures
            r.wf(),
            r.rows@ == Seq::<ContactMessage>::empty(),
            r.next_id == 1,
    {
        ContactStore { rows: Vec::new(), next_id: 1 }
    }

    /// All rows, newest first.
    pub fn get_all(&self) -> (r: Vec<ContactMessage>)
        ensures
            r@ == self.rows@.reverse(),
            self.wf() ==> forall|p: int, q: int|
                0 <= p < q < r@.len() ==> (#[trigger] r@[p]).created_at >= (
                #[trigger] r@[q]).created_at,
    {
        let n: usize = self.rows.len();
        let mut r: Vec<ContactMessage> = Vec::new();
        let mut i: usize = n;
        while i > 0
            invariant
                n == self.rows@.len(),
                i <= n,
                r@.len() == n - i,
                forall|t: int| 0 <= t < r@.len() ==> r@[t] == self.rows@[n - 1 - t],
            decreases i,
        {
            i = i - 1;
            r.push(self.rows[i].clone());
        }
        proof {
            assert(r@ =~= self.rows@.reverse());
        }
        r
    }

    /// The row with the given id, if any.
    pub fn get_by_id(&self, id: i32) -> (r: Option<ContactMessage>)
        ensures
            r == find_message(self.rows@, id),
    {
        let n: usize = self.rows.len();
        let mut i: usize = 0;
        while i < n
            invariant
                n == self.rows@.len(),
                i <= n,
                forall|k: int| 0 <= k < i ==> self.rows@[k].id != id,
            decreases n - i,
        {
            if self.rows[i].id == id {
                proof {
                    lemma_message_idx(self.rows@, id);
                }
                return Some(self.rows[i].clone());
            }
            i = i + 1;
        }
        proof {
            lemma_message_idx(self.rows@, id);
        }
        None
    }

    /// Insert a new row built from the (already sanitized) payload, stamped
    /// with `now`; the stamp may not lie before an existing row's.
    pub fn create(&mut self, d: &CreateContactMessage, now: i64) -> (r: ContactMessage)
        requires
            old(self).wf(),
            old(self).next_id < i32::MAX,
            message_stamps_at_most(old(self).rows@, now),
        ensures
            final(self).wf(),
            r.id == old(self).next_id && r.name == d.name && r.email == d.email && r.subject
                == d.subject && r.message == d.message && r.created_at == now,
            final(self).rows@ == old(self).rows@.push(r),
            final(self).next_id == old(self).next_id + 1,
    {
        let row = ContactMessage {
            id: self.next_id,
            name: d.name.clone(),
            email: d.email.clone(),
            subject: d.subject.clone(),
            message: d.message.clone(),
            created_at: now,
        };
        let out = row.clone();
        self.rows.push(row);
        self.next_id = self.next_id + 1;
        out
    }

    /// Remove the row with the given id; the result says whether it existed.
    pub fn delete(&mut self, id: i32) -> (r: bool)
        requires
            old(self).wf(),
        ensures
            final(self).wf(),
            final(self).next_id == old(self).next_id,
            match message_idx(old(self).rows@, id) {
                Some(i) => r && final(self).rows@ == old(self).rows@.remove(i),
                None => !r && *final(self) == *old(self),
            },
    {
        let n: usize = self.rows.len();
        let mut i: usize = 0;
        while i < n
            invariant
                *self == *old(self),
                old(self).wf(),
                n == self.rows@.len(),
                i <= n,
                forall|k: int| 0 <= k < i ==> self.rows@[k].id != id,
            decreases n - i,
        {
            if self.rows[i].id == id {
                proof {
                    lemma_message_idx(self.rows@, id);
                }
                self.rows.remove(i);
                proof {
                    assert(forall|k: int|
                        0 <= k < self.rows@.len() ==> #[trigger] self.rows@[k] == (if k < i {
                            old(self).rows@[k]
                        } else {
                            old(self).rows@[k + 1]
                        }));
                    assert forall|k: int|
                        0 <= k < self.rows@.len() implies 1 <= (#[trigger] self.rows@[k]).id
                        < self.next_id by {
                        if k < i {
                            assert(1 <= old(self).rows@[k].id < old(self).next_id);
                        } else {
                            assert(1 <= old(self).rows@[k + 1].id < old(self).next_id);
                        }
                    }
                    assert forall|j: int, k: int|
                        0 <= j < k < self.rows@.len() implies self.rows@[j].id != self.rows@[k].id
                        && self.rows@[j].created_at <= self.rows@[k].created_at by {
                        let jo: int = if j < i {
                            j
                        } else {
                            j + 1
                        };
                        let ko: int = if k < i {
                            k
                        } else {
                            k + 1
                        };
                        assert(old(self).rows@[jo].id != old(self).rows@[ko].id);
                        assert(old(self).rows@[jo].created_at <= old(self).rows@[ko].created_at);
                    }
                }
                return true;
            }
            i = i + 1;
        }
        proof {
            lemma_message_idx(self.rows@, id);
        }
        false
    }

    /// The page a limit and an offset cut out of the newest-first listing.
    pub fn get_paginated(&self, limit: u64, offset: u64) -> (r: Vec<ContactMessage>)
        ensures
            r@ == page_slice(self.rows@.reverse(), offset as int, limit as int),
            self.wf() ==> forall|p: int, q: int|
                0 <= p < q < r@.len() ==> (#[trigger] r@[p]).created_at >= (
                #[trigger] r@[q]).created_at,
    {
        let n: usize = self.rows.len();
        let start64: u64 = if offset > n as u64 {
            n as u64
        } else {
            offset
        };
        let start: usize = start64 as usize;
        let room: u64 = (n - start) as u64;
        let take64: u64 = if limit > room {
            room
        } else {
            limit
        };
        let end: usize = start + take64 as usize;
        let mut r: Vec<ContactMessage> = Vec::new();
        let mut j: usize = start;
        while j < end
            invariant
                n == self.rows@.len(),
                start <= j <= end <= n,
                r@.len() == j - start,
                forall|t: int| 0 <= t < r@.len() ==> r@[t] == self.rows@[n - 1 - start - t],
            decreases end - j,
        {
            r.push(self.rows[n - 1 - j].clone());
            j = j + 1;
        }
        proof {
            assert(r@ =~= page_slice(self.rows@.reverse(), offset as int, limit as int));
        }
        r
    }

    /// Number of rows.
    pub fn count(&self) -> (r: usize)
        ensures
            r == self.rows@.len(),
    {
        self.rows.len()
    }

    /// The rows within the last `days` days before `now`, newest first.
    pub fn get_recent(&self, days: i64, now: i64) -> (r: Vec<ContactMessage>)
        ensures
            r@ == recent_from(self.rows@, now, days, 0),
            self.wf() ==> forall|p: int, q: int|
                0 <= p < q < r@.len() ==> (#[trigger] r@[p]).created_at >= (
                #[trigger] r@[q]).created_at,
    {
        let n: usize = self.rows.len();
        let mut r: Vec<ContactMessage> = Vec::new();
        let mut i: usize = n;
        while i > 0
            invariant
                n == self.rows@.len(),
                i <= n,
                r@ == recent_from(self.rows@, now, days, i as int),
                forall|t: int|
                    0 <= t < r@.len() ==> exists|k: int|
                        i <= k < n && #[trigger] r@[t] == self.rows@[k],
                self.wf() ==> forall|t1: int, t2: int|
                    0 <= t1 < t2 < r@.len() ==> (#[trigger] r@[t1]).created_at >= (
                    #[trigger] r@[t2]).created_at,
            decreases i,
        {
            i = i - 1;
            let keep = (self.rows[i].created_at as i128) >= (now as i128) - (days as i128) * (
            DAY_SECONDS as i128);
            if keep {
                let ghost r0 = r@;
                r.push(self.rows[i].clone());
                proof {
                    assert(r@[r@.len() - 1] == self.rows@[i as int]);
                    assert(forall|t: int|
                        0 <= t < r0.len() ==> exists|k: int|
                            i + 1 <= k < n && #[trigger] r0[t] == self.rows@[k]);
                    if self.wf() {
                        assert forall|t1: int, t2: int|
                            0 <= t1 < t2 < r@.len() implies (#[trigger] r@[t1]).created_at >= (
                            #[trigger] r@[t2]).created_at by {
                            if t2 == r@.len() - 1 {
                                let k = choose|k: int|
                                    i + 1 <= k < n && r0[t1] == self.rows@[k];
                                assert(self.rows@[i as int].created_at
                                    <= self.rows@[k].created_at);
                            }
                        }
                    }
                }
            }
        }
        r
    }

    /// The rows a search query hits, newest first; the match is a
    /// case-insensitive substring match on name, email and subject.
    pub fn search(&self, query: &str) -> (r: Vec<ContactMessage>)
        ensures
            r@ == search_matches_from(self.rows@, lower_of(query@), 0),
            self.wf() ==> forall|p: int, q: int|
                0 <= p < q < r@.len() ==> (#[trigger] r@[p]).created_at >= (
                #[trigger] r@[q]).created_at,
    {
        let lq = to_lowercase_string(query);
        let n: usize = self.rows.len();
        let mut r: Vec<ContactMessage> = Vec::new();
        let mut i: usize = n;
        while i > 0
            invariant
                n == self.rows@.len(),
                i <= n,
                lq@ == lower_of(query@),
                r@ == search_matches_from(self.rows@, lower_of(query@), i as int),
                forall|t: int|
                    0 <= t < r@.len() ==> exists|k: int|
                        i <= k < n && #[trigger] r@[t] == self.rows@[k],
                self.wf() ==> forall|t1: int, t2: int|
                    0 <= t1 < t2 < r@.len() ==> (#[trigger] r@[t1]).created_at >= (
                    #[trigger] r@[t2]).created_at,
            decreases i,
        {
            i = i - 1;
            let ln = to_lowercase_string(self.rows[i].name.as_str());
            let le = to_lowercase_string(self.rows[i].email.as_str());
            let ls = to_lowercase_string(self.rows[i].subject.as_str());
            let hit = str_contains_sub(ln.as_str(), lq.as_str()) || str_contains_sub(
                le.as_str(),
                lq.as_str(),
            ) || str_contains_sub(ls.as_str(), lq.as_str());
            if hit {
                let ghost r0 = r@;
                r.push(self.rows[i].clone());
                proof {
                    assert(r@[r@.len() - 1] == self.rows@[i as int]);
                    assert(forall|t: int|
                        0 <= t < r0.len() ==> exists|k: int|
                            i + 1 <= k < n && #[trigger] r0[t] == self.rows@[k]);
                    if self.wf() {
                        assert forall|t1: int, t2: int|
                            0 <= t1 < t2 < r@.len() implies (#[trigger] r@[t1]).created_at >= (
                            #[trigger] r@[t2]).created_at by {
                            if t2 == r@.len() - 1 {
                                let k = choose|k: int|
                                    i + 1 <= k < n && r0[t1] == self.rows@[k];
                                assert(self.rows@[i as int].created_at
                                    <= self.rows@[k].created_at);
                            }
                        }
                    }
                }
            }
        }
        r
    }

    /// The rows with the given email, newest first.
    pub fn get_by_email(&self, email: &String) -> (r: Vec<ContactMessage>)
        ensures
            r@ == email_matches_from(self.rows@, email@, 0),
            self.wf() ==> forall|p: int, q: int|
                0 <= p < q < r@.len() ==> (#[trigger] r@[p]).created_at >= (
                #[trigger] r@[q]).created_at,
    {
        let n: usize = self.rows.len();
        let mut r: Vec<ContactMessage> = Vec::new();
        let mut i: usize = n;
        while i > 0
            invariant
                n == self.rows@.len(),
                i <= n,
                r@ == email_matches_from(self.rows@, email@, i as int),
                forall|t: int|
                    0 <= t < r@.len() ==> exists|k: int|
                        i <= k < n && #[trigger] r@[t] == self.rows@[k],
                self.wf() ==> forall|t1: int, t2: int|
                    0 <= t1 < t2 < r@.len() ==> (#[trigger] r@[t1]).created_at >= (
                    #[trigger] r@[t2]).created_at,
            decreases i,
        {
            i = i - 1;
            if self.rows[i].email.eq(email) {
                let ghost r0 = r@;
                r.push(self.rows[i].clone());
                proof {
                    assert(r@[r@.len() - 1] == self.rows@[i as int]);
                    assert(forall|t: int|
                        0 <= t < r0.len() ==> exists|k: int|
                            i + 1 <= k < n && #[trigger] r0[t] == self.rows@[k]);
                    if self.wf() {
                        assert forall|t1: int, t2: int|
                            0 <= t1 < t2 < r@.len() implies (#[trigger] r@[t1]).created_at >= (
                            #[trigger] r@[t2]).created_at by {
                            if t2 == r@.len() - 1 {
                                let k = choose|k: int|
                                    i + 1 <= k < n && r0[t1] == self.rows@[k];
                                assert(self.rows@[i as int].created_at
                                    <= self.rows@[k].created_at);
                            }
                        }
                    }
                }
            }
        }
        r
    }

    /// How many rows carry the given email and fall within the day before
    /// `now`.
    pub fn count_recent_by_email(&self, email: &String, now: i64) -> (r: usize)
        ensures
            r == recent_email_count(self.rows@, email@, now),
    {
        let n: usize = self.rows.len();
        let mut count: usize = 0;
        let mut i: usize = 0;
        while i < n
            invariant
                n == self.rows@.len(),
                i <= n,
                count == recent_email_upto(self.rows@, email@, now, i as int),
                count <= i,
            decreases n - i,
        {
            proof {
                lemma_recent_email_upto_bound(self.rows@, email@, now, i as int);
            }
            let diff: i128 = now as i128 - self.rows[i].created_at as i128;
            if self.rows[i].email.eq(email) && diff < DAY_SECONDS as i128 {
                count = count + 1;
            }
            i = i + 1;
        }
        count
    }

    /// Remove the rows older than `days` days before `now`; the result is
    /// how many were removed.
    pub fn delete_old(&mut self, days: i64, now: i64) -> (r: u64)
        requires
            old(self).wf(),
        ensures
            final(self).wf(),
            final(self).next_id == old(self).next_id,
            final(self).rows@ == kept_after(old(self).rows@, now, days),
            r == old(self).rows@.len() - final(self).rows@.len(),
    {
        let n: usize = self.rows.len();
        let mut kept: Vec<ContactMessage> = Vec::new();
        let mut i: usize = 0;
        while i < n
            invariant
                *self == *old(self),
                old(self).wf(),
                n == self.rows@.len(),
                i <= n,
                kept@ == kept_after_upto(self.rows@, now, days, i as int),
                kept@.len() <= i,
                forall|t: int| 0 <= t < kept@.len() ==> 1 <= (#[trigger] kept@[t]).id
                    < self.next_id,
                forall|t: int|
                    0 <= t < kept@.len() ==> exists|k: int|
                        0 <= k < i && #[trigger] kept@[t] == self.rows@[k],
                forall|t1: int, t2: int|
                    0 <= t1 < t2 < kept@.len() ==> kept@[t1].id != kept@[t2].id,
                forall|t1: int, t2: int|
                    0 <= t1 < t2 < kept@.len() ==> kept@[t1].created_at <= kept@[t2].created_at,
            decreases n - i,
        {
            proof {
                lemma_kept_after_upto_bound(self.rows@, now, days, i as int);
            }
            let keep = (self.rows[i].created_at as i128) >= (now as i128) - (days as i128) * (
            DAY_SECONDS as i128);
            if keep {
                let ghost kept0 = kept@;
                kept.push(self.rows[i].clone());
                proof {
                    assert(kept@[kept@.len() - 1] == self.rows@[i as int]);
                    assert forall|t1: int, t2: int|
                        0 <= t1 < t2 < kept@.len() implies kept@[t1].id != kept@[t2].id
                        && kept@[t1].created_at <= kept@[t2].created_at by {
                        if t2 == kept@.len() - 1 {
                            let k = choose|k: int| 0 <= k < i && kept0[t1] == self.rows@[k];
                            assert(self.rows@[k].id != self.rows@[i as int].id);
                            assert(self.rows@[k].created_at <= self.rows@[i as int].created_at);
                        }
                    }
                }
            }
            i = i + 1;
        }
        let removed = (n - kept.len()) as u64;
        self.rows = kept;
        removed
    }

    /// How many rows fall within the last `days` days and hit the spam
    /// heuristics.
    pub fn count_recent_spam(&self, days: i64, now: i64) -> (r: usize)
        ensures
            r == spam_recent_count(self.rows@, now, days),
    {
        let n: usize = self.rows.len();
        let mut count: usize = 0;
        let mut i: usize = 0;
        while i < n
            invariant
                n == self.rows@.len(),
                i <= n,
                count == spam_recent_upto(self.rows@, now, days, i as int),
                count <= i,
            decreases n - i,
        {
            proof {
                lemma_spam_recent_upto_bound(self.rows@, now, days, i as int);
            }
            let recent = (self.rows[i].created_at as i128) >= (now as i128) - (days as i128) * (
            DAY_SECONDS as i128);
            if recent && self.rows[i].is_likely_spam() {
                count = count + 1;
            }
            i = i + 1;
        }
        count
    }
}

proof fn lemma_spam_recent_upto_bound(rows: Seq<ContactMessage>, now: i64, days: i64, n: int)
    requires
        0 <= n <= rows.len(),
    ensures
        0 <= spam_recent_upto(rows, now, days, n) <= n,
    decreases n,
{
    if n > 0 {
        lemma_spam_recent_upto_bound(rows, now, days, n - 1);
    }
}

// ---------------------------------------------------------------------------
// The service: sanitization, validation, the rate limit and the admin
// operations above the store.
// ---------------------------------------------------------------------------

/// Message statistics for the admin dashboard.
#[derive(Debug)]
pub struct MessageStats {
    pub total_messages: u64,
    pub messages_this_week: u64,
    pub messages_this_month: u64,
    pub spam_messages: u64,
}

/// The message reported when a contact message id is unknown.
pub open spec fn message_not_found_text(id: i32) -> Seq<char> {
    "Contact message with ID "@ + int_str(id as int) + " not found"@
}

/// Render the not-found message for a contact message id.
fn message_not_found_message(id: i32) -> (r: String)
    ensures
        r@ == message_not_found_text(id),
{
    let mut m = String::from_str("Contact message with ID ");
    let num = i64_to_string(id as i64);
    m.append(num.as_str());
    m.append(" not found");
    m
}

/// Contact message business logic over the in-memory store.
pub struct ContactService {
    pub repository: ContactStore,
}

impl ContactService {
    /// A service over an empty store.
    pub fn new() -> (r: Self)
        ensures
            r.repository.wf(),
            r.repository.rows@ == Seq::<ContactMessage>::empty(),
            r.repository.next_id == 1,
    {
        ContactService { repository: ContactStore::new() }
    }

    /// Submit a contact message: sanitize it, reject field violations,
    /// meaningless bodies, and a fourth message from one email within a day;
    /// otherwise store it stamped with `now`.
    pub fn submit_message(&mut self, message_data: CreateContactMessage, now: i64) -> (r:
        ApiResult<ContactMessage>)
        requires
            old(self).repository.wf(),
            old(self).repository.next_id < i32::MAX,
            message_stamps_at_most(old(self).repository.rows@, now),
        ensures
            final(self).repository.wf(),
            ({
                let sn = stripped(trimmed(message_data.name@));
                let se = lower_of(trimmed(message_data.email@));
                let ss = stripped(trimmed(message_data.subject@));
                let sm = stripped(trimmed(message_data.message@));
                let msgs = contact_field_messages(sn, se, ss, sm);
                let rows0 = old(self).repository.rows@;
                if msgs.len() > 0 {
                    &&& r matches Err(e) && e.is_validation_kind() && validation_messages_of(e)
                        == msgs && (e is Validation <==> msgs.len() == 1)
                    &&& final(self).repository == old(self).repository
                } else if !meaningful_content(sm) {
                    &&& r matches Err(ApiError::BadRequest(m)) && m@
                        == "Message content appears to be invalid"@
                    &&& final(self).repository == old(self).repository
                } else if recent_email_count(rows0, se, now) >= 3 {
                    &&& r matches Err(ApiError::BadRequest(m)) && m@
                        == "Too many messages sent recently. Please wait before sending another message."@
                    &&& final(self).repository == old(self).repository
                } else {
                    &&& r matches Ok(m) && m.id == old(self).repository.next_id && m.name@ == sn
                        && m.email@ == se && m.subject@ == ss && m.message@ == sm && m.created_at
                        == now && final(self).repository.rows@ == rows0.push(m)
                    &&& final(self).repository.next_id == old(self).repository.next_id + 1
                }
            }),
    {
        let mut data = message_data;
        data.sanitize();
        if let Err(msgs) = data.validate() {
            return Err(ApiError::from_validation_errors(msgs));
        }
        if !data.is_valid_content() {
            return Err(ApiError::BadRequest(String::from_str("Message content appears to be invalid")));
        }
        let recent = self.repository.count_recent_by_email(&data.email, now);
        if recent >= 3 {
            return Err(
                ApiError::BadRequest(
                    String::from_str(
                        "Too many messages sent recently. Please wait before sending another message.",
                    ),
                ),
            );
        }
        let message = self.repository.create(&data, now);
        Ok(message)
    }

    /// All messages, newest first.
    pub fn get_all_messages(&self) -> (r: ApiResult<Vec<ContactMessage>>)
        ensures
            r matches Ok(v) && v@ == self.repository.rows@.reverse(),
    {
        Ok(self.repository.get_all())
    }

    /// The message with the given id, or a not-found error.
    pub fn get_message_by_id(&self, id: i32) -> (r: ApiResult<ContactMessage>)
        ensures
            match find_message(self.repository.rows@, id) {
                Some(m) => r matches Ok(x) && x == m,
                None => r matches Err(ApiError::NotFound(msg)) && msg@ == message_not_found_text(
                    id,
                ),
            },
    {
        match self.repository.get_by_id(id) {
            Some(m) => Ok(m),
            None => Err(ApiError::NotFound(message_not_found_message(id))),
        }
    }

    /// One page of the newest-first listing, with the total count; page
    /// sizes outside one to a hundred are a bad request.
    pub fn get_messages_paginated(&self, page: u32, page_size: u32) -> (r: ApiResult<
        (Vec<ContactMessage>, u64),
    >)
        ensures
            !(1 <= page_size <= 100) ==> (r matches Err(ApiError::BadRequest(m)) && m@
                == "Page size must be between 1 and 100"@),
            1 <= page_size <= 100 ==> (r matches Ok(p) && p.0@ == page_slice(
                self.repository.rows@.reverse(),
                spec_offset(page as int, page_size as int),
                page_size as int,
            ) && p.1 == self.repository.rows@.len()),
    {
        if page_size == 0 || page_size > 100 {
            return Err(
                ApiError::BadRequest(String::from_str("Page size must be between 1 and 100")),
            );
        }
        let offset = page_offset(page, page_size);
        let items = self.repository.get_paginated(page_size as u64, offset);
        let total = self.repository.count() as u64;
        Ok((items, total))
    }

    /// The messages a search query hits, newest first; a blank query is a
    /// bad request.
    pub fn search_messages(&self, query: &str) -> (r: ApiResult<Vec<ContactMessage>>)
        ensures
            trimmed(query@).len() == 0 ==> (r matches Err(ApiError::BadRequest(m)) && m@
                == "Search query cannot be empty"@),
            trimmed(query@).len() > 0 ==> (r matches Ok(v) && v@ == search_matches_from(
                self.repository.rows@,
                lower_of(query@),
                0,
            )),
    {
        let t = trim_string(query);
        if t.as_str().unicode_len() == 0 {
            return Err(ApiError::BadRequest(String::from_str("Search query cannot be empty")));
        }
        Ok(self.repository.search(query))
    }

    /// The messages of the last `days` days, newest first; day counts
    /// outside one to three hundred and sixty-five are a bad request.
    pub fn get_recent_messages(&self, days: u32, now: i64) -> (r: ApiResult<Vec<ContactMessage>>)
        ensures
            !(1 <= days <= 365) ==> (r matches Err(ApiError::BadRequest(m)) && m@
                == "Days must be between 1 and 365"@),
            1 <= days <= 365 ==> (r matches Ok(v) && v@ == recent_from(
                self.repository.rows@,
                now,
                days as i64,
                0,
            )),
    {
        if days == 0 || days > 365 {
            return Err(ApiError::BadRequest(String::from_str("Days must be between 1 and 365")));
        }
        Ok(self.repository.get_recent(days as i64, now))
    }

    /// Delete a message; a missing id is a not-found error.
    pub fn delete_message(&mut self, id: i32) -> (r: ApiResult<()>)
        requires
            old(self).repository.wf(),
        ensures
            final(self).repository.wf(),
            final(self).repository.next_id == old(self).repository.next_id,
            match message_idx(old(self).repository.rows@, id) {
                Some(i) => r is Ok && final(self).repository.rows@ == old(
                    self,
                ).repository.rows@.remove(i),
                None => r matches Err(ApiError::NotFound(msg)) && msg@ == message_not_found_text(
                    id,
                ) && final(self).repository == old(self).repository,
            },
    {
        if self.repository.delete(id) {
            Ok(())
        } else {
            Err(ApiError::NotFound(message_not_found_message(id)))
        }
    }

    /// Message statistics: the total, the counts of the last week and the
    /// last month, and how many of the last month hit the spam heuristics.
    pub fn get_message_stats(&self, now: i64) -> (r: ApiResult<MessageStats>)
        ensures
            r matches Ok(st) && st.total_messages == self.repository.rows@.len()
                && st.messages_this_week == recent_from(self.repository.rows@, now, 7, 0).len()
                && st.messages_this_month == recent_from(self.repository.rows@, now, 30, 0).len()
                && st.spam_messages == spam_recent_count(self.repository.rows@, now, 30),
    {
        let total = self.repository.count();
        let week = self.repository.get_recent(7, now);
        let month = self.repository.get_recent(30, now);
        let spam = self.repository.count_recent_spam(30, now);
        Ok(
            MessageStats {
                total_messages: total as u64,
                messages_this_week: week.len() as u64,
                messages_this_month: month.len() as u64,
                spam_messages: spam as u64,
            },
        )
    }

    /// Remove messages older than `days` days; a horizon under thirty days
    /// is a bad request. The result is how many were removed.
    pub fn cleanup_old_messages(&mut self, days: u32, now: i64) -> (r: ApiResult<u64>)
        requires
            old(self).repository.wf(),
        ensures
            final(self).repository.wf(),
            final(self).repository.next_id == old(self).repository.next_id,
            days < 30 ==> (r matches Err(ApiError::BadRequest(m)) && m@
                == "Cannot delete messages newer than 30 days"@ && final(self).repository == old(
                self,
            ).repository),
            days >= 30 ==> (r matches Ok(c) && final(self).repository.rows@ == kept_after(
                old(self).repository.rows@,
                now,
                days as i64,
            ) && c == old(self).repository.rows@.len() - final(self).repository.rows@.len()),
    {
        if days < 30 {
            return Err(
                ApiError::BadRequest(
                    String::from_str("Cannot delete messages newer than 30 days"),
                ),
            );
        }
        let removed = self.repository.delete_old(days as i64, now);
        Ok(removed)
    }
}

proof fn lemma_recent_email_upto_bound(
    rows: Seq<ContactMessage>,
    email: Seq<char>,
    now: i64,
    n: int,
)
    requires
        0 <= n <= rows.len(),
    ensures
        0 <= recent_email_upto(rows, email, now, n) <= n,
    decreases n,
{
    if n > 0 {
        lemma_recent_email_upto_bound(rows, email, now, n - 1);
    }
}

proof fn lemma_kept_after_upto_bound(rows: Seq<ContactMessage>, now: i64, days: i64, n: int)
    requires
        0 <= n <= rows.len(),
    ensures
        kept_after_upto(rows, now, days, n).len() <= n,
    decreases n,
{
    if n > 0 {
        lemma_kept_after_upto_bound(rows, now, days, n - 1);
    }
}

} // verus!
