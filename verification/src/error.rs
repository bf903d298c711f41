//! The uniform error taxonomy and the simple success wrapper: every failure
//! in the library is one of these kinds, and each kind maps to exactly one
//! HTTP status code.
use vstd::prelude::*;

verus! {

/// Error kinds for the whole API surface.
#[derive(Debug)]
pub enum ApiError {
    /// A storage failure, wrapping the storage layer's message.
    Database(String),
    /// A single field validation message.
    Validation(String),
    /// Several field validation messages.
    ValidationErrors(Vec<String>),
    /// The addressed entity does not exist.
    NotFound(String),
    /// Declared in the taxonomy; no handler produces it.
    Unauthorized,
    /// Declared in the taxonomy; no handler produces it.
    Forbidden,
    /// A business-rule conflict, such as a duplicate title.
    Conflict(String),
    /// A request the business rules reject.
    BadRequest(String),
    /// An unexpected internal failure.
    InternalServerError(String),
    /// Malformed data during encoding or decoding.
    Serialization(String),
}

/// Result type used by every service operation.
pub type ApiResult<T> = Result<T, ApiError>;

/// The HTTP status code owed to each error kind.
pub open spec fn spec_status_code(e: ApiError) -> u16 {
    match e {
        ApiError::Database(_) => 500,
        ApiError::Validation(_) => 400,
        ApiError::ValidationErrors(_) => 400,
        ApiError::NotFound(_) => 404,
        ApiError::Unauthorized => 401,
        ApiError::Forbidden => 403,
        ApiError::Conflict(_) => 409,
        ApiError::BadRequest(_) => 400,
        ApiError::InternalServerError(_) => 500,
        ApiError::Serialization(_) => 400,
    }
}

/// The list of messages joined with a comma and a space, the rendering of a
/// multi-message validation error.
pub open spec fn joined_upto(msgs: Seq<Seq<char>>, n: int) -> Seq<char>
    decreases n,
{
    if n <= 0 {
        Seq::empty()
    } else if n == 1 {
        msgs[0]
    } else {
        joined_upto(msgs, n - 1) + ", "@ + msgs[n - 1]
    }
}

/// All messages of the list joined with a comma and a space.
pub open spec fn joined(msgs: Seq<Seq<char>>) -> Seq<char> {
    joined_upto(msgs, msgs.len() as int)
}

/// The user-facing message owed to each error kind: wrapped storage and
/// internal failures are masked, everything else carries its own message.
pub open spec fn spec_message(e: ApiError) -> Seq<char> {
    match e {
        ApiError::Database(_) => "A database error occurred"@,
        ApiError::Validation(msg) => msg@,
        ApiError::ValidationErrors(errors) => joined(errors.deep_view()),
        ApiError::NotFound(msg) => msg@,
        ApiError::Unauthorized => "Unauthorized access"@,
        ApiError::Forbidden => "Forbidden access"@,
        ApiError::Conflict(msg) => msg@,
        ApiError::BadRequest(msg) => msg@,
        ApiError::InternalServerError(_) => "An internal server error occurred"@,
        ApiError::Serialization(_) => "Invalid data format"@,
    }
}

/// Join messages with a comma and a space.
fn join_messages(msgs: &Vec<String>) -> (r: String)
    ensures
        r@ == joined(msgs.deep_view()),
{
    let n: usize = msgs.len();
    let mut out = String::new();
    let mut i: usize = 0;
    while i < n
        invariant
            n == msgs@.len(),
            i <= n,
            out@ == joined_upto(msgs.deep_view(), i as int),
        decreases n - i,
    {
        if i > 0 {
            out.append(", ");
        }
        out.append(msgs[i].as_str());
        proof {
            assert(msgs.deep_view()[i as int] == msgs@[i as int]@);
        }
        i = i + 1;
    }
    out
}

/// The field messages a validation error carries; empty for other kinds.
pub open spec fn validation_messages_of(e: ApiError) -> Seq<Seq<char>> {
    match e {
        ApiError::Validation(m) => seq![m@],
        ApiError::ValidationErrors(v) => v.deep_view(),
        _ => Seq::empty(),
    }
}

impl ApiError {
    /// Whether the kind carries one validation message or several: the shape
    /// `from_validation_errors` produces.
    pub open spec fn is_validation_kind(&self) -> bool {
        self is Validation || self is ValidationErrors
    }

    /// Wrap a list of field validation messages: a single message becomes the
    /// single-message kind, several stay a list.
    pub fn from_validation_errors(errors: Vec<String>) -> (r: ApiError)
        ensures
            r.is_validation_kind(),
            validation_messages_of(r) == errors.deep_view(),
            r is Validation <==> errors.deep_view().len() == 1,
    {
        if errors.len() == 1 {
            let msg = errors[0].clone();
            proof {
                assert(seq![errors@[0]@] =~= errors.deep_view());
            }
            ApiError::Validation(msg)
        } else {
            ApiError::ValidationErrors(errors)
        }
    }

    /// The HTTP status code for this error.
    pub fn status_code(&self) -> (c: u16)
        ensures
            c == spec_status_code(*self),
    {
        match self {
            ApiError::Database(_) => 500,
            ApiError::Validation(_) => 400,
            ApiError::ValidationErrors(_) => 400,
            ApiError::NotFound(_) => 404,
            ApiError::Unauthorized => 401,
            ApiError::Forbidden => 403,
            ApiError::Conflict(_) => 409,
            ApiError::BadRequest(_) => 400,
            ApiError::InternalServerError(_) => 500,
            ApiError::Serialization(_) => 400,
        }
    }

    /// The message for the response body.
    pub fn message(&self) -> (r: String)
        ensures
            r@ == spec_message(*self),
    {
        match self {
            ApiError::Database(_) => String::from_str("A database error occurred"),
            ApiError::Validation(msg) => msg.clone(),
            ApiError::ValidationErrors(errors) => join_messages(errors),
            ApiError::NotFound(msg) => msg.clone(),
            ApiError::Unauthorized => String::from_str("Unauthorized access"),
            ApiError::Forbidden => String::from_str("Forbidden access"),
            ApiError::Conflict(msg) => msg.clone(),
            ApiError::BadRequest(msg) => msg.clone(),
            ApiError::InternalServerError(_) => String::from_str(
                "An internal server error occurred",
            ),
            ApiError::Serialization(_) => String::from_str("Invalid data format"),
        }
    }

    /// Detailed error information, present only for the kinds that wrap an
    /// underlying failure.
    pub fn details(&self) -> (r: Option<String>)
        ensures
            match *self {
                ApiError::Database(e) => r matches Some(s) && s == e,
                ApiError::InternalServerError(msg) => r matches Some(s) && s == msg,
                ApiError::Serialization(e) => r matches Some(s) && s == e,
                _ => r is None,
            },
    {
        match self {
            ApiError::Database(e) => Some(e.clone()),
            ApiError::InternalServerError(msg) => Some(msg.clone()),
            ApiError::Serialization(e) => Some(e.clone()),
            _ => None,
        }
    }
}

/// Success wrapper around a payload, used where no pagination is involved.
pub struct ApiResponse<T> {
    pub success: bool,
    pub data: T,
    pub message: Option<String>,
}

impl<T> ApiResponse<T> {
    /// A successful response with no message.
    pub fn new(data: T) -> (r: Self)
        ensures
            r.success == true,
            r.data == data,
            r.message is None,
    {
        Self { success: true, data, message: None }
    }

    /// A successful response carrying a message.
    pub fn with_message(data: T, message: String) -> (r: Self)
        ensures
            r.success == true,
            r.data == data,
            r.message matches Some(m) && m == message,
    {
        Self { success: true, data, message: Some(message) }
    }
}

} // verus!
