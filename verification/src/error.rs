use vstd::prelude::*;
use vstd::string::StringExecFns;
use vstd::string::StringSliceAdditionalSpecFns;

verus! {

/// Faults raised while validating or compiling a caller-supplied search
/// query, or while talking to the backing store.
#[derive(Debug, Clone, PartialEq, Eq)]
pub enum DatabaseQueryError {
    InsufficientPermissions,
    /// The query names a column that no visible format declares.
    InvalidColumnRequested(String),
    /// The query combines a column and an operator in an illegal way.
    InvalidUsage(String),
    /// A comparison value could not be cast to the column's scalar type.
    CastError,
    /// Two visible formats declare the same column with different kinds.
    ColumnWithMixedTypesError(String),
    /// The caller supplied an explicitly empty format list.
    EmptyQuery,
    /// A format declares a regex that does not compile or sits on a
    /// non-string column.
    InvalidRegex,
    /// An error reported by the backing store, carried as its message.
    DbErr(String),
}

/// Faults of the core services that sit above the query layer.
#[derive(Debug, Clone, PartialEq, Eq)]
pub enum CoreError {
    /// The keyed identity exceeded its concurrency grant limit; holds
    /// the key and the number of grants it already held.
    GrantError(String, u64),
    /// A lock protecting shared state was poisoned.
    PoisonError,
    DatabaseQueryError(DatabaseQueryError),
}

/// Why a batch of inbound records failed validation against its format.
#[derive(Debug, Clone, Copy, PartialEq, Eq, Structural)]
pub enum ValidationFailureKind {
    InvalidRequestData,
    MismatchedDataType,
    MissingDictKeys,
    InvalidComparisonKind,
    RegexMatchFailure,
}

impl ValidationFailureKind {
    /// The text of this failure, as an error session records it.
    pub open spec fn spec_detail(&self) -> Seq<char> {
        match self {
            ValidationFailureKind::InvalidRequestData => "One or more fields are invalid"@,
            ValidationFailureKind::MismatchedDataType => (
            "One or more fields contain data with mismatched types"@),
            ValidationFailureKind::MissingDictKeys => (
            "One or more entries either lack or contain invalid/unknown keys"@),
            ValidationFailureKind::InvalidComparisonKind => (
            "Only strings and numbers are supported"@),
            ValidationFailureKind::RegexMatchFailure => (
            "Regex match failure: data doesn't match regex"@),
        }
    }

    /// The text of this failure, as an error session records it.
    pub fn detail(&self) -> (r: String)
        ensures
            r@ == self.spec_detail(),
    {
        match self {
            ValidationFailureKind::InvalidRequestData => String::from_str(
                "One or more fields are invalid",
            ),
            ValidationFailureKind::MismatchedDataType => String::from_str(
                "One or more fields contain data with mismatched types",
            ),
            ValidationFailureKind::MissingDictKeys => String::from_str(
                "One or more entries either lack or contain invalid/unknown keys",
            ),
            ValidationFailureKind::InvalidComparisonKind => String::from_str(
                "Only strings and numbers are supported",
            ),
            ValidationFailureKind::RegexMatchFailure => String::from_str(
                "Regex match failure: data doesn't match regex",
            ),
        }
    }
}

/// Caller-facing fault taxonomy of the service layer.
#[derive(Debug, Clone, PartialEq, Eq)]
pub enum APIError {
    DuplicateError,
    BadRequest,
    ValidationFailure(ValidationFailureKind),
    ServerError,
    NotFound(String),
    InactiveUser,
    InactiveKey,
    InvalidCredentials,
    InvalidToken,
    MissingAuthHeader,
    AdminOnlyResource,
    InsufficientPermissions,
    InvalidOperation(String),
    ConflictingOperation(String),
    CastError(String, String),
    InvalidQuery(String),
    InvalidPageSize(String),
    RateLimit(String),
}

/// The HTTP status that `status_code` assigns to each fault.
pub open spec fn spec_status_code(e: APIError) -> u16 {
    match e {
        APIError::DuplicateError => 400,
        APIError::BadRequest => 400,
        APIError::ValidationFailure(_) => 400,
        APIError::ServerError => 500,
        APIError::NotFound(_) => 401,
        APIError::InvalidCredentials => 401,
        APIError::InvalidToken => 401,
        APIError::MissingAuthHeader => 401,
        APIError::AdminOnlyResource => 403,
        APIError::InsufficientPermissions => 403,
        APIError::InvalidOperation(_) => 400,
        APIError::ConflictingOperation(_) => 400,
        APIError::InvalidQuery(_) => 400,
        APIError::CastError(_, _) => 400,
        APIError::InvalidPageSize(_) => 400,
        APIError::InactiveUser => 401,
        APIError::InactiveKey => 401,
        APIError::RateLimit(_) => 429,
    }
}

/// The serialisable shape of a fault as the HTTP layer reports it.
#[derive(Debug, Clone, PartialEq, Eq)]
pub struct OutboundAPIError {
    pub status_code: u16,
    pub kind: String,
    pub detail: Option<String>,
}

impl APIError {
    /// Usage errors are 4xx-class; internal faults are 5xx; grant
    /// exhaustion is 429.
    pub fn status_code(&self) -> (code: u16)
        ensures
            code == spec_status_code(*self),
    {
        match self {
            APIError::DuplicateError => 400,
            APIError::BadRequest => 400,
            APIError::ValidationFailure(_) => 400,
            APIError::ServerError => 500,
            APIError::NotFound(_) => 401,
            APIError::InvalidCredentials => 401,
            APIError::InvalidToken => 401,
            APIError::MissingAuthHeader => 401,
            APIError::AdminOnlyResource => 403,
            APIError::InsufficientPermissions => 403,
            APIError::InvalidOperation(_) => 400,
            APIError::ConflictingOperation(_) => 400,
            APIError::InvalidQuery(_) => 400,
            APIError::CastError(_, _) => 400,
            APIError::InvalidPageSize(_) => 400,
            APIError::InactiveUser => 401,
            APIError::InactiveKey => 401,
            APIError::RateLimit(_) => 429,
        }
    }

    /// The stable name of the fault's variant, used as the outbound `kind`.
    pub open spec fn spec_kind(&self) -> Seq<char> {
        match self {
            APIError::DuplicateError => "DuplicateError"@,
            APIError::BadRequest => "BadRequest"@,
            APIError::ValidationFailure(_) => "ValidationFailure"@,
            APIError::ServerError => "ServerError"@,
            APIError::NotFound(_) => "NotFound"@,
            APIError::InvalidCredentials => "InvalidCredentials"@,
            APIError::InvalidToken => "InvalidToken"@,
            APIError::MissingAuthHeader => "MissingAuthHeader"@,
            APIError::AdminOnlyResource => "AdminOnlyResource"@,
            APIError::InsufficientPermissions => "InsufficientPermissions"@,
            APIError::InvalidOperation(_) => "InvalidOperation"@,
            APIError::ConflictingOperation(_) => "ConflictingOperation"@,
            APIError::CastError(_, _) => "CastError"@,
            APIError::InvalidQuery(_) => "InvalidQuery"@,
            APIError::InvalidPageSize(_) => "InvalidPageSize"@,
            APIError::InactiveUser => "InactiveUser"@,
            APIError::InactiveKey => "InactiveKey"@,
            APIError::RateLimit(_) => "RateLimit"@,
        }
    }

    /// The stable name of the fault's variant, used as the outbound `kind`.
    pub fn kind(&self) -> (kind: &'static str)
        ensures
            kind@ == self.spec_kind(),
    {
        match self {
            APIError::DuplicateError => "DuplicateError",
            APIError::BadRequest => "BadRequest",
            APIError::ValidationFailure(_) => "ValidationFailure",
            APIError::ServerError => "ServerError",
            APIError::NotFound(_) => "NotFound",
            APIError::InvalidCredentials => "InvalidCredentials",
            APIError::InvalidToken => "InvalidToken",
            APIError::MissingAuthHeader => "MissingAuthHeader",
            APIError::AdminOnlyResource => "AdminOnlyResource",
            APIError::InsufficientPermissions => "InsufficientPermissions",
            APIError::InvalidOperation(_) => "InvalidOperation",
            APIError::ConflictingOperation(_) => "ConflictingOperation",
            APIError::CastError(_, _) => "CastError",
            APIError::InvalidQuery(_) => "InvalidQuery",
            APIError::InvalidPageSize(_) => "InvalidPageSize",
            APIError::InactiveUser => "InactiveUser",
            APIError::InactiveKey => "InactiveKey",
            APIError::RateLimit(_) => "RateLimit",
        }
    }

    /// Assemble the outbound report for this fault: its status code, its
    /// variant name, and a caller-supplied detail message.
    pub fn to_outbound(&self, detail: String) -> (out: OutboundAPIError)
        ensures
            out.status_code == spec_status_code(*self),
            out.kind@ == self.spec_kind(),
            out.detail matches Some(d) && d == detail,
    {
        OutboundAPIError {
            status_code: self.status_code(),
            kind: String::from_str(self.kind()),
            detail: Some(detail),
        }
    }
}

/// Lower-case image of an ASCII byte; other bytes unchanged.
pub open spec fn spec_lower_byte(b: u8) -> u8 {
    if 65 <= b && b <= 90 {
        (b + 32) as u8
    } else {
        b
    }
}

/// Lower-case image of a byte string.
pub open spec fn spec_lower_bytes(s: Seq<u8>) -> Seq<u8> {
    s.map_values(|b: u8| spec_lower_byte(b))
}

/// Whether `needle` occurs as a contiguous run inside `hay`.
pub open spec fn contains_seq(hay: Seq<u8>, needle: Seq<u8>) -> bool {
    exists|i: int|
        0 <= i && i + needle.len() <= hay.len() && #[trigger] hay.subrange(i, i + needle.len())
            == needle
}

fn lower_byte(b: u8) -> (r: u8)
    ensures
        r == spec_lower_byte(b),
{
    if 65 <= b && b <= 90 {
        b + 32
    } else {
        b
    }
}

/// Whether the lower-cased bytes of `hay` hold `needle` starting at `start`.
fn match_at(hay: &[u8], needle: &[u8], start: usize) -> (r: bool)
    requires
        start + needle@.len() <= hay@.len(),
    ensures
        r == (spec_lower_bytes(hay@).subrange(start as int, start + needle@.len()) == needle@),
{
    let hay_len: usize = hay.len();
    let needle_len: usize = needle.len();
    let mut j: usize = 0;
    while j < needle_len
        invariant
            needle_len == needle@.len(),
            hay_len == hay@.len(),
            start + needle_len <= hay_len,
            j <= needle_len,
            forall|k: int|
                0 <= k < j ==> spec_lower_bytes(hay@)[start + k] == #[trigger] needle@[k],
        decreases needle_len - j,
    {
        if lower_byte(hay[start + j]) != needle[j] {
            assert(spec_lower_bytes(hay@).subrange(start as int, start + needle@.len())[j as int]
                != needle@[j as int]);
            return false;
        }
        j = j + 1;
    }
    assert(spec_lower_bytes(hay@).subrange(start as int, start + needle@.len()) =~= needle@);
    true
}

/// Whether `needle` occurs as a contiguous run inside the lower-cased `hay`.
pub fn bytes_contain_lowered(hay: &[u8], needle: &[u8]) -> (r: bool)
    ensures
        r == contains_seq(spec_lower_bytes(hay@), needle@),
{
    let hay_len: usize = hay.len();
    let needle_len: usize = needle.len();
    if needle_len > hay_len {
        return false;
    }
    if needle_len == 0 {
        assert(spec_lower_bytes(hay@).subrange(0int, 0int + needle@.len() as int) =~= needle@);
        return true;
    }
    let last: usize = hay_len - needle_len;
    let mut start: usize = 0;
    while start <= last
        invariant
            needle_len == needle@.len(),
            hay_len == hay@.len(),
            needle_len <= hay_len,
            last == hay_len - needle_len,
            start <= last + 1,
            needle_len >= 1,
            forall|i: int|
                0 <= i < start ==> #[trigger] spec_lower_bytes(hay@).subrange(
                    i,
                    i + needle@.len(),
                ) != needle@,
        decreases last + 1 - start,
    {
        if match_at(hay, needle, start) {
            assert(spec_lower_bytes(hay@).subrange(start as int, start + needle@.len())
                == needle@);
            return true;
        }
        start = start + 1;
    }
    assert forall|i: int|
        0 <= i && i + needle@.len() <= spec_lower_bytes(hay@).len() implies #[trigger]
    spec_lower_bytes(hay@).subrange(i, i + needle@.len()) != needle@ by {
        assert(i < start);
    }
    false
}

/// How a backing-store fault, given as its message, must surface to
/// callers: a duplicate-key violation becomes a conflict, a malformed
/// regular expression becomes a usage error, and anything else an
/// opaque server fault.
pub open spec fn spec_db_fault_surfaced(message: Seq<u8>, r: APIError) -> bool {
    if contains_seq(spec_lower_bytes(message), "duplicate key value".spec_bytes()) {
        r == APIError::DuplicateError
    } else if contains_seq(spec_lower_bytes(message), "invalid regular expression".spec_bytes()) {
        r matches APIError::InvalidQuery(_)
    } else {
        r == APIError::ServerError
    }
}

/// Classify a backing-store error by its message, as the service layer
/// does before reporting it; see `spec_db_fault_surfaced`.
pub fn classify_db_message(message: &str) -> (r: APIError)
    ensures
        spec_db_fault_surfaced(message.spec_bytes(), r),
{
    let bytes = message.as_bytes();
    if bytes_contain_lowered(bytes, "duplicate key value".as_bytes()) {
        APIError::DuplicateError
    } else if bytes_contain_lowered(bytes, "invalid regular expression".as_bytes()) {
        APIError::InvalidQuery(String::from_str("regex is malformed"))
    } else {
        APIError::ServerError
    }
}

impl APIError {
    /// How a query-layer fault surfaces to callers: a backing-store
    /// error is classified by its message, every other fault is a
    /// usage error carrying the given detail.
    pub fn from_query_error(value: &DatabaseQueryError, detail: String) -> (r: APIError)
        ensures
            value matches DatabaseQueryError::DbErr(m) ==> spec_db_fault_surfaced(
                vstd::utf8::encode_utf8(m@),
                r,
            ),
            !(value matches DatabaseQueryError::DbErr(_)) ==> (r matches APIError::InvalidQuery(d)
                && d == detail),
    {
        match value {
            DatabaseQueryError::DbErr(message) => classify_db_message(message.as_str()),
            _ => APIError::InvalidQuery(detail),
        }
    }

    /// How a core-service fault surfaces to callers: grant exhaustion
    /// is a rate-limit fault naming the key, a poisoned lock an
    /// internal fault, and a carried query fault surfaces as
    /// `from_query_error` does.
    pub fn from_core_error(value: &CoreError, detail: String) -> (r: APIError)
        ensures
            value matches CoreError::GrantError(k, _) ==> (r matches APIError::RateLimit(m) && m
                == k),
            value is PoisonError ==> r == APIError::ServerError,
            value matches CoreError::DatabaseQueryError(DatabaseQueryError::DbErr(m))
                ==> spec_db_fault_surfaced(vstd::utf8::encode_utf8(m@), r),
            (value matches CoreError::DatabaseQueryError(e) && !(e matches
                DatabaseQueryError::DbErr(_))) ==> (r matches APIError::InvalidQuery(d) && d
                == detail),
    {
        match value {
            CoreError::GrantError(key, _) => APIError::RateLimit(key.clone()),
            CoreError::PoisonError => APIError::ServerError,
            CoreError::DatabaseQueryError(e) => APIError::from_query_error(e, detail),
        }
    }
}


} // verus!
