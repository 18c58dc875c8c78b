use vstd::prelude::*;
use crate::error::{APIError, ValidationFailureKind};
use crate::json::{JsonScalarV, JsonValue, JsonValueV};
use crate::schema::{ColumnKind, ColumnSchemaV, Format, regex_match, pattern_matches};

verus! {

/// How an ingestion batch ended: all rows persisted, or none.
#[derive(Debug, Clone, Copy, PartialEq, Eq, Structural)]
pub enum OutcomeKind {
    Success,
    Error,
}

/// An upload session: the audit record of one bulk ingestion attempt.
#[derive(Debug, PartialEq, Eq)]
pub struct UploadSession {
    pub id: i32,
    /// Seconds since the epoch.
    pub created_at: i64,
    pub record_count: i32,
    pub format_id: i32,
    pub user_id: u128,
    pub outcome: OutcomeKind,
    pub detail: String,
}

/// The mathematical image of an `UploadSession`.
pub struct UploadSessionV {
    pub id: i32,
    pub created_at: i64,
    pub record_count: i32,
    pub format_id: i32,
    pub user_id: u128,
    pub outcome: OutcomeKind,
    pub detail: Seq<char>,
}

impl View for UploadSession {
    type V = UploadSessionV;

    open spec fn view(&self) -> UploadSessionV {
        UploadSessionV {
            id: self.id,
            created_at: self.created_at,
            record_count: self.record_count,
            format_id: self.format_id,
            user_id: self.user_id,
            outcome: self.outcome,
            detail: self.detail@,
        }
    }
}

impl Clone for UploadSession {
    fn clone(&self) -> (r: Self)
        ensures
            r@ == self@,
    {
        UploadSession {
            id: self.id,
            created_at: self.created_at,
            record_count: self.record_count,
            format_id: self.format_id,
            user_id: self.user_id,
            outcome: self.outcome,
            detail: self.detail.clone(),
        }
    }
}

/// The document a record carries: column name to value, names unique.
#[derive(Debug, PartialEq, Eq)]
pub struct RecordJsonData(pub Vec<(String, JsonValue)>);

impl View for RecordJsonData {
    type V = Seq<(Seq<char>, JsonValueV)>;

    open spec fn view(&self) -> Seq<(Seq<char>, JsonValueV)> {
        Seq::new(self.0@.len(), |i: int| (self.0@[i].0@, self.0@[i].1@))
    }
}

/// The value stored under `key` in a document, if any.
pub open spec fn spec_data_get(
    data: Seq<(Seq<char>, JsonValueV)>,
    key: Seq<char>,
) -> Option<JsonValueV> {
    if exists|i: int| 0 <= i < data.len() && (#[trigger] data[i]).0 == key {
        Some(data[choose|i: int| 0 <= i < data.len() && (#[trigger] data[i]).0 == key].1)
    } else {
        None
    }
}

impl RecordJsonData {
    /// Whether no two entries share a key.
    pub open spec fn keys_unique(&self) -> bool {
        forall|i: int, j: int|
            0 <= i < j < self@.len() ==> (#[trigger] self@[i]).0 != (#[trigger] self@[j]).0
    }

    /// The value stored under `key`, if any.
    pub open spec fn spec_get(&self, key: Seq<char>) -> Option<JsonValueV> {
        spec_data_get(self@, key)
    }

    /// Look the value for `key` up by scanning the entries.
    pub fn get(&self, key: &String) -> (r: Option<&JsonValue>)
        requires
            self.keys_unique(),
        ensures
            match r {
                Some(v) => self.spec_get(key@) == Some(v@),
                None => self.spec_get(key@) is None,
            },
    {
        let n: usize = self.0.len();
        let mut i: usize = 0;
        while i < n
            invariant
                i <= n,
                n == self.0@.len(),
                forall|k: int| 0 <= k < i ==> (#[trigger] self@[k]).0 != key@,
            decreases n - i,
        {
            if self.0[i].0 == *key {
                assert(self@[i as int].0 == key@);
                return Some(&self.0[i].1);
            }
            assert(self@[i as int].0 != key@);
            i = i + 1;
        }
        None
    }
}

impl Clone for RecordJsonData {
    fn clone(&self) -> (r: Self)
        ensures
            r@ == self@,
    {
        let mut entries: Vec<(String, JsonValue)> = Vec::new();
        let n: usize = self.0.len();
        let mut i: usize = 0;
        while i < n
            invariant
                i <= n,
                entries@.len() == i,
                forall|k: int|
                    0 <= k < i ==> (#[trigger] entries@[k]).0@ == self@[k].0 && entries@[k].1@
                        == self@[k].1,
            decreases n - i,
        {
            entries.push((self.0[i].0.clone(), self.0[i].1.clone()));
            i = i + 1;
        }
        let r = RecordJsonData(entries);
        assert(r@ =~= self@);
        r
    }
}

/// One schema-conformant document belonging to a format, created by an
/// upload session.
#[derive(Debug, PartialEq, Eq)]
pub struct Record {
    pub id: i64,
    pub upload_session_id: i32,
    pub format_id: i32,
    pub data: RecordJsonData,
}

/// The mathematical image of a `Record`.
pub struct RecordV {
    pub id: i64,
    pub upload_session_id: i32,
    pub format_id: i32,
    pub data: Seq<(Seq<char>, JsonValueV)>,
}

impl View for Record {
    type V = RecordV;

    open spec fn view(&self) -> RecordV {
        RecordV {
            id: self.id,
            upload_session_id: self.upload_session_id,
            format_id: self.format_id,
            data: self.data@,
        }
    }
}

impl DeepView for Record {
    type V = RecordV;

    open spec fn deep_view(&self) -> RecordV {
        self@
    }
}

impl Clone for Record {
    fn clone(&self) -> (r: Self)
        ensures
            r@ == self@,
    {
        Record {
            id: self.id,
            upload_session_id: self.upload_session_id,
            format_id: self.format_id,
            data: self.data.clone(),
        }
    }
}

impl Record {
    /// Pack a freshly validated document into a record of `format_id`
    /// owned by `upload_session_id`; the backing store assigns the id.
    pub fn new(upload_session_id: i32, format_id: i32, data: RecordJsonData) -> (r: Record)
        ensures
            r@.upload_session_id == upload_session_id,
            r@.format_id == format_id,
            r@.data == data@,
            r@.id == 0,
    {
        Record { id: 0, upload_session_id, format_id, data }
    }
}

/// Bounds a session field from both sides; absent knobs do not
/// constrain.  This models the caller-supplied query-parameter filter.
#[derive(Debug, Clone, Copy, PartialEq, Eq)]
pub struct RangeFilter {
    pub eq: Option<i64>,
    pub lt: Option<i64>,
    pub gt: Option<i64>,
    pub lte: Option<i64>,
    pub gte: Option<i64>,
}

impl RangeFilter {
    /// The filter that admits everything.
    pub open spec fn spec_any() -> RangeFilter {
        RangeFilter { eq: None, lt: None, gt: None, lte: None, gte: None }
    }

    /// Whether `v` satisfies every present knob.
    pub open spec fn spec_admits(&self, v: i64) -> bool {
        &&& (self.eq matches Some(x) ==> v == x)
        &&& (self.lt matches Some(x) ==> v < x)
        &&& (self.gt matches Some(x) ==> v > x)
        &&& (self.lte matches Some(x) ==> v <= x)
        &&& (self.gte matches Some(x) ==> v >= x)
    }

    /// The filter that admits everything.
    pub fn any() -> (r: RangeFilter)
        ensures
            r == RangeFilter::spec_any(),
    {
        RangeFilter { eq: None, lt: None, gt: None, lte: None, gte: None }
    }

    /// Whether `v` satisfies every present knob.
    pub fn admits(&self, v: i64) -> (r: bool)
        ensures
            r == self.spec_admits(v),
    {
        let eq_ok = match self.eq {
            Some(x) => v == x,
            None => true,
        };
        let lt_ok = match self.lt {
            Some(x) => v < x,
            None => true,
        };
        let gt_ok = match self.gt {
            Some(x) => v > x,
            None => true,
        };
        let lte_ok = match self.lte {
            Some(x) => v <= x,
            None => true,
        };
        let gte_ok = match self.gte {
            Some(x) => v >= x,
            None => true,
        };
        eq_ok && lt_ok && gt_ok && lte_ok && gte_ok
    }
}

/// The caller-supplied upload-session sub-filter of a search: records
/// are restricted to sessions that satisfy every present knob.
#[derive(Debug, Clone, Copy, PartialEq, Eq)]
pub struct UploadSessionFilter {
    pub id: RangeFilter,
    pub created_at: RangeFilter,
    pub record_count: RangeFilter,
    pub format_id: RangeFilter,
    pub user_id_eq: Option<u128>,
    pub outcome_eq: Option<OutcomeKind>,
}

impl UploadSessionFilter {
    /// Whether `session` satisfies every present knob.
    pub open spec fn spec_admits(&self, session: UploadSessionV) -> bool {
        &&& self.id.spec_admits(session.id as i64)
        &&& self.created_at.spec_admits(session.created_at)
        &&& self.record_count.spec_admits(session.record_count as i64)
        &&& self.format_id.spec_admits(session.format_id as i64)
        &&& (self.user_id_eq matches Some(u) ==> session.user_id == u)
        &&& (self.outcome_eq matches Some(o) ==> session.outcome == o)
    }

    /// Whether `session` satisfies every present knob.
    pub fn admits(&self, session: &UploadSession) -> (r: bool)
        ensures
            r == self.spec_admits(session@),
    {
        let user_ok = match self.user_id_eq {
            Some(u) => u == session.user_id,
            None => true,
        };
        let outcome_ok = match self.outcome_eq {
            Some(o) => o == session.outcome,
            None => true,
        };
        self.id.admits(session.id as i64) && self.created_at.admits(session.created_at)
            && self.record_count.admits(session.record_count as i64) && self.format_id.admits(
            session.format_id as i64,
        ) && user_ok && outcome_ok
    }
}

/// The caller-supplied record-level filter of a listing or an export:
/// ranges over the record's own id and its owning session's id, each
/// knob optional.
#[derive(Debug, Clone, Copy, PartialEq, Eq)]
pub struct RecordFilter {
    pub id: RangeFilter,
    pub upload_session_id: RangeFilter,
}

impl RecordFilter {
    /// The filter that admits everything.
    pub fn any() -> (r: RecordFilter)
        ensures
            r.id == RangeFilter::spec_any(),
            r.upload_session_id == RangeFilter::spec_any(),
    {
        RecordFilter { id: RangeFilter::any(), upload_session_id: RangeFilter::any() }
    }

    /// Whether `record` satisfies every present knob.
    pub open spec fn spec_admits(&self, record: RecordV) -> bool {
        &&& self.id.spec_admits(record.id)
        &&& self.upload_session_id.spec_admits(record.upload_session_id as i64)
    }

    /// Whether `record` satisfies every present knob.
    pub fn admits(&self, record: &Record) -> (r: bool)
        ensures
            r == self.spec_admits(record@),
    {
        self.id.admits(record.id) && self.upload_session_id.admits(
            record.upload_session_id as i64,
        )
    }
}

/// Whether `s` parses as an RFC 3339 date-time, the concrete shape of
/// the "ISO-parsable" strings datetime columns hold.  The name is
/// given meaning only through `is_iso_datetime`.
pub uninterp spec fn iso_datetime(s: Seq<char>) -> bool;

/// Relies on chrono's RFC 3339 parser: whether `s` parses as an ISO
/// date-time.  The outcome depends on the string alone.
#[verifier::external_body]
pub(crate) fn is_iso_datetime(s: &str) -> (r: bool)
    ensures
        r == iso_datetime(s@),
{
    chrono::DateTime::parse_from_rfc3339(s).is_ok()
}

/// Whether a document value satisfies a column's declared kind:
/// numeric columns take numbers, string columns strings, and datetime
/// columns ISO-parsable strings.
pub open spec fn spec_value_matches_kind(v: JsonValueV, kind: ColumnKind) -> bool {
    match kind {
        ColumnKind::Number => v matches JsonValueV::Scalar(JsonScalarV::Num(_)),
        ColumnKind::String => v matches JsonValueV::Scalar(JsonScalarV::Str(_)),
        ColumnKind::Datetime => v matches JsonValueV::Scalar(JsonScalarV::Str(s))
            && iso_datetime(s),
    }
}

/// Whether the schema declares a column named `key`.
pub open spec fn spec_key_declared(schema: Seq<ColumnSchemaV>, key: Seq<char>) -> bool {
    exists|c: int| 0 <= c < schema.len() && (#[trigger] schema[c]).name == key
}

/// Whether one document conforms to a schema: its keys are exactly the
/// declared columns, every value satisfies its column's kind, and a
/// column regex, where declared, matches the value.
pub open spec fn spec_doc_conforms(
    schema: Seq<ColumnSchemaV>,
    doc: Seq<(Seq<char>, JsonValueV)>,
) -> bool {
    &&& forall|j: int| 0 <= j < doc.len() ==> spec_key_declared(schema, (#[trigger] doc[j]).0)
    &&& forall|c: int|
        0 <= c < schema.len() ==> (match spec_data_get(doc, (#[trigger] schema[c]).name) {
            Some(v) => spec_value_matches_kind(v, schema[c].kind) && (schema[c].regex matches Some(
                p,
            ) ==> (v matches JsonValueV::Scalar(JsonScalarV::Str(s)) && regex_match(p, s))),
            None => false,
        })
}

/// One inbound ingestion batch: the target format and the candidate
/// documents.
#[derive(Debug, PartialEq, Eq)]
pub struct InboundRecordData {
    pub format_id: i32,
    pub data: Vec<RecordJsonData>,
}

/// The mathematical image of an `InboundRecordData`.
pub struct InboundRecordDataV {
    pub format_id: i32,
    pub data: Seq<Seq<(Seq<char>, JsonValueV)>>,
}

impl View for InboundRecordData {
    type V = InboundRecordDataV;

    open spec fn view(&self) -> InboundRecordDataV {
        InboundRecordDataV {
            format_id: self.format_id,
            data: Seq::new(self.data@.len(), |i: int| self.data@[i]@),
        }
    }
}

impl InboundRecordData {
    /// Whether every document's keys are unique, as a map-backed
    /// document guarantees by construction.
    pub open spec fn docs_wf(&self) -> bool {
        forall|i: int| 0 <= i < self.data@.len() ==> (#[trigger] self.data@[i]).keys_unique()
    }

    /// Validate the whole batch against the format's schema.  The
    /// batch passes only if every document's keys are exactly the
    /// declared columns, every value has its column's kind, and every
    /// declared regex matches; the first offence reports which rule
    /// broke.
    pub fn validate_blocking(&self, inbound: &Format) -> (r: Result<(), APIError>)
        requires
            inbound.schema.wf(),
            self.docs_wf(),
        ensures
            r is Ok <==> (forall|i: int|
                0 <= i < self@.data.len() ==> spec_doc_conforms(
                    inbound@.schema,
                    #[trigger] self@.data[i],
                )),
            r matches Err(e) ==> (e matches APIError::ValidationFailure(k) && (k
                == ValidationFailureKind::MissingDictKeys || k
                == ValidationFailureKind::MismatchedDataType || k
                == ValidationFailureKind::RegexMatchFailure)),
    {
        let ghost schema_v = inbound@.schema;
        let nd: usize = self.data.len();
        let mut d: usize = 0;
        while d < nd
            invariant
                d <= nd,
                forall|i: int|
                    0 <= i < d ==> spec_doc_conforms(schema_v, #[trigger] self@.data[i]),
            decreases nd - d,
        {
            let doc = &self.data[d];
            assert(doc@ == self@.data[d as int]);
            match validate_one_doc(doc, inbound) {
                Ok(()) => {},
                Err(e) => {
                    return Err(e);
                },
            }
            d = d + 1;
        }
        Ok(())
    }
}

/// Validate one document against the schema; see `validate_blocking`.
fn validate_one_doc(doc: &RecordJsonData, inbound: &Format) -> (r: Result<(), APIError>)
    requires
        inbound.schema.wf(),
        doc.keys_unique(),
    ensures
        r is Ok <==> spec_doc_conforms(inbound@.schema, doc@),
        r matches Err(e) ==> (e matches APIError::ValidationFailure(k) && (k
            == ValidationFailureKind::MissingDictKeys || k
            == ValidationFailureKind::MismatchedDataType || k
            == ValidationFailureKind::RegexMatchFailure)),
{
    let ghost schema_v = inbound@.schema;
    let cols = &inbound.schema.0;
    // The key sets must match exactly before any value is looked at:
    // every document key must be declared, and every declared column
    // present.
    let nk: usize = doc.0.len();
    let mut j: usize = 0;
    while j < nk
        invariant
            j <= nk,
            forall|k: int| 0 <= k < j ==> spec_key_declared(schema_v, (#[trigger] doc@[k]).0),
        decreases nk - j,
    {
        assert(doc@[j as int].0 == doc.0@[j as int].0@);
        assert(cols.deep_view() =~= schema_v);
        if !schema_declares(cols, &doc.0[j].0) {
            assert(!spec_doc_conforms(schema_v, doc@)) by {
                assert(!spec_key_declared(schema_v, doc@[j as int].0));
            }
            return Err(APIError::ValidationFailure(ValidationFailureKind::MissingDictKeys));
        }
        assert(spec_key_declared(schema_v, doc@[j as int].0));
        j = j + 1;
    }
    assert(nk == doc@.len());
    let nc: usize = cols.len();
    let mut p: usize = 0;
    while p < nc
        invariant
            p <= nc,
            doc.keys_unique(),
            forall|k: int|
                0 <= k < p ==> spec_data_get(doc@, (#[trigger] schema_v[k]).name) is Some,
        decreases nc - p,
    {
        let col = &cols[p];
        assert(col@ == schema_v[p as int]);
        if doc.get(&col.name).is_none() {
            assert(!spec_doc_conforms(schema_v, doc@)) by {
                assert(spec_data_get(doc@, schema_v[p as int].name) is None);
            }
            return Err(APIError::ValidationFailure(ValidationFailureKind::MissingDictKeys));
        }
        p = p + 1;
    }
    let mut c: usize = 0;
    while c < nc
        invariant
            c <= nc,
            doc.keys_unique(),
            forall|k: int|
                0 <= k < doc@.len() ==> spec_key_declared(schema_v, (#[trigger] doc@[k]).0),
            forall|k: int|
                0 <= k < c ==> (match spec_data_get(doc@, (#[trigger] schema_v[k]).name) {
                    Some(v) => spec_value_matches_kind(v, schema_v[k].kind)
                        && (schema_v[k].regex matches Some(p) ==> (v matches JsonValueV::Scalar(
                        JsonScalarV::Str(s),
                    ) && regex_match(p, s))),
                    None => false,
                }),
        decreases nc - c,
    {
        let col = &cols[c];
        assert(col@ == schema_v[c as int]);
        match doc.get(&col.name) {
            None => {
                assert(!spec_doc_conforms(schema_v, doc@)) by {
                    assert(spec_data_get(doc@, schema_v[c as int].name) is None);
                }
                return Err(APIError::ValidationFailure(ValidationFailureKind::MissingDictKeys));
            },
            Some(value) => {
                let kind_ok = match (col.kind, value) {
                    (ColumnKind::Number, JsonValue::Scalar(crate::json::JsonScalar::Num(_))) => (
                    true),
                    (ColumnKind::String, JsonValue::Scalar(crate::json::JsonScalar::Str(_))) => (
                    true),
                    (
                        ColumnKind::Datetime,
                        JsonValue::Scalar(crate::json::JsonScalar::Str(text)),
                    ) => is_iso_datetime(text.as_str()),
                    _ => false,
                };
                if !kind_ok {
                    assert(!spec_doc_conforms(schema_v, doc@)) by {
                        assert(spec_data_get(doc@, schema_v[c as int].name) == Some(value@));
                        assert(!spec_value_matches_kind(value@, schema_v[c as int].kind));
                    }
                    return Err(APIError::ValidationFailure(
                        ValidationFailureKind::MismatchedDataType,
                    ));
                }
                match &col.regex {
                    Some(pattern) => {
                        match value {
                            JsonValue::Scalar(crate::json::JsonScalar::Str(text)) => {
                                assert(regex_ok_for_col(schema_v, c as int));
                                if !pattern_matches(pattern.as_str(), text.as_str()) {
                                    assert(!spec_doc_conforms(schema_v, doc@)) by {
                                        assert(spec_data_get(doc@, schema_v[c as int].name)
                                            == Some(value@));
                                        assert(schema_v[c as int].regex == Some(pattern@));
                                        assert(!regex_match(pattern@, text@));
                                    }
                                    return Err(APIError::ValidationFailure(
                                        ValidationFailureKind::RegexMatchFailure,
                                    ));
                                }
                            },
                            _ => {
                                assert(!spec_doc_conforms(schema_v, doc@)) by {
                                    assert(spec_data_get(doc@, schema_v[c as int].name) == Some(
                                        value@,
                                    ));
                                    assert(schema_v[c as int].regex == Some(pattern@));
                                }
                                return Err(APIError::ValidationFailure(
                                    ValidationFailureKind::RegexMatchFailure,
                                ));
                            },
                        }
                    },
                    None => {},
                }
            },
        }
        c = c + 1;
    }
    proof {
        assert forall|j2: int| 0 <= j2 < doc@.len() implies spec_key_declared(
            schema_v,
            (#[trigger] doc@[j2]).0,
        ) by {}
        assert forall|c2: int| 0 <= c2 < schema_v.len() implies (match spec_data_get(
            doc@,
            (#[trigger] schema_v[c2]).name,
        ) {
            Some(v) => spec_value_matches_kind(v, schema_v[c2].kind) && (schema_v[c2].regex
                matches Some(p) ==> (v matches JsonValueV::Scalar(JsonScalarV::Str(s))
                && regex_match(p, s))),
            None => false,
        }) by {}
        assert(spec_doc_conforms(schema_v, doc@));
    }
    Ok(())
}

/// In a well-formed schema, any declared regex compiles.
pub open spec fn regex_ok_for_col(schema: Seq<ColumnSchemaV>, c: int) -> bool {
    0 <= c < schema.len() && (schema[c].regex matches Some(p) ==> crate::schema::regex_ok(p))
}

/// Whether the schema declares a column named `name`, by scanning.
fn schema_declares(cols: &Vec<crate::schema::ColumnSchema>, name: &String) -> (r: bool)
    ensures
        r == spec_key_declared(cols.deep_view(), name@),
{
    let n: usize = cols.len();
    let mut i: usize = 0;
    while i < n
        invariant
            i <= n,
            forall|k: int| 0 <= k < i ==> (#[trigger] cols.deep_view()[k]).name != name@,
        decreases n - i,
    {
        if cols[i].name == *name {
            assert(cols.deep_view()[i as int].name == name@);
            return true;
        }
        assert(cols.deep_view()[i as int].name != name@);
        i = i + 1;
    }
    false
}

/// Decide a batch's fate: a batch whose every document conforms is
/// recorded as a success carrying the given summary; any offence marks
/// the whole session as an error whose detail is the failure's own
/// text, no record of it is to be persisted, and the failure comes
/// back beside the session so the caller can surface it.  The session
/// always carries the batch's size, owner and format.
pub fn evaluate_upload(
    format: &Format,
    inbound: &InboundRecordData,
    user_id: u128,
    now: i64,
    success_detail: String,
) -> (r: (UploadSession, Result<(), APIError>))
    requires
        inbound.schema_wf_for(format),
        inbound.data@.len() <= i32::MAX,
    ensures
        r.1 is Ok <==> (forall|i: int|
            0 <= i < inbound@.data.len() ==> spec_doc_conforms(
                format@.schema,
                #[trigger] inbound@.data[i],
            )),
        r.0@.outcome == OutcomeKind::Success <==> r.1 is Ok,
        r.1 is Ok ==> r.0@.detail == success_detail@,
        r.1 matches Err(e) ==> (e matches APIError::ValidationFailure(k) && (k
            == ValidationFailureKind::MissingDictKeys || k
            == ValidationFailureKind::MismatchedDataType || k
            == ValidationFailureKind::RegexMatchFailure) && r.0@.detail == k.spec_detail()),
        r.0@.format_id == format.id,
        r.0@.user_id == user_id,
        r.0@.created_at == now,
        r.0@.record_count == inbound@.data.len(),
        r.0@.id == 0,
{
    let (outcome, detail, verdict) = match inbound.validate_blocking(format) {
        Ok(()) => (OutcomeKind::Success, success_detail, Ok(())),
        Err(e) => {
            let text = match &e {
                APIError::ValidationFailure(k) => k.detail(),
                _ => vstd::pervasive::unreached(),
            };
            (OutcomeKind::Error, text, Err(e))
        },
    };
    let session = UploadSession {
        id: 0,
        created_at: now,
        record_count: inbound.data.len() as i32,
        format_id: format.id,
        user_id,
        outcome,
        detail,
    };
    (session, verdict)
}

impl InboundRecordData {
    /// The obligations `evaluate_upload` inherits from its callers.
    pub open spec fn schema_wf_for(&self, format: &Format) -> bool {
        format.schema.wf() && self.docs_wf()
    }
}

/// Build the records of a successful batch: one per document, owned by
/// `upload_session_id`, typed by `format_id`, ids left to the store.
pub fn build_records(inbound: InboundRecordData, upload_session_id: i32, format_id: i32) -> (r:
    Vec<Record>)
    ensures
        r.deep_view().len() == inbound@.data.len(),
        forall|i: int|
            0 <= i < r.deep_view().len() ==> {
                let rec = #[trigger] r.deep_view()[i];
                rec.upload_session_id == upload_session_id && rec.format_id == format_id
                    && rec.data == inbound@.data[i] && rec.id == 0
            },
{
    let ghost iv = inbound@;
    let mut docs = inbound.data;
    let mut out: Vec<Record> = Vec::new();
    let n: usize = docs.len();
    let mut i: usize = 0;
    while i < n
        invariant
            i <= n,
            out.deep_view().len() == i,
            docs@.len() == n - i,
            forall|k: int| 0 <= k < docs@.len() ==> #[trigger] docs@[k]@ == iv.data[k + i],
            forall|k: int|
                0 <= k < out.deep_view().len() ==> {
                    let rec = #[trigger] out.deep_view()[k];
                    rec.upload_session_id == upload_session_id && rec.format_id == format_id
                        && rec.data == iv.data[k] && rec.id == 0
                },
        decreases n - i,
    {
        let ghost before = out.deep_view();
        let doc = docs.remove(0);
        assert(doc@ == iv.data[i as int]);
        out.push(Record::new(upload_session_id, format_id, doc));
        i = i + 1;
        proof {
            assert forall|k: int| 0 <= k < out.deep_view().len() implies {
                let rec = #[trigger] out.deep_view()[k];
                rec.upload_session_id == upload_session_id && rec.format_id == format_id
                    && rec.data == iv.data[k] && rec.id == 0
            } by {
                if k < before.len() {
                    assert(out.deep_view()[k] == before[k]);
                }
            }
        }
    }
    out
}

/// Every record of a batch the validator accepted conforms to its
/// format: each of its keys is a declared column and each value
/// satisfies the declared kind and, where present, the declared regex.
pub proof fn lemma_accepted_records_conform(
    format: crate::schema::FormatV,
    inbound: InboundRecordDataV,
    records: Seq<RecordV>,
    session: UploadSessionV,
)
    requires
        session.outcome == OutcomeKind::Success,
        session.outcome == OutcomeKind::Success <==> (forall|i: int|
            0 <= i < inbound.data.len() ==> spec_doc_conforms(
                format.schema,
                #[trigger] inbound.data[i],
            )),
        records.len() == inbound.data.len(),
        forall|i: int|
            0 <= i < records.len() ==> (#[trigger] records[i]).data == inbound.data[i],
    ensures
        forall|i: int|
            0 <= i < records.len() ==> spec_doc_conforms(
                format.schema,
                (#[trigger] records[i]).data,
            ),
{
}

/// Whether records of this format ever expire: a zero retention means
/// keep forever.
pub fn format_is_prunable(format: &Format) -> (r: bool)
    ensures
        r == (format.retention_period_minutes > 0),
{
    format.retention_period_minutes > 0
}

/// The creation instant before which this format's sessions expire.
pub fn prune_cutoff(now: i64, retention_period_minutes: i32) -> (r: i64)
    requires
        retention_period_minutes >= 0,
        now as int - retention_period_minutes as int * 60 >= i64::MIN,
    ensures
        r == now as int - retention_period_minutes as int * 60,
{
    now - (retention_period_minutes as i64) * 60
}

/// Whether `session` of `format` has outlived the retention period at
/// time `now`.
pub fn session_is_prunable(session: &UploadSession, format: &Format, now: i64) -> (r: bool)
    requires
        format.retention_period_minutes >= 0,
        now as int - format.retention_period_minutes as int * 60 >= i64::MIN,
    ensures
        r == (session.format_id == format.id && (session.created_at as int) < now as int
            - format.retention_period_minutes as int * 60),
{
    session.format_id == format.id && session.created_at < prune_cutoff(
        now,
        format.retention_period_minutes,
    )
}


/// How many of the outcomes are successes.
pub open spec fn spec_count_true(results: Seq<bool>) -> nat
    decreases results.len(),
{
    if results.len() == 0 {
        0
    } else {
        spec_count_true(results.drop_last()) + (if results.last() {
            1nat
        } else {
            0nat
        })
    }
}

/// The summary of one format's pruning round.
#[derive(Debug, PartialEq, Eq)]
pub struct UploadSessionPruneResult {
    pub format_id: i32,
    pub format_name: String,
    /// Sessions created before this instant were pruned.
    pub pruned_created_at_before: i64,
    pub upload_session_ids: Vec<i32>,
    pub success: usize,
    pub failed: usize,
}

/// Summarise a pruning round: which sessions were attacked, before
/// which instant they had been created, and how many deletions
/// succeeded and failed.
pub fn summarize_prune(
    format: &Format,
    cutoff: i64,
    upload_session_ids: Vec<i32>,
    results: &Vec<bool>,
) -> (r: UploadSessionPruneResult)
    requires
        results@.len() == upload_session_ids@.len(),
    ensures
        r.format_id == format.id,
        r.format_name@ == format@.name,
        r.pruned_created_at_before == cutoff,
        r.upload_session_ids@ == upload_session_ids@,
        r.success == spec_count_true(results@),
        r.success + r.failed == results@.len(),
{
    let n: usize = results.len();
    let mut success: usize = 0;
    let mut i: usize = 0;
    while i < n
        invariant
            i <= n,
            success == spec_count_true(results@.subrange(0, i as int)),
            success <= i,
        decreases n - i,
    {
        let ghost prefix = results@.subrange(0, i as int);
        if results[i] {
            success = success + 1;
        }
        i = i + 1;
        assert(results@.subrange(0, i as int).drop_last() =~= prefix);
        assert(results@.subrange(0, i as int).last() == results@[i - 1]);
    }
    assert(results@.subrange(0, n as int) =~= results@);
    UploadSessionPruneResult {
        format_id: format.id,
        format_name: format.name.clone(),
        pruned_created_at_before: cutoff,
        upload_session_ids,
        success,
        failed: n - success,
    }
}


} // verus!
