use vstd::prelude::*;
use vstd::string::StringExecFns;
use crate::error::DatabaseQueryError;
use crate::json::{JsonValue, JsonValueV, JsonScalarV};
use crate::records::UploadSessionFilter;
use crate::schema::Format;

verus! {

/// How the arguments of one search group are combined.
#[derive(Debug, Clone, Copy, PartialEq, Eq, Structural)]
pub enum ConditionKind {
    Any,
    All,
}

impl Default for ConditionKind {
    /// Callers that leave the knob out get a conjunction.
    fn default() -> (r: ConditionKind)
        ensures
            r == ConditionKind::All,
    {
        ConditionKind::All
    }
}

/// The comparisons a search argument can ask for.
#[derive(Debug, Clone, Copy, PartialEq, Eq, Structural)]
pub enum ComparisonOperator {
    JoinColumnEq,
    JoinColumnNotEq,
    Eq,
    Lt,
    Gt,
    Lte,
    Gte,
    In,
    ILike,
    Like,
    Regex,
    RegexCaseInsensitive,
}

/// The join flavours a caller may name; join comparisons are declared
/// unstable and every query using one is rejected during validation.
#[derive(Debug, Clone, Copy, PartialEq, Eq, Structural)]
pub enum JoinKind {
    Inner,
    Left,
    Right,
    FullOuter,
}

impl ComparisonOperator {
    /// Whether this operator compares two columns instead of a column
    /// and a value.
    pub open spec fn spec_is_join(&self) -> bool {
        self is JoinColumnEq || self is JoinColumnNotEq
    }

    /// Whether this operator compares two columns instead of a column
    /// and a value.
    pub fn is_join(&self) -> (r: bool)
        ensures
            r == self.spec_is_join(),
    {
        matches!(self, ComparisonOperator::JoinColumnEq | ComparisonOperator::JoinColumnNotEq)
    }

}

impl Default for ComparisonOperator {
    /// Callers that leave the knob out get equality.
    fn default() -> (r: ComparisonOperator)
        ensures
            r == ComparisonOperator::Eq,
    {
        ComparisonOperator::Eq
    }
}

/// One match a caller asks for against a single column.
#[derive(Debug, PartialEq, Eq)]
pub struct SearchArguments {
    pub column: String,
    pub join_kind: Option<JoinKind>,
    pub comparison_operator: ComparisonOperator,
    pub compare_against: JsonValue,
}

/// The mathematical image of a `SearchArguments`.
pub struct SearchArgumentsV {
    pub column: Seq<char>,
    pub join_kind: Option<JoinKind>,
    pub comparison_operator: ComparisonOperator,
    pub compare_against: JsonValueV,
}

impl View for SearchArguments {
    type V = SearchArgumentsV;

    open spec fn view(&self) -> SearchArgumentsV {
        SearchArgumentsV {
            column: self.column@,
            join_kind: self.join_kind,
            comparison_operator: self.comparison_operator,
            compare_against: self.compare_against@,
        }
    }
}

impl DeepView for SearchArguments {
    type V = SearchArgumentsV;

    open spec fn deep_view(&self) -> SearchArgumentsV {
        self@
    }
}

impl Clone for SearchArguments {
    fn clone(&self) -> (r: Self)
        ensures
            r@ == self@,
    {
        SearchArguments {
            column: self.column.clone(),
            join_kind: self.join_kind,
            comparison_operator: self.comparison_operator,
            compare_against: self.compare_against.clone(),
        }
    }
}

/// A group of search arguments, combined with `All` or `Any` and
/// optionally negated as a whole.
#[derive(Debug, PartialEq, Eq)]
pub struct SearchGroup {
    pub not: bool,
    pub condition_kind: ConditionKind,
    pub args: Vec<SearchArguments>,
}

/// The mathematical image of a `SearchGroup`.
pub struct SearchGroupV {
    pub not: bool,
    pub condition_kind: ConditionKind,
    pub args: Seq<SearchArgumentsV>,
}

impl View for SearchGroup {
    type V = SearchGroupV;

    open spec fn view(&self) -> SearchGroupV {
        SearchGroupV {
            not: self.not,
            condition_kind: self.condition_kind,
            args: self.args.deep_view(),
        }
    }
}

impl DeepView for SearchGroup {
    type V = SearchGroupV;

    open spec fn deep_view(&self) -> SearchGroupV {
        self@
    }
}

/// A caller-supplied boolean query: an optional format narrowing, an
/// optional upload-session sub-filter, and the search groups, which are
/// ANDed together.
#[derive(Debug, PartialEq, Eq)]
pub struct SearchQuery {
    pub formats: Option<Vec<i32>>,
    pub upload_session: Option<UploadSessionFilter>,
    pub query: Vec<SearchGroup>,
}

/// The mathematical image of a `SearchQuery`.
pub struct SearchQueryV {
    pub formats: Option<Seq<i32>>,
    pub upload_session: Option<UploadSessionFilter>,
    pub query: Seq<SearchGroupV>,
}

impl View for SearchQuery {
    type V = SearchQueryV;

    open spec fn view(&self) -> SearchQueryV {
        SearchQueryV {
            formats: match self.formats {
                Some(ids) => Some(ids@),
                None => None,
            },
            upload_session: self.upload_session,
            query: self.query.deep_view(),
        }
    }
}

impl SearchQuery {
    /// An explicitly empty format list is a usage error, not an empty
    /// result: the caller asked to search nothing.
    pub fn validate(&self) -> (r: Result<(), DatabaseQueryError>)
        ensures
            r is Ok <==> !(self@.formats matches Some(ids) && ids.len() == 0),
            r matches Err(e) ==> e == DatabaseQueryError::EmptyQuery,
    {
        match &self.formats {
            Some(ids) => {
                if ids.len() == 0 {
                    Err(DatabaseQueryError::EmptyQuery)
                } else {
                    Ok(())
                }
            },
            None => Ok(()),
        }
    }
}

/// Whether `op` is one of the comparisons a numeric column accepts.
pub open spec fn spec_numeric_operator(op: ComparisonOperator) -> bool {
    op is Eq || op is Lt || op is Gt || op is Lte || op is Gte
}

/// Whether `op` is one of the value comparisons a string column
/// accepts (membership aside).
pub open spec fn spec_string_operator(op: ComparisonOperator) -> bool {
    op is Eq || op is Like || op is ILike || op is Regex || op is RegexCaseInsensitive
}

/// Whether the argument's operator and comparison value are legal for
/// a column of kind `kind`: numeric columns accept only numeric
/// comparisons against numbers, string columns only string comparisons
/// against strings, and a membership test needs an array whose every
/// element has the column's scalar kind.
pub open spec fn spec_arg_valid_for_kind(kind: crate::schema::ColumnKind, a: SearchArgumentsV) -> bool {
    if kind is Number {
        if a.comparison_operator is In {
            a.compare_against matches JsonValueV::Array(items) && forall|i: int|
                0 <= i < items.len() ==> (#[trigger] items[i]) matches JsonScalarV::Num(_)
        } else {
            spec_numeric_operator(a.comparison_operator) && a.compare_against matches
                JsonValueV::Scalar(JsonScalarV::Num(_))
        }
    } else {
        if a.comparison_operator is In {
            a.compare_against matches JsonValueV::Array(items) && forall|i: int|
                0 <= i < items.len() ==> (#[trigger] items[i]) matches JsonScalarV::Str(_)
        } else {
            spec_string_operator(a.comparison_operator) && a.compare_against matches
                JsonValueV::Scalar(JsonScalarV::Str(_))
        }
    }
}

impl SearchArguments {
    /// Check that a membership test's operand is an array and that
    /// every element is a number (`want_number`) or a string.
    fn validate_in_elements(&self, want_number: bool) -> (r: Result<(), DatabaseQueryError>)
        ensures
            r is Ok <==> (self@.compare_against matches JsonValueV::Array(items) && (if want_number {
                forall|i: int|
                    0 <= i < items.len() ==> (#[trigger] items[i]) matches JsonScalarV::Num(_)
            } else {
                forall|i: int|
                    0 <= i < items.len() ==> (#[trigger] items[i]) matches JsonScalarV::Str(_)
            })),
            r matches Err(e) ==> e matches DatabaseQueryError::InvalidUsage(_),
    {
        match &self.compare_against {
            JsonValue::Array(items) => {
                let n: usize = items.len();
                let mut i: usize = 0;
                while i < n
                    invariant
                        i <= n,
                        forall|k: int|
                            0 <= k < i ==> (if want_number {
                                (#[trigger] items.deep_view()[k]) matches JsonScalarV::Num(_)
                            } else {
                                (#[trigger] items.deep_view()[k]) matches JsonScalarV::Str(_)
                            }),
                    decreases n - i,
                {
                    let ok = if want_number {
                        matches!(&items[i], crate::json::JsonScalar::Num(_))
                    } else {
                        matches!(&items[i], crate::json::JsonScalar::Str(_))
                    };
                    if !ok {
                        assert(items.deep_view()[i as int] == items@[i as int]@);
                        return Err(DatabaseQueryError::InvalidUsage(
                            if want_number {
                                String::from_str("one or more items isn't a number")
                            } else {
                                String::from_str("one or more items isn't a string")
                            },
                        ));
                    }
                    i = i + 1;
                }
                Ok(())
            },
            _ => Err(DatabaseQueryError::InvalidUsage(String::from_str(
                "comparison value isn't an array",
            ))),
        }
    }

    /// The legality check for an argument against a string-class
    /// column.
    fn validate_string(&self) -> (r: Result<(), DatabaseQueryError>)
        ensures
            r is Ok <==> spec_arg_valid_for_kind(crate::schema::ColumnKind::String, self@),
            r matches Err(e) ==> e matches DatabaseQueryError::InvalidUsage(_),
    {
        match self.comparison_operator {
            ComparisonOperator::In => self.validate_in_elements(false),
            ComparisonOperator::JoinColumnEq | ComparisonOperator::JoinColumnNotEq => Err(
                DatabaseQueryError::InvalidUsage(String::from_str("joinEq queries aren't stable")),
            ),
            ComparisonOperator::Eq
            | ComparisonOperator::Like
            | ComparisonOperator::ILike
            | ComparisonOperator::Regex
            | ComparisonOperator::RegexCaseInsensitive => {
                if self.compare_against.is_string() {
                    Ok(())
                } else {
                    Err(DatabaseQueryError::InvalidUsage(String::from_str(
                        "cannot use this operator on non-string types",
                    )))
                }
            },
            _ => Err(DatabaseQueryError::InvalidUsage(String::from_str(
                "cannot use numeric operator on string columns",
            ))),
        }
    }

    /// The legality check for an argument against a numeric column.
    fn validate_number(&self) -> (r: Result<(), DatabaseQueryError>)
        ensures
            r is Ok <==> spec_arg_valid_for_kind(crate::schema::ColumnKind::Number, self@),
            r matches Err(e) ==> e matches DatabaseQueryError::InvalidUsage(_),
    {
        match self.comparison_operator {
            ComparisonOperator::In => self.validate_in_elements(true),
            ComparisonOperator::JoinColumnEq | ComparisonOperator::JoinColumnNotEq => Err(
                DatabaseQueryError::InvalidUsage(String::from_str("joinEq queries aren't stable")),
            ),
            ComparisonOperator::Eq
            | ComparisonOperator::Gt
            | ComparisonOperator::Lt
            | ComparisonOperator::Lte
            | ComparisonOperator::Gte => {
                if self.compare_against.is_number() {
                    Ok(())
                } else {
                    Err(DatabaseQueryError::InvalidUsage(String::from_str(
                        "this column can only be compared against numbers",
                    )))
                }
            },
            _ => Err(DatabaseQueryError::InvalidUsage(String::from_str(
                "this column is numeric; only numeric operators apply",
            ))),
        }
    }

    /// The legality check for an argument against a column of kind
    /// `db_column_kind`.
    pub fn validate(&self, db_column_kind: &crate::schema::ColumnKind) -> (r: Result<
        (),
        DatabaseQueryError,
    >)
        ensures
            r is Ok <==> spec_arg_valid_for_kind(*db_column_kind, self@),
            r matches Err(e) ==> e matches DatabaseQueryError::InvalidUsage(_),
    {
        match db_column_kind {
            crate::schema::ColumnKind::Number => self.validate_number(),
            crate::schema::ColumnKind::String => self.validate_string(),
            crate::schema::ColumnKind::Datetime => self.validate_string(),
        }
    }
}

/// The mathematical image of a column-kind table: name to kind.
pub open spec fn spec_kind_entries(m: Seq<(String, crate::schema::ColumnKind)>) -> Seq<
    (Seq<char>, crate::schema::ColumnKind),
> {
    Seq::new(m.len(), |i: int| (m[i].0@, m[i].1))
}

/// Whether some entry of `entries` carries `name`.
pub open spec fn spec_has_column(
    entries: Seq<(Seq<char>, crate::schema::ColumnKind)>,
    name: Seq<char>,
) -> bool {
    exists|i: int| 0 <= i < entries.len() && (#[trigger] entries[i]).0 == name
}

/// The kind `entries` assigns to `name`, if any.
pub open spec fn spec_kind_lookup(
    entries: Seq<(Seq<char>, crate::schema::ColumnKind)>,
    name: Seq<char>,
) -> Option<crate::schema::ColumnKind> {
    if spec_has_column(entries, name) {
        Some(
            entries[choose|i: int| 0 <= i < entries.len() && (#[trigger] entries[i]).0 == name].1,
        )
    } else {
        None
    }
}

/// Whether no two entries of `entries` carry the same name.
pub open spec fn spec_entries_unique(
    entries: Seq<(Seq<char>, crate::schema::ColumnKind)>,
) -> bool {
    forall|i: int, j: int|
        0 <= i < j < entries.len() ==> (#[trigger] entries[i]).0 != (#[trigger] entries[j]).0
}

/// In a table without duplicate names, the entry at `i` decides the
/// lookup of its name.
pub proof fn lemma_lookup_at(entries: Seq<(Seq<char>, crate::schema::ColumnKind)>, i: int)
    requires
        spec_entries_unique(entries),
        0 <= i < entries.len(),
    ensures
        spec_kind_lookup(entries, entries[i].0) == Some(entries[i].1),
{
    let name = entries[i].0;
    assert(spec_has_column(entries, name));
    let j = choose|j: int| 0 <= j < entries.len() && (#[trigger] entries[j]).0 == name;
    if i != j {
        assert(false);
    }
}

/// Appending a fresh name leaves every other lookup unchanged.
pub proof fn lemma_lookup_push(
    entries: Seq<(Seq<char>, crate::schema::ColumnKind)>,
    name: Seq<char>,
    kind: crate::schema::ColumnKind,
    q: Seq<char>,
)
    requires
        spec_entries_unique(entries),
        !spec_has_column(entries, name),
    ensures
        spec_entries_unique(entries.push((name, kind))),
        q == name ==> spec_kind_lookup(entries.push((name, kind)), q) == Some(kind),
        q != name ==> spec_kind_lookup(entries.push((name, kind)), q) == spec_kind_lookup(
            entries,
            q,
        ),
{
    let extended = entries.push((name, kind));
    assert forall|i: int, j: int| 0 <= i < j < extended.len() implies (#[trigger] extended[i]).0
        != (#[trigger] extended[j]).0 by {
        if j == entries.len() as int {
            assert(extended[i] == entries[i]);
        } else {
            assert(extended[i] == entries[i] && extended[j] == entries[j]);
        }
    }
    if q == name {
        assert(extended[entries.len() as int].0 == name);
        lemma_lookup_at(extended, entries.len() as int);
    } else {
        if spec_has_column(entries, q) {
            let i = choose|i: int| 0 <= i < entries.len() && (#[trigger] entries[i]).0 == q;
            assert(extended[i].0 == q);
            lemma_lookup_at(extended, i);
            lemma_lookup_at(entries, i);
        } else {
            if spec_has_column(extended, q) {
                let i = choose|i: int|
                    0 <= i < extended.len() && (#[trigger] extended[i]).0 == q;
                assert(i < entries.len() ==> entries[i].0 == q);
                assert(i == entries.len() ==> extended[i].0 == name);
                assert(false);
            }
        }
    }
}

/// Whether some visible format declares a column `name` of kind `kind`.
pub open spec fn spec_declares(
    formats: Seq<crate::schema::FormatV>,
    name: Seq<char>,
    kind: crate::schema::ColumnKind,
) -> bool {
    exists|i: int, j: int|
        0 <= i < formats.len() && 0 <= j < formats[i].schema.len() && (#[trigger] formats[i]
            .schema[j]).name == name && formats[i].schema[j].kind == kind
}

/// Whether some visible format declares a column `name` at all.
pub open spec fn spec_column_declared(
    formats: Seq<crate::schema::FormatV>,
    name: Seq<char>,
) -> bool {
    exists|i: int, j: int|
        0 <= i < formats.len() && 0 <= j < formats[i].schema.len() && (#[trigger] formats[i]
            .schema[j]).name == name
}

/// Whether two visible formats disagree about the kind of `name`.
pub open spec fn spec_column_mixed(
    formats: Seq<crate::schema::FormatV>,
    name: Seq<char>,
) -> bool {
    exists|k1: crate::schema::ColumnKind, k2: crate::schema::ColumnKind|
        k1 != k2 && #[trigger] spec_declares(formats, name, k1) && #[trigger] spec_declares(
            formats,
            name,
            k2,
        )
}

/// Whether the visible formats agree on the kind of every column name.
pub open spec fn spec_no_mixed_columns(formats: Seq<crate::schema::FormatV>) -> bool {
    forall|name: Seq<char>, k1: crate::schema::ColumnKind, k2: crate::schema::ColumnKind|
        #[trigger] spec_declares(formats, name, k1) && #[trigger] spec_declares(formats, name, k2)
            ==> k1 == k2
}

/// The one kind the visible formats give a declared column.
pub open spec fn spec_unified_kind(
    formats: Seq<crate::schema::FormatV>,
    name: Seq<char>,
) -> crate::schema::ColumnKind {
    choose|k: crate::schema::ColumnKind| spec_declares(formats, name, k)
}

/// Scan a column-kind table for `name`.
fn kind_of_column(
    m: &Vec<(String, crate::schema::ColumnKind)>,
    name: &String,
) -> (r: Option<crate::schema::ColumnKind>)
    requires
        spec_entries_unique(spec_kind_entries(m@)),
    ensures
        r == spec_kind_lookup(spec_kind_entries(m@), name@),
{
    let ghost entries = spec_kind_entries(m@);
    let n: usize = m.len();
    let mut i: usize = 0;
    while i < n
        invariant
            i <= n,
            forall|k: int| 0 <= k < i ==> (#[trigger] entries[k]).0 != name@,
        decreases n - i,
    {
        if m[i].0 == *name {
            assert(entries[i as int].0 == name@);
            proof {
                lemma_lookup_at(entries, i as int);
            }
            return Some(m[i].1);
        }
        assert(entries[i as int].0 != name@);
        i = i + 1;
    }
    assert(!spec_has_column(entries, name@));
    None
}

/// A validated, entitlement-restricted query: the formats the caller
/// may read, and the caller's search, carried unchanged.
#[derive(Debug)]
pub struct PreparedSearchQuery {
    pub formats: Vec<Format>,
    pub query: SearchQuery,
}

/// The mathematical image of a `PreparedSearchQuery`.
pub struct PreparedSearchQueryV {
    pub formats: Seq<crate::schema::FormatV>,
    pub query: SearchQueryV,
}

impl View for PreparedSearchQuery {
    type V = PreparedSearchQueryV;

    open spec fn view(&self) -> PreparedSearchQueryV {
        PreparedSearchQueryV { formats: self.formats.deep_view(), query: self.query@ }
    }
}

impl PreparedSearchQuery {
    /// Compute, over the union of the visible formats' schemas, the one
    /// kind of each column name.  If two formats disagree about a name,
    /// the whole query is ambiguous and is rejected with
    /// `ColumnWithMixedTypesError` naming that column.
    pub fn get_columns_and_verify_types(&self) -> (r: Result<
        Vec<(String, crate::schema::ColumnKind)>,
        DatabaseQueryError,
    >)
        ensures
            r matches Ok(m) ==> {
                &&& spec_no_mixed_columns(self@.formats)
                &&& spec_entries_unique(spec_kind_entries(m@))
                &&& forall|e: int|
                    0 <= e < m@.len() ==> spec_declares(
                        self@.formats,
                        (#[trigger] spec_kind_entries(m@)[e]).0,
                        spec_kind_entries(m@)[e].1,
                    )
                &&& forall|name: Seq<char>|
                    #[trigger] spec_column_declared(self@.formats, name) ==> spec_kind_lookup(
                        spec_kind_entries(m@),
                        name,
                    ) == Some(spec_unified_kind(self@.formats, name))
                &&& forall|name: Seq<char>|
                    !spec_column_declared(self@.formats, name) ==> spec_kind_lookup(
                        spec_kind_entries(m@),
                        name,
                    ) is None
            },
            r matches Err(e) ==> (e matches DatabaseQueryError::ColumnWithMixedTypesError(c)
                && spec_column_mixed(self@.formats, c@)),
    {
        let ghost fv = self@.formats;
        let mut m: Vec<(String, crate::schema::ColumnKind)> = Vec::new();
        let nf: usize = self.formats.len();
        let mut fi: usize = 0;
        while fi < nf
            invariant
                fi <= nf,
                spec_entries_unique(spec_kind_entries(m@)),
                forall|e: int|
                    0 <= e < m@.len() ==> spec_declares(
                        fv,
                        (#[trigger] spec_kind_entries(m@)[e]).0,
                        spec_kind_entries(m@)[e].1,
                    ),
                forall|i: int, j: int|
                    0 <= i < fi && 0 <= j < fv[i].schema.len() ==> spec_kind_lookup(
                        spec_kind_entries(m@),
                        (#[trigger] fv[i].schema[j]).name,
                    ) == Some(fv[i].schema[j].kind),
            decreases nf - fi,
        {
            let cols = &self.formats[fi].schema.0;
            let nc: usize = cols.len();
            let mut cj: usize = 0;
            while cj < nc
                invariant
                    cj <= nc,
                    fi < nf,
                    nc == fv[fi as int].schema.len(),
                    cols.deep_view() == fv[fi as int].schema,
                    spec_entries_unique(spec_kind_entries(m@)),
                    forall|e: int|
                        0 <= e < m@.len() ==> spec_declares(
                            fv,
                            (#[trigger] spec_kind_entries(m@)[e]).0,
                            spec_kind_entries(m@)[e].1,
                        ),
                    forall|i: int, j: int|
                        0 <= i < fi && 0 <= j < fv[i].schema.len() ==> spec_kind_lookup(
                            spec_kind_entries(m@),
                            (#[trigger] fv[i].schema[j]).name,
                        ) == Some(fv[i].schema[j].kind),
                    forall|j: int|
                        0 <= j < cj ==> spec_kind_lookup(
                            spec_kind_entries(m@),
                            (#[trigger] fv[fi as int].schema[j]).name,
                        ) == Some(fv[fi as int].schema[j].kind),
                decreases nc - cj,
            {
                let ghost entries = spec_kind_entries(m@);
                let col_name = &cols[cj].name;
                let col_kind = cols[cj].kind;
                assert(fv[fi as int].schema[cj as int].name == col_name@);
                assert(fv[fi as int].schema[cj as int].kind == col_kind);
                match kind_of_column(&m, col_name) {
                    Some(existing) => {
                        if existing != col_kind {
                            proof {
                                let e = choose|e: int|
                                    0 <= e < entries.len() && (#[trigger] entries[e]).0
                                        == col_name@;
                                lemma_lookup_at(entries, e);
                                assert(spec_declares(fv, col_name@, existing));
                                assert(spec_declares(fv, col_name@, col_kind));
                            }
                            return Err(DatabaseQueryError::ColumnWithMixedTypesError(
                                col_name.clone(),
                            ));
                        }
                    },
                    None => {
                        proof {
                            lemma_lookup_push(entries, col_name@, col_kind, col_name@);
                        }
                        m.push((col_name.clone(), col_kind));
                        assert(spec_kind_entries(m@) =~= entries.push((col_name@, col_kind)));
                        assert forall|q: Seq<char>| q != col_name@ implies spec_kind_lookup(
                            spec_kind_entries(m@),
                            q,
                        ) == spec_kind_lookup(entries, q) by {
                            lemma_lookup_push(entries, col_name@, col_kind, q);
                        }
                        assert(spec_kind_lookup(spec_kind_entries(m@), col_name@) == Some(
                            col_kind,
                        ));
                        assert(spec_declares(fv, col_name@, col_kind));
                    },
                }
                cj = cj + 1;
            }
            fi = fi + 1;
        }
        proof {
            assert forall|name: Seq<char>,
                k1: crate::schema::ColumnKind,
                k2: crate::schema::ColumnKind|
                #[trigger] spec_declares(fv, name, k1) && #[trigger] spec_declares(
                    fv,
                    name,
                    k2,
                ) implies k1 == k2 by {
                let (i1, j1) = choose|i: int, j: int|
                    0 <= i < fv.len() && 0 <= j < fv[i].schema.len() && (#[trigger] fv[i]
                        .schema[j]).name == name && fv[i].schema[j].kind == k1;
                let (i2, j2) = choose|i: int, j: int|
                    0 <= i < fv.len() && 0 <= j < fv[i].schema.len() && (#[trigger] fv[i]
                        .schema[j]).name == name && fv[i].schema[j].kind == k2;
                assert(spec_kind_lookup(spec_kind_entries(m@), fv[i1].schema[j1].name) == Some(
                    k1,
                ));
                assert(spec_kind_lookup(spec_kind_entries(m@), fv[i2].schema[j2].name) == Some(
                    k2,
                ));
            }
            assert forall|name: Seq<char>| #[trigger]
                spec_column_declared(fv, name) implies spec_kind_lookup(
                spec_kind_entries(m@),
                name,
            ) == Some(spec_unified_kind(fv, name)) by {
                let (i, j) = choose|i: int, j: int|
                    0 <= i < fv.len() && 0 <= j < fv[i].schema.len() && (#[trigger] fv[i]
                        .schema[j]).name == name;
                assert(spec_declares(fv, name, fv[i].schema[j].kind));
                assert(spec_kind_lookup(spec_kind_entries(m@), fv[i].schema[j].name) == Some(
                    fv[i].schema[j].kind,
                ));
                let uk = spec_unified_kind(fv, name);
                assert(spec_declares(fv, name, uk));
            }
            assert forall|name: Seq<char>| !spec_column_declared(
                fv,
                name,
            ) implies spec_kind_lookup(spec_kind_entries(m@), name) is None by {
                if spec_has_column(spec_kind_entries(m@), name) {
                    let e = choose|e: int|
                        0 <= e < spec_kind_entries(m@).len() && (#[trigger] spec_kind_entries(
                            m@,
                        )[e]).0 == name;
                    assert(spec_declares(fv, name, spec_kind_entries(m@)[e].1));
                    assert(spec_column_declared(fv, name));
                }
            }
        }
        Ok(m)
    }
}


/// Whether one argument passes the whole per-argument check: no join
/// machinery, a declared column, and a legal operator/value pair for
/// that column's kind.
pub open spec fn spec_arg_ok(
    entries: Seq<(Seq<char>, crate::schema::ColumnKind)>,
    a: SearchArgumentsV,
) -> bool {
    &&& a.join_kind is None
    &&& !a.comparison_operator.spec_is_join()
    &&& (spec_kind_lookup(entries, a.column) matches Some(k) && spec_arg_valid_for_kind(k, a))
}

impl PreparedSearchQuery {
    /// Check every argument of every group against the unified column
    /// kinds: unknown columns, join comparisons, and illegal
    /// operator/kind pairs are all usage errors.
    pub fn verify_query_arguments(
        &self,
        m: &Vec<(String, crate::schema::ColumnKind)>,
    ) -> (r: Result<(), DatabaseQueryError>)
        requires
            spec_entries_unique(spec_kind_entries(m@)),
        ensures
            r is Ok <==> (forall|g: int, a: int|
                0 <= g < self@.query.query.len() && 0 <= a < (#[trigger] self@.query.query[g]).args.len()
                    ==> spec_arg_ok(spec_kind_entries(m@), #[trigger] self@.query.query[g].args[a])),
            r matches Err(e) ==> (e matches DatabaseQueryError::InvalidUsage(_) || e matches
                DatabaseQueryError::InvalidColumnRequested(_)),
            r matches Err(DatabaseQueryError::InvalidColumnRequested(c)) ==> !spec_has_column(
                spec_kind_entries(m@),
                c@,
            ) && (exists|g: int, a: int|
                0 <= g < self@.query.query.len() && 0 <= a < self@.query.query[g].args.len()
                    && (#[trigger] self@.query.query[g].args[a]).column == c@),
            (forall|g: int, a: int|
                0 <= g < self@.query.query.len() && 0 <= a < (#[trigger] self@.query.query[g]).args.len()
                    ==> {
                    let arg = #[trigger] self@.query.query[g].args[a];
                    arg.join_kind is None && !arg.comparison_operator.spec_is_join() && (
                    spec_kind_lookup(spec_kind_entries(m@), arg.column) matches Some(k)
                        ==> spec_arg_valid_for_kind(k, arg))
                }) && !(forall|g: int, a: int|
                0 <= g < self@.query.query.len() && 0 <= a < (#[trigger] self@.query.query[g]).args.len()
                    ==> spec_has_column(
                    spec_kind_entries(m@),
                    (#[trigger] self@.query.query[g].args[a]).column,
                )) ==> (r matches Err(DatabaseQueryError::InvalidColumnRequested(_))),
    {
        let ghost entries = spec_kind_entries(m@);
        let ghost qv = self@.query.query;
        let ng: usize = self.query.query.len();
        let mut g: usize = 0;
        while g < ng
            invariant
                g <= ng,
                forall|gg: int, aa: int|
                    0 <= gg < g && 0 <= aa < (#[trigger] qv[gg]).args.len() ==> spec_arg_ok(
                        entries,
                        #[trigger] qv[gg].args[aa],
                    ),
            decreases ng - g,
        {
            let args = &self.query.query[g].args;
            assert(args.deep_view() == qv[g as int].args);
            let na: usize = args.len();
            let mut a: usize = 0;
            while a < na
                invariant
                    a <= na,
                    forall|aa: int|
                        0 <= aa < a ==> spec_arg_ok(entries, #[trigger] qv[g as int].args[aa]),
                decreases na - a,
            {
                let arg = &args[a];
                assert(arg@ == qv[g as int].args[a as int]);
                if arg.join_kind.is_some() && !arg.comparison_operator.is_join() {
                    return Err(DatabaseQueryError::InvalidUsage(String::from_str(
                        "cannot use joinKind with this operator",
                    )));
                }
                match kind_of_column(m, &arg.column) {
                    Some(kind) => {
                        match arg.validate(&kind) {
                            Ok(()) => {},
                            Err(e) => {
                                return Err(e);
                            },
                        }
                        if arg.join_kind.is_some() {
                            return Err(DatabaseQueryError::InvalidUsage(String::from_str(
                                "cannot use joinKind with this operator",
                            )));
                        }
                    },
                    None => {
                        assert(qv[g as int].args[a as int].column == arg.column@);
                        return Err(DatabaseQueryError::InvalidColumnRequested(
                            arg.column.clone(),
                        ));
                    },
                }
                a = a + 1;
            }
            g = g + 1;
        }
        proof {
            assert forall|gg: int, aa: int|
                0 <= gg < qv.len() && 0 <= aa < (#[trigger] qv[gg]).args.len() implies
                spec_has_column(entries, (#[trigger] qv[gg].args[aa]).column) by {
                assert(spec_arg_ok(entries, qv[gg].args[aa]));
            }
        }
        Ok(())
    }
}


/// The comparison a compiled argument applies, with its operand cast
/// and ready for the backing store.
#[derive(Debug, PartialEq, Eq)]
pub enum CompiledComparison {
    EqNum(crate::json::JsonNumber),
    EqStr(String),
    LtNum(crate::json::JsonNumber),
    LteNum(crate::json::JsonNumber),
    GtNum(crate::json::JsonNumber),
    GteNum(crate::json::JsonNumber),
    InNum(Vec<crate::json::JsonNumber>),
    InStr(Vec<String>),
    Like(String),
    ILike(String),
    Regex(String),
    RegexCaseInsensitive(String),
}

/// The mathematical image of a `CompiledComparison`.
pub enum CompiledComparisonV {
    EqNum(crate::json::JsonNumberV),
    EqStr(Seq<char>),
    LtNum(crate::json::JsonNumberV),
    LteNum(crate::json::JsonNumberV),
    GtNum(crate::json::JsonNumberV),
    GteNum(crate::json::JsonNumberV),
    InNum(Seq<crate::json::JsonNumberV>),
    InStr(Seq<Seq<char>>),
    Like(Seq<char>),
    ILike(Seq<char>),
    Regex(Seq<char>),
    RegexCaseInsensitive(Seq<char>),
}

impl View for CompiledComparison {
    type V = CompiledComparisonV;

    open spec fn view(&self) -> CompiledComparisonV {
        match self {
            CompiledComparison::EqNum(n) => CompiledComparisonV::EqNum(n@),
            CompiledComparison::EqStr(s) => CompiledComparisonV::EqStr(s@),
            CompiledComparison::LtNum(n) => CompiledComparisonV::LtNum(n@),
            CompiledComparison::LteNum(n) => CompiledComparisonV::LteNum(n@),
            CompiledComparison::GtNum(n) => CompiledComparisonV::GtNum(n@),
            CompiledComparison::GteNum(n) => CompiledComparisonV::GteNum(n@),
            CompiledComparison::InNum(ns) => CompiledComparisonV::InNum(ns.deep_view()),
            CompiledComparison::InStr(ss) => CompiledComparisonV::InStr(ss.deep_view()),
            CompiledComparison::Like(s) => CompiledComparisonV::Like(s@),
            CompiledComparison::ILike(s) => CompiledComparisonV::ILike(s@),
            CompiledComparison::Regex(s) => CompiledComparisonV::Regex(s@),
            CompiledComparison::RegexCaseInsensitive(s) => (
            CompiledComparisonV::RegexCaseInsensitive(s@)),
        }
    }
}

/// One compiled filter: the addressed document column, whether the
/// backing store casts it to a float first, and the comparison.
#[derive(Debug, PartialEq, Eq)]
pub struct CompiledArg {
    pub column: String,
    pub cast_to_float: bool,
    pub comparison: CompiledComparison,
}

/// The mathematical image of a `CompiledArg`.
pub struct CompiledArgV {
    pub column: Seq<char>,
    pub cast_to_float: bool,
    pub comparison: CompiledComparisonV,
}

impl View for CompiledArg {
    type V = CompiledArgV;

    open spec fn view(&self) -> CompiledArgV {
        CompiledArgV {
            column: self.column@,
            cast_to_float: self.cast_to_float,
            comparison: self.comparison@,
        }
    }
}

impl DeepView for CompiledArg {
    type V = CompiledArgV;

    open spec fn deep_view(&self) -> CompiledArgV {
        self@
    }
}

/// One compiled group: its arguments combined with `All` or `Any`,
/// negated as a whole if asked.  A group without arguments constrains
/// nothing.
#[derive(Debug, PartialEq, Eq)]
pub struct CompiledGroup {
    pub negated: bool,
    pub kind: ConditionKind,
    pub args: Vec<CompiledArg>,
}

/// The mathematical image of a `CompiledGroup`.
pub struct CompiledGroupV {
    pub negated: bool,
    pub kind: ConditionKind,
    pub args: Seq<CompiledArgV>,
}

impl View for CompiledGroup {
    type V = CompiledGroupV;

    open spec fn view(&self) -> CompiledGroupV {
        CompiledGroupV { negated: self.negated, kind: self.kind, args: self.args.deep_view() }
    }
}

impl DeepView for CompiledGroup {
    type V = CompiledGroupV;

    open spec fn deep_view(&self) -> CompiledGroupV {
        self@
    }
}

/// The fully compiled search: the mandatory visibility restriction,
/// the optional upload-session sub-filter, and the caller's groups.
/// Everything is ANDed together.
#[derive(Debug, PartialEq, Eq)]
pub struct CompiledQuery {
    pub visible_format_ids: Vec<i32>,
    pub upload_session_filter: Option<UploadSessionFilter>,
    pub groups: Vec<CompiledGroup>,
}

/// The mathematical image of a `CompiledQuery`.
pub struct CompiledQueryV {
    pub visible_format_ids: Seq<i32>,
    pub upload_session_filter: Option<UploadSessionFilter>,
    pub groups: Seq<CompiledGroupV>,
}

impl View for CompiledQuery {
    type V = CompiledQueryV;

    open spec fn view(&self) -> CompiledQueryV {
        CompiledQueryV {
            visible_format_ids: self.visible_format_ids@,
            upload_session_filter: self.upload_session_filter,
            groups: self.groups.deep_view(),
        }
    }
}

/// The number inside a scalar comparison value.
pub open spec fn spec_scalar_num(v: JsonValueV) -> crate::json::JsonNumberV {
    (v->Scalar_0)->Num_0
}

/// The string inside a scalar comparison value.
pub open spec fn spec_scalar_str(v: JsonValueV) -> Seq<char> {
    (v->Scalar_0)->Str_0
}

/// The numbers of a homogeneous comparison array.
pub open spec fn spec_array_nums(items: Seq<crate::json::JsonScalarV>) -> Seq<
    crate::json::JsonNumberV,
> {
    items.map_values(|s: crate::json::JsonScalarV| s->Num_0)
}

/// The strings of a homogeneous comparison array.
pub open spec fn spec_array_strs(items: Seq<crate::json::JsonScalarV>) -> Seq<Seq<char>> {
    items.map_values(|s: crate::json::JsonScalarV| s->Str_0)
}

/// Whether the backing store can cast the argument's operand: ordering
/// comparisons and membership tests on a numeric column need every
/// number to be representable as a 64-bit float.
pub open spec fn spec_arg_casts_ok(kind: crate::schema::ColumnKind, a: SearchArgumentsV) -> bool {
    kind is Number ==> (match a.comparison_operator {
        ComparisonOperator::In => (a.compare_against matches JsonValueV::Array(items) ==> forall|
            i: int,
        |
            0 <= i < items.len() ==> ((#[trigger] items[i]) matches crate::json::JsonScalarV::Num(
                n,
            ) ==> n.float_representable)),
        ComparisonOperator::Lt
        | ComparisonOperator::Lte
        | ComparisonOperator::Gt
        | ComparisonOperator::Gte => (a.compare_against matches JsonValueV::Scalar(
            crate::json::JsonScalarV::Num(n),
        ) ==> n.float_representable),
        _ => true,
    })
}

/// The compiled image of one valid, castable argument on a column of
/// kind `kind`.
pub open spec fn spec_compile_arg(
    kind: crate::schema::ColumnKind,
    a: SearchArgumentsV,
) -> CompiledArgV {
    CompiledArgV {
        column: a.column,
        cast_to_float: kind is Number,
        comparison: if kind is Number {
            match a.comparison_operator {
                ComparisonOperator::In => CompiledComparisonV::InNum(
                    spec_array_nums(a.compare_against->Array_0),
                ),
                ComparisonOperator::Eq => CompiledComparisonV::EqNum(
                    spec_scalar_num(a.compare_against),
                ),
                ComparisonOperator::Lt => CompiledComparisonV::LtNum(
                    spec_scalar_num(a.compare_against),
                ),
                ComparisonOperator::Lte => CompiledComparisonV::LteNum(
                    spec_scalar_num(a.compare_against),
                ),
                ComparisonOperator::Gt => CompiledComparisonV::GtNum(
                    spec_scalar_num(a.compare_against),
                ),
                ComparisonOperator::Gte => CompiledComparisonV::GteNum(
                    spec_scalar_num(a.compare_against),
                ),
                _ => arbitrary(),
            }
        } else {
            match a.comparison_operator {
                ComparisonOperator::In => CompiledComparisonV::InStr(
                    spec_array_strs(a.compare_against->Array_0),
                ),
                ComparisonOperator::Eq => CompiledComparisonV::EqStr(
                    spec_scalar_str(a.compare_against),
                ),
                ComparisonOperator::Like => CompiledComparisonV::Like(
                    spec_scalar_str(a.compare_against),
                ),
                ComparisonOperator::ILike => CompiledComparisonV::ILike(
                    spec_scalar_str(a.compare_against),
                ),
                ComparisonOperator::Regex => CompiledComparisonV::Regex(
                    spec_scalar_str(a.compare_against),
                ),
                ComparisonOperator::RegexCaseInsensitive => (
                CompiledComparisonV::RegexCaseInsensitive(spec_scalar_str(a.compare_against))),
                _ => arbitrary(),
            }
        },
    }
}

/// Compile one argument against its column's unified kind: address the
/// document field, cast numeric columns to a float, and attach the
/// operand.  An operand the store cannot cast is a `CastError`.
pub fn build_condition_for_arg(
    column_kind: crate::schema::ColumnKind,
    expression: &SearchArguments,
) -> (r: Result<CompiledArg, DatabaseQueryError>)
    requires
        spec_arg_valid_for_kind(column_kind, expression@),
    ensures
        r is Ok <==> spec_arg_casts_ok(column_kind, expression@),
        r matches Ok(c) ==> c@ == spec_compile_arg(column_kind, expression@),
        r matches Err(e) ==> e == DatabaseQueryError::CastError,
{
    let column = expression.column.clone();
    match column_kind {
        crate::schema::ColumnKind::Number => {
            match expression.comparison_operator {
                ComparisonOperator::In => {
                    match &expression.compare_against {
                        JsonValue::Array(items) => {
                            let nums = cast_number_array(items)?;
                            Ok(CompiledArg {
                                column,
                                cast_to_float: true,
                                comparison: CompiledComparison::InNum(nums),
                            })
                        },
                        _ => vstd::pervasive::unreached(),
                    }
                },
                ComparisonOperator::Eq => {
                    match &expression.compare_against {
                        JsonValue::Scalar(crate::json::JsonScalar::Num(n)) => Ok(CompiledArg {
                            column,
                            cast_to_float: true,
                            comparison: CompiledComparison::EqNum(n.clone()),
                        }),
                        _ => vstd::pervasive::unreached(),
                    }
                },
                ComparisonOperator::Lt
                | ComparisonOperator::Lte
                | ComparisonOperator::Gt
                | ComparisonOperator::Gte => {
                    match &expression.compare_against {
                        JsonValue::Scalar(crate::json::JsonScalar::Num(n)) => {
                            if !n.float_representable {
                                return Err(DatabaseQueryError::CastError);
                            }
                            let cmp = match expression.comparison_operator {
                                ComparisonOperator::Lt => CompiledComparison::LtNum(n.clone()),
                                ComparisonOperator::Lte => CompiledComparison::LteNum(n.clone()),
                                ComparisonOperator::Gt => CompiledComparison::GtNum(n.clone()),
                                ComparisonOperator::Gte => CompiledComparison::GteNum(n.clone()),
                                _ => vstd::pervasive::unreached(),
                            };
                            Ok(CompiledArg { column, cast_to_float: true, comparison: cmp })
                        },
                        _ => vstd::pervasive::unreached(),
                    }
                },
                _ => vstd::pervasive::unreached(),
            }
        },
        crate::schema::ColumnKind::String | crate::schema::ColumnKind::Datetime => {
            match expression.comparison_operator {
                ComparisonOperator::In => {
                    match &expression.compare_against {
                        JsonValue::Array(items) => {
                            let strs = cast_string_array(items);
                            Ok(CompiledArg {
                                column,
                                cast_to_float: false,
                                comparison: CompiledComparison::InStr(strs),
                            })
                        },
                        _ => vstd::pervasive::unreached(),
                    }
                },
                ComparisonOperator::Eq
                | ComparisonOperator::Like
                | ComparisonOperator::ILike
                | ComparisonOperator::Regex
                | ComparisonOperator::RegexCaseInsensitive => {
                    match &expression.compare_against {
                        JsonValue::Scalar(crate::json::JsonScalar::Str(s)) => {
                            let cmp = match expression.comparison_operator {
                                ComparisonOperator::Eq => CompiledComparison::EqStr(s.clone()),
                                ComparisonOperator::Like => CompiledComparison::Like(s.clone()),
                                ComparisonOperator::ILike => CompiledComparison::ILike(s.clone()),
                                ComparisonOperator::Regex => CompiledComparison::Regex(s.clone()),
                                ComparisonOperator::RegexCaseInsensitive => (
                                CompiledComparison::RegexCaseInsensitive(s.clone())),
                                _ => vstd::pervasive::unreached(),
                            };
                            Ok(CompiledArg { column, cast_to_float: false, comparison: cmp })
                        },
                        _ => vstd::pervasive::unreached(),
                    }
                },
                _ => vstd::pervasive::unreached(),
            }
        },
    }
}

/// Cast a validated numeric comparison array for the backing store; an
/// element the store cannot represent as a float is a `CastError`.
fn cast_number_array(items: &Vec<crate::json::JsonScalar>) -> (r: Result<
    Vec<crate::json::JsonNumber>,
    DatabaseQueryError,
>)
    requires
        forall|i: int|
            0 <= i < items.deep_view().len() ==> (#[trigger] items.deep_view()[i]) matches
                crate::json::JsonScalarV::Num(_),
    ensures
        r is Ok <==> (forall|i: int|
            0 <= i < items.deep_view().len() ==> ((#[trigger] items.deep_view()[i]) matches
                crate::json::JsonScalarV::Num(n) ==> n.float_representable)),
        r matches Ok(ns) ==> ns.deep_view() == spec_array_nums(items.deep_view()),
        r matches Err(e) ==> e == DatabaseQueryError::CastError,
{
    let mut out: Vec<crate::json::JsonNumber> = Vec::new();
    let n: usize = items.len();
    let mut i: usize = 0;
    while i < n
        invariant
            i <= n,
            out.deep_view() == spec_array_nums(items.deep_view().subrange(0, i as int)),
            forall|k: int|
                0 <= k < i ==> ((#[trigger] items.deep_view()[k]) matches
                    crate::json::JsonScalarV::Num(m) ==> m.float_representable),
        decreases n - i,
    {
        let ghost prefix = items.deep_view().subrange(0, i as int);
        let ghost xv = items.deep_view()[i as int];
        match &items[i] {
            crate::json::JsonScalar::Num(num) => {
                assert(items.deep_view()[i as int] == items@[i as int]@);
                if !num.float_representable {
                    return Err(DatabaseQueryError::CastError);
                }
                out.push(num.clone());
            },
            _ => {
                assert(items.deep_view()[i as int] == items@[i as int]@);
                vstd::pervasive::unreached::<()>();
            },
        }
        i = i + 1;
        assert(items.deep_view().subrange(0, i as int) =~= prefix.push(xv));
        assert(spec_array_nums(prefix.push(xv)) =~= spec_array_nums(prefix).push(xv->Num_0));
        assert(out.deep_view() =~= spec_array_nums(prefix).push(xv->Num_0));
    }
    assert(items.deep_view().subrange(0, n as int) =~= items.deep_view());
    Ok(out)
}

/// Cast a validated string comparison array for the backing store.
fn cast_string_array(items: &Vec<crate::json::JsonScalar>) -> (r: Vec<String>)
    requires
        forall|i: int|
            0 <= i < items.deep_view().len() ==> (#[trigger] items.deep_view()[i]) matches
                crate::json::JsonScalarV::Str(_),
    ensures
        r.deep_view() == spec_array_strs(items.deep_view()),
{
    let mut out: Vec<String> = Vec::new();
    let n: usize = items.len();
    let mut i: usize = 0;
    while i < n
        invariant
            i <= n,
            out.deep_view() == spec_array_strs(items.deep_view().subrange(0, i as int)),
        decreases n - i,
    {
        let ghost prefix = items.deep_view().subrange(0, i as int);
        let ghost xv = items.deep_view()[i as int];
        match &items[i] {
            crate::json::JsonScalar::Str(s) => {
                assert(items.deep_view()[i as int] == items@[i as int]@);
                out.push(s.clone());
            },
            _ => {
                assert(items.deep_view()[i as int] == items@[i as int]@);
                vstd::pervasive::unreached::<()>();
            },
        }
        i = i + 1;
        assert(items.deep_view().subrange(0, i as int) =~= prefix.push(xv));
        assert(spec_array_strs(prefix.push(xv)) =~= spec_array_strs(prefix).push(xv->Str_0));
        assert(out.deep_view() =~= spec_array_strs(prefix).push(xv->Str_0));
    }
    assert(items.deep_view().subrange(0, n as int) =~= items.deep_view());
    out
}


/// The ids of a list of formats, in order.
pub open spec fn spec_format_ids(formats: Seq<crate::schema::FormatV>) -> Seq<i32> {
    formats.map_values(|f: crate::schema::FormatV| f.id)
}

/// Under agreeing formats, any declaration of a column pins its one
/// unified kind.
pub proof fn lemma_unified_kind(
    formats: Seq<crate::schema::FormatV>,
    name: Seq<char>,
    kind: crate::schema::ColumnKind,
)
    requires
        spec_no_mixed_columns(formats),
        spec_declares(formats, name, kind),
    ensures
        spec_unified_kind(formats, name) == kind,
        spec_column_declared(formats, name),
{
    let uk = spec_unified_kind(formats, name);
    assert(spec_declares(formats, name, uk));
}

/// A lookup answered from a sound table only reports declared kinds.
pub proof fn lemma_lookup_sound(
    formats: Seq<crate::schema::FormatV>,
    entries: Seq<(Seq<char>, crate::schema::ColumnKind)>,
    name: Seq<char>,
    kind: crate::schema::ColumnKind,
)
    requires
        forall|e: int|
            0 <= e < entries.len() ==> spec_declares(
                formats,
                (#[trigger] entries[e]).0,
                entries[e].1,
            ),
        spec_kind_lookup(entries, name) == Some(kind),
    ensures
        spec_declares(formats, name, kind),
{
    let e = choose|e: int| 0 <= e < entries.len() && (#[trigger] entries[e]).0 == name;
}

/// Whether one argument can be compiled at all: no join machinery, a
/// declared column, a legal operator/value pair for the column's
/// unified kind, and a castable operand.
pub open spec fn spec_arg_compilable(
    formats: Seq<crate::schema::FormatV>,
    a: SearchArgumentsV,
) -> bool {
    &&& a.join_kind is None
    &&& !a.comparison_operator.spec_is_join()
    &&& spec_column_declared(formats, a.column)
    &&& spec_arg_valid_for_kind(spec_unified_kind(formats, a.column), a)
    &&& spec_arg_casts_ok(spec_unified_kind(formats, a.column), a)
}

/// Whether a whole search compiles: the visible formats agree on every
/// column kind and every argument is compilable.
pub open spec fn spec_query_compilable(
    formats: Seq<crate::schema::FormatV>,
    q: SearchQueryV,
) -> bool {
    &&& spec_no_mixed_columns(formats)
    &&& forall|g: int, a: int|
        0 <= g < q.query.len() && 0 <= a < (#[trigger] q.query[g]).args.len()
            ==> spec_arg_compilable(formats, #[trigger] q.query[g].args[a])
}

/// The compiled images of a list of arguments, in order.
pub open spec fn spec_compile_args(
    formats: Seq<crate::schema::FormatV>,
    args: Seq<SearchArgumentsV>,
) -> Seq<CompiledArgV> {
    Seq::new(
        args.len(),
        |i: int| spec_compile_arg(spec_unified_kind(formats, args[i].column), args[i]),
    )
}

/// The compiled image of one group.
pub open spec fn spec_compile_group(
    formats: Seq<crate::schema::FormatV>,
    g: SearchGroupV,
) -> CompiledGroupV {
    CompiledGroupV { negated: g.not, kind: g.condition_kind, args: spec_compile_args(formats, g.args) }
}

/// The compiled image of all groups, in order.
pub open spec fn spec_compile_groups(
    formats: Seq<crate::schema::FormatV>,
    q: Seq<SearchGroupV>,
) -> Seq<CompiledGroupV> {
    Seq::new(q.len(), |i: int| spec_compile_group(formats, q[i]))
}

impl PreparedSearchQuery {
    /// The ids of the formats the caller may read.
    pub fn get_readable_format_ids(&self) -> (r: Vec<i32>)
        ensures
            r@ == spec_format_ids(self@.formats),
    {
        let mut out: Vec<i32> = Vec::new();
        let n: usize = self.formats.len();
        let mut i: usize = 0;
        while i < n
            invariant
                i <= n,
                out@ == spec_format_ids(self@.formats.subrange(0, i as int)),
            decreases n - i,
        {
            out.push(self.formats[i].id);
            i = i + 1;
            assert(out@ =~= spec_format_ids(self@.formats.subrange(0, i as int)));
        }
        assert(self@.formats.subrange(0, n as int) =~= self@.formats);
        out
    }

    /// Validate and compile the whole search.  The kind unification
    /// runs first, so a column with mixed kinds fails the query before
    /// any per-argument checking; then every argument is checked and
    /// compiled against its column's unified kind; and the visibility
    /// restriction and the upload-session sub-filter are attached
    /// unconditionally.
    pub fn apply_condition(&self) -> (r: Result<CompiledQuery, DatabaseQueryError>)
        ensures
            r is Ok <==> spec_query_compilable(self@.formats, self@.query),
            r matches Ok(cq) ==> {
                &&& cq@.visible_format_ids == spec_format_ids(self@.formats)
                &&& cq@.upload_session_filter == self@.query.upload_session
                &&& cq@.groups == spec_compile_groups(self@.formats, self@.query.query)
            },
            !spec_no_mixed_columns(self@.formats) ==> (r matches Err(
                DatabaseQueryError::ColumnWithMixedTypesError(c),
            ) && spec_column_mixed(self@.formats, c@)),
            r matches Err(e) ==> (e matches DatabaseQueryError::ColumnWithMixedTypesError(_) || e
                matches DatabaseQueryError::InvalidColumnRequested(_) || e matches
                DatabaseQueryError::InvalidUsage(_) || e is CastError),
            spec_no_mixed_columns(self@.formats) && (forall|g: int, a: int|
                0 <= g < self@.query.query.len() && 0 <= a < (#[trigger] self@.query.query[g]).args.len()
                    ==> spec_column_declared(
                    self@.formats,
                    (#[trigger] self@.query.query[g].args[a]).column,
                )) && !(forall|g: int, a: int|
                0 <= g < self@.query.query.len() && 0 <= a < (#[trigger] self@.query.query[g]).args.len()
                    ==> spec_arg_ok_for_formats(self@.formats, #[trigger] self@.query.query[g].args[a]))
                ==> (r matches Err(DatabaseQueryError::InvalidUsage(_))),
            spec_no_mixed_columns(self@.formats) && (forall|g: int, a: int|
                0 <= g < self@.query.query.len() && 0 <= a < (#[trigger] self@.query.query[g]).args.len()
                    ==> {
                    let arg = #[trigger] self@.query.query[g].args[a];
                    arg.join_kind is None && !arg.comparison_operator.spec_is_join() && (
                    spec_column_declared(self@.formats, arg.column) ==> spec_arg_valid_for_kind(
                        spec_unified_kind(self@.formats, arg.column),
                        arg,
                    ))
                }) && !(forall|g: int, a: int|
                0 <= g < self@.query.query.len() && 0 <= a < (#[trigger] self@.query.query[g]).args.len()
                    ==> spec_column_declared(
                    self@.formats,
                    (#[trigger] self@.query.query[g].args[a]).column,
                )) ==> (r matches Err(DatabaseQueryError::InvalidColumnRequested(c))
                && !spec_column_declared(self@.formats, c@) && (exists|g: int, a: int|
                0 <= g < self@.query.query.len() && 0 <= a < self@.query.query[g].args.len() && (
                #[trigger] self@.query.query[g].args[a]).column == c@)),
            r matches Err(DatabaseQueryError::InvalidColumnRequested(c)) ==> !spec_column_declared(
                self@.formats,
                c@,
            ),
    {
        let ghost fv = self@.formats;
        let ghost qv = self@.query.query;
        let m = match self.get_columns_and_verify_types() {
            Ok(m) => m,
            Err(e) => {
                return Err(e);
            },
        };
        let ghost entries = spec_kind_entries(m@);
        proof {
            assert forall|a: SearchArgumentsV| spec_arg_ok(entries, a) == (a.join_kind is None
                && !a.comparison_operator.spec_is_join() && spec_column_declared(fv, a.column)
                && spec_arg_valid_for_kind(spec_unified_kind(fv, a.column), a)) by {
                if spec_kind_lookup(entries, a.column) is Some {
                    lemma_lookup_sound(fv, entries, a.column, spec_kind_lookup(entries, a.column)->Some_0);
                    lemma_unified_kind(fv, a.column, spec_kind_lookup(entries, a.column)->Some_0);
                }
            }
        }
        match self.verify_query_arguments(&m) {
            Ok(()) => {},
            Err(e) => {
                proof {
                    if e matches DatabaseQueryError::InvalidColumnRequested(_) {
                        let cname = e->InvalidColumnRequested_0;
                        assert(!spec_has_column(entries, cname@));
                        if (forall|gg: int, aa: int|
                            0 <= gg < qv.len() && 0 <= aa < (#[trigger] qv[gg]).args.len()
                                ==> spec_column_declared(
                                fv,
                                (#[trigger] qv[gg].args[aa]).column,
                            )) {
                            let (gg, aa) = choose|gg: int, aa: int|
                                0 <= gg < qv.len() && 0 <= aa < qv[gg].args.len() && (#[trigger]
                                qv[gg].args[aa]).column == cname@;
                            assert(spec_column_declared(fv, cname@));
                            assert(spec_kind_lookup(entries, cname@) == Some(
                                spec_unified_kind(fv, cname@),
                            ));
                            assert(false);
                        }
                    }
                }
                return Err(e);
            },
        }
        let visible_format_ids = self.get_readable_format_ids();
        let upload_session_filter = self.upload_session_filter();
        let ng: usize = self.query.query.len();
        let mut groups: Vec<CompiledGroup> = Vec::new();
        let mut g: usize = 0;
        while g < ng
            invariant
                g <= ng,
                groups.deep_view() == spec_compile_groups(fv, qv.subrange(0, g as int)),
                forall|gg: int, aa: int|
                    0 <= gg < g && 0 <= aa < (#[trigger] qv[gg]).args.len() ==> spec_arg_casts_ok(
                        spec_unified_kind(fv, (#[trigger] qv[gg].args[aa]).column),
                        qv[gg].args[aa],
                    ),
            decreases ng - g,
        {
            let ghost gprefix = qv.subrange(0, g as int);
            let group = &self.query.query[g];
            assert(group@ == qv[g as int]);
            let na: usize = group.args.len();
            let mut cargs: Vec<CompiledArg> = Vec::new();
            let mut a: usize = 0;
            while a < na
                invariant
                    a <= na,
                    cargs.deep_view() == spec_compile_args(
                        fv,
                        qv[g as int].args.subrange(0, a as int),
                    ),
                    forall|aa: int|
                        0 <= aa < a ==> spec_arg_casts_ok(
                            spec_unified_kind(fv, (#[trigger] qv[g as int].args[aa]).column),
                            qv[g as int].args[aa],
                        ),
                decreases na - a,
            {
                let ghost aprefix = qv[g as int].args.subrange(0, a as int);
                let arg = &group.args[a];
                assert(arg@ == qv[g as int].args[a as int]);
                assert(spec_arg_ok(entries, arg@));
                let kind = match kind_of_column(&m, &arg.column) {
                    Some(kind) => kind,
                    None => vstd::pervasive::unreached(),
                };
                proof {
                    lemma_lookup_sound(fv, entries, arg.column@, kind);
                    lemma_unified_kind(fv, arg.column@, kind);
                }
                let compiled = match build_condition_for_arg(kind, arg) {
                    Ok(c) => c,
                    Err(e) => {
                        return Err(e);
                    },
                };
                let ghost cprefix = cargs.deep_view();
                cargs.push(compiled);
                a = a + 1;
                assert(qv[g as int].args.subrange(0, a as int) =~= aprefix.push(
                    qv[g as int].args[a - 1],
                ));
                assert(cargs.deep_view() =~= cprefix.push(
                    spec_compile_arg(spec_unified_kind(fv, arg@.column), arg@),
                ));
                assert(spec_compile_args(fv, qv[g as int].args.subrange(0, a as int))
                    =~= spec_compile_args(fv, aprefix).push(
                    spec_compile_arg(spec_unified_kind(fv, arg@.column), arg@),
                ));
            }
            assert(qv[g as int].args.subrange(0, na as int) =~= qv[g as int].args);
            let ghost gdone = groups.deep_view();
            groups.push(
                CompiledGroup { negated: group.not, kind: group.condition_kind, args: cargs },
            );
            g = g + 1;
            assert(qv.subrange(0, g as int) =~= gprefix.push(qv[g - 1]));
            assert(groups.deep_view() =~= gdone.push(spec_compile_group(fv, qv[g - 1])));
            assert(spec_compile_groups(fv, qv.subrange(0, g as int)) =~= spec_compile_groups(
                fv,
                gprefix,
            ).push(spec_compile_group(fv, qv[g - 1])));
        }
        assert(qv.subrange(0, ng as int) =~= qv);
        Ok(CompiledQuery { visible_format_ids, upload_session_filter, groups })
    }

    /// A copy of the caller's upload-session sub-filter, if any.
    fn upload_session_filter(&self) -> (r: Option<UploadSessionFilter>)
        ensures
            r == self@.query.upload_session,
    {
        match &self.query.upload_session {
            Some(f) => Some(*f),
            None => None,
        }
    }
}

/// Whether one argument passes the per-argument check, phrased over
/// the formats themselves.
pub open spec fn spec_arg_ok_for_formats(
    formats: Seq<crate::schema::FormatV>,
    a: SearchArgumentsV,
) -> bool {
    &&& a.join_kind is None
    &&& !a.comparison_operator.spec_is_join()
    &&& spec_column_declared(formats, a.column)
    &&& spec_arg_valid_for_kind(spec_unified_kind(formats, a.column), a)
}


/// Whether a record satisfies one compiled group, for a given meaning
/// `leaf` of the store's per-argument comparisons.  A group without
/// arguments constrains nothing.
pub open spec fn spec_group_admits(
    g: CompiledGroupV,
    r: crate::records::RecordV,
    leaf: spec_fn(CompiledArgV, crate::records::RecordV) -> bool,
) -> bool {
    if g.args.len() == 0 {
        true
    } else {
        let sat = match g.kind {
            ConditionKind::All => forall|i: int| 0 <= i < g.args.len() ==> leaf(#[trigger] g.args[i], r),
            ConditionKind::Any => exists|i: int| 0 <= i < g.args.len() && leaf(#[trigger] g.args[i], r),
        };
        if g.negated {
            !sat
        } else {
            sat
        }
    }
}

/// Whether a record satisfies a compiled query, for a given meaning
/// `leaf` of the store's per-argument comparisons: it must belong to a
/// visible format, and every group must admit it.
pub open spec fn spec_query_admits(
    cq: CompiledQueryV,
    r: crate::records::RecordV,
    leaf: spec_fn(CompiledArgV, crate::records::RecordV) -> bool,
) -> bool {
    &&& cq.visible_format_ids.contains(r.format_id)
    &&& forall|gi: int| 0 <= gi < cq.groups.len() ==> spec_group_admits(#[trigger] cq.groups[gi], r, leaf)
}

/// Whether a record and its owning session satisfy a compiled query:
/// on top of `spec_query_admits`, the session must pass the caller's
/// upload-session sub-filter.
pub open spec fn spec_query_admits_with_session(
    cq: CompiledQueryV,
    r: crate::records::RecordV,
    session: crate::records::UploadSessionV,
    leaf: spec_fn(CompiledArgV, crate::records::RecordV) -> bool,
) -> bool {
    &&& r.upload_session_id == session.id
    &&& spec_query_admits(cq, r, leaf)
    &&& (cq.upload_session_filter matches Some(f) ==> f.spec_admits(session))
}

/// The visibility restriction cannot be bypassed: whatever the
/// caller's groups say, and whatever meaning the backing store gives
/// their leaf comparisons, a record admitted by a compiled query
/// belongs to a format the caller may read.
pub proof fn lemma_visibility_mandatory(
    cq: CompiledQueryV,
    r: crate::records::RecordV,
    leaf: spec_fn(CompiledArgV, crate::records::RecordV) -> bool,
)
    requires
        spec_query_admits(cq, r, leaf),
    ensures
        cq.visible_format_ids.contains(r.format_id),
{
}

/// The upload-session sub-filter cannot be bypassed either: a record
/// admitted together with its owning session satisfies every knob the
/// caller's sub-filter named.
pub proof fn lemma_session_filter_mandatory(
    cq: CompiledQueryV,
    r: crate::records::RecordV,
    session: crate::records::UploadSessionV,
    leaf: spec_fn(CompiledArgV, crate::records::RecordV) -> bool,
)
    requires
        spec_query_admits_with_session(cq, r, session, leaf),
        cq.upload_session_filter is Some,
    ensures
        (cq.upload_session_filter->Some_0).spec_admits(session),
        r.upload_session_id == session.id,
{
}

/// Two visible formats that disagree about a column's kind poison the
/// whole search: compiling any query over them fails with
/// `ColumnWithMixedTypesError`, whether or not the query mentions the
/// column, and before any per-argument validation runs.
pub proof fn lemma_mixed_kinds_rejected(
    p: PreparedSearchQuery,
    r: Result<CompiledQuery, DatabaseQueryError>,
    name: Seq<char>,
    k1: crate::schema::ColumnKind,
    k2: crate::schema::ColumnKind,
)
    requires
        spec_declares(p@.formats, name, k1),
        spec_declares(p@.formats, name, k2),
        k1 != k2,
        r is Ok <==> spec_query_compilable(p@.formats, p@.query),
        !spec_no_mixed_columns(p@.formats) ==> (r matches Err(
            DatabaseQueryError::ColumnWithMixedTypesError(c),
        ) && spec_column_mixed(p@.formats, c@)),
    ensures
        r matches Err(DatabaseQueryError::ColumnWithMixedTypesError(c)) && spec_column_mixed(
            p@.formats,
            c@,
        ),
{
    assert(!spec_no_mixed_columns(p@.formats));
}

/// A string-only comparison on a numeric column is a usage error: if
/// the visible formats agree on kinds, every argument names a declared
/// column and stays away from join machinery, and some argument
/// applies a pattern or regex comparison to a column whose unified
/// kind is numeric, compilation fails with `InvalidUsage`.
pub proof fn lemma_string_operator_on_numeric_rejected(
    p: PreparedSearchQuery,
    r: Result<CompiledQuery, DatabaseQueryError>,
    g: int,
    a: int,
)
    requires
        spec_no_mixed_columns(p@.formats),
        forall|gi: int, ai: int|
            0 <= gi < p@.query.query.len() && 0 <= ai < (#[trigger] p@.query.query[gi]).args.len()
                ==> {
                let arg = #[trigger] p@.query.query[gi].args[ai];
                arg.join_kind is None && !arg.comparison_operator.spec_is_join()
                    && spec_column_declared(p@.formats, arg.column)
            },
        0 <= g < p@.query.query.len(),
        0 <= a < p@.query.query[g].args.len(),
        spec_unified_kind(p@.formats, p@.query.query[g].args[a].column) is Number,
        (p@.query.query[g].args[a].comparison_operator is Like || p@.query.query[g].args[a].comparison_operator
            is ILike || p@.query.query[g].args[a].comparison_operator is Regex
            || p@.query.query[g].args[a].comparison_operator is RegexCaseInsensitive),
        r is Ok <==> spec_query_compilable(p@.formats, p@.query),
        r matches Err(e) ==> (e matches DatabaseQueryError::ColumnWithMixedTypesError(_) || e
            matches DatabaseQueryError::InvalidColumnRequested(_) || e matches
            DatabaseQueryError::InvalidUsage(_) || e is CastError),
        spec_no_mixed_columns(p@.formats) && (forall|gi: int, ai: int|
            0 <= gi < p@.query.query.len() && 0 <= ai < (#[trigger] p@.query.query[gi]).args.len()
                ==> spec_column_declared(
                p@.formats,
                (#[trigger] p@.query.query[gi].args[ai]).column,
            )) && !(forall|gi: int, ai: int|
            0 <= gi < p@.query.query.len() && 0 <= ai < (#[trigger] p@.query.query[gi]).args.len()
                ==> spec_arg_ok_for_formats(p@.formats, #[trigger] p@.query.query[gi].args[ai]))
            ==> (r matches Err(DatabaseQueryError::InvalidUsage(_))),
    ensures
        r matches Err(DatabaseQueryError::InvalidUsage(_)),
{
    let arg = p@.query.query[g].args[a];
    assert(!spec_arg_valid_for_kind(spec_unified_kind(p@.formats, arg.column), arg));
    assert(!spec_arg_ok_for_formats(p@.formats, arg));
    assert(forall|gi: int, ai: int|
        0 <= gi < p@.query.query.len() && 0 <= ai < (#[trigger] p@.query.query[gi]).args.len()
            ==> spec_column_declared(
            p@.formats,
            (#[trigger] p@.query.query[gi].args[ai]).column,
        ));
}

/// A membership test on a numeric column whose array holds a
/// non-number is rejected during validation.
pub proof fn lemma_in_with_non_number_rejected(
    p: PreparedSearchQuery,
    r: Result<CompiledQuery, DatabaseQueryError>,
    g: int,
    a: int,
    i: int,
)
    requires
        0 <= g < p@.query.query.len(),
        0 <= a < p@.query.query[g].args.len(),
        spec_unified_kind(p@.formats, p@.query.query[g].args[a].column) is Number,
        p@.query.query[g].args[a].comparison_operator is In,
        p@.query.query[g].args[a].compare_against matches JsonValueV::Array(items) && 0 <= i
            < items.len() && !(items[i] matches JsonScalarV::Num(_)),
        r is Ok <==> spec_query_compilable(p@.formats, p@.query),
    ensures
        r is Err,
{
    let arg = p@.query.query[g].args[a];
    assert(!spec_arg_valid_for_kind(spec_unified_kind(p@.formats, arg.column), arg));
    assert(!spec_arg_compilable(p@.formats, arg));
}

/// Whether the list `out` already holds `name`, compared by contents.
pub open spec fn spec_covered(out: Seq<String>, name: Seq<char>) -> bool {
    exists|e: int| 0 <= e < out.len() && (#[trigger] out[e])@ == name
}

/// Growing a list never uncovers a name it already held.
pub proof fn lemma_covered_extends(prior: Seq<String>, grown: Seq<String>, name: Seq<char>)
    requires
        prior.len() <= grown.len(),
        forall|e: int| 0 <= e < prior.len() ==> grown[e] == prior[e],
        spec_covered(prior, name),
    ensures
        spec_covered(grown, name),
{
    let e = choose|e: int| 0 <= e < prior.len() && (#[trigger] prior[e])@ == name;
    assert((grown[e])@ == name);
}

impl PreparedSearchQuery {
    /// The set of column names over all visible formats' schemas, each
    /// name once, in first-seen order; this fixes the column order of
    /// an export.
    pub fn schema_columns(&self) -> (r: Vec<String>)
        ensures
            forall|i: int, j: int| 0 <= i < j < r@.len() ==> r@[i]@ != r@[j]@,
            forall|i: int| 0 <= i < r@.len() ==> spec_column_declared(self@.formats, (#[trigger] r@[i])@),
            forall|name: Seq<char>|
                #[trigger] spec_column_declared(self@.formats, name) ==> spec_covered(r@, name),
    {
        let ghost fv = self@.formats;
        let mut out: Vec<String> = Vec::new();
        let nf: usize = self.formats.len();
        let mut fi: usize = 0;
        while fi < nf
            invariant
                fi <= nf,
                forall|i: int, j: int| 0 <= i < j < out@.len() ==> out@[i]@ != out@[j]@,
                forall|i: int|
                    0 <= i < out@.len() ==> spec_column_declared(fv, (#[trigger] out@[i])@),
                forall|i: int, j: int|
                    0 <= i < fi && 0 <= j < fv[i].schema.len() ==> spec_covered(
                        out@,
                        (#[trigger] fv[i].schema[j]).name,
                    ),
            decreases nf - fi,
        {
            let cols = &self.formats[fi].schema.0;
            let nc: usize = cols.len();
            let mut cj: usize = 0;
            while cj < nc
                invariant
                    cj <= nc,
                    fi < nf,
                    nc == fv[fi as int].schema.len(),
                    cols.deep_view() == fv[fi as int].schema,
                    forall|i: int, j: int| 0 <= i < j < out@.len() ==> out@[i]@ != out@[j]@,
                    forall|i: int|
                        0 <= i < out@.len() ==> spec_column_declared(fv, (#[trigger] out@[i])@),
                    forall|i: int, j: int|
                        0 <= i < fi && 0 <= j < fv[i].schema.len() ==> spec_covered(
                            out@,
                            (#[trigger] fv[i].schema[j]).name,
                        ),
                    forall|j: int|
                        0 <= j < cj ==> spec_covered(
                            out@,
                            (#[trigger] fv[fi as int].schema[j]).name,
                        ),
                decreases nc - cj,
            {
                let name = &cols[cj].name;
                assert(fv[fi as int].schema[cj as int].name == name@);
                if !contains_string(&out, name) {
                    let ghost prior = out@;
                    out.push(name.clone());
                    assert(spec_column_declared(fv, name@));
                    assert((out@[out@.len() - 1])@ == name@);
                    proof {
                        assert forall|i: int, j: int|
                            0 <= i < fi && 0 <= j < fv[i].schema.len() implies spec_covered(
                            out@,
                            (#[trigger] fv[i].schema[j]).name,
                        ) by {
                            lemma_covered_extends(prior, out@, fv[i].schema[j].name);
                        }
                        assert forall|j: int| 0 <= j < cj implies spec_covered(
                            out@,
                            (#[trigger] fv[fi as int].schema[j]).name,
                        ) by {
                            lemma_covered_extends(prior, out@, fv[fi as int].schema[j].name);
                        }
                    }
                } else {
                    assert(spec_covered(out@, name@));
                }
                cj = cj + 1;
            }
            fi = fi + 1;
        }
        proof {
            assert forall|name: Seq<char>| #[trigger]
                spec_column_declared(fv, name) implies spec_covered(out@, name) by {
                let (i, j) = choose|i: int, j: int|
                    0 <= i < fv.len() && 0 <= j < fv[i].schema.len() && (#[trigger] fv[i]
                        .schema[j]).name == name;
            }
        }
        out
    }
}

/// Whether `v` already holds the string `s`, compared by contents.
fn contains_string(v: &Vec<String>, s: &String) -> (r: bool)
    ensures
        r == exists|i: int| 0 <= i < v@.len() && (#[trigger] v@[i])@ == s@,
{
    let n: usize = v.len();
    let mut i: usize = 0;
    while i < n
        invariant
            i <= n,
            forall|k: int| 0 <= k < i ==> (#[trigger] v@[k])@ != s@,
        decreases n - i,
    {
        if v[i] == *s {
            assert(v@[i as int]@ == s@);
            return true;
        }
        i = i + 1;
    }
    false
}


} // verus!
