use vstd::prelude::*;
use vstd::string::StringExecFns;
use crate::error::DatabaseQueryError;

verus! {

/// The scalar kind a format column declares for its values.
#[derive(Debug, Clone, Copy, PartialEq, Eq, Structural)]
pub enum ColumnKind {
    Number,
    String,
    Datetime,
}

/// One typed column of a format: its name, its kind, and an optional
/// regular expression that string values must match.
#[derive(Debug, PartialEq, Eq)]
pub struct ColumnSchema {
    pub name: String,
    pub regex: Option<String>,
    pub kind: ColumnKind,
}

/// The mathematical image of a `ColumnSchema`.
pub struct ColumnSchemaV {
    pub name: Seq<char>,
    pub regex: Option<Seq<char>>,
    pub kind: ColumnKind,
}

impl View for ColumnSchema {
    type V = ColumnSchemaV;

    open spec fn view(&self) -> ColumnSchemaV {
        ColumnSchemaV {
            name: self.name@,
            regex: match self.regex {
                Some(p) => Some(p@),
                None => None,
            },
            kind: self.kind,
        }
    }
}

impl DeepView for ColumnSchema {
    type V = ColumnSchemaV;

    open spec fn deep_view(&self) -> ColumnSchemaV {
        self@
    }
}

impl Clone for ColumnSchema {
    fn clone(&self) -> (r: Self)
        ensures
            r@ == self@,
    {
        ColumnSchema {
            name: self.name.clone(),
            regex: match &self.regex {
                Some(p) => Some(p.clone()),
                None => None,
            },
            kind: self.kind,
        }
    }
}

/// The ordered list of columns a format declares.
#[derive(Debug, PartialEq, Eq)]
pub struct FormatSchema(pub Vec<ColumnSchema>);

impl View for FormatSchema {
    type V = Seq<ColumnSchemaV>;

    open spec fn view(&self) -> Seq<ColumnSchemaV> {
        self.0.deep_view()
    }
}

impl Clone for FormatSchema {
    fn clone(&self) -> (r: Self)
        ensures
            r@ == self@,
    {
        let mut cols: Vec<ColumnSchema> = Vec::new();
        let n: usize = self.0.len();
        let mut i: usize = 0;
        while i < n
            invariant
                i <= n,
                cols.deep_view() == self.0.deep_view().subrange(0, i as int),
            decreases n - i,
        {
            cols.push(self.0[i].clone());
            i = i + 1;
            assert(cols.deep_view() =~= self.0.deep_view().subrange(0, i as int));
        }
        assert(self.0.deep_view().subrange(0, n as int) =~= self.0.deep_view());
        FormatSchema(cols)
    }
}

/// A format: a named, versionless schema for a class of documents.
#[derive(Debug, PartialEq, Eq)]
pub struct Format {
    pub id: i32,
    pub name: String,
    pub description: String,
    /// Seconds since the epoch.
    pub created_at: i64,
    pub schema: FormatSchema,
    /// How long (in minutes) records of this format are kept; zero
    /// means forever.
    pub retention_period_minutes: i32,
}

/// The mathematical image of a `Format`.
pub struct FormatV {
    pub id: i32,
    pub name: Seq<char>,
    pub description: Seq<char>,
    pub created_at: i64,
    pub schema: Seq<ColumnSchemaV>,
    pub retention_period_minutes: i32,
}

impl View for Format {
    type V = FormatV;

    open spec fn view(&self) -> FormatV {
        FormatV {
            id: self.id,
            name: self.name@,
            description: self.description@,
            created_at: self.created_at,
            schema: self.schema@,
            retention_period_minutes: self.retention_period_minutes,
        }
    }
}

impl DeepView for Format {
    type V = FormatV;

    open spec fn deep_view(&self) -> FormatV {
        self@
    }
}

impl Clone for Format {
    fn clone(&self) -> (r: Self)
        ensures
            r@ == self@,
    {
        Format {
            id: self.id,
            name: self.name.clone(),
            description: self.description.clone(),
            created_at: self.created_at,
            schema: self.schema.clone(),
            retention_period_minutes: self.retention_period_minutes,
        }
    }
}

/// Whether `pattern` compiles as a regular expression.  The name is
/// given meaning only through `pattern_compiles` and `pattern_matches`.
pub uninterp spec fn regex_ok(pattern: Seq<char>) -> bool;

/// Whether `text` matches the regular expression `pattern`.
pub uninterp spec fn regex_match(pattern: Seq<char>, text: Seq<char>) -> bool;

/// Relies on regex::Regex::new: whether `pattern` compiles as a regular
/// expression.  The outcome depends on the pattern alone.
#[verifier::external_body]
pub(crate) fn pattern_compiles(pattern: &str) -> (r: bool)
    ensures
        r == regex_ok(pattern@),
{
    regex::Regex::new(pattern).is_ok()
}

/// Relies on regex::Regex::new and regex::Regex::is_match: whether
/// `text` matches `pattern`.  The outcome depends on the two strings
/// alone.
#[verifier::external_body]
pub(crate) fn pattern_matches(pattern: &str, text: &str) -> (r: bool)
    requires
        regex_ok(pattern@),
    ensures
        r == regex_match(pattern@, text@),
{
    match regex::Regex::new(pattern) {
        Ok(re) => re.is_match(text),
        Err(_) => false,
    }
}

/// Whether every column regex in `cols` sits on a string column and
/// compiles.
pub open spec fn spec_schema_regexes_valid(cols: Seq<ColumnSchemaV>) -> bool {
    forall|i: int|
        0 <= i < cols.len() ==> (#[trigger] cols[i].regex matches Some(p) ==> cols[i].kind
            == ColumnKind::String && regex_ok(p))
}

/// Whether no two columns of `cols` share a name.
pub open spec fn spec_schema_names_unique(cols: Seq<ColumnSchemaV>) -> bool {
    forall|i: int, j: int|
        0 <= i < j < cols.len() ==> #[trigger] cols[i].name != #[trigger] cols[j].name
}

impl FormatSchema {
    /// The well-formedness every stored format enjoys: column names are
    /// unique, and a regex only sits on a string column and compiles.
    pub open spec fn wf(&self) -> bool {
        spec_schema_names_unique(self@) && spec_schema_regexes_valid(self@)
    }
}

impl Format {
    /// The check run when a format is created: every declared regex
    /// must sit on a string column and must itself compile; otherwise
    /// the format is rejected with `InvalidRegex`.
    pub fn check_schema_regexes(&self) -> (r: Result<(), DatabaseQueryError>)
        ensures
            r is Ok <==> spec_schema_regexes_valid(self.schema@),
            r matches Err(e) ==> e == DatabaseQueryError::InvalidRegex,
    {
        let cols = &self.schema.0;
        let n: usize = cols.len();
        let mut i: usize = 0;
        while i < n
            invariant
                i <= n,
                forall|k: int|
                    0 <= k < i ==> (#[trigger] cols.deep_view()[k].regex matches Some(p)
                        ==> cols.deep_view()[k].kind == ColumnKind::String && regex_ok(p)),
            decreases n - i,
        {
            match &cols[i].regex {
                Some(pattern) => {
                    if !matches!(cols[i].kind, ColumnKind::String) {
                        assert(!spec_schema_regexes_valid(self.schema@)) by {
                            assert(cols.deep_view()[i as int].regex matches Some(p)
                                && cols.deep_view()[i as int].kind != ColumnKind::String);
                        }
                        return Err(DatabaseQueryError::InvalidRegex);
                    }
                    if !pattern_compiles(pattern.as_str()) {
                        assert(!spec_schema_regexes_valid(self.schema@)) by {
                            assert(cols.deep_view()[i as int].regex matches Some(p) && !regex_ok(
                                p,
                            ));
                        }
                        return Err(DatabaseQueryError::InvalidRegex);
                    }
                },
                None => {},
            }
            i = i + 1;
        }
        Ok(())
    }
}

impl Format {
    /// The other half of the creation check: no two columns may share
    /// a name; a duplicate is a usage error naming nothing further.
    pub fn check_schema_names(&self) -> (r: Result<(), DatabaseQueryError>)
        ensures
            r is Ok <==> spec_schema_names_unique(self.schema@),
            r matches Err(e) ==> e matches DatabaseQueryError::InvalidUsage(_),
    {
        let cols = &self.schema.0;
        let n: usize = cols.len();
        let mut i: usize = 0;
        while i < n
            invariant
                i <= n,
                forall|x: int, y: int|
                    0 <= x < y < cols.deep_view().len() && x < i ==> (#[trigger] cols.deep_view()[
                    x]).name != (#[trigger] cols.deep_view()[y]).name,
            decreases n - i,
        {
            let mut j: usize = i + 1;
            while j < n
                invariant
                    i < j <= n,
                    i < n,
                    forall|y: int|
                        i < y < j ==> cols.deep_view()[i as int].name != (#[trigger] cols
                            .deep_view()[y]).name,
                decreases n - j,
            {
                if cols[i].name == cols[j].name {
                    assert(cols.deep_view()[i as int].name == cols.deep_view()[j as int].name);
                    assert(!spec_schema_names_unique(self.schema@));
                    return Err(DatabaseQueryError::InvalidUsage(String::from_str(
                        "duplicate column name in schema",
                    )));
                }
                assert(cols.deep_view()[i as int].name != cols.deep_view()[j as int].name);
                j = j + 1;
            }
            i = i + 1;
        }
        Ok(())
    }

    /// The whole creation check: column names unique, and every regex
    /// on a string column and compiling.  Success establishes the
    /// schema well-formedness every stored format is assumed to have.
    pub fn check_schema(&self) -> (r: Result<(), DatabaseQueryError>)
        ensures
            r is Ok <==> self.schema.wf(),
            r matches Err(e) ==> (e == DatabaseQueryError::InvalidRegex || e matches
                DatabaseQueryError::InvalidUsage(_)),
    {
        match self.check_schema_names() {
            Ok(()) => self.check_schema_regexes(),
            Err(e) => Err(e),
        }
    }
}

} // verus!
