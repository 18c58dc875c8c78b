use vstd::prelude::*;
use vstd::utf8::encode_utf8;
use crate::error::DatabaseQueryError;
use crate::json::{push_bytes, push_escaped, push_rendered_value, spec_escape_bytes, spec_render_value};
use crate::pagination::{page_of, spec_page, spec_concat_pages, lemma_pages_cover};
use crate::records::{Record, RecordV};
use crate::search::{CompiledQuery, PreparedSearchQuery};
use crate::spec_div_ceil;
use crate::div_ceil_u64;

verus! {

/// The parallelism knobs of a streaming export: how many reader
/// cursors, how deep the bounded queues, and how many transform
/// workers.
#[derive(Debug, Clone, Copy, PartialEq, Eq, Structural)]
pub struct ParallelStreamConfig {
    pub num_streams: usize,
    pub num_queue_items: usize,
    pub num_transform_threads: usize,
}

impl ParallelStreamConfig {
    /// Pack the three knobs.
    pub fn new(num_streams: usize, num_queue_items: usize, num_transform_threads: usize) -> (r:
        ParallelStreamConfig)
        ensures
            r.num_streams == num_streams,
            r.num_queue_items == num_queue_items,
            r.num_transform_threads == num_transform_threads,
    {
        ParallelStreamConfig { num_streams, num_queue_items, num_transform_threads }
    }
}

/// The decimal digits of `n`, most significant first.
pub open spec fn spec_u64_decimal(n: nat) -> Seq<u8>
    decreases n,
{
    if n < 10 {
        seq![(48 + n) as u8]
    } else {
        spec_u64_decimal(n / 10) + seq![(48 + n % 10) as u8]
    }
}

/// The decimal rendering of a signed number: a minus sign before the
/// digits of its magnitude.
pub open spec fn spec_i64_decimal(n: int) -> Seq<u8> {
    if n >= 0 {
        spec_u64_decimal(n as nat)
    } else {
        seq![45u8] + spec_u64_decimal((-n) as nat)
    }
}

/// Append the decimal digits of `n` to `out`.
pub fn push_u64_decimal(out: &mut Vec<u8>, n: u64)
    ensures
        final(out)@ == old(out)@ + spec_u64_decimal(n as nat),
    decreases n,
{
    if n < 10 {
        out.push(48 + n as u8);
        assert(out@ =~= old(out)@ + spec_u64_decimal(n as nat));
    } else {
        push_u64_decimal(out, n / 10);
        out.push(48 + (n % 10) as u8);
        assert(out@ =~= old(out)@ + spec_u64_decimal(n as nat));
    }
}

/// Append the decimal rendering of `n` to `out`.
pub fn push_i64_decimal(out: &mut Vec<u8>, n: i64)
    ensures
        final(out)@ == old(out)@ + spec_i64_decimal(n as int),
{
    if n >= 0 {
        push_u64_decimal(out, n as u64);
    } else {
        out.push(45);
        let magnitude: u64 = ((-(n + 1)) as u64) + 1;
        assert(magnitude == (-(n as int)) as nat);
        push_u64_decimal(out, magnitude);
        assert(out@ =~= old(out)@ + spec_i64_decimal(n as int));
    }
}

/// A quoted name, as the header renders it: wrapped in double quotes
/// with the quote-and-backslash escaping of string rendering.
pub open spec fn spec_quoted(name: Seq<char>) -> Seq<u8> {
    seq![34u8] + spec_escape_bytes(encode_utf8(name)) + seq![34u8]
}

/// The three fixed leading header columns of every export.
pub open spec fn spec_fixed_headers() -> Seq<u8> {
    encode_utf8("\"ID\",\"FormatId\",\"UploadSessionId\""@)
}

/// The header cells for the schema columns: a comma and a quoted name
/// for each.
pub open spec fn spec_header_columns(cols: Seq<Seq<char>>) -> Seq<u8>
    decreases cols.len(),
{
    if cols.len() == 0 {
        Seq::empty()
    } else {
        spec_header_columns(cols.drop_last()) + seq![44u8] + spec_quoted(cols.last())
    }
}

/// The header line of an export: the three fixed columns, one quoted
/// name per schema column, and a newline.
pub open spec fn spec_csv_header(cols: Seq<Seq<char>>) -> Seq<u8> {
    spec_fixed_headers() + spec_header_columns(cols) + seq![10u8]
}

/// The deep view of a list of column names.
pub open spec fn spec_names(cols: Seq<String>) -> Seq<Seq<char>> {
    cols.map_values(|c: String| c@)
}

/// Render the header line for the given schema columns.
pub fn csv_header(columns: &Vec<String>) -> (r: Vec<u8>)
    ensures
        r@ == spec_csv_header(spec_names(columns@)),
{
    let mut out: Vec<u8> = Vec::new();
    push_bytes(&mut out, "\"ID\",\"FormatId\",\"UploadSessionId\"".as_bytes());
    let n: usize = columns.len();
    let mut i: usize = 0;
    while i < n
        invariant
            i <= n,
            out@ == spec_fixed_headers() + spec_header_columns(
                spec_names(columns@.subrange(0, i as int)),
            ),
        decreases n - i,
    {
        let ghost prefix = spec_names(columns@.subrange(0, i as int));
        out.push(44);
        out.push(34);
        push_escaped(&mut out, columns[i].as_str().as_bytes());
        out.push(34);
        i = i + 1;
        assert(spec_names(columns@.subrange(0, i as int)) =~= prefix.push(
            columns@[i - 1]@,
        ));
        assert(spec_names(columns@.subrange(0, i as int)).drop_last() =~= prefix);
        assert(out@ =~= spec_fixed_headers() + spec_header_columns(
            spec_names(columns@.subrange(0, i as int)),
        ));
    }
    out.push(10);
    assert(columns@.subrange(0, n as int) =~= columns@);
    assert(out@ =~= spec_csv_header(spec_names(columns@)));
    out
}

/// One byte of a value cell, doubled if it is a double quote, as CSV
/// quoting asks.
pub open spec fn spec_csv_doubled_byte(b: u8) -> Seq<u8> {
    if b == 34 {
        seq![34u8, 34u8]
    } else {
        seq![b]
    }
}

/// A value cell's bytes with every double quote doubled.
pub open spec fn spec_csv_doubled(s: Seq<u8>) -> Seq<u8>
    decreases s.len(),
{
    if s.len() == 0 {
        Seq::empty()
    } else {
        spec_csv_doubled(s.drop_last()) + spec_csv_doubled_byte(s.last())
    }
}

/// Whether a rendered cell needs CSV quoting: it holds a comma, a
/// double quote, or a line break.
pub open spec fn spec_cell_needs_quoting(s: Seq<u8>) -> bool {
    exists|i: int|
        0 <= i < s.len() && ((#[trigger] s[i]) == 44 || s[i] == 34 || s[i] == 10 || s[i] == 13)
}

/// A rendered cell, framed for CSV: quoted with doubled quotes when it
/// holds a delimiter, unchanged otherwise.  A cell holding a bare
/// comma, quote or line break would corrupt the row it sits in, so
/// the framing never emits one.
pub open spec fn spec_csv_cell(s: Seq<u8>) -> Seq<u8> {
    if spec_cell_needs_quoting(s) {
        seq![34u8] + spec_csv_doubled(s) + seq![34u8]
    } else {
        s
    }
}

/// Append `cell` to `out`, framed for CSV.
pub fn push_csv_cell(out: &mut Vec<u8>, cell: &Vec<u8>)
    ensures
        final(out)@ == old(out)@ + spec_csv_cell(cell@),
{
    let n: usize = cell.len();
    let mut needs: bool = false;
    let mut i: usize = 0;
    while i < n
        invariant
            i <= n,
            needs == (exists|k: int|
                0 <= k < i && ((#[trigger] cell@[k]) == 44 || cell@[k] == 34 || cell@[k] == 10
                    || cell@[k] == 13)),
        decreases n - i,
    {
        let b = cell[i];
        if b == 44 || b == 34 || b == 10 || b == 13 {
            needs = true;
        }
        i = i + 1;
    }
    assert(needs == spec_cell_needs_quoting(cell@));
    if !needs {
        push_bytes(out, cell.as_slice());
    } else {
        out.push(34);
        let mut j: usize = 0;
        while j < n
            invariant
                j <= n,
                out@ == old(out)@ + seq![34u8] + spec_csv_doubled(cell@.subrange(0, j as int)),
            decreases n - j,
        {
            let ghost prefix = cell@.subrange(0, j as int);
            let b = cell[j];
            if b == 34 {
                out.push(34);
                out.push(34);
            } else {
                out.push(b);
            }
            j = j + 1;
            assert(cell@.subrange(0, j as int).drop_last() =~= prefix);
            assert(cell@.subrange(0, j as int).last() == b);
            assert(out@ =~= old(out)@ + seq![34u8] + spec_csv_doubled(
                cell@.subrange(0, j as int),
            ));
        }
        out.push(34);
        assert(cell@.subrange(0, n as int) =~= cell@);
        assert(out@ =~= old(out)@ + spec_csv_cell(cell@));
    }
}

/// The cell for one schema column of one record: its rendered value,
/// CSV-framed; an absent column renders empty.
pub open spec fn spec_record_cell(r: RecordV, col: Seq<char>) -> Seq<u8> {
    match crate::records::spec_data_get(r.data, col) {
        Some(v) => spec_csv_cell(spec_render_value(v)),
        None => Seq::empty(),
    }
}

/// The value cells of one record, one per schema column, each behind
/// a comma.
pub open spec fn spec_record_cells(r: RecordV, cols: Seq<Seq<char>>) -> Seq<u8>
    decreases cols.len(),
{
    if cols.len() == 0 {
        Seq::empty()
    } else {
        spec_record_cells(r, cols.drop_last()) + seq![44u8] + spec_record_cell(r, cols.last())
    }
}

/// One exported row: the record's id, format id and session id in
/// decimal, the schema-column cells in header order, and a newline.
pub open spec fn spec_csv_row(r: RecordV, cols: Seq<Seq<char>>) -> Seq<u8> {
    spec_i64_decimal(r.id as int) + seq![44u8] + spec_i64_decimal(r.format_id as int)
        + seq![44u8] + spec_i64_decimal(r.upload_session_id as int) + spec_record_cells(r, cols)
        + seq![10u8]
}

/// Render one record as a CSV row under the given column order.
pub fn csv_row(record: &Record, columns: &Vec<String>) -> (r: Vec<u8>)
    requires
        record.data.keys_unique(),
    ensures
        r@ == spec_csv_row(record@, spec_names(columns@)),
{
    let mut out: Vec<u8> = Vec::new();
    push_i64_decimal(&mut out, record.id);
    out.push(44);
    push_i64_decimal(&mut out, record.format_id as i64);
    out.push(44);
    push_i64_decimal(&mut out, record.upload_session_id as i64);
    let ghost lead = out@;
    let n: usize = columns.len();
    let mut i: usize = 0;
    while i < n
        invariant
            i <= n,
            record.data.keys_unique(),
            out@ == lead + spec_record_cells(record@, spec_names(columns@.subrange(0, i as int))),
        decreases n - i,
    {
        let ghost prefix = spec_names(columns@.subrange(0, i as int));
        out.push(44);
        match record.data.get(&columns[i]) {
            Some(value) => {
                let mut cell: Vec<u8> = Vec::new();
                push_rendered_value(&mut cell, value);
                push_csv_cell(&mut out, &cell);
            },
            None => {},
        }
        i = i + 1;
        assert(spec_names(columns@.subrange(0, i as int)) =~= prefix.push(columns@[i - 1]@));
        assert(spec_names(columns@.subrange(0, i as int)).drop_last() =~= prefix);
        assert(out@ =~= lead + spec_record_cells(
            record@,
            spec_names(columns@.subrange(0, i as int)),
        ));
    }
    out.push(10);
    assert(columns@.subrange(0, n as int) =~= columns@);
    assert(out@ =~= spec_csv_row(record@, spec_names(columns@)));
    out
}

/// The page size each reader cursor gets: the row count split evenly
/// over the readers, rounded up.  A single reader streams everything,
/// so no count and no split are needed.
pub fn rows_per_reader(count: u64, num_streams: u64) -> (r: Option<u64>)
    requires
        num_streams >= 1,
    ensures
        num_streams == 1 ==> r is None,
        num_streams > 1 ==> r == Some(spec_div_ceil(count as nat, num_streams as nat) as u64),
{
    if num_streams > 1 {
        Some(div_ceil_u64(count, num_streams))
    } else {
        None
    }
}

/// The rows reader `reader` is responsible for: everything for a lone
/// reader, its page of `limit` rows otherwise.
pub open spec fn spec_reader_slice<T>(items: Seq<T>, reader: int, limit: Option<u64>) -> Seq<T> {
    match limit {
        None => if reader == 0 {
            items
        } else {
            Seq::empty()
        },
        Some(l) => if l == 0 {
            Seq::empty()
        } else {
            spec_page(items, reader, l as int)
        },
    }
}

/// Extract the rows reader `reader` streams.
pub fn reader_slice<T>(items: Vec<T>, reader: u64, limit: Option<u64>) -> (r: Vec<T>)
    ensures
        r@ == spec_reader_slice(items@, reader as int, limit),
{
    match limit {
        None => {
            if reader == 0 {
                items
            } else {
                Vec::new()
            }
        },
        Some(l) => {
            if l == 0 {
                Vec::new()
            } else {
                page_of(items, reader, l)
            }
        },
    }
}

/// Range partitioning loses nothing and repeats nothing: the reader
/// slices for `num_streams` readers at the split this module computes,
/// concatenated in reader order, are exactly the ordered rows.  A lone
/// reader receives the rows in their stored ascending order unchanged.
pub proof fn lemma_reader_slices_cover<T>(items: Seq<T>, num_streams: u64, limit: Option<u64>)
    requires
        num_streams >= 1,
        num_streams == 1 ==> limit is None,
        num_streams > 1 ==> limit == Some(
            spec_div_ceil(items.len(), num_streams as nat) as u64,
        ) && spec_div_ceil(items.len(), num_streams as nat) <= u64::MAX,
    ensures
        spec_concat_reader_slices(items, num_streams as int, limit) == items,
{
    if num_streams == 1 {
        assert(spec_concat_reader_slices(items, 0, limit) == Seq::<T>::empty());
        assert(spec_concat_reader_slices(items, 1, limit) == spec_concat_reader_slices(
            items,
            0,
            limit,
        ) + spec_reader_slice(items, 0, limit));
        assert(spec_reader_slice(items, 0, limit) == items);
        assert(Seq::<T>::empty() + items =~= items);
    } else {
        let l = spec_div_ceil(items.len(), num_streams as nat) as int;
        if l == 0 {
            assert(items.len() == 0) by (nonlinear_arith)
                requires
                    num_streams >= 1 && spec_div_ceil(items.len(), num_streams as nat) == 0,
            ;
            lemma_concat_empty_slices(items, num_streams as int, limit);
        } else {
            lemma_concat_matches_pages(items, num_streams as int, limit, l);
            assert((num_streams as int) * l >= items.len()) by (nonlinear_arith)
                requires
                    num_streams >= 1 && l == spec_div_ceil(items.len(), num_streams as nat)
                        && l >= 1,
            ;
            lemma_pages_cover(items, l, num_streams as int);
        }
    }
}

/// The rows of all readers, in reader order.
pub open spec fn spec_concat_reader_slices<T>(
    items: Seq<T>,
    k: int,
    limit: Option<u64>,
) -> Seq<T>
    decreases k,
{
    if k <= 0 {
        Seq::empty()
    } else {
        spec_concat_reader_slices(items, k - 1, limit) + spec_reader_slice(items, k - 1, limit)
    }
}

/// With a zero page size every reader's slice is empty, and so is the
/// whole input.
proof fn lemma_concat_empty_slices<T>(items: Seq<T>, k: int, limit: Option<u64>)
    requires
        k >= 0,
        limit == Some(0u64),
        items.len() == 0,
    ensures
        spec_concat_reader_slices(items, k, limit) == items,
    decreases k,
{
    if k > 0 {
        lemma_concat_empty_slices(items, k - 1, limit);
        assert(spec_concat_reader_slices(items, k, limit) =~= items);
    } else {
        assert(spec_concat_reader_slices(items, k, limit) =~= items);
    }
}

/// With a positive page size, reader slices are exactly pages.
proof fn lemma_concat_matches_pages<T>(items: Seq<T>, k: int, limit: Option<u64>, l: int)
    requires
        k >= 0,
        l >= 1,
        limit == Some(l as u64),
        l <= u64::MAX,
    ensures
        spec_concat_reader_slices(items, k, limit) == spec_concat_pages(items, l, k),
    decreases k,
{
    if k > 0 {
        lemma_concat_matches_pages(items, k - 1, limit, l);
        assert(spec_reader_slice(items, k - 1, limit) == spec_page(items, k - 1, l));
    }
}

/// Everything of an export that is computed rather than streamed: the
/// compiled, visibility-restricted query; the schema-union column
/// order; the header line; and the per-reader page size.
#[derive(Debug)]
pub struct ExportPlan {
    pub compiled: CompiledQuery,
    pub columns: Vec<String>,
    pub header: Vec<u8>,
    pub rows_per_reader: Option<u64>,
}

/// Compile a prepared search for streaming: validate and compile the
/// query, fix the column order from the schema union, render the
/// header line that the stream yields first, and split `count` rows
/// over the configured readers.
pub fn stream_export_plan(
    prepared: &PreparedSearchQuery,
    count: u64,
    config: &ParallelStreamConfig,
) -> (r: Result<ExportPlan, DatabaseQueryError>)
    requires
        config.num_streams >= 1,
    ensures
        r is Ok <==> crate::search::spec_query_compilable(prepared@.formats, prepared@.query),
        r matches Ok(plan) ==> {
            &&& plan.compiled@.visible_format_ids == crate::search::spec_format_ids(
                prepared@.formats,
            )
            &&& plan.compiled@.upload_session_filter == prepared@.query.upload_session
            &&& plan.compiled@.groups == crate::search::spec_compile_groups(
                prepared@.formats,
                prepared@.query.query,
            )
            &&& plan.header@ == spec_csv_header(spec_names(plan.columns@))
            &&& (forall|i: int, j: int|
                0 <= i < j < plan.columns@.len() ==> plan.columns@[i]@ != plan.columns@[j]@)
            &&& (forall|name: Seq<char>|
                #[trigger] crate::search::spec_column_declared(prepared@.formats, name)
                    ==> crate::search::spec_covered(plan.columns@, name))
            &&& (forall|i: int|
                0 <= i < plan.columns@.len() ==> crate::search::spec_column_declared(
                    prepared@.formats,
                    (#[trigger] plan.columns@[i])@,
                ))
            &&& (config.num_streams == 1 ==> plan.rows_per_reader is None)
            &&& (config.num_streams > 1 ==> plan.rows_per_reader == Some(
                spec_div_ceil(count as nat, config.num_streams as nat) as u64,
            ))
        },
{
    let compiled = match prepared.apply_condition() {
        Ok(c) => c,
        Err(e) => {
            return Err(e);
        },
    };
    let columns = prepared.schema_columns();
    let header = csv_header(&columns);
    let rows_per_reader = rows_per_reader(count, config.num_streams as u64);
    Ok(ExportPlan { compiled, columns, header, rows_per_reader })
}

} // verus!
