use vstd::prelude::*;
use vstd::utf8::encode_utf8;

verus! {

/// A JSON number as the search layer sees it: its textual form, and
/// whether the backing store can cast it to a 64-bit float.  The search
/// layer itself never does float arithmetic; it only forwards the value.
#[derive(Debug, PartialEq, Eq)]
pub struct JsonNumber {
    pub text: String,
    pub float_representable: bool,
}

/// The mathematical image of a `JsonNumber`.
pub struct JsonNumberV {
    pub text: Seq<char>,
    pub float_representable: bool,
}

impl View for JsonNumber {
    type V = JsonNumberV;

    open spec fn view(&self) -> JsonNumberV {
        JsonNumberV { text: self.text@, float_representable: self.float_representable }
    }
}

impl DeepView for JsonNumber {
    type V = JsonNumberV;

    open spec fn deep_view(&self) -> JsonNumberV {
        self@
    }
}

impl Clone for JsonNumber {
    fn clone(&self) -> (r: Self)
        ensures
            r@ == self@,
    {
        JsonNumber { text: self.text.clone(), float_representable: self.float_representable }
    }
}

/// A scalar JSON value.
#[derive(Debug, PartialEq, Eq)]
pub enum JsonScalar {
    Null,
    Bool(bool),
    Num(JsonNumber),
    Str(String),
}

/// The mathematical image of a `JsonScalar`.
pub enum JsonScalarV {
    Null,
    Bool(bool),
    Num(JsonNumberV),
    Str(Seq<char>),
}

impl View for JsonScalar {
    type V = JsonScalarV;

    open spec fn view(&self) -> JsonScalarV {
        match self {
            JsonScalar::Null => JsonScalarV::Null,
            JsonScalar::Bool(b) => JsonScalarV::Bool(*b),
            JsonScalar::Num(n) => JsonScalarV::Num(n@),
            JsonScalar::Str(s) => JsonScalarV::Str(s@),
        }
    }
}

impl DeepView for JsonScalar {
    type V = JsonScalarV;

    open spec fn deep_view(&self) -> JsonScalarV {
        self@
    }
}

impl Clone for JsonScalar {
    fn clone(&self) -> (r: Self)
        ensures
            r@ == self@,
    {
        match self {
            JsonScalar::Null => JsonScalar::Null,
            JsonScalar::Bool(b) => JsonScalar::Bool(*b),
            JsonScalar::Num(n) => JsonScalar::Num(n.clone()),
            JsonScalar::Str(s) => JsonScalar::Str(s.clone()),
        }
    }
}

/// A JSON document value as the record and search layers see it.
/// The only composite the query layer inspects is an array of scalars
/// (the operand of a set-membership test); any other composite is
/// carried opaquely as its compact rendering.
#[derive(Debug, PartialEq, Eq)]
pub enum JsonValue {
    Scalar(JsonScalar),
    Array(Vec<JsonScalar>),
    Composite(String),
}

/// The mathematical image of a `JsonValue`.
pub enum JsonValueV {
    Scalar(JsonScalarV),
    Array(Seq<JsonScalarV>),
    Composite(Seq<char>),
}

impl View for JsonValue {
    type V = JsonValueV;

    open spec fn view(&self) -> JsonValueV {
        match self {
            JsonValue::Scalar(s) => JsonValueV::Scalar(s@),
            JsonValue::Array(items) => JsonValueV::Array(items.deep_view()),
            JsonValue::Composite(text) => JsonValueV::Composite(text@),
        }
    }
}

impl DeepView for JsonValue {
    type V = JsonValueV;

    open spec fn deep_view(&self) -> JsonValueV {
        self@
    }
}

/// Duplicate a list of scalars, element for element.
pub fn clone_scalars(items: &Vec<JsonScalar>) -> (r: Vec<JsonScalar>)
    ensures
        r.deep_view() == items.deep_view(),
{
    let mut out: Vec<JsonScalar> = Vec::new();
    let n: usize = items.len();
    let mut i: usize = 0;
    while i < n
        invariant
            i <= n,
            out.deep_view() == items.deep_view().subrange(0, i as int),
        decreases n - i,
    {
        out.push(items[i].clone());
        i = i + 1;
        assert(out.deep_view() =~= items.deep_view().subrange(0, i as int));
    }
    assert(items.deep_view().subrange(0, n as int) =~= items.deep_view());
    out
}

impl Clone for JsonValue {
    fn clone(&self) -> (r: Self)
        ensures
            r@ == self@,
    {
        match self {
            JsonValue::Scalar(s) => JsonValue::Scalar(s.clone()),
            JsonValue::Array(items) => JsonValue::Array(clone_scalars(items)),
            JsonValue::Composite(text) => JsonValue::Composite(text.clone()),
        }
    }
}

impl JsonValue {
    /// Whether this value is a JSON number.
    pub fn is_number(&self) -> (r: bool)
        ensures
            r == (self@ matches JsonValueV::Scalar(JsonScalarV::Num(_))),
    {
        matches!(self, JsonValue::Scalar(JsonScalar::Num(_)))
    }

    /// Whether this value is a JSON string.
    pub fn is_string(&self) -> (r: bool)
        ensures
            r == (self@ matches JsonValueV::Scalar(JsonScalarV::Str(_))),
    {
        matches!(self, JsonValue::Scalar(JsonScalar::Str(_)))
    }
}

/// How one byte of a JSON string is escaped in its rendering.
pub open spec fn spec_escape_byte(b: u8) -> Seq<u8> {
    if b == 34 {
        seq![92u8, 34u8]
    } else if b == 92 {
        seq![92u8, 92u8]
    } else if b == 10 {
        seq![92u8, 110u8]
    } else if b == 13 {
        seq![92u8, 114u8]
    } else if b == 9 {
        seq![92u8, 116u8]
    } else {
        seq![b]
    }
}

/// The escaped image of a whole byte string.
pub open spec fn spec_escape_bytes(s: Seq<u8>) -> Seq<u8>
    decreases s.len(),
{
    if s.len() == 0 {
        Seq::empty()
    } else {
        spec_escape_bytes(s.drop_last()) + spec_escape_byte(s.last())
    }
}

/// The rendering of a scalar, as it appears inside an exported row:
/// numbers as their text, strings quoted and escaped, `null`, `true`
/// and `false` literally.
pub open spec fn spec_render_scalar(v: JsonScalarV) -> Seq<u8> {
    match v {
        JsonScalarV::Null => seq![110u8, 117u8, 108u8, 108u8],
        JsonScalarV::Bool(b) => if b {
            seq![116u8, 114u8, 117u8, 101u8]
        } else {
            seq![102u8, 97u8, 108u8, 115u8, 101u8]
        },
        JsonScalarV::Num(n) => encode_utf8(n.text),
        JsonScalarV::Str(s) => seq![34u8] + spec_escape_bytes(encode_utf8(s)) + seq![34u8],
    }
}

/// The rendering of a scalar list, comma-separated.
pub open spec fn spec_render_scalar_list(items: Seq<JsonScalarV>) -> Seq<u8>
    decreases items.len(),
{
    if items.len() == 0 {
        Seq::empty()
    } else if items.len() == 1 {
        spec_render_scalar(items.last())
    } else {
        spec_render_scalar_list(items.drop_last()) + seq![44u8] + spec_render_scalar(items.last())
    }
}

/// The rendering of a document value: scalars as above, arrays in
/// brackets, opaque composites as the text they carry.
pub open spec fn spec_render_value(v: JsonValueV) -> Seq<u8> {
    match v {
        JsonValueV::Scalar(s) => spec_render_scalar(s),
        JsonValueV::Array(items) => seq![91u8] + spec_render_scalar_list(items) + seq![93u8],
        JsonValueV::Composite(text) => encode_utf8(text),
    }
}

/// Append the escaped image of `bytes` to `out`.
pub fn push_escaped(out: &mut Vec<u8>, bytes: &[u8])
    ensures
        final(out)@ == old(out)@ + spec_escape_bytes(bytes@),
{
    let n: usize = bytes.len();
    let mut i: usize = 0;
    assert(old(out)@ + spec_escape_bytes(bytes@.subrange(0, 0)) =~= old(out)@);
    while i < n
        invariant
            i <= n,
            out@ == old(out)@ + spec_escape_bytes(bytes@.subrange(0, i as int)),
        decreases n - i,
    {
        let ghost prefix = bytes@.subrange(0, i as int);
        let b = bytes[i];
        if b == 34 {
            out.push(92);
            out.push(34);
        } else if b == 92 {
            out.push(92);
            out.push(92);
        } else if b == 10 {
            out.push(92);
            out.push(110);
        } else if b == 13 {
            out.push(92);
            out.push(114);
        } else if b == 9 {
            out.push(92);
            out.push(116);
        } else {
            out.push(b);
        }
        i = i + 1;
        assert(bytes@.subrange(0, i as int).drop_last() =~= prefix);
        assert(bytes@.subrange(0, i as int).last() == b);
        assert(out@ =~= old(out)@ + spec_escape_bytes(bytes@.subrange(0, i as int)));
    }
    assert(bytes@.subrange(0, n as int) =~= bytes@);
}

/// Append the bytes of `bytes` to `out` unchanged.
pub fn push_bytes(out: &mut Vec<u8>, bytes: &[u8])
    ensures
        final(out)@ == old(out)@ + bytes@,
{
    let n: usize = bytes.len();
    let mut i: usize = 0;
    while i < n
        invariant
            i <= n,
            out@ == old(out)@ + bytes@.subrange(0, i as int),
        decreases n - i,
    {
        out.push(bytes[i]);
        i = i + 1;
        assert(out@ =~= old(out)@ + bytes@.subrange(0, i as int));
    }
    assert(bytes@.subrange(0, n as int) =~= bytes@);
}

/// Append the rendering of one scalar to `out`.
pub fn push_rendered_scalar(out: &mut Vec<u8>, v: &JsonScalar)
    ensures
        final(out)@ == old(out)@ + spec_render_scalar(v@),
{
    match v {
        JsonScalar::Null => {
            out.push(110);
            out.push(117);
            out.push(108);
            out.push(108);
            assert(out@ =~= old(out)@ + spec_render_scalar(v@));
        },
        JsonScalar::Bool(b) => {
            if *b {
                out.push(116);
                out.push(114);
                out.push(117);
                out.push(101);
            } else {
                out.push(102);
                out.push(97);
                out.push(108);
                out.push(115);
                out.push(101);
            }
            assert(out@ =~= old(out)@ + spec_render_scalar(v@));
        },
        JsonScalar::Num(n) => {
            push_bytes(out, n.text.as_str().as_bytes());
        },
        JsonScalar::Str(s) => {
            out.push(34);
            push_escaped(out, s.as_str().as_bytes());
            out.push(34);
            assert(out@ =~= old(out)@ + spec_render_scalar(v@));
        },
    }
}

/// Append the rendering of a document value to `out`.
pub fn push_rendered_value(out: &mut Vec<u8>, v: &JsonValue)
    ensures
        final(out)@ == old(out)@ + spec_render_value(v@),
{
    match v {
        JsonValue::Scalar(s) => {
            push_rendered_scalar(out, s);
        },
        JsonValue::Array(items) => {
            out.push(91);
            let n: usize = items.len();
            let mut i: usize = 0;
            while i < n
                invariant
                    i <= n,
                    out@ == old(out)@ + seq![91u8] + spec_render_scalar_list(
                        items.deep_view().subrange(0, i as int),
                    ),
                decreases n - i,
            {
                let ghost prefix = items.deep_view().subrange(0, i as int);
                if i > 0 {
                    out.push(44);
                }
                push_rendered_scalar(out, &items[i]);
                i = i + 1;
                assert(items.deep_view().subrange(0, i as int).drop_last() =~= prefix);
                assert(items.deep_view().subrange(0, i as int).last() == items.deep_view()[i - 1]);
            }
            out.push(93);
            assert(items.deep_view().subrange(0, n as int) =~= items.deep_view());
            assert(out@ =~= old(out)@ + spec_render_value(v@));
        },
        JsonValue::Composite(text) => {
            push_bytes(out, text.as_str().as_bytes());
        },
    }
}

} // verus!
