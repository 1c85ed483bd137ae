//! The binary little-endian point-cloud format: an ASCII header describing
//! per-vertex properties, then packed vertex records.
//!
//! This module parses the header into a typed layout — vertex count, the
//! type and role of every property, and the record stride — and extracts
//! raw property values as bit patterns.  Turning those bits into
//! fixed-point splats (sigmoid, exponential, normalization) happens
//! outside the crate.

use vstd::prelude::*;

verus! {

/// A scalar type a vertex property can have.
#[derive(Clone, Copy, PartialEq, Eq, Structural, Debug)]
pub enum PlyType {
    Char,
    UChar,
    Short,
    UShort,
    Int,
    UInt,
    Float,
    Double,
}

/// What a vertex property feeds in the splat, judged by its name.
#[derive(Clone, Copy, PartialEq, Eq, Structural, Debug)]
pub enum PropRole {
    X,
    Y,
    Z,
    FDc0,
    FDc1,
    FDc2,
    Red,
    Green,
    Blue,
    Opacity,
    Scale0,
    Scale1,
    Scale2,
    Rot0,
    Rot1,
    Rot2,
    Rot3,
    Other,
}

/// One vertex property: its scalar type and its role.
#[derive(Clone, Copy, PartialEq, Eq, Structural, Debug)]
pub struct PlyProperty {
    pub kind: PlyType,
    pub role: PropRole,
}

/// The parsed header: where the vertex data starts, how many vertices it
/// holds, and their property layout.
#[derive(Debug)]
pub struct PlyHeader {
    pub header_end: usize,
    pub vertex_count: usize,
    pub stride: usize,
    pub properties: Vec<PlyProperty>,
}

/// Why a point-cloud file is rejected.
#[derive(Clone, Copy, PartialEq, Eq, Structural, Debug)]
pub enum PlyError {
    /// No line of the file ends the header.
    MissingEndHeader,
    /// The format line does not declare binary little-endian data.
    NotBinaryLittleEndian,
    /// A list property stands in the vertex element.
    ListPropertyUnsupported,
    /// A vertex property has a type this reader does not know.
    UnsupportedPropertyType,
    /// The vertex element or its properties are missing.
    MissingVertexData,
    /// A size computation left the supported range.
    SizeOverflow,
    /// The file ends before the declared vertex data does.
    Truncated,
}

impl PlyType {
    /// Bytes one value of this type occupies.
    pub fn size(self) -> (r: usize)
        ensures
            r == (match self {
                PlyType::Char | PlyType::UChar => 1int,
                PlyType::Short | PlyType::UShort => 2int,
                PlyType::Int | PlyType::UInt | PlyType::Float => 4int,
                PlyType::Double => 8int,
            }),
    {
        match self {
            PlyType::Char | PlyType::UChar => 1,
            PlyType::Short | PlyType::UShort => 2,
            PlyType::Int | PlyType::UInt | PlyType::Float => 4,
            PlyType::Double => 8,
        }
    }
}

/// The bytes of the keyword `char`.
pub open spec fn kw_char() -> Seq<u8> {
    seq![99u8, 104u8, 97u8, 114u8]
}

/// Matches a token against the keyword `char`.
fn match_kw_char(data: &Vec<u8>, s: usize, e: usize) -> (r: bool)
    requires
        s <= e <= data.len(),
    ensures
        r == token_is_spec(data@, s as int, e as int, kw_char()),
{
    let pat = [99u8, 104u8, 97u8, 114u8];
    let r = token_eq(data, s, e, &pat);
    proof {
        assert(pat@ =~= kw_char());
    }
    r
}

/// The bytes of the keyword `int8`.
pub open spec fn kw_int8() -> Seq<u8> {
    seq![105u8, 110u8, 116u8, 56u8]
}

/// Matches a token against the keyword `int8`.
fn match_kw_int8(data: &Vec<u8>, s: usize, e: usize) -> (r: bool)
    requires
        s <= e <= data.len(),
    ensures
        r == token_is_spec(data@, s as int, e as int, kw_int8()),
{
    let pat = [105u8, 110u8, 116u8, 56u8];
    let r = token_eq(data, s, e, &pat);
    proof {
        assert(pat@ =~= kw_int8());
    }
    r
}

/// The bytes of the keyword `uchar`.
pub open spec fn kw_uchar() -> Seq<u8> {
    seq![117u8, 99u8, 104u8, 97u8, 114u8]
}

/// Matches a token against the keyword `uchar`.
fn match_kw_uchar(data: &Vec<u8>, s: usize, e: usize) -> (r: bool)
    requires
        s <= e <= data.len(),
    ensures
        r == token_is_spec(data@, s as int, e as int, kw_uchar()),
{
    let pat = [117u8, 99u8, 104u8, 97u8, 114u8];
    let r = token_eq(data, s, e, &pat);
    proof {
        assert(pat@ =~= kw_uchar());
    }
    r
}

/// The bytes of the keyword `uint8`.
pub open spec fn kw_uint8() -> Seq<u8> {
    seq![117u8, 105u8, 110u8, 116u8, 56u8]
}

/// Matches a token against the keyword `uint8`.
fn match_kw_uint8(data: &Vec<u8>, s: usize, e: usize) -> (r: bool)
    requires
        s <= e <= data.len(),
    ensures
        r == token_is_spec(data@, s as int, e as int, kw_uint8()),
{
    let pat = [117u8, 105u8, 110u8, 116u8, 56u8];
    let r = token_eq(data, s, e, &pat);
    proof {
        assert(pat@ =~= kw_uint8());
    }
    r
}

/// The bytes of the keyword `short`.
pub open spec fn kw_short() -> Seq<u8> {
    seq![115u8, 104u8, 111u8, 114u8, 116u8]
}

/// Matches a token against the keyword `short`.
fn match_kw_short(data: &Vec<u8>, s: usize, e: usize) -> (r: bool)
    requires
        s <= e <= data.len(),
    ensures
        r == token_is_spec(data@, s as int, e as int, kw_short()),
{
    let pat = [115u8, 104u8, 111u8, 114u8, 116u8];
    let r = token_eq(data, s, e, &pat);
    proof {
        assert(pat@ =~= kw_short());
    }
    r
}

/// The bytes of the keyword `int16`.
pub open spec fn kw_int16() -> Seq<u8> {
    seq![105u8, 110u8, 116u8, 49u8, 54u8]
}

/// Matches a token against the keyword `int16`.
fn match_kw_int16(data: &Vec<u8>, s: usize, e: usize) -> (r: bool)
    requires
        s <= e <= data.len(),
    ensures
        r == token_is_spec(data@, s as int, e as int, kw_int16()),
{
    let pat = [105u8, 110u8, 116u8, 49u8, 54u8];
    let r = token_eq(data, s, e, &pat);
    proof {
        assert(pat@ =~= kw_int16());
    }
    r
}

/// The bytes of the keyword `ushort`.
pub open spec fn kw_ushort() -> Seq<u8> {
    seq![117u8, 115u8, 104u8, 111u8, 114u8, 116u8]
}

/// Matches a token against the keyword `ushort`.
fn match_kw_ushort(data: &Vec<u8>, s: usize, e: usize) -> (r: bool)
    requires
        s <= e <= data.len(),
    ensures
        r == token_is_spec(data@, s as int, e as int, kw_ushort()),
{
    let pat = [117u8, 115u8, 104u8, 111u8, 114u8, 116u8];
    let r = token_eq(data, s, e, &pat);
    proof {
        assert(pat@ =~= kw_ushort());
    }
    r
}

/// The bytes of the keyword `uint16`.
pub open spec fn kw_uint16() -> Seq<u8> {
    seq![117u8, 105u8, 110u8, 116u8, 49u8, 54u8]
}

/// Matches a token against the keyword `uint16`.
fn match_kw_uint16(data: &Vec<u8>, s: usize, e: usize) -> (r: bool)
    requires
        s <= e <= data.len(),
    ensures
        r == token_is_spec(data@, s as int, e as int, kw_uint16()),
{
    let pat = [117u8, 105u8, 110u8, 116u8, 49u8, 54u8];
    let r = token_eq(data, s, e, &pat);
    proof {
        assert(pat@ =~= kw_uint16());
    }
    r
}

/// The bytes of the keyword `int`.
pub open spec fn kw_int() -> Seq<u8> {
    seq![105u8, 110u8, 116u8]
}

/// Matches a token against the keyword `int`.
fn match_kw_int(data: &Vec<u8>, s: usize, e: usize) -> (r: bool)
    requires
        s <= e <= data.len(),
    ensures
        r == token_is_spec(data@, s as int, e as int, kw_int()),
{
    let pat = [105u8, 110u8, 116u8];
    let r = token_eq(data, s, e, &pat);
    proof {
        assert(pat@ =~= kw_int());
    }
    r
}

/// The bytes of the keyword `int32`.
pub open spec fn kw_int32() -> Seq<u8> {
    seq![105u8, 110u8, 116u8, 51u8, 50u8]
}

/// Matches a token against the keyword `int32`.
fn match_kw_int32(data: &Vec<u8>, s: usize, e: usize) -> (r: bool)
    requires
        s <= e <= data.len(),
    ensures
        r == token_is_spec(data@, s as int, e as int, kw_int32()),
{
    let pat = [105u8, 110u8, 116u8, 51u8, 50u8];
    let r = token_eq(data, s, e, &pat);
    proof {
        assert(pat@ =~= kw_int32());
    }
    r
}

/// The bytes of the keyword `uint`.
pub open spec fn kw_uint() -> Seq<u8> {
    seq![117u8, 105u8, 110u8, 116u8]
}

/// Matches a token against the keyword `uint`.
fn match_kw_uint(data: &Vec<u8>, s: usize, e: usize) -> (r: bool)
    requires
        s <= e <= data.len(),
    ensures
        r == token_is_spec(data@, s as int, e as int, kw_uint()),
{
    let pat = [117u8, 105u8, 110u8, 116u8];
    let r = token_eq(data, s, e, &pat);
    proof {
        assert(pat@ =~= kw_uint());
    }
    r
}

/// The bytes of the keyword `uint32`.
pub open spec fn kw_uint32() -> Seq<u8> {
    seq![117u8, 105u8, 110u8, 116u8, 51u8, 50u8]
}

/// Matches a token against the keyword `uint32`.
fn match_kw_uint32(data: &Vec<u8>, s: usize, e: usize) -> (r: bool)
    requires
        s <= e <= data.len(),
    ensures
        r == token_is_spec(data@, s as int, e as int, kw_uint32()),
{
    let pat = [117u8, 105u8, 110u8, 116u8, 51u8, 50u8];
    let r = token_eq(data, s, e, &pat);
    proof {
        assert(pat@ =~= kw_uint32());
    }
    r
}

/// The bytes of the keyword `float`.
pub open spec fn kw_float() -> Seq<u8> {
    seq![102u8, 108u8, 111u8, 97u8, 116u8]
}

/// Matches a token against the keyword `float`.
fn match_kw_float(data: &Vec<u8>, s: usize, e: usize) -> (r: bool)
    requires
        s <= e <= data.len(),
    ensures
        r == token_is_spec(data@, s as int, e as int, kw_float()),
{
    let pat = [102u8, 108u8, 111u8, 97u8, 116u8];
    let r = token_eq(data, s, e, &pat);
    proof {
        assert(pat@ =~= kw_float());
    }
    r
}

/// The bytes of the keyword `float32`.
pub open spec fn kw_float32() -> Seq<u8> {
    seq![102u8, 108u8, 111u8, 97u8, 116u8, 51u8, 50u8]
}

/// Matches a token against the keyword `float32`.
fn match_kw_float32(data: &Vec<u8>, s: usize, e: usize) -> (r: bool)
    requires
        s <= e <= data.len(),
    ensures
        r == token_is_spec(data@, s as int, e as int, kw_float32()),
{
    let pat = [102u8, 108u8, 111u8, 97u8, 116u8, 51u8, 50u8];
    let r = token_eq(data, s, e, &pat);
    proof {
        assert(pat@ =~= kw_float32());
    }
    r
}

/// The bytes of the keyword `double`.
pub open spec fn kw_double() -> Seq<u8> {
    seq![100u8, 111u8, 117u8, 98u8, 108u8, 101u8]
}

/// Matches a token against the keyword `double`.
fn match_kw_double(data: &Vec<u8>, s: usize, e: usize) -> (r: bool)
    requires
        s <= e <= data.len(),
    ensures
        r == token_is_spec(data@, s as int, e as int, kw_double()),
{
    let pat = [100u8, 111u8, 117u8, 98u8, 108u8, 101u8];
    let r = token_eq(data, s, e, &pat);
    proof {
        assert(pat@ =~= kw_double());
    }
    r
}

/// The bytes of the keyword `float64`.
pub open spec fn kw_float64() -> Seq<u8> {
    seq![102u8, 108u8, 111u8, 97u8, 116u8, 54u8, 52u8]
}

/// Matches a token against the keyword `float64`.
fn match_kw_float64(data: &Vec<u8>, s: usize, e: usize) -> (r: bool)
    requires
        s <= e <= data.len(),
    ensures
        r == token_is_spec(data@, s as int, e as int, kw_float64()),
{
    let pat = [102u8, 108u8, 111u8, 97u8, 116u8, 54u8, 52u8];
    let r = token_eq(data, s, e, &pat);
    proof {
        assert(pat@ =~= kw_float64());
    }
    r
}

/// The bytes of the keyword `comment`.
pub open spec fn kw_comment() -> Seq<u8> {
    seq![99u8, 111u8, 109u8, 109u8, 101u8, 110u8, 116u8]
}

/// Matches a token against the keyword `comment`.
fn match_kw_comment(data: &Vec<u8>, s: usize, e: usize) -> (r: bool)
    requires
        s <= e <= data.len(),
    ensures
        r == token_is_spec(data@, s as int, e as int, kw_comment()),
{
    let pat = [99u8, 111u8, 109u8, 109u8, 101u8, 110u8, 116u8];
    let r = token_eq(data, s, e, &pat);
    proof {
        assert(pat@ =~= kw_comment());
    }
    r
}

/// The bytes of the keyword `format`.
pub open spec fn kw_format() -> Seq<u8> {
    seq![102u8, 111u8, 114u8, 109u8, 97u8, 116u8]
}

/// Matches a token against the keyword `format`.
fn match_kw_format(data: &Vec<u8>, s: usize, e: usize) -> (r: bool)
    requires
        s <= e <= data.len(),
    ensures
        r == token_is_spec(data@, s as int, e as int, kw_format()),
{
    let pat = [102u8, 111u8, 114u8, 109u8, 97u8, 116u8];
    let r = token_eq(data, s, e, &pat);
    proof {
        assert(pat@ =~= kw_format());
    }
    r
}

/// The bytes of the keyword `element`.
pub open spec fn kw_element() -> Seq<u8> {
    seq![101u8, 108u8, 101u8, 109u8, 101u8, 110u8, 116u8]
}

/// Matches a token against the keyword `element`.
fn match_kw_element(data: &Vec<u8>, s: usize, e: usize) -> (r: bool)
    requires
        s <= e <= data.len(),
    ensures
        r == token_is_spec(data@, s as int, e as int, kw_element()),
{
    let pat = [101u8, 108u8, 101u8, 109u8, 101u8, 110u8, 116u8];
    let r = token_eq(data, s, e, &pat);
    proof {
        assert(pat@ =~= kw_element());
    }
    r
}

/// The bytes of the keyword `vertex`.
pub open spec fn kw_vertex() -> Seq<u8> {
    seq![118u8, 101u8, 114u8, 116u8, 101u8, 120u8]
}

/// Matches a token against the keyword `vertex`.
fn match_kw_vertex(data: &Vec<u8>, s: usize, e: usize) -> (r: bool)
    requires
        s <= e <= data.len(),
    ensures
        r == token_is_spec(data@, s as int, e as int, kw_vertex()),
{
    let pat = [118u8, 101u8, 114u8, 116u8, 101u8, 120u8];
    let r = token_eq(data, s, e, &pat);
    proof {
        assert(pat@ =~= kw_vertex());
    }
    r
}

/// The bytes of the keyword `property`.
pub open spec fn kw_property() -> Seq<u8> {
    seq![112u8, 114u8, 111u8, 112u8, 101u8, 114u8, 116u8, 121u8]
}

/// Matches a token against the keyword `property`.
fn match_kw_property(data: &Vec<u8>, s: usize, e: usize) -> (r: bool)
    requires
        s <= e <= data.len(),
    ensures
        r == token_is_spec(data@, s as int, e as int, kw_property()),
{
    let pat = [112u8, 114u8, 111u8, 112u8, 101u8, 114u8, 116u8, 121u8];
    let r = token_eq(data, s, e, &pat);
    proof {
        assert(pat@ =~= kw_property());
    }
    r
}

/// The bytes of the keyword `list`.
pub open spec fn kw_list() -> Seq<u8> {
    seq![108u8, 105u8, 115u8, 116u8]
}

/// Matches a token against the keyword `list`.
fn match_kw_list(data: &Vec<u8>, s: usize, e: usize) -> (r: bool)
    requires
        s <= e <= data.len(),
    ensures
        r == token_is_spec(data@, s as int, e as int, kw_list()),
{
    let pat = [108u8, 105u8, 115u8, 116u8];
    let r = token_eq(data, s, e, &pat);
    proof {
        assert(pat@ =~= kw_list());
    }
    r
}

/// The bytes of the keyword `binary_little_endian`.
pub open spec fn kw_binary_little_endian() -> Seq<u8> {
    seq![98u8, 105u8, 110u8, 97u8, 114u8, 121u8, 95u8, 108u8, 105u8, 116u8, 116u8, 108u8, 101u8, 95u8, 101u8, 110u8, 100u8, 105u8, 97u8, 110u8]
}

/// Matches a token against the keyword `binary_little_endian`.
fn match_kw_binary_little_endian(data: &Vec<u8>, s: usize, e: usize) -> (r: bool)
    requires
        s <= e <= data.len(),
    ensures
        r == token_is_spec(data@, s as int, e as int, kw_binary_little_endian()),
{
    let pat = [98u8, 105u8, 110u8, 97u8, 114u8, 121u8, 95u8, 108u8, 105u8, 116u8, 116u8, 108u8, 101u8, 95u8, 101u8, 110u8, 100u8, 105u8, 97u8, 110u8];
    let r = token_eq(data, s, e, &pat);
    proof {
        assert(pat@ =~= kw_binary_little_endian());
    }
    r
}

/// The bytes of the keyword `end_header`.
pub open spec fn kw_end_header() -> Seq<u8> {
    seq![101u8, 110u8, 100u8, 95u8, 104u8, 101u8, 97u8, 100u8, 101u8, 114u8]
}

/// Matches a token against the keyword `end_header`.
fn match_kw_end_header(data: &Vec<u8>, s: usize, e: usize) -> (r: bool)
    requires
        s <= e <= data.len(),
    ensures
        r == token_is_spec(data@, s as int, e as int, kw_end_header()),
{
    let pat = [101u8, 110u8, 100u8, 95u8, 104u8, 101u8, 97u8, 100u8, 101u8, 114u8];
    let r = token_eq(data, s, e, &pat);
    proof {
        assert(pat@ =~= kw_end_header());
    }
    r
}

/// The bytes of the keyword `x`.
pub open spec fn kw_x() -> Seq<u8> {
    seq![120u8]
}

/// Matches a token against the keyword `x`.
fn match_kw_x(data: &Vec<u8>, s: usize, e: usize) -> (r: bool)
    requires
        s <= e <= data.len(),
    ensures
        r == token_is_spec(data@, s as int, e as int, kw_x()),
{
    let pat = [120u8];
    let r = token_eq(data, s, e, &pat);
    proof {
        assert(pat@ =~= kw_x());
    }
    r
}

/// The bytes of the keyword `y`.
pub open spec fn kw_y() -> Seq<u8> {
    seq![121u8]
}

/// Matches a token against the keyword `y`.
fn match_kw_y(data: &Vec<u8>, s: usize, e: usize) -> (r: bool)
    requires
        s <= e <= data.len(),
    ensures
        r == token_is_spec(data@, s as int, e as int, kw_y()),
{
    let pat = [121u8];
    let r = token_eq(data, s, e, &pat);
    proof {
        assert(pat@ =~= kw_y());
    }
    r
}

/// The bytes of the keyword `z`.
pub open spec fn kw_z() -> Seq<u8> {
    seq![122u8]
}

/// Matches a token against the keyword `z`.
fn match_kw_z(data: &Vec<u8>, s: usize, e: usize) -> (r: bool)
    requires
        s <= e <= data.len(),
    ensures
        r == token_is_spec(data@, s as int, e as int, kw_z()),
{
    let pat = [122u8];
    let r = token_eq(data, s, e, &pat);
    proof {
        assert(pat@ =~= kw_z());
    }
    r
}

/// The bytes of the keyword `f_dc_0`.
pub open spec fn kw_f_dc_0() -> Seq<u8> {
    seq![102u8, 95u8, 100u8, 99u8, 95u8, 48u8]
}

/// Matches a token against the keyword `f_dc_0`.
fn match_kw_f_dc_0(data: &Vec<u8>, s: usize, e: usize) -> (r: bool)
    requires
        s <= e <= data.len(),
    ensures
        r == token_is_spec(data@, s as int, e as int, kw_f_dc_0()),
{
    let pat = [102u8, 95u8, 100u8, 99u8, 95u8, 48u8];
    let r = token_eq(data, s, e, &pat);
    proof {
        assert(pat@ =~= kw_f_dc_0());
    }
    r
}

/// The bytes of the keyword `f_dc_1`.
pub open spec fn kw_f_dc_1() -> Seq<u8> {
    seq![102u8, 95u8, 100u8, 99u8, 95u8, 49u8]
}

/// Matches a token against the keyword `f_dc_1`.
fn match_kw_f_dc_1(data: &Vec<u8>, s: usize, e: usize) -> (r: bool)
    requires
        s <= e <= data.len(),
    ensures
        r == token_is_spec(data@, s as int, e as int, kw_f_dc_1()),
{
    let pat = [102u8, 95u8, 100u8, 99u8, 95u8, 49u8];
    let r = token_eq(data, s, e, &pat);
    proof {
        assert(pat@ =~= kw_f_dc_1());
    }
    r
}

/// The bytes of the keyword `f_dc_2`.
pub open spec fn kw_f_dc_2() -> Seq<u8> {
    seq![102u8, 95u8, 100u8, 99u8, 95u8, 50u8]
}

/// Matches a token against the keyword `f_dc_2`.
fn match_kw_f_dc_2(data: &Vec<u8>, s: usize, e: usize) -> (r: bool)
    requires
        s <= e <= data.len(),
    ensures
        r == token_is_spec(data@, s as int, e as int, kw_f_dc_2()),
{
    let pat = [102u8, 95u8, 100u8, 99u8, 95u8, 50u8];
    let r = token_eq(data, s, e, &pat);
    proof {
        assert(pat@ =~= kw_f_dc_2());
    }
    r
}

/// The bytes of the keyword `red`.
pub open spec fn kw_red() -> Seq<u8> {
    seq![114u8, 101u8, 100u8]
}

/// Matches a token against the keyword `red`.
fn match_kw_red(data: &Vec<u8>, s: usize, e: usize) -> (r: bool)
    requires
        s <= e <= data.len(),
    ensures
        r == token_is_spec(data@, s as int, e as int, kw_red()),
{
    let pat = [114u8, 101u8, 100u8];
    let r = token_eq(data, s, e, &pat);
    proof {
        assert(pat@ =~= kw_red());
    }
    r
}

/// The bytes of the keyword `r`.
pub open spec fn kw_r() -> Seq<u8> {
    seq![114u8]
}

/// Matches a token against the keyword `r`.
fn match_kw_r(data: &Vec<u8>, s: usize, e: usize) -> (r: bool)
    requires
        s <= e <= data.len(),
    ensures
        r == token_is_spec(data@, s as int, e as int, kw_r()),
{
    let pat = [114u8];
    let r = token_eq(data, s, e, &pat);
    proof {
        assert(pat@ =~= kw_r());
    }
    r
}

/// The bytes of the keyword `green`.
pub open spec fn kw_green() -> Seq<u8> {
    seq![103u8, 114u8, 101u8, 101u8, 110u8]
}

/// Matches a token against the keyword `green`.
fn match_kw_green(data: &Vec<u8>, s: usize, e: usize) -> (r: bool)
    requires
        s <= e <= data.len(),
    ensures
        r == token_is_spec(data@, s as int, e as int, kw_green()),
{
    let pat = [103u8, 114u8, 101u8, 101u8, 110u8];
    let r = token_eq(data, s, e, &pat);
    proof {
        assert(pat@ =~= kw_green());
    }
    r
}

/// The bytes of the keyword `g`.
pub open spec fn kw_g() -> Seq<u8> {
    seq![103u8]
}

/// Matches a token against the keyword `g`.
fn match_kw_g(data: &Vec<u8>, s: usize, e: usize) -> (r: bool)
    requires
        s <= e <= data.len(),
    ensures
        r == token_is_spec(data@, s as int, e as int, kw_g()),
{
    let pat = [103u8];
    let r = token_eq(data, s, e, &pat);
    proof {
        assert(pat@ =~= kw_g());
    }
    r
}

/// The bytes of the keyword `blue`.
pub open spec fn kw_blue() -> Seq<u8> {
    seq![98u8, 108u8, 117u8, 101u8]
}

/// Matches a token against the keyword `blue`.
fn match_kw_blue(data: &Vec<u8>, s: usize, e: usize) -> (r: bool)
    requires
        s <= e <= data.len(),
    ensures
        r == token_is_spec(data@, s as int, e as int, kw_blue()),
{
    let pat = [98u8, 108u8, 117u8, 101u8];
    let r = token_eq(data, s, e, &pat);
    proof {
        assert(pat@ =~= kw_blue());
    }
    r
}

/// The bytes of the keyword `b`.
pub open spec fn kw_b() -> Seq<u8> {
    seq![98u8]
}

/// Matches a token against the keyword `b`.
fn match_kw_b(data: &Vec<u8>, s: usize, e: usize) -> (r: bool)
    requires
        s <= e <= data.len(),
    ensures
        r == token_is_spec(data@, s as int, e as int, kw_b()),
{
    let pat = [98u8];
    let r = token_eq(data, s, e, &pat);
    proof {
        assert(pat@ =~= kw_b());
    }
    r
}

/// The bytes of the keyword `opacity`.
pub open spec fn kw_opacity() -> Seq<u8> {
    seq![111u8, 112u8, 97u8, 99u8, 105u8, 116u8, 121u8]
}

/// Matches a token against the keyword `opacity`.
fn match_kw_opacity(data: &Vec<u8>, s: usize, e: usize) -> (r: bool)
    requires
        s <= e <= data.len(),
    ensures
        r == token_is_spec(data@, s as int, e as int, kw_opacity()),
{
    let pat = [111u8, 112u8, 97u8, 99u8, 105u8, 116u8, 121u8];
    let r = token_eq(data, s, e, &pat);
    proof {
        assert(pat@ =~= kw_opacity());
    }
    r
}

/// The bytes of the keyword `scale_0`.
pub open spec fn kw_scale_0() -> Seq<u8> {
    seq![115u8, 99u8, 97u8, 108u8, 101u8, 95u8, 48u8]
}

/// Matches a token against the keyword `scale_0`.
fn match_kw_scale_0(data: &Vec<u8>, s: usize, e: usize) -> (r: bool)
    requires
        s <= e <= data.len(),
    ensures
        r == token_is_spec(data@, s as int, e as int, kw_scale_0()),
{
    let pat = [115u8, 99u8, 97u8, 108u8, 101u8, 95u8, 48u8];
    let r = token_eq(data, s, e, &pat);
    proof {
        assert(pat@ =~= kw_scale_0());
    }
    r
}

/// The bytes of the keyword `scale_1`.
pub open spec fn kw_scale_1() -> Seq<u8> {
    seq![115u8, 99u8, 97u8, 108u8, 101u8, 95u8, 49u8]
}

/// Matches a token against the keyword `scale_1`.
fn match_kw_scale_1(data: &Vec<u8>, s: usize, e: usize) -> (r: bool)
    requires
        s <= e <= data.len(),
    ensures
        r == token_is_spec(data@, s as int, e as int, kw_scale_1()),
{
    let pat = [115u8, 99u8, 97u8, 108u8, 101u8, 95u8, 49u8];
    let r = token_eq(data, s, e, &pat);
    proof {
        assert(pat@ =~= kw_scale_1());
    }
    r
}

/// The bytes of the keyword `scale_2`.
pub open spec fn kw_scale_2() -> Seq<u8> {
    seq![115u8, 99u8, 97u8, 108u8, 101u8, 95u8, 50u8]
}

/// Matches a token against the keyword `scale_2`.
fn match_kw_scale_2(data: &Vec<u8>, s: usize, e: usize) -> (r: bool)
    requires
        s <= e <= data.len(),
    ensures
        r == token_is_spec(data@, s as int, e as int, kw_scale_2()),
{
    let pat = [115u8, 99u8, 97u8, 108u8, 101u8, 95u8, 50u8];
    let r = token_eq(data, s, e, &pat);
    proof {
        assert(pat@ =~= kw_scale_2());
    }
    r
}

/// The bytes of the keyword `rot_0`.
pub open spec fn kw_rot_0() -> Seq<u8> {
    seq![114u8, 111u8, 116u8, 95u8, 48u8]
}

/// Matches a token against the keyword `rot_0`.
fn match_kw_rot_0(data: &Vec<u8>, s: usize, e: usize) -> (r: bool)
    requires
        s <= e <= data.len(),
    ensures
        r == token_is_spec(data@, s as int, e as int, kw_rot_0()),
{
    let pat = [114u8, 111u8, 116u8, 95u8, 48u8];
    let r = token_eq(data, s, e, &pat);
    proof {
        assert(pat@ =~= kw_rot_0());
    }
    r
}

/// The bytes of the keyword `rot_1`.
pub open spec fn kw_rot_1() -> Seq<u8> {
    seq![114u8, 111u8, 116u8, 95u8, 49u8]
}

/// Matches a token against the keyword `rot_1`.
fn match_kw_rot_1(data: &Vec<u8>, s: usize, e: usize) -> (r: bool)
    requires
        s <= e <= data.len(),
    ensures
        r == token_is_spec(data@, s as int, e as int, kw_rot_1()),
{
    let pat = [114u8, 111u8, 116u8, 95u8, 49u8];
    let r = token_eq(data, s, e, &pat);
    proof {
        assert(pat@ =~= kw_rot_1());
    }
    r
}

/// The bytes of the keyword `rot_2`.
pub open spec fn kw_rot_2() -> Seq<u8> {
    seq![114u8, 111u8, 116u8, 95u8, 50u8]
}

/// Matches a token against the keyword `rot_2`.
fn match_kw_rot_2(data: &Vec<u8>, s: usize, e: usize) -> (r: bool)
    requires
        s <= e <= data.len(),
    ensures
        r == token_is_spec(data@, s as int, e as int, kw_rot_2()),
{
    let pat = [114u8, 111u8, 116u8, 95u8, 50u8];
    let r = token_eq(data, s, e, &pat);
    proof {
        assert(pat@ =~= kw_rot_2());
    }
    r
}

/// The bytes of the keyword `rot_3`.
pub open spec fn kw_rot_3() -> Seq<u8> {
    seq![114u8, 111u8, 116u8, 95u8, 51u8]
}

/// Matches a token against the keyword `rot_3`.
fn match_kw_rot_3(data: &Vec<u8>, s: usize, e: usize) -> (r: bool)
    requires
        s <= e <= data.len(),
    ensures
        r == token_is_spec(data@, s as int, e as int, kw_rot_3()),
{
    let pat = [114u8, 111u8, 116u8, 95u8, 51u8];
    let r = token_eq(data, s, e, &pat);
    proof {
        assert(pat@ =~= kw_rot_3());
    }
    r
}

/// Whether the bytes `[s, e)` of `data` spell exactly the pattern.
pub open spec fn token_is_spec(data: Seq<u8>, s: int, e: int, pat: Seq<u8>) -> bool {
    e - s == pat.len() && forall|i: int| 0 <= i < pat.len() ==> data[s + i] == pat[i]
}

/// Compares a token of the data against a fixed pattern.
pub fn token_eq<const N: usize>(data: &Vec<u8>, s: usize, e: usize, pat: &[u8; N]) -> (r: bool)
    requires
        s <= e <= data.len(),
    ensures
        r == token_is_spec(data@, s as int, e as int, pat@),
{
    if e - s != N {
        return false;
    }
    let mut i: usize = 0;
    while i < N
        invariant
            i <= N,
            s + N == e,
            e <= data.len(),
            forall|k: int| 0 <= k < i ==> data@[s + k] == pat@[k],
        decreases N - i,
    {
        if data[s + i] != pat[i] {
            return false;
        }
        i = i + 1;
    }
    true
}

/// The scalar type a type token names, if any.
pub open spec fn ply_type_spec(data: Seq<u8>, s: int, e: int) -> Option<PlyType> {
    if token_is_spec(data, s, e, kw_char())
            || token_is_spec(data, s, e, kw_int8()) {
            Some(PlyType::Char)
        } else if token_is_spec(data, s, e, kw_uchar())
            || token_is_spec(data, s, e, kw_uint8()) {
            Some(PlyType::UChar)
        } else if token_is_spec(data, s, e, kw_short())
            || token_is_spec(data, s, e, kw_int16()) {
            Some(PlyType::Short)
        } else if token_is_spec(
            data,
            s,
            e,
            kw_ushort(),
        ) || token_is_spec(data, s, e, kw_uint16()) {
            Some(PlyType::UShort)
        } else if token_is_spec(data, s, e, kw_int())
            || token_is_spec(data, s, e, kw_int32()) {
            Some(PlyType::Int)
        } else if token_is_spec(data, s, e, kw_uint())
            || token_is_spec(data, s, e, kw_uint32()) {
            Some(PlyType::UInt)
        } else if token_is_spec(data, s, e, kw_float())
            || token_is_spec(
            data,
            s,
            e,
            kw_float32(),
        ) {
            Some(PlyType::Float)
        } else if token_is_spec(
            data,
            s,
            e,
            kw_double(),
        ) || token_is_spec(
            data,
            s,
            e,
            kw_float64(),
        ) {
            Some(PlyType::Double)
        } else {
            None
        }
}

impl PlyType {
    /// Parses a type token.
    pub fn parse(data: &Vec<u8>, s: usize, e: usize) -> (r: Option<PlyType>)
        requires
            s <= e <= data.len(),
        ensures
            r == ply_type_spec(data@, s as int, e as int),
    {
        if match_kw_char(data, s, e) || match_kw_int8(data, s, e) {
        Some(PlyType::Char)
        } else if match_kw_uchar(data, s, e) || match_kw_uint8(data, s, e) {
        Some(PlyType::UChar)
        } else if match_kw_short(data, s, e) || match_kw_int16(data, s, e) {
        Some(PlyType::Short)
        } else if match_kw_ushort(data, s, e) || match_kw_uint16(data, s, e) {
        Some(PlyType::UShort)
        } else if match_kw_int(data, s, e) || match_kw_int32(data, s, e) {
        Some(PlyType::Int)
        } else if match_kw_uint(data, s, e) || match_kw_uint32(data, s, e) {
        Some(PlyType::UInt)
        } else if match_kw_float(data, s, e) || match_kw_float32(data, s, e) {
        Some(PlyType::Float)
        } else if match_kw_double(data, s, e) || match_kw_float64(data, s, e) {
            Some(PlyType::Double)
        } else {
            None
        }
        }
}

/// What a property name token stands for.
pub open spec fn prop_role_spec(data: Seq<u8>, s: int, e: int) -> PropRole {
    if token_is_spec(data, s, e, kw_x()) {
        PropRole::X
    } else if token_is_spec(data, s, e, kw_y()) {
        PropRole::Y
    } else if token_is_spec(data, s, e, kw_z()) {
        PropRole::Z
    } else if token_is_spec(data, s, e, kw_f_dc_0()) {
        PropRole::FDc0
    } else if token_is_spec(data, s, e, kw_f_dc_1()) {
        PropRole::FDc1
    } else if token_is_spec(data, s, e, kw_f_dc_2()) {
        PropRole::FDc2
    } else if token_is_spec(data, s, e, kw_red()) || token_is_spec(data, s, e, kw_r()) {
        PropRole::Red
    } else if token_is_spec(data, s, e, kw_green()) || token_is_spec(data, s, e, kw_g()) {
        PropRole::Green
    } else if token_is_spec(data, s, e, kw_blue()) || token_is_spec(data, s, e, kw_b()) {
        PropRole::Blue
    } else if token_is_spec(data, s, e, kw_opacity()) {
        PropRole::Opacity
    } else if token_is_spec(data, s, e, kw_scale_0()) {
        PropRole::Scale0
    } else if token_is_spec(data, s, e, kw_scale_1()) {
        PropRole::Scale1
    } else if token_is_spec(data, s, e, kw_scale_2()) {
        PropRole::Scale2
    } else if token_is_spec(data, s, e, kw_rot_0()) {
        PropRole::Rot0
    } else if token_is_spec(data, s, e, kw_rot_1()) {
        PropRole::Rot1
    } else if token_is_spec(data, s, e, kw_rot_2()) {
        PropRole::Rot2
    } else if token_is_spec(data, s, e, kw_rot_3()) {
        PropRole::Rot3
    } else {
        PropRole::Other
    }
}

/// Judges a property name's role in the splat.
pub fn parse_prop_role(data: &Vec<u8>, s: usize, e: usize) -> (r: PropRole)
    requires
        s <= e <= data.len(),
    ensures
        r == prop_role_spec(data@, s as int, e as int),
{
    if match_kw_x(data, s, e) {
        PropRole::X
    } else if match_kw_y(data, s, e) {
        PropRole::Y
    } else if match_kw_z(data, s, e) {
        PropRole::Z
    } else if match_kw_f_dc_0(data, s, e) {
        PropRole::FDc0
    } else if match_kw_f_dc_1(data, s, e) {
        PropRole::FDc1
    } else if match_kw_f_dc_2(data, s, e) {
        PropRole::FDc2
    } else if match_kw_red(data, s, e) || match_kw_r(data, s, e) {
        PropRole::Red
    } else if match_kw_green(data, s, e) || match_kw_g(data, s, e) {
        PropRole::Green
    } else if match_kw_blue(data, s, e) || match_kw_b(data, s, e) {
        PropRole::Blue
    } else if match_kw_opacity(data, s, e) {
        PropRole::Opacity
    } else if match_kw_scale_0(data, s, e) {
        PropRole::Scale0
    } else if match_kw_scale_1(data, s, e) {
        PropRole::Scale1
    } else if match_kw_scale_2(data, s, e) {
        PropRole::Scale2
    } else if match_kw_rot_0(data, s, e) {
        PropRole::Rot0
    } else if match_kw_rot_1(data, s, e) {
        PropRole::Rot1
    } else if match_kw_rot_2(data, s, e) {
        PropRole::Rot2
    } else if match_kw_rot_3(data, s, e) {
        PropRole::Rot3
    } else {
        PropRole::Other
    }
}

/// Whether the ten bytes at `i` spell the header terminator.
pub open spec fn marker_at_spec(data: Seq<u8>, i: int) -> bool {
    token_is_spec(data, i, i + 10, kw_end_header())
}

/// The first header terminator at or after `i`, or -1 when there is none.
pub open spec fn marker_pos_spec(data: Seq<u8>, i: int) -> int
    decreases data.len() - i,
{
    if i + 10 > data.len() {
        -1
    } else if marker_at_spec(data, i) {
        i
    } else {
        marker_pos_spec(data, i + 1)
    }
}

/// Where the header ends when it has a terminator: just past the newline
/// that follows the first terminator, clipped to the file's end.
pub open spec fn header_end_spec(data: Seq<u8>) -> int {
    let p = marker_pos_spec(data, 0);
    let e = line_end_spec(data, p + 10, data.len() as int);
    if e < data.len() {
        e + 1
    } else {
        e
    }
}

/// Finds where the header ends: just past the newline that follows the
/// first header terminator, clipped to the file's end.
pub fn find_ply_header_end(data: &Vec<u8>) -> (r: Option<usize>)
    requires
        data.len() <= 0x1000_0000,
    ensures
        r is Some <==> exists|i: int| 0 <= i && i + 10 <= data.len() && marker_at_spec(data@, i),
        r is Some ==> r->0 == header_end_spec(data@) && r->0 <= data.len(),
{
    if data.len() < 10 {
        proof {
            assert(forall|i: int|
                0 <= i && i + 10 <= data.len() ==> !marker_at_spec(data@, i));
        }
        return None;
    }
    let n = data.len();
    let mut pos: usize = 0;
    while pos + 10 <= n
        invariant
            n == data.len(),
            n <= 0x1000_0000,
            pos + 10 <= n + 10,
            forall|i: int| 0 <= i < pos ==> !marker_at_spec(data@, i),
            marker_pos_spec(data@, 0) == marker_pos_spec(data@, pos as int),
        decreases n - pos,
    {
        if match_kw_end_header(data, pos, pos + 10) {
            proof {
                assert(marker_at_spec(data@, pos as int));
                assert(marker_pos_spec(data@, 0) == pos);
            }
            let end = find_line_end(data, pos + 10, n);
            if end < n {
                return Some(end + 1);
            }
            return Some(end);
        }
        pos = pos + 1;
    }
    proof {
        assert forall|i: int| 0 <= i && i + 10 <= data.len() implies !marker_at_spec(
            data@,
            i,
        ) by {
            assert(i < pos);
        }
    }
    None
}

/// The value of a decimal digit run, or none when a byte is not a digit.
pub open spec fn digits_val_spec(data: Seq<u8>, s: int, e: int) -> Option<int>
    decreases e - s,
{
    if e <= s {
        Some(0)
    } else if data[e - 1] < 48 || data[e - 1] > 57 {
        None
    } else {
        match digits_val_spec(data, s, e - 1) {
            None => None,
            Some(v) => Some(v * 10 + (data[e - 1] - 48)),
        }
    }
}

/// The vertex count a token names: a run of at most eight digits.
pub open spec fn count_token_spec(data: Seq<u8>, s: int, e: int) -> Option<int> {
    if s == e || e - s > 8 {
        None
    } else {
        digits_val_spec(data, s, e)
    }
}

/// Parses a decimal count token (at most eight digits).
pub fn parse_count_token(data: &Vec<u8>, s: usize, e: usize) -> (r: Option<usize>)
    requires
        s <= e <= data.len(),
    ensures
        r is Some <==> count_token_spec(data@, s as int, e as int) is Some,
        r is Some ==> Some(r->0 as int) == count_token_spec(data@, s as int, e as int) && r->0
            < 0x5F5_E100,
{
    if s == e || e - s > 8 {
        return None;
    }
    let mut v: usize = 0;
    let mut i: usize = s;
    while i < e
        invariant
            s <= i <= e <= data.len(),
            e - s <= 8,
            Some(v as int) == digits_val_spec(data@, s as int, i as int),
            v < pow10_spec(i - s),
            pow10_spec(i - s) <= 0x5F5_E100,
        decreases e - i,
    {
        proof {
            lemma_pow10_bound(i - s + 1);
            assert(pow10_spec(i - s + 1) == 10 * pow10_spec(i - s));
        }
        let c = data[i];
        if c < 48 || c > 57 {
            proof {
                lemma_digits_prefix_none(data@, s as int, i as int + 1, e as int);
            }
            return None;
        }
        v = v * 10 + ((c - 48) as usize);
        i = i + 1;
    }
    Some(v)
}

/// Ten to the power `k`.
pub open spec fn pow10_spec(k: int) -> int
    decreases k,
{
    if k <= 0 {
        1
    } else {
        10 * pow10_spec(k - 1)
    }
}

/// Powers of ten grow with the exponent.
proof fn lemma_pow10_mono(k: int, j: int)
    requires
        0 <= k <= j,
    ensures
        1 <= pow10_spec(k) <= pow10_spec(j),
    decreases j,
{
    if k < j {
        lemma_pow10_mono(k, j - 1);
    } else if k > 0 {
        lemma_pow10_mono(k - 1, k - 1);
    }
}

/// Powers of ten up to the eighth stay within the supported count range.
proof fn lemma_pow10_bound(k: int)
    requires
        0 <= k <= 8,
    ensures
        1 <= pow10_spec(k) <= 0x5F5_E100,
{
    reveal_with_fuel(pow10_spec, 9);
    assert(pow10_spec(8) == 0x5F5_E100);
    lemma_pow10_mono(k, 8);
}

/// A digit run with a bad byte inside has no value.
proof fn lemma_digits_prefix_none(data: Seq<u8>, s: int, m: int, e: int)
    requires
        s < m <= e,
        digits_val_spec(data, s, m) is None,
    ensures
        digits_val_spec(data, s, e) is None,
    decreases e - m,
{
    if m < e {
        lemma_digits_prefix_none(data, s, m + 1, e);
    }
}

/// The first newline at or after `pos`, or the end of the region.
pub open spec fn line_end_spec(data: Seq<u8>, pos: int, end: int) -> int
    decreases end - pos,
{
    if pos >= end {
        end
    } else if data[pos] == 10 {
        pos
    } else {
        line_end_spec(data, pos + 1, end)
    }
}

/// Finds the end of the line starting at `pos`.
fn find_line_end(data: &Vec<u8>, pos: usize, end: usize) -> (r: usize)
    requires
        pos <= end <= data.len(),
    ensures
        r == line_end_spec(data@, pos as int, end as int),
        pos <= r <= end,
        forall|k: int| pos <= k < r ==> data@[k] != 10,
        r < end ==> data@[r as int] == 10,
{
    let mut i = pos;
    while i < end && data[i] != 10
        invariant
            pos <= i <= end <= data.len(),
            forall|k: int| pos <= k < i ==> data@[k] != 10,
            line_end_spec(data@, pos as int, end as int) == line_end_spec(
                data@,
                i as int,
                end as int,
            ),
        decreases end - i,
    {
        i = i + 1;
    }
    i
}

/// The first byte at or after `pos` that is neither a space nor a carriage
/// return, or the end of the region.
pub open spec fn skip_spaces_spec(data: Seq<u8>, pos: int, end: int) -> int
    decreases end - pos,
{
    if pos >= end {
        end
    } else if data[pos] == 32 || data[pos] == 13 {
        skip_spaces_spec(data, pos + 1, end)
    } else {
        pos
    }
}

/// Skips spaces and carriage returns from `pos`.
fn skip_spaces(data: &Vec<u8>, pos: usize, end: usize) -> (r: usize)
    requires
        pos <= end <= data.len(),
    ensures
        r == skip_spaces_spec(data@, pos as int, end as int),
        pos <= r <= end,
{
    let mut i = pos;
    while i < end && (data[i] == 32 || data[i] == 13)
        invariant
            pos <= i <= end <= data.len(),
            skip_spaces_spec(data@, pos as int, end as int) == skip_spaces_spec(
                data@,
                i as int,
                end as int,
            ),
        decreases end - i,
    {
        i = i + 1;
    }
    i
}

/// The first space or carriage return at or after `pos`, or the end of the
/// region.
pub open spec fn token_end_spec(data: Seq<u8>, pos: int, end: int) -> int
    decreases end - pos,
{
    if pos >= end {
        end
    } else if data[pos] != 32 && data[pos] != 13 {
        token_end_spec(data, pos + 1, end)
    } else {
        pos
    }
}

/// Finds the end of the token starting at `pos`.
fn token_end(data: &Vec<u8>, pos: usize, end: usize) -> (r: usize)
    requires
        pos <= end <= data.len(),
    ensures
        r == token_end_spec(data@, pos as int, end as int),
        pos <= r <= end,
{
    let mut i = pos;
    while i < end && data[i] != 32 && data[i] != 13
        invariant
            pos <= i <= end <= data.len(),
            token_end_spec(data@, pos as int, end as int) == token_end_spec(
                data@,
                i as int,
                end as int,
            ),
        decreases end - i,
    {
        i = i + 1;
    }
    i
}

/// One pass over the header lines, carried forward line by line: the
/// format flag, whether the scan stands in the vertex element, the vertex
/// count, and the properties collected so far — or the error that stops it.
pub open spec fn scan_lines_spec(
    data: Seq<u8>,
    pos: int,
    end: int,
    is_le: bool,
    in_vertex: bool,
    vcount: int,
    props: Seq<PlyProperty>,
) -> Result<(bool, bool, int, Seq<PlyProperty>), PlyError>
    decreases end - pos,
    via scan_lines_decreases
{
    if pos >= end {
        Ok((is_le, in_vertex, vcount, props))
    } else {
        let le = line_end_spec(data, pos, end);
        let next = if le < end {
            le + 1
        } else {
            end
        };
        let t0s = skip_spaces_spec(data, pos, le);
        let t0e = token_end_spec(data, t0s, le);
        if token_is_spec(data, t0s, t0e, kw_comment()) {
            scan_lines_spec(data, next, end, is_le, in_vertex, vcount, props)
        } else if token_is_spec(data, t0s, t0e, kw_format()) {
            let t1s = skip_spaces_spec(data, t0e, le);
            let t1e = token_end_spec(data, t1s, le);
            let nle = is_le || token_is_spec(data, t1s, t1e, kw_binary_little_endian());
            scan_lines_spec(data, next, end, nle, in_vertex, vcount, props)
        } else if token_is_spec(data, t0s, t0e, kw_element()) {
            let t1s = skip_spaces_spec(data, t0e, le);
            let t1e = token_end_spec(data, t1s, le);
            if token_is_spec(data, t1s, t1e, kw_vertex()) {
                let t2s = skip_spaces_spec(data, t1e, le);
                let t2e = token_end_spec(data, t2s, le);
                match count_token_spec(data, t2s, t2e) {
                    Some(v) => scan_lines_spec(data, next, end, is_le, true, v, props),
                    None => Err(PlyError::MissingVertexData),
                }
            } else {
                scan_lines_spec(data, next, end, is_le, false, vcount, props)
            }
        } else if token_is_spec(data, t0s, t0e, kw_property()) {
            if in_vertex {
                let t1s = skip_spaces_spec(data, t0e, le);
                let t1e = token_end_spec(data, t1s, le);
                if token_is_spec(data, t1s, t1e, kw_list()) {
                    Err(PlyError::ListPropertyUnsupported)
                } else {
                    match ply_type_spec(data, t1s, t1e) {
                        None => Err(PlyError::UnsupportedPropertyType),
                        Some(kind) => {
                            let t2s = skip_spaces_spec(data, t1e, le);
                            let t2e = token_end_spec(data, t2s, le);
                            let role = prop_role_spec(data, t2s, t2e);
                            if props.len() >= 256 {
                                Err(PlyError::SizeOverflow)
                            } else {
                                scan_lines_spec(
                                    data,
                                    next,
                                    end,
                                    is_le,
                                    true,
                                    vcount,
                                    props.push(PlyProperty { kind, role }),
                                )
                            }
                        },
                    }
                }
            } else {
                scan_lines_spec(data, next, end, is_le, in_vertex, vcount, props)
            }
        } else {
            scan_lines_spec(data, next, end, is_le, in_vertex, vcount, props)
        }
    }
}

/// Line ends stay within the scanned region.
proof fn lemma_line_end_bounds(data: Seq<u8>, pos: int, end: int)
    requires
        pos <= end,
    ensures
        pos <= line_end_spec(data, pos, end) <= end,
    decreases end - pos,
{
    if pos < end && data[pos] != 10 {
        lemma_line_end_bounds(data, pos + 1, end);
    }
}

#[via_fn]
proof fn scan_lines_decreases(
    data: Seq<u8>,
    pos: int,
    end: int,
    is_le: bool,
    in_vertex: bool,
    vcount: int,
    props: Seq<PlyProperty>,
) {
    if pos < end {
        lemma_line_end_bounds(data, pos, end);
    }
}

/// What parsing the whole header yields, given where it ends.
pub open spec fn parse_header_result_spec(data: Seq<u8>, he: int) -> Result<
    (int, int, Seq<PlyProperty>),
    PlyError,
> {
    match scan_lines_spec(data, 0, he, false, false, 0, Seq::empty()) {
        Err(e) => Err(e),
        Ok((is_le, in_vertex, vcount, props)) => {
            if !is_le {
                Err(PlyError::NotBinaryLittleEndian)
            } else if vcount == 0 || props.len() == 0 {
                Err(PlyError::MissingVertexData)
            } else if stride_spec(props) > 0x800 {
                Err(PlyError::SizeOverflow)
            } else if data.len() - he < vcount * stride_spec(props) {
                Err(PlyError::Truncated)
            } else {
                Ok((vcount, stride_spec(props), props))
            }
        },
    }
}

/// Sum of the property sizes, in declaration order.
pub open spec fn stride_spec(props: Seq<PlyProperty>) -> int
    decreases props.len(),
{
    if props.len() == 0 {
        0
    } else {
        stride_spec(props.drop_last()) + (match props.last().kind {
            PlyType::Char | PlyType::UChar => 1int,
            PlyType::Short | PlyType::UShort => 2int,
            PlyType::Int | PlyType::UInt | PlyType::Float => 4int,
            PlyType::Double => 8int,
        })
    }
}

/// Parses the header of a binary little-endian point-cloud file into its
/// vertex layout: where the data starts, how many vertices, and the typed
/// properties in order.  The file must hold the declared vertex data.
pub fn parse_ply_header(data: &Vec<u8>) -> (r: Result<PlyHeader, PlyError>)
    requires
        data.len() <= 0x1000_0000,
    ensures
        r matches Err(PlyError::MissingEndHeader) <==> !(exists|i: int|
            0 <= i && i + 10 <= data.len() && marker_at_spec(data@, i)),
        (exists|i: int| 0 <= i && i + 10 <= data.len() && marker_at_spec(data@, i)) ==> (
        match parse_header_result_spec(data@, header_end_spec(data@)) {
            Err(e) => r == Err::<PlyHeader, PlyError>(e),
            Ok((vcount, stride, props)) => {
                &&& r is Ok
                &&& r->Ok_0.header_end == header_end_spec(data@)
                &&& r->Ok_0.vertex_count == vcount
                &&& r->Ok_0.stride == stride
                &&& r->Ok_0.properties@ == props
            },
        }),
        r is Ok ==> {
            let h = r->Ok_0;
            &&& h.vertex_count >= 1
            &&& h.properties.len() >= 1
            &&& h.header_end <= data.len()
            &&& h.stride == stride_spec(h.properties@)
            &&& h.stride >= 1
            &&& h.header_end + h.vertex_count * h.stride <= data.len()
            &&& h.vertex_count <= 0x5F5_E100
        },
{
    let header_end = match find_ply_header_end(data) {
        Some(e) => e,
        None => {
            return Err(PlyError::MissingEndHeader);
        },
    };
    let mut is_le = false;
    let mut in_vertex = false;
    let mut vertex_count: usize = 0;
    let mut props: Vec<PlyProperty> = Vec::new();
    let mut stride: usize = 0;
    let mut pos: usize = 0;
    while pos < header_end
        invariant
            pos <= header_end <= data.len(),
            header_end == header_end_spec(data@),
            data.len() <= 0x1000_0000,
            stride == stride_spec(props@),
            props.len() >= 1 ==> stride >= 1,
            props.len() <= 256,
            stride <= 8 * props.len(),
            vertex_count <= 0x5F5_E100,
            exists|i: int| 0 <= i && i + 10 <= data.len() && marker_at_spec(data@, i),
            scan_lines_spec(data@, 0, header_end as int, false, false, 0, Seq::empty())
                == scan_lines_spec(
                data@,
                pos as int,
                header_end as int,
                is_le,
                in_vertex,
                vertex_count as int,
                props@,
            ),
        decreases header_end - pos,
    {
        let line_end = find_line_end(data, pos, header_end);
        let t0s = skip_spaces(data, pos, line_end);
        let t0e = token_end(data, t0s, line_end);
        if match_kw_comment(data, t0s, t0e) {
        } else if match_kw_format(data, t0s, t0e) {
            let t1s = skip_spaces(data, t0e, line_end);
            let t1e = token_end(data, t1s, line_end);
            if match_kw_binary_little_endian(data, t1s, t1e) {
                is_le = true;
            }
        } else if match_kw_element(data, t0s, t0e) {
            let t1s = skip_spaces(data, t0e, line_end);
            let t1e = token_end(data, t1s, line_end);
            if match_kw_vertex(data, t1s, t1e) {
                in_vertex = true;
                let t2s = skip_spaces(data, t1e, line_end);
                let t2e = token_end(data, t2s, line_end);
                match parse_count_token(data, t2s, t2e) {
                    Some(v) => {
                        vertex_count = v;
                    },
                    None => {
                        return Err(PlyError::MissingVertexData);
                    },
                }
            } else {
                in_vertex = false;
            }
        } else if match_kw_property(data, t0s, t0e) {
            if in_vertex {
                let t1s = skip_spaces(data, t0e, line_end);
                let t1e = token_end(data, t1s, line_end);
                if match_kw_list(data, t1s, t1e) {
                    return Err(PlyError::ListPropertyUnsupported);
                }
                let kind = match PlyType::parse(data, t1s, t1e) {
                    Some(k) => k,
                    None => {
                        return Err(PlyError::UnsupportedPropertyType);
                    },
                };
                let t2s = skip_spaces(data, t1e, line_end);
                let t2e = token_end(data, t2s, line_end);
                let role = parse_prop_role(data, t2s, t2e);
                if props.len() >= 256 {
                    return Err(PlyError::SizeOverflow);
                }
                let ghost pre_props = props@;
                props.push(PlyProperty { kind, role });
                proof {
                    assert(props@.drop_last() =~= pre_props);
                }
                stride = stride + kind.size();
            }
        }
        pos = if line_end < header_end {
            line_end + 1
        } else {
            header_end
        };
    }
    if !is_le {
        return Err(PlyError::NotBinaryLittleEndian);
    }
    if vertex_count == 0 || props.len() == 0 {
        return Err(PlyError::MissingVertexData);
    }
    proof {
        assert(vertex_count * stride <= 0x5F5_E100 * (0x800int)) by (nonlinear_arith)
            requires
                vertex_count <= 0x5F5_E100,
                stride <= 0x800,
        ;
    }
    if stride > 0x800 {
        return Err(PlyError::SizeOverflow);
    }
    proof {
        assert((vertex_count as int) * (stride as int) <= 0x5F5_E100 * 0x800)
            by (nonlinear_arith)
            requires
                vertex_count <= 0x5F5_E100,
                stride <= 0x800,
        ;
    }
    let vertex_bytes = (vertex_count as u64) * (stride as u64);
    if ((data.len() - header_end) as u64) < vertex_bytes {
        return Err(PlyError::Truncated);
    }
    Ok(PlyHeader { header_end, vertex_count, stride, properties: props })
}

/// The raw little-endian bits of one scalar, widened to 64 bits.
pub open spec fn scalar_bits_spec(data: Seq<u8>, off: int, size: int) -> int
    decreases size,
{
    if size <= 0 {
        0
    } else {
        scalar_bits_spec(data, off, size - 1) + data[off + size - 1] * pow256_spec(size - 1)
    }
}

/// 256 to the power `k`.
pub open spec fn pow256_spec(k: int) -> int
    decreases k,
{
    if k <= 0 {
        1
    } else {
        256 * pow256_spec(k - 1)
    }
}

/// Reads the raw little-endian bits of one property value.
pub fn read_scalar_bits(data: &Vec<u8>, off: usize, kind: PlyType) -> (r: u64)
    requires
        off + 8 <= usize::MAX,
        (match kind {
            PlyType::Char | PlyType::UChar => off + 1,
            PlyType::Short | PlyType::UShort => off + 2,
            PlyType::Int | PlyType::UInt | PlyType::Float => off + 4,
            PlyType::Double => off + 8,
        }) <= data.len(),
    ensures
        r == scalar_bits_spec(data@, off as int, match kind {
            PlyType::Char | PlyType::UChar => 1int,
            PlyType::Short | PlyType::UShort => 2int,
            PlyType::Int | PlyType::UInt | PlyType::Float => 4int,
            PlyType::Double => 8int,
        }),
{
    let size = kind.size();
    let mut i: usize = 0;
    let mut mult: u64 = 1;
    let mut acc: u64 = 0;
    while i < size
        invariant
            i <= size <= 8,
            off + size <= data.len(),
            acc == scalar_bits_spec(data@, off as int, i as int),
            i < size ==> mult == pow256_spec(i as int),
            acc < pow256_spec(i as int),
        decreases size - i,
    {
        proof {
            lemma_pow256_bound(i as int);
            lemma_pow256_bound(i as int + 1);
            assert(pow256_spec(i as int + 1) == 256 * pow256_spec(i as int));
            assert(acc + (data@[off + i] as int) * pow256_spec(i as int) < pow256_spec(
                i as int + 1,
            )) by (nonlinear_arith)
                requires
                    acc < pow256_spec(i as int),
                    0 <= data@[off + i] < 256,
                    pow256_spec(i as int + 1) == 256 * pow256_spec(i as int),
                    pow256_spec(i as int) >= 1,
            ;
        }
        acc = acc + (data[off + i] as u64) * mult;
        if i + 1 < size {
            proof {
                lemma_pow256_bound(i as int + 1);
            }
            mult = mult * 256;
        }
        i = i + 1;
    }
    acc
}

/// Powers of 256 grow with the exponent.
proof fn lemma_pow256_mono(k: int, j: int)
    requires
        0 <= k <= j,
    ensures
        1 <= pow256_spec(k) <= pow256_spec(j),
    decreases j,
{
    if k < j {
        lemma_pow256_mono(k, j - 1);
    } else if k > 0 {
        lemma_pow256_mono(k - 1, k - 1);
    }
}

/// Powers of 256 up to the eighth stay within 64 bits.
proof fn lemma_pow256_bound(k: int)
    requires
        0 <= k <= 8,
    ensures
        pow256_spec(k) <= 0x1_0000_0000_0000_0000,
        pow256_spec(k) >= 1,
        k <= 7 ==> pow256_spec(k) <= 0x100_0000_0000_0000,
{
    reveal_with_fuel(pow256_spec, 9);
    assert(pow256_spec(8) == 0x1_0000_0000_0000_0000);
    assert(pow256_spec(7) == 0x100_0000_0000_0000);
    lemma_pow256_mono(k, 8);
    if k <= 7 {
        lemma_pow256_mono(k, 7);
    }
}

} // verus!
