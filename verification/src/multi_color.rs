//! The compact multi-variant color codec: a static color, a tinting list,
//! or a gradient list, with the variant tag and the color count packed
//! into one header byte, plus hex-string parsing and a base64 text form.

use vstd::prelude::*;

verus! {

use vstd::string::{StrSliceExecFns, StringExecFns};

use crate::bytes::{ByteReader, ByteReadError, ByteWriter};

/// One 24-bit color.
#[derive(Clone, Copy, PartialEq, Eq, Structural, PartialOrd, Ord, Hash, Debug, Default)]
pub struct RGBColor {
    pub r: u8,
    pub g: u8,
    pub b: u8,
}

/// The character for one hex digit value, lower case.
pub open spec fn spec_hex_digit_char(v: u8) -> char {
    if v == 0 {
        '0'
    } else if v == 1 {
        '1'
    } else if v == 2 {
        '2'
    } else if v == 3 {
        '3'
    } else if v == 4 {
        '4'
    } else if v == 5 {
        '5'
    } else if v == 6 {
        '6'
    } else if v == 7 {
        '7'
    } else if v == 8 {
        '8'
    } else if v == 9 {
        '9'
    } else if v == 10 {
        'a'
    } else if v == 11 {
        'b'
    } else if v == 12 {
        'c'
    } else if v == 13 {
        'd'
    } else if v == 14 {
        'e'
    } else {
        'f'
    }
}

/// Whether a character is a hex digit, upper or lower case.
pub open spec fn spec_is_hex_digit(c: char) -> bool {
    ('0' <= c && c <= '9') || ('a' <= c && c <= 'f') || ('A' <= c && c <= 'F')
}

/// The value of a hex digit character.
pub open spec fn spec_hex_val(c: char) -> u8
    recommends
        spec_is_hex_digit(c),
{
    if '0' <= c && c <= '9' {
        (c as u8 - '0' as u8) as u8
    } else if 'a' <= c && c <= 'f' {
        (c as u8 - 'a' as u8 + 10) as u8
    } else {
        (c as u8 - 'A' as u8 + 10) as u8
    }
}

/// The six hex digits of a color, lower case.
pub open spec fn spec_color_hex_chars(c: RGBColor) -> Seq<char> {
    seq![
        spec_hex_digit_char(c.r / 16),
        spec_hex_digit_char(c.r % 16),
        spec_hex_digit_char(c.g / 16),
        spec_hex_digit_char(c.g % 16),
        spec_hex_digit_char(c.b / 16),
        spec_hex_digit_char(c.b % 16),
    ]
}

/// Parses a color from six hex digits, after an optional `#` prefix.
pub open spec fn spec_parse_hex_color(s: Seq<char>) -> Option<RGBColor> {
    let t = if s.len() > 0 && s[0] == '#' {
        s.drop_first()
    } else {
        s
    };
    if t.len() == 6 && spec_is_hex_digit(t[0]) && spec_is_hex_digit(t[1]) && spec_is_hex_digit(
        t[2],
    ) && spec_is_hex_digit(t[3]) && spec_is_hex_digit(t[4]) && spec_is_hex_digit(t[5]) {
        Some(
            RGBColor {
                r: (spec_hex_val(t[0]) * 16 + spec_hex_val(t[1])) as u8,
                g: (spec_hex_val(t[2]) * 16 + spec_hex_val(t[3])) as u8,
                b: (spec_hex_val(t[4]) * 16 + spec_hex_val(t[5])) as u8,
            },
        )
    } else {
        None
    }
}

/// Appends one hex digit character.
fn push_hex_digit(out: &mut String, v: u8)
    requires
        v < 16,
    ensures
        final(out)@ == old(out)@ + seq![spec_hex_digit_char(v)],
{
    proof {
        reveal_strlit("0");
        reveal_strlit("1");
        reveal_strlit("2");
        reveal_strlit("3");
        reveal_strlit("4");
        reveal_strlit("5");
        reveal_strlit("6");
        reveal_strlit("7");
        reveal_strlit("8");
        reveal_strlit("9");
        reveal_strlit("a");
        reveal_strlit("b");
        reveal_strlit("c");
        reveal_strlit("d");
        reveal_strlit("e");
        reveal_strlit("f");
    }
    let d: &str = if v == 0 {
        "0"
    } else if v == 1 {
        "1"
    } else if v == 2 {
        "2"
    } else if v == 3 {
        "3"
    } else if v == 4 {
        "4"
    } else if v == 5 {
        "5"
    } else if v == 6 {
        "6"
    } else if v == 7 {
        "7"
    } else if v == 8 {
        "8"
    } else if v == 9 {
        "9"
    } else if v == 10 {
        "a"
    } else if v == 11 {
        "b"
    } else if v == 12 {
        "c"
    } else if v == 13 {
        "d"
    } else if v == 14 {
        "e"
    } else {
        "f"
    };
    out.append(d);
    assert(final(out)@ =~= old(out)@ + seq![spec_hex_digit_char(v)]);
}

/// The value of one hex digit character, if it is one.
pub(crate) fn hex_val_char(c: char) -> (r: Option<u8>)
    ensures
        r is Some <==> spec_is_hex_digit(c),
        r matches Some(v) ==> v == spec_hex_val(c) && v < 16,
{
    if '0' <= c && c <= '9' {
        Some(c as u8 - '0' as u8)
    } else if 'a' <= c && c <= 'f' {
        Some(c as u8 - 'a' as u8 + 10)
    } else if 'A' <= c && c <= 'F' {
        Some(c as u8 - 'A' as u8 + 10)
    } else {
        None
    }
}

impl RGBColor {
    pub fn new(r: u8, g: u8, b: u8) -> (c: RGBColor)
        ensures
            c == (RGBColor { r, g, b }),
    {
        RGBColor { r, g, b }
    }

    /// Writes the color's three bytes.
    pub fn encode(&self, writer: &mut ByteWriter)
        ensures
            final(writer)@ == old(writer)@ + seq![self.r, self.g, self.b],
    {
        writer.write_u8(self.r);
        writer.write_u8(self.g);
        writer.write_u8(self.b);
        assert(final(writer)@ =~= old(writer)@ + seq![self.r, self.g, self.b]);
    }

    /// The color's six lower-case hex digits, with an optional `#` prefix.
    pub fn to_hex_string(self, hash: bool) -> (r: String)
        ensures
            r@ == (if hash {
                seq!['#']
            } else {
                Seq::<char>::empty()
            }) + spec_color_hex_chars(self),
    {
        let mut out = String::new();
        if hash {
            proof {
                reveal_strlit("#");
            }
            out.append("#");
        }
        push_hex_digit(&mut out, self.r / 16);
        push_hex_digit(&mut out, self.r % 16);
        push_hex_digit(&mut out, self.g / 16);
        push_hex_digit(&mut out, self.g % 16);
        push_hex_digit(&mut out, self.b / 16);
        push_hex_digit(&mut out, self.b % 16);
        assert(out@ =~= (if hash {
            seq!['#']
        } else {
            Seq::<char>::empty()
        }) + spec_color_hex_chars(self));
        out
    }

    /// Parses a color from six hex digits, after an optional `#` prefix.
    pub fn from_hex_string(s: &str) -> (r: Option<RGBColor>)
        ensures
            r == spec_parse_hex_color(s@),
    {
        let n = s.unicode_len();
        let stripped: &str = if n > 0 && s.get_char(0) == '#' {
            s.substring_char(1, n)
        } else {
            s
        };
        proof {
            if s@.len() > 0 && s@[0] == '#' {
                assert(stripped@ =~= s@.drop_first());
            }
        }
        let m = stripped.unicode_len();
        if m != 6 {
            return None;
        }
        let v0 = match hex_val_char(stripped.get_char(0)) {
            Some(v) => v,
            None => {
                return None;
            },
        };
        let v1 = match hex_val_char(stripped.get_char(1)) {
            Some(v) => v,
            None => {
                return None;
            },
        };
        let v2 = match hex_val_char(stripped.get_char(2)) {
            Some(v) => v,
            None => {
                return None;
            },
        };
        let v3 = match hex_val_char(stripped.get_char(3)) {
            Some(v) => v,
            None => {
                return None;
            },
        };
        let v4 = match hex_val_char(stripped.get_char(4)) {
            Some(v) => v,
            None => {
                return None;
            },
        };
        let v5 = match hex_val_char(stripped.get_char(5)) {
            Some(v) => v,
            None => {
                return None;
            },
        };
        Some(RGBColor { r: v0 * 16 + v1, g: v2 * 16 + v3, b: v4 * 16 + v5 })
    }
}

/// Hex digits round-trip: formatting a color and parsing the digits back
/// recovers it, with or without the `#` prefix.
pub proof fn lemma_hex_color_round_trip(c: RGBColor, hash: bool)
    ensures
        spec_parse_hex_color(
            (if hash {
                seq!['#']
            } else {
                Seq::<char>::empty()
            }) + spec_color_hex_chars(c),
        ) == Some(c),
{
    let s = (if hash {
        seq!['#']
    } else {
        Seq::<char>::empty()
    }) + spec_color_hex_chars(c);
    let t = if s.len() > 0 && s[0] == '#' {
        s.drop_first()
    } else {
        s
    };
    if hash {
        assert(t =~= spec_color_hex_chars(c));
    } else {
        assert(t =~= spec_color_hex_chars(c));
    }
    assert forall|v: u8| v < 16 implies spec_is_hex_digit(#[trigger] spec_hex_digit_char(v))
        && spec_hex_val(spec_hex_digit_char(v)) == v by {
    }
    assert(spec_hex_val(t[0]) == c.r / 16 && spec_hex_val(t[1]) == c.r % 16);
    assert(c.r / 16 * 16 + c.r % 16 == c.r) by (nonlinear_arith);
    assert(c.g / 16 * 16 + c.g % 16 == c.g) by (nonlinear_arith);
    assert(c.b / 16 * 16 + c.b % 16 == c.b) by (nonlinear_arith);
}

/// The list of colors a message can carry.
pub type ColorVec = Vec<RGBColor>;

/// Up to 63 colors, in one of three variations: static, tinting, or
/// gradient. Encodes to a byte writer and back.
#[derive(Clone, Debug, PartialEq)]
pub enum MultiColor {
    Static(RGBColor),
    Tinting(ColorVec),
    Gradient(ColorVec),
}

/// What a multi-color says, with its lists as sequences.
pub enum MultiColorView {
    Static(RGBColor),
    Tinting(Seq<RGBColor>),
    Gradient(Seq<RGBColor>),
}

impl View for MultiColor {
    type V = MultiColorView;

    open spec fn view(&self) -> MultiColorView {
        match self {
            MultiColor::Static(c) => MultiColorView::Static(*c),
            MultiColor::Tinting(v) => MultiColorView::Tinting(v@),
            MultiColor::Gradient(v) => MultiColorView::Gradient(v@),
        }
    }
}

impl MultiColorView {
    /// A color list fits the six count bits of the header byte.
    pub open spec fn wf(&self) -> bool {
        match self {
            MultiColorView::Static(_) => true,
            MultiColorView::Tinting(v) => v.len() < 64,
            MultiColorView::Gradient(v) => v.len() < 64,
        }
    }
}

impl Default for MultiColor {
    fn default() -> (r: MultiColor)
        ensures
            r@ == MultiColorView::Static(RGBColor { r: 255, g: 255, b: 255 }),
    {
        MultiColor::Static(RGBColor::new(255, 255, 255))
    }
}

/// Why decoding a multi-color failed.
#[derive(Clone, Copy, PartialEq, Eq, Structural, Debug)]
pub enum MultiColorDecodeError {
    /// The bytes end before the encoded colors do.
    Decode(ByteReadError),
    /// The header's type bits name no variation.
    InvalidType,
    /// The text form is not valid base64, or decodes to more bytes than
    /// the decode buffer holds.
    Base64,
}

/// Why parsing a multi-color from a human-readable string failed.
#[derive(Clone, PartialEq, Eq, Debug)]
pub enum MultiColorParseError {
    /// A segment is not a valid hex color; it is carried here.
    InvalidHex(String),
    /// More colors than a multi-color can carry.
    TooManyColors(usize),
}

/// The bytes of a color list: three bytes per color, in order.
pub open spec fn spec_colors_bytes(v: Seq<RGBColor>) -> Seq<u8>
    decreases v.len(),
{
    if v.len() == 0 {
        Seq::empty()
    } else {
        seq![v[0].r, v[0].g, v[0].b] + spec_colors_bytes(v.drop_first())
    }
}

/// Reads `count` colors from the front of `b`.
pub open spec fn spec_colors_from(b: Seq<u8>, count: int) -> Seq<RGBColor>
    decreases count,
{
    if count <= 0 {
        Seq::empty()
    } else {
        seq![RGBColor { r: b[0], g: b[1], b: b[2] }] + spec_colors_from(b.skip(3), count - 1)
    }
}

/// The encoded form of a multi-color: a header byte holding the variation
/// tag in its top two bits and the color count in the low six, then three
/// bytes per color.
pub open spec fn spec_mc_encode(m: MultiColorView) -> Seq<u8>
    recommends
        m.wf(),
{
    match m {
        MultiColorView::Static(c) => seq![0x40u8, c.r, c.g, c.b],
        MultiColorView::Tinting(v) => seq![(0x80 + v.len()) as u8] + spec_colors_bytes(v),
        MultiColorView::Gradient(v) => seq![(0xC0 + v.len()) as u8] + spec_colors_bytes(v),
    }
}

/// Decodes a multi-color from the front of `b`: the value and the number
/// of consumed bytes, or the first error met. A header whose type bits are
/// zero is invalid; the count bits of a static color are ignored.
pub open spec fn spec_mc_decode(b: Seq<u8>) -> Result<
    (MultiColorView, int),
    MultiColorDecodeError,
> {
    if b.len() < 1 {
        Err(MultiColorDecodeError::Decode(ByteReadError::OutOfBounds))
    } else {
        let header = b[0];
        let count = (header & 0x3f) as int;
        if header >> 6 == 0 {
            Err(MultiColorDecodeError::InvalidType)
        } else if header >> 6 == 1 {
            if b.len() < 4 {
                Err(MultiColorDecodeError::Decode(ByteReadError::OutOfBounds))
            } else {
                Ok((MultiColorView::Static(RGBColor { r: b[1], g: b[2], b: b[3] }), 4))
            }
        } else {
            if b.len() < 1 + 3 * count {
                Err(MultiColorDecodeError::Decode(ByteReadError::OutOfBounds))
            } else {
                let colors = spec_colors_from(b.skip(1), count);
                if header >> 6 == 2 {
                    Ok((MultiColorView::Tinting(colors), 1 + 3 * count))
                } else {
                    Ok((MultiColorView::Gradient(colors), 1 + 3 * count))
                }
            }
        }
    }
}

/// Whether an executable decode result matches the specified one, up to
/// the view of the decoded value.
pub open spec fn spec_decode_result_matches(
    r: Result<MultiColor, MultiColorDecodeError>,
    s: Result<(MultiColorView, int), MultiColorDecodeError>,
) -> bool {
    match r {
        Ok(mc) => s matches Ok((v, c)) && v == mc@,
        Err(e) => s matches Err(e2) && e2 == e,
    }
}

/// A color list's bytes grow three at a time.
proof fn lemma_colors_bytes_push(v: Seq<RGBColor>, c: RGBColor)
    ensures
        spec_colors_bytes(v.push(c)) == spec_colors_bytes(v) + seq![c.r, c.g, c.b],
        spec_colors_bytes(v).len() == 3 * v.len(),
    decreases v.len(),
{
    if v.len() == 0 {
        assert(v.push(c)[0] == c);
        assert(v.push(c).drop_first() =~= Seq::<RGBColor>::empty());
        assert(spec_colors_bytes(Seq::<RGBColor>::empty()) =~= Seq::<u8>::empty());
        assert(spec_colors_bytes(v.push(c)) =~= seq![c.r, c.g, c.b]);
        assert(spec_colors_bytes(v) + seq![c.r, c.g, c.b] =~= seq![c.r, c.g, c.b]);
    } else {
        lemma_colors_bytes_push(v.drop_first(), c);
        assert(v.push(c).drop_first() =~= v.drop_first().push(c));
        assert(v.push(c)[0] == v[0]);
        assert(seq![v[0].r, v[0].g, v[0].b] + (spec_colors_bytes(v.drop_first()) + seq![
            c.r,
            c.g,
            c.b,
        ]) =~= (seq![v[0].r, v[0].g, v[0].b] + spec_colors_bytes(v.drop_first())) + seq![
            c.r,
            c.g,
            c.b,
        ]);
    }
}

/// The length of a color list's bytes.
pub proof fn lemma_colors_bytes_len(v: Seq<RGBColor>)
    ensures
        spec_colors_bytes(v).len() == 3 * v.len(),
    decreases v.len(),
{
    if v.len() > 0 {
        lemma_colors_bytes_len(v.drop_first());
    }
}

/// A read color list has exactly the asked-for number of colors.
proof fn lemma_colors_from_len(b: Seq<u8>, count: int)
    requires
        count >= 0,
    ensures
        spec_colors_from(b, count).len() == count,
    decreases count,
{
    if count > 0 {
        lemma_colors_from_len(b.skip(3), count - 1);
    }
}

/// Reading a color list back from its own bytes recovers it, whatever
/// follows.
proof fn lemma_colors_round_trip(v: Seq<RGBColor>, rest: Seq<u8>)
    ensures
        spec_colors_from(spec_colors_bytes(v) + rest, v.len() as int) == v,
    decreases v.len(),
{
    if v.len() == 0 {
        assert(spec_colors_from(spec_colors_bytes(v) + rest, 0) =~= v);
    } else {
        let b = spec_colors_bytes(v) + rest;
        lemma_colors_round_trip(v.drop_first(), rest);
        assert(b.skip(3) =~= spec_colors_bytes(v.drop_first()) + rest);
        assert(b[0] == v[0].r && b[1] == v[0].g && b[2] == v[0].b);
        assert(seq![RGBColor { r: b[0], g: b[1], b: b[2] }] + v.drop_first() =~= v);
    }
}

/// Round-trip: decoding the encoded form of any well-formed multi-color
/// recovers it, field for field, consuming exactly its own bytes,
/// whatever trails them.
pub proof fn lemma_multi_color_round_trip(m: MultiColorView, rest: Seq<u8>)
    requires
        m.wf(),
    ensures
        spec_mc_decode(spec_mc_encode(m) + rest) == Ok::<
            (MultiColorView, int),
            MultiColorDecodeError,
        >((m, spec_mc_encode(m).len() as int)),
{
    let b = spec_mc_encode(m) + rest;
    match m {
        MultiColorView::Static(c) => {
            assert(0x40u8 >> 6 == 1) by (bit_vector);
            assert(b[0] == 0x40u8 && b[1] == c.r && b[2] == c.g && b[3] == c.b);
        },
        MultiColorView::Tinting(v) => {
            let n = v.len() as u8;
            let header = (0x80 + v.len()) as u8;
            assert(header == (0x80 + n) as u8);
            assert((0x80 + n) as u8 >> 6 == 2 && ((0x80 + n) as u8) & 0x3f == n) by (bit_vector)
                requires
                    n < 64,
            ;
            lemma_colors_bytes_len(v);
            lemma_colors_round_trip(v, rest);
            assert(b.skip(1) =~= spec_colors_bytes(v) + rest);
        },
        MultiColorView::Gradient(v) => {
            let n = v.len() as u8;
            let header = (0xC0 + v.len()) as u8;
            assert(header == (0xC0 + n) as u8);
            assert((0xC0 + n) as u8 >> 6 == 3 && ((0xC0 + n) as u8) & 0x3f == n) by (bit_vector)
                requires
                    n < 64,
            ;
            lemma_colors_bytes_len(v);
            lemma_colors_round_trip(v, rest);
            assert(b.skip(1) =~= spec_colors_bytes(v) + rest);
        },
    }
}

impl MultiColor {
    /// Reads one color: three bytes.
    fn read_rgb(reader: &mut ByteReader) -> (r: Result<RGBColor, MultiColorDecodeError>)
        requires
            old(reader).wf(),
        ensures
            final(reader).wf(),
            final(reader).spec_data() == old(reader).spec_data(),
            r is Ok <==> old(reader).remaining().len() >= 3,
            r matches Ok(c) ==> c == (RGBColor {
                r: old(reader).remaining()[0],
                g: old(reader).remaining()[1],
                b: old(reader).remaining()[2],
            }) && final(reader).spec_pos() == old(reader).spec_pos() + 3,
            r is Err ==> r == Err::<RGBColor, MultiColorDecodeError>(
                MultiColorDecodeError::Decode(ByteReadError::OutOfBounds),
            ),
    {
        let bytes = match reader.read_bytes(3) {
            Ok(s) => s,
            Err(e) => {
                return Err(MultiColorDecodeError::Decode(e));
            },
        };
        let r = *vstd::slice::slice_index_get(bytes, 0);
        let g = *vstd::slice::slice_index_get(bytes, 1);
        let b = *vstd::slice::slice_index_get(bytes, 2);
        Ok(RGBColor { r, g, b })
    }

    /// Reads `count` colors.
    fn read_multi(reader: &mut ByteReader, count: usize) -> (r: Result<
        ColorVec,
        MultiColorDecodeError,
    >)
        requires
            old(reader).wf(),
            count * 3 <= usize::MAX,
        ensures
            final(reader).wf(),
            final(reader).spec_data() == old(reader).spec_data(),
            r is Ok <==> old(reader).remaining().len() >= 3 * count,
            r matches Ok(v) ==> v@ == spec_colors_from(old(reader).remaining(), count as int)
                && final(reader).spec_pos() == old(reader).spec_pos() + 3 * count,
            r is Err ==> r == Err::<ColorVec, MultiColorDecodeError>(
                MultiColorDecodeError::Decode(ByteReadError::OutOfBounds),
            ),
    {
        let ghost rem0 = old(reader).remaining();
        let mut out: ColorVec = Vec::new();
        let mut i: usize = 0;
        while i < count
            invariant
                i <= count,
                count * 3 <= usize::MAX,
                reader.wf(),
                reader.spec_data() == old(reader).spec_data(),
                out@.len() == i,
                reader.spec_pos() == old(reader).spec_pos() + 3 * i,
                rem0 == old(reader).remaining(),
                spec_colors_from(rem0, count as int) == out@ + spec_colors_from(
                    reader.remaining(),
                    (count - i) as int,
                ),
                rem0.len() >= 3 * i,
                reader.remaining() =~= rem0.skip(3 * i),
            decreases count - i,
        {
            let ghost rem = reader.remaining();
            let c = match Self::read_rgb(reader) {
                Ok(c) => c,
                Err(e) => {
                    return Err(e);
                },
            };
            proof {
                assert(reader.remaining() =~= rem.skip(3));
                assert(seq![RGBColor { r: rem[0], g: rem[1], b: rem[2] }] + spec_colors_from(
                    rem.skip(3),
                    (count - i - 1) as int,
                ) == spec_colors_from(rem, (count - i) as int));
                assert((out@ + seq![c]) + spec_colors_from(rem.skip(3), (count - i - 1) as int)
                    =~= out@ + (seq![c] + spec_colors_from(rem.skip(3), (count - i - 1) as int)));
                assert(rem.skip(3) =~= rem0.skip(3 * (i + 1)));
            }
            out.push(c);
            i = i + 1;
        }
        proof {
            assert(spec_colors_from(reader.remaining(), 0) =~= Seq::<RGBColor>::empty());
            assert(out@ + Seq::<RGBColor>::empty() =~= out@);
        }
        Ok(out)
    }

    /// Decodes a multi-color from the cursor.
    pub fn decode(reader: &mut ByteReader) -> (r: Result<MultiColor, MultiColorDecodeError>)
        requires
            old(reader).wf(),
        ensures
            final(reader).wf(),
            final(reader).spec_data() == old(reader).spec_data(),
            spec_decode_result_matches(r, spec_mc_decode(old(reader).remaining())),
            r matches Ok(mc) ==> mc@.wf() && (spec_mc_decode(old(reader).remaining()) matches Ok(
                (v, c),
            ) && final(reader).spec_pos() == old(reader).spec_pos() + c),
    {
        let ghost rem0 = old(reader).remaining();
        let header = match reader.read_u8() {
            Ok(b) => b,
            Err(e) => {
                return Err(MultiColorDecodeError::Decode(e));
            },
        };
        proof {
            assert(reader.remaining() =~= rem0.drop_first());
        }
        let ghost rem1 = reader.remaining();
        let count = (header & 0x3f) as usize;
        assert(count < 64) by (bit_vector)
            requires
                count == (header & 0x3f) as usize,
        ;
        let kind = header >> 6;
        if kind == 0 {
            Err(MultiColorDecodeError::InvalidType)
        } else if kind == 1 {
            match Self::read_rgb(reader) {
                Ok(c) => Ok(MultiColor::Static(c)),
                Err(e) => Err(e),
            }
        } else if kind == 2 {
            proof {
                lemma_colors_from_len(rem1, count as int);
            }
            match Self::read_multi(reader, count) {
                Ok(v) => Ok(MultiColor::Tinting(v)),
                Err(e) => Err(e),
            }
        } else {
            assert(header >> 6 == 3) by (bit_vector)
                requires
                    !(header >> 6 == 0 || header >> 6 == 1 || header >> 6 == 2),
            ;
            proof {
                lemma_colors_from_len(rem1, count as int);
            }
            match Self::read_multi(reader, count) {
                Ok(v) => Ok(MultiColor::Gradient(v)),
                Err(e) => Err(e),
            }
        }
    }

    /// Writes the encoded form of this multi-color.
    pub fn encode(&self, writer: &mut ByteWriter)
        requires
            self@.wf(),
        ensures
            final(writer)@ == old(writer)@ + spec_mc_encode(self@),
    {
        match self {
            MultiColor::Static(c) => {
                writer.write_u8(0x40);
                c.encode(writer);
                assert(final(writer)@ =~= old(writer)@ + spec_mc_encode(self@));
            },
            MultiColor::Tinting(v) => {
                let header = 0x80 + (v.len() as u8);
                writer.write_u8(header);
                Self::encode_colors(v, writer);
                assert(final(writer)@ =~= old(writer)@ + spec_mc_encode(self@));
            },
            MultiColor::Gradient(v) => {
                let header = 0xC0 + (v.len() as u8);
                writer.write_u8(header);
                Self::encode_colors(v, writer);
                assert(final(writer)@ =~= old(writer)@ + spec_mc_encode(self@));
            },
        }
    }

    /// Writes a color list, three bytes per color.
    fn encode_colors(v: &ColorVec, writer: &mut ByteWriter)
        ensures
            final(writer)@ == old(writer)@ + spec_colors_bytes(v@),
    {
        let n = v.len();
        let mut i: usize = 0;
        proof {
            assert(v@.take(0) =~= Seq::<RGBColor>::empty());
        }
        while i < n
            invariant
                i <= n,
                n == v@.len(),
                writer@ == old(writer)@ + spec_colors_bytes(v@.take(i as int)),
            decreases n - i,
        {
            let c = *vstd::slice::slice_index_get(v.as_slice(), i);
            c.encode(writer);
            proof {
                lemma_colors_bytes_push(v@.take(i as int), v@[i as int]);
                assert(v@.take(i + 1) =~= v@.take(i as int).push(v@[i as int]));
                assert(old(writer)@ + (spec_colors_bytes(v@.take(i as int)) + seq![
                    c.r,
                    c.g,
                    c.b,
                ]) =~= (old(writer)@ + spec_colors_bytes(v@.take(i as int))) + seq![c.r, c.g, c.b]);
            }
            i = i + 1;
        }
        proof {
            assert(v@.take(n as int) =~= v@);
        }
    }

    /// The exact length of this multi-color's encoded form.
    pub fn encoded_len(&self) -> (n: usize)
        requires
            self@.wf(),
        ensures
            n == spec_mc_encode(self@).len(),
    {
        match self {
            MultiColor::Static(_) => 4,
            MultiColor::Tinting(v) => {
                proof {
                    lemma_colors_bytes_len(v@);
                }
                1 + v.len() * 3
            },
            MultiColor::Gradient(v) => {
                proof {
                    lemma_colors_bytes_len(v@);
                }
                1 + v.len() * 3
            },
        }
    }
}

/// The standard-alphabet, unpadded base64 text of a byte sequence.
pub uninterp spec fn b64_std_of(b: Seq<u8>) -> Seq<char>;

/// Relies on base64's `STANDARD_NO_PAD` engine: `encode` returns the
/// standard-alphabet unpadded encoding of the input bytes, a function of
/// the bytes alone, four characters for every three bytes.
#[verifier::external_body]
fn b64_std_encode(data: &[u8]) -> (r: String)
    ensures
        r@ == b64_std_of(data@),
        r@.len() == (data@.len() * 4 + 2) / 3,
{
    base64::Engine::encode(&base64::engine::general_purpose::STANDARD_NO_PAD, data)
}

/// Relies on base64's `STANDARD_NO_PAD` engine: `decode` rejects padding
/// and nonzero trailing bits, so it accepts exactly the encodings that
/// `encode` produces, and inverts them.
#[verifier::external_body]
fn b64_std_decode(s: &str) -> (r: Result<Vec<u8>, ()>)
    ensures
        r matches Ok(d) ==> b64_std_of(d@) == s@,
        r matches Ok(v) ==> forall|d: Seq<u8>| #[trigger] b64_std_of(d) == s@ ==> v@ == d,
        r is Err ==> forall|d: Seq<u8>| #[trigger] b64_std_of(d) != s@,
{
    match base64::Engine::decode(&base64::engine::general_purpose::STANDARD_NO_PAD, s) {
        Ok(v) => Ok(v),
        Err(_) => Err(()),
    }
}

/// The byte capacity of the multi-color text form's decode buffer.
pub const MC_DECODE_BUFFER: usize = 256;

/// The index of the first occurrence of `sep`, if any.
pub open spec fn spec_find(s: Seq<char>, sep: char) -> Option<int>
    decreases s.len(),
{
    if s.len() == 0 {
        None
    } else if s[0] == sep {
        Some(0)
    } else {
        match spec_find(s.drop_first(), sep) {
            Some(i) => Some(i + 1),
            None => None,
        }
    }
}

/// What `spec_find` finds: the first occurrence, or nothing anywhere.
pub proof fn lemma_find_characterization(s: Seq<char>, sep: char)
    ensures
        match spec_find(s, sep) {
            Some(i) => 0 <= i < s.len() && s[i] == sep && forall|j: int| 0 <= j < i ==> s[j] != sep,
            None => forall|j: int| 0 <= j < s.len() ==> s[j] != sep,
        },
    decreases s.len(),
{
    if s.len() > 0 && s[0] != sep {
        lemma_find_characterization(s.drop_first(), sep);
        match spec_find(s.drop_first(), sep) {
            Some(i) => {
                assert forall|j: int| 0 <= j < i + 1 implies s[j] != sep by {
                    if j > 0 {
                        assert(s.drop_first()[j - 1] == s[j]);
                    }
                }
            },
            None => {
                assert forall|j: int| 0 <= j < s.len() implies s[j] != sep by {
                    if j > 0 {
                        assert(s.drop_first()[j - 1] == s[j]);
                    }
                }
            },
        }
    }
}

/// Whether a character counts as trimmable whitespace: a space, tab, or
/// line break.
pub open spec fn spec_is_space(c: char) -> bool {
    c == ' ' || c == '\t' || c == '\n' || c == '\r'
}

/// A sequence without its leading whitespace.
pub open spec fn spec_trim_start(s: Seq<char>) -> Seq<char>
    decreases s.len(),
{
    if s.len() > 0 && spec_is_space(s[0]) {
        spec_trim_start(s.drop_first())
    } else {
        s
    }
}

/// A sequence without its trailing whitespace.
pub open spec fn spec_trim_end(s: Seq<char>) -> Seq<char>
    decreases s.len(),
{
    if s.len() > 0 && spec_is_space(s[s.len() - 1]) {
        spec_trim_end(s.drop_last())
    } else {
        s
    }
}

/// A sequence without its leading and trailing whitespace.
pub open spec fn spec_trim(s: Seq<char>) -> Seq<char> {
    spec_trim_end(spec_trim_start(s))
}

/// Parses a separated list of hex colors: each segment is trimmed and must
/// parse; the first offending segment is returned otherwise.
pub open spec fn spec_parse_separated(s: Seq<char>, sep: char) -> Result<Seq<RGBColor>, Seq<char>>
    decreases s.len(),
{
    match spec_find(s, sep) {
        None => match spec_parse_hex_color(spec_trim(s)) {
            Some(c) => Ok(seq![c]),
            None => Err(spec_trim(s)),
        },
        Some(i) => {
            if !(0 <= i < s.len()) {
                Err(s)
            } else {
                match spec_parse_hex_color(spec_trim(s.take(i))) {
                    None => Err(spec_trim(s.take(i))),
                    Some(c) => match spec_parse_separated(s.skip(i + 1), sep) {
                        Ok(v) => Ok(seq![c] + v),
                        Err(e) => Err(e),
                    },
                }
            }
        },
    }
}

/// Parses a human-readable multi-color string: segments separated by `>`
/// make a tinting list, by `|` a gradient list, and a bare hex color a
/// static color. The error carries the offending segment.
pub open spec fn spec_parse_human(s: Seq<char>) -> Result<MultiColorView, Seq<char>> {
    if spec_find(s, '>') is Some {
        match spec_parse_separated(s, '>') {
            Ok(v) => Ok(MultiColorView::Tinting(v)),
            Err(e) => Err(e),
        }
    } else if spec_find(s, '|') is Some {
        match spec_parse_separated(s, '|') {
            Ok(v) => Ok(MultiColorView::Gradient(v)),
            Err(e) => Err(e),
        }
    } else {
        match spec_parse_hex_color(s) {
            Some(c) => Ok(MultiColorView::Static(c)),
            None => Err(s),
        }
    }
}

/// The index of the first occurrence of `sep` in `s`, if any.
pub(crate) fn find_char(s: &str, sep: char) -> (r: Option<usize>)
    ensures
        match r {
            Some(i) => spec_find(s@, sep) == Some(i as int),
            None => spec_find(s@, sep) is None,
        },
{
    proof {
        lemma_find_characterization(s@, sep);
    }
    let n = s.unicode_len();
    let mut i: usize = 0;
    while i < n
        invariant
            i <= n,
            n == s@.len(),
            forall|j: int| 0 <= j < i ==> s@[j] != sep,
        decreases n - i,
    {
        if s.get_char(i) == sep {
            proof {
                lemma_find_characterization(s@, sep);
                match spec_find(s@, sep) {
                    Some(k) => {
                        assert(!(k < i) && !(i < k));
                    },
                    None => {
                        assert(s@[i as int] != sep);
                    },
                }
            }
            return Some(i);
        }
        i = i + 1;
    }
    proof {
        lemma_find_characterization(s@, sep);
        match spec_find(s@, sep) {
            Some(k) => {
                assert(s@[k] != sep);
            },
            None => {},
        }
    }
    None
}

/// Whether a character counts as trimmable whitespace.
fn is_space_char(c: char) -> (r: bool)
    ensures
        r == spec_is_space(c),
{
    c == ' ' || c == '\t' || c == '\n' || c == '\r'
}

/// `s` without its leading and trailing whitespace.
fn trim_chars<'a>(s: &'a str) -> (r: &'a str)
    ensures
        r@ == spec_trim(s@),
{
    let n = s.unicode_len();
    let mut start: usize = 0;
    proof {
        assert(s@.skip(0) =~= s@);
    }
    while start < n && is_space_char(s.get_char(start))
        invariant
            start <= n,
            n == s@.len(),
            spec_trim_start(s@) == spec_trim_start(s@.skip(start as int)),
        decreases n - start,
    {
        proof {
            assert(s@.skip(start as int).drop_first() =~= s@.skip(start + 1));
        }
        start = start + 1;
    }
    proof {
        assert(spec_trim_start(s@.skip(start as int)) == s@.skip(start as int));
    }
    let mut end: usize = n;
    proof {
        assert(s@.skip(start as int) =~= s@.subrange(start as int, n as int));
    }
    while end > start && is_space_char(s.get_char(end - 1))
        invariant
            start <= end <= n,
            n == s@.len(),
            spec_trim_start(s@) == s@.skip(start as int),
            spec_trim_end(s@.skip(start as int)) == spec_trim_end(
                s@.subrange(start as int, end as int),
            ),
        decreases end,
    {
        proof {
            assert(s@.subrange(start as int, end as int).drop_last() =~= s@.subrange(
                start as int,
                end - 1,
            ));
            assert(s@.subrange(start as int, end as int).len() > 0);
        }
        end = end - 1;
    }
    proof {
        let t = s@.subrange(start as int, end as int);
        if t.len() > 0 {
            assert(t[t.len() - 1] == s@[end - 1]);
        }
        assert(spec_trim_end(t) == t);
        assert(s@.skip(start as int) =~= s@.subrange(start as int, n as int));
    }
    s.substring_char(start, end)
}

impl MultiColor {
    /// Decodes a multi-color from its base64 text form: the decoded bytes
    /// must fit the fixed decode buffer.
    pub fn decode_from_string(s: &str) -> (r: Result<MultiColor, MultiColorDecodeError>)
        ensures
            r matches Ok(mc) ==> mc@.wf() && exists|d: Seq<u8>|
                #[trigger] b64_std_of(d) == s@ && d.len() <= MC_DECODE_BUFFER && (spec_mc_decode(d)
                    matches Ok((v, c)) && v == mc@),
            forall|d: Seq<u8>|
                #[trigger] b64_std_of(d) == s@ && d.len() <= MC_DECODE_BUFFER
                    ==> spec_decode_result_matches(r, spec_mc_decode(d)),
            forall|d: Seq<u8>|
                #[trigger] b64_std_of(d) == s@ && d.len() > MC_DECODE_BUFFER ==> r == Err::<
                    MultiColor,
                    MultiColorDecodeError,
                >(MultiColorDecodeError::Base64),
            (forall|d: Seq<u8>| #[trigger] b64_std_of(d) != s@) ==> r == Err::<
                MultiColor,
                MultiColorDecodeError,
            >(MultiColorDecodeError::Base64),
    {
        let bytes = match b64_std_decode(s) {
            Ok(v) => v,
            Err(_) => {
                return Err(MultiColorDecodeError::Base64);
            },
        };
        if bytes.len() > MC_DECODE_BUFFER {
            return Err(MultiColorDecodeError::Base64);
        }
        let mut reader = ByteReader::new(bytes.as_slice());
        proof {
            assert(reader.remaining() =~= bytes@);
        }
        Self::decode(&mut reader)
    }

    /// Encodes this multi-color to its base64 text form.
    pub fn encode_to_string(&self) -> (r: String)
        requires
            self@.wf(),
        ensures
            r@ == b64_std_of(spec_mc_encode(self@)),
    {
        let mut w = ByteWriter::new();
        self.encode(&mut w);
        proof {
            assert(w@ =~= spec_mc_encode(self@));
        }
        b64_std_encode(w.written())
    }

    /// Parses a multi-color from a human-readable string.
    pub fn parse_from_human_str(s: &str) -> (r: Result<MultiColor, MultiColorParseError>)
        ensures
            match r {
                Ok(mc) => spec_parse_human(s@) matches Ok(v) && v == mc@,
                Err(MultiColorParseError::InvalidHex(t)) => spec_parse_human(s@) matches Err(seg)
                    && t@ == seg,
                Err(MultiColorParseError::TooManyColors(_)) => false,
            },
    {
        if find_char(s, '>').is_some() {
            match Self::parse_separated_color_str(s, '>') {
                Ok(v) => Ok(MultiColor::Tinting(v)),
                Err(e) => Err(e),
            }
        } else if find_char(s, '|').is_some() {
            match Self::parse_separated_color_str(s, '|') {
                Ok(v) => Ok(MultiColor::Gradient(v)),
                Err(e) => Err(e),
            }
        } else {
            match RGBColor::from_hex_string(s) {
                Some(c) => Ok(MultiColor::Static(c)),
                None => Err(MultiColorParseError::InvalidHex(String::from_str(s))),
            }
        }
    }

    /// Parses a list of hex colors separated by `sep`, trimming each
    /// segment.
    fn parse_separated_color_str(s: &str, sep: char) -> (r: Result<ColorVec, MultiColorParseError>)
        ensures
            match r {
                Ok(v) => spec_parse_separated(s@, sep) matches Ok(cs) && cs == v@,
                Err(MultiColorParseError::InvalidHex(t)) => spec_parse_separated(s@, sep) matches
                    Err(seg) && t@ == seg,
                Err(MultiColorParseError::TooManyColors(_)) => false,
            },
        decreases s@.len(),
    {
        let n = s.unicode_len();
        match find_char(s, sep) {
            None => {
                let seg = trim_chars(s);
                match RGBColor::from_hex_string(seg) {
                    Some(c) => {
                        let mut v: ColorVec = Vec::new();
                        v.push(c);
                        assert(v@ =~= seq![c]);
                        Ok(v)
                    },
                    None => Err(MultiColorParseError::InvalidHex(String::from_str(seg))),
                }
            },
            Some(i) => {
                proof {
                    lemma_find_characterization(s@, sep);
                }
                let head = s.substring_char(0, i);
                proof {
                    assert(head@ =~= s@.take(i as int));
                }
                let seg = trim_chars(head);
                let c = match RGBColor::from_hex_string(seg) {
                    Some(c) => c,
                    None => {
                        return Err(MultiColorParseError::InvalidHex(String::from_str(seg)));
                    },
                };
                let tail = s.substring_char(i + 1, n);
                proof {
                    assert(tail@ =~= s@.skip(i + 1));
                }
                match Self::parse_separated_color_str(tail, sep) {
                    Ok(rest) => {
                        let mut v: ColorVec = Vec::new();
                        v.push(c);
                        let mut rest = rest;
                        v.append(&mut rest);
                        assert(v@ =~= seq![c] + (match spec_parse_separated(s@.skip(i + 1), sep) {
                            Ok(cs) => cs,
                            Err(_) => Seq::<RGBColor>::empty(),
                        }));
                        Ok(v)
                    },
                    Err(e) => Err(e),
                }
            },
        }
    }
}


} // verus!
