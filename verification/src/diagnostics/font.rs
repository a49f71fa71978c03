//! Elecbyte FNT v1 bitmap fonts: a header pointing at an 8-bit RLE PCX glyph
//! atlas and an INI-like text section with the glyph metrics and the
//! character map, turned into a padded RGBA alpha atlas.

use crate::text::{lines, push_str, spec_decimal, u32_to_decimal, u64_to_decimal, spec_is_whitespace, spec_lines, spec_split_whitespace, split_whitespace, str_chars, string_from_chars};
use vstd::arithmetic::power::pow;
use vstd::arithmetic::power2::{lemma_pow2_pos, lemma_pow2_unfold, pow2};
use vstd::prelude::*;
use vstd::slice::{slice_subrange, slice_to_vec};

verus! {

/// The two sections an FNT v1 header points at.
#[derive(Clone, Copy, Debug, PartialEq, Eq, Structural)]
pub enum FntSection {
    Pcx,
    Text,
}

/// Why an FNT v1 font was refused.
#[derive(Clone, Debug, PartialEq, Eq)]
pub enum FontError {
    /// Fewer than 32 bytes.
    HeaderTooShort,
    /// The signature is not `ElecbyteFnt`.
    BadSignature,
    /// A section's offset plus size overflows.
    SectionOverflow(FntSection),
    /// A section reaches past the end of the file.
    SectionOutOfBounds(FntSection),
    /// The PCX section is shorter than its 128-byte header.
    PcxTooShort,
    /// The PCX image is not an 8-bit RLE image.
    PcxNotRle8,
    /// The PCX bounds are inverted.
    PcxBoundsInverted,
    /// The decoded PCX size overflows.
    PcxSizeOverflow,
    /// An RLE run byte ends the PCX data.
    PcxRunMissingValue,
    /// The RLE data decodes to fewer bytes than the image needs.
    PcxTruncated { decoded: usize, required: u32 },
    /// A `[Def]` pair value has no comma.
    ExpectedPair(String),
    /// A `[Def]` pair holds something other than a 32-bit integer.
    InvalidPairValue(String),
    /// A `[Map]` glyph x offset is not a 32-bit unsigned integer.
    InvalidGlyphX(String),
    /// A `[Map]` glyph width is not a 32-bit unsigned integer.
    InvalidGlyphWidth(String),
    /// The `[Def]` section gives no `Size`.
    MissingSize,
    /// A glyph dimension is zero.
    ZeroGlyphMetrics,
    /// The atlas is shorter than a glyph.
    ImageTooShort { image_height: u32, glyph_height: u32 },
    /// A glyph reaches past the padded atlas.
    GlyphOutsideTexture { character: char, x: u32, width: u32, texture_width: u32 },
}

/// A font error with its text payloads as character sequences.
pub enum FontFault {
    HeaderTooShort,
    BadSignature,
    SectionOverflow(FntSection),
    SectionOutOfBounds(FntSection),
    PcxTooShort,
    PcxNotRle8,
    PcxBoundsInverted,
    PcxSizeOverflow,
    PcxRunMissingValue,
    PcxTruncated { decoded: usize, required: u32 },
    ExpectedPair(Seq<char>),
    InvalidPairValue(Seq<char>),
    InvalidGlyphX(Seq<char>),
    InvalidGlyphWidth(Seq<char>),
    MissingSize,
    ZeroGlyphMetrics,
    ImageTooShort { image_height: u32, glyph_height: u32 },
    GlyphOutsideTexture { character: char, x: u32, width: u32, texture_width: u32 },
}

impl View for FontError {
    type V = FontFault;

    open spec fn view(&self) -> FontFault {
        match self {
            FontError::HeaderTooShort => FontFault::HeaderTooShort,
            FontError::BadSignature => FontFault::BadSignature,
            FontError::SectionOverflow(s) => FontFault::SectionOverflow(*s),
            FontError::SectionOutOfBounds(s) => FontFault::SectionOutOfBounds(*s),
            FontError::PcxTooShort => FontFault::PcxTooShort,
            FontError::PcxNotRle8 => FontFault::PcxNotRle8,
            FontError::PcxBoundsInverted => FontFault::PcxBoundsInverted,
            FontError::PcxSizeOverflow => FontFault::PcxSizeOverflow,
            FontError::PcxRunMissingValue => FontFault::PcxRunMissingValue,
            FontError::PcxTruncated { decoded, required } => FontFault::PcxTruncated {
                decoded: *decoded,
                required: *required,
            },
            FontError::ExpectedPair(s) => FontFault::ExpectedPair(s@),
            FontError::InvalidPairValue(s) => FontFault::InvalidPairValue(s@),
            FontError::InvalidGlyphX(s) => FontFault::InvalidGlyphX(s@),
            FontError::InvalidGlyphWidth(s) => FontFault::InvalidGlyphWidth(s@),
            FontError::MissingSize => FontFault::MissingSize,
            FontError::ZeroGlyphMetrics => FontFault::ZeroGlyphMetrics,
            FontError::ImageTooShort { image_height, glyph_height } => FontFault::ImageTooShort {
                image_height: *image_height,
                glyph_height: *glyph_height,
            },
            FontError::GlyphOutsideTexture { character, x, width, texture_width } =>
                FontFault::GlyphOutsideTexture {
                character: *character,
                x: *x,
                width: *width,
                texture_width: *texture_width,
            },
        }
    }
}

/// What `format!("{:?}", text)` makes of a string: std's `Debug` form of
/// `str`.
pub uninterp spec fn spec_str_debug(text: Seq<char>) -> Seq<char>;

/// What `format!("{:?}", c)` makes of a character: std's `Debug` form of
/// `char`.
pub uninterp spec fn spec_char_debug(c: char) -> Seq<char>;

/// Formats `text` with std's `Debug` for `str` (quoted, with escapes); the
/// result is a function of the characters, named and not spelled out.
#[verifier::external_body]
fn str_debug(text: &str) -> (quoted: String)
    ensures
        quoted@ == spec_str_debug(text@),
{
    format!("{text:?}")
}

/// Formats `c` with std's `Debug` for `char` (quoted, with escapes); the
/// result is a function of the character, named and not spelled out.
#[verifier::external_body]
fn char_debug(c: char) -> (quoted: String)
    ensures
        quoted@ == spec_char_debug(c),
{
    format!("{c:?}")
}

/// The name of a section in messages.
pub open spec fn spec_section_label(section: FntSection) -> Seq<char> {
    match section {
        FntSection::Pcx => "PCX section"@,
        FntSection::Text => "text section"@,
    }
}

/// The message a font error is reported with. The end of a glyph's range is
/// `x + width` computed without overflow.
pub open spec fn spec_font_error_message(error: FontFault) -> Seq<char> {
    match error {
        FontFault::HeaderTooShort => "FNT v1 file is too short for its header"@,
        FontFault::BadSignature => "FNT v1 signature is not ElecbyteFnt"@,
        FontFault::SectionOverflow(section) => spec_section_label(section) + " offset/size overflowed"@,
        FontFault::SectionOutOfBounds(section) => spec_section_label(section)
            + " points outside the FNT file"@,
        FontFault::PcxTooShort => "PCX data is too short"@,
        FontFault::PcxNotRle8 => "diagnostic font PCX is not 8-bit RLE PCX"@,
        FontFault::PcxBoundsInverted => "PCX bounds are inverted"@,
        FontFault::PcxSizeOverflow => "PCX decoded size overflowed"@,
        FontFault::PcxRunMissingValue => "PCX RLE run is missing its value byte"@,
        FontFault::PcxTruncated { decoded, required } => "PCX decoded "@ + spec_decimal(
            decoded as nat,
        ) + " bytes, expected at least "@ + spec_decimal(required as nat),
        FontFault::ExpectedPair(value) => "expected comma-separated pair, got "@ + spec_str_debug(
            value,
        ),
        FontFault::InvalidPairValue(value) => "invalid pair value: "@ + spec_str_debug(value),
        FontFault::InvalidGlyphX(value) => "invalid FNT glyph x offset: "@ + value,
        FontFault::InvalidGlyphWidth(value) => "invalid FNT glyph width: "@ + value,
        FontFault::MissingSize => "FNT [Def] Size width is missing"@,
        FontFault::ZeroGlyphMetrics => "diagnostic font has zero-sized glyph metrics"@,
        FontFault::ImageTooShort { image_height, glyph_height } => "diagnostic font PCX height "@
            + spec_decimal(image_height as nat) + " is smaller than glyph height "@ + spec_decimal(
            glyph_height as nat,
        ),
        FontFault::GlyphOutsideTexture { character, x, width, texture_width } =>
            "diagnostic font glyph "@ + spec_char_debug(character) + " range "@ + spec_decimal(
            x as nat,
        ) + ".."@ + spec_decimal((x + width) as nat) + " exceeds padded texture width "@
            + spec_decimal(texture_width as nat),
    }
}

fn section_label(section: FntSection) -> (label: &'static str)
    ensures
        label@ == spec_section_label(section),
{
    match section {
        FntSection::Pcx => "PCX section",
        FntSection::Text => "text section",
    }
}

impl FontError {
    /// The message this error is reported with.
    pub fn message(&self) -> (text: String)
        ensures
            text@ == spec_font_error_message(self@),
    {
        match self {
            FontError::HeaderTooShort => "FNT v1 file is too short for its header".to_owned(),
            FontError::BadSignature => "FNT v1 signature is not ElecbyteFnt".to_owned(),
            FontError::SectionOverflow(section) => {
                let mut text = section_label(*section).to_owned();
                push_str(&mut text, " offset/size overflowed");
                text
            },
            FontError::SectionOutOfBounds(section) => {
                let mut text = section_label(*section).to_owned();
                push_str(&mut text, " points outside the FNT file");
                text
            },
            FontError::PcxTooShort => "PCX data is too short".to_owned(),
            FontError::PcxNotRle8 => "diagnostic font PCX is not 8-bit RLE PCX".to_owned(),
            FontError::PcxBoundsInverted => "PCX bounds are inverted".to_owned(),
            FontError::PcxSizeOverflow => "PCX decoded size overflowed".to_owned(),
            FontError::PcxRunMissingValue => "PCX RLE run is missing its value byte".to_owned(),
            FontError::PcxTruncated { decoded, required } => {
                let mut text = "PCX decoded ".to_owned();
                push_str(&mut text, u64_to_decimal(*decoded as u64).as_str());
                push_str(&mut text, " bytes, expected at least ");
                push_str(&mut text, u32_to_decimal(*required).as_str());
                text
            },
            FontError::ExpectedPair(value) => {
                let mut text = "expected comma-separated pair, got ".to_owned();
                push_str(&mut text, str_debug(value.as_str()).as_str());
                text
            },
            FontError::InvalidPairValue(value) => {
                let mut text = "invalid pair value: ".to_owned();
                push_str(&mut text, str_debug(value.as_str()).as_str());
                text
            },
            FontError::InvalidGlyphX(value) => {
                let mut text = "invalid FNT glyph x offset: ".to_owned();
                push_str(&mut text, value.as_str());
                text
            },
            FontError::InvalidGlyphWidth(value) => {
                let mut text = "invalid FNT glyph width: ".to_owned();
                push_str(&mut text, value.as_str());
                text
            },
            FontError::MissingSize => "FNT [Def] Size width is missing".to_owned(),
            FontError::ZeroGlyphMetrics => "diagnostic font has zero-sized glyph metrics".to_owned(),
            FontError::ImageTooShort { image_height, glyph_height } => {
                let mut text = "diagnostic font PCX height ".to_owned();
                push_str(&mut text, u32_to_decimal(*image_height).as_str());
                push_str(&mut text, " is smaller than glyph height ");
                push_str(&mut text, u32_to_decimal(*glyph_height).as_str());
                text
            },
            FontError::GlyphOutsideTexture { character, x, width, texture_width } => {
                let mut text = "diagnostic font glyph ".to_owned();
                push_str(&mut text, char_debug(*character).as_str());
                push_str(&mut text, " range ");
                push_str(&mut text, u32_to_decimal(*x).as_str());
                push_str(&mut text, "..");
                push_str(&mut text, u64_to_decimal(*x as u64 + *width as u64).as_str());
                push_str(&mut text, " exceeds padded texture width ");
                push_str(&mut text, u32_to_decimal(*texture_width).as_str());
                text
            },
        }
    }
}

/// The view of a result whose error is a font error.
pub open spec fn spec_result_view<T>(result: Result<T, FontError>) -> Result<T, FontFault> {
    match result {
        Ok(value) => Ok(value),
        Err(e) => Err(e@),
    }
}

// ---------------------------------------------------------------------------
// Header

/// The little-endian 32-bit value at `offset`.
pub open spec fn spec_u32_le(bytes: Seq<u8>, offset: int) -> u32 {
    (bytes[offset] + 0x100 * bytes[offset + 1] + 0x1_0000 * bytes[offset + 2] + 0x100_0000
        * bytes[offset + 3]) as u32
}

/// The little-endian 16-bit value at `offset`.
pub open spec fn spec_u16_le(bytes: Seq<u8>, offset: int) -> u16 {
    (bytes[offset] + 0x100 * bytes[offset + 1]) as u16
}

fn read_u32_le(bytes: &[u8], offset: usize) -> (value: u32)
    requires
        offset + 4 <= bytes@.len(),
    ensures
        value == spec_u32_le(bytes@, offset as int),
{
    bytes[offset] as u32 + 0x100 * (bytes[offset + 1] as u32) + 0x1_0000 * (bytes[offset + 2] as u32)
        + 0x100_0000 * (bytes[offset + 3] as u32)
}

fn read_u16_le(bytes: &[u8], offset: usize) -> (value: u16)
    requires
        offset + 2 <= bytes@.len(),
    ensures
        value == spec_u16_le(bytes@, offset as int),
{
    bytes[offset] as u16 + 0x100 * (bytes[offset + 1] as u16)
}

/// The signature bytes `ElecbyteFnt`.
pub open spec fn spec_fnt_signature() -> Seq<u8> {
    seq![0x45u8, 0x6c, 0x65, 0x63, 0x62, 0x79, 0x74, 0x65, 0x46, 0x6e, 0x74]
}

/// Where an FNT v1 file keeps its PCX atlas and its text section.
#[derive(Clone, Copy, Debug, PartialEq, Eq, Structural)]
pub struct FntV1Header {
    pub pcx_offset: usize,
    pub pcx_size: usize,
    pub text_offset: usize,
    pub text_size: usize,
}

/// The header of an FNT v1 file: at least 32 bytes, the NUL-terminated
/// signature `ElecbyteFnt` in the first 12, and four little-endian 32-bit
/// words from byte 16: PCX offset and size, text offset and size.
pub open spec fn spec_fnt_header(bytes: Seq<u8>) -> Result<FntV1Header, FontFault> {
    if bytes.len() < 32 {
        Err(FontFault::HeaderTooShort)
    } else if bytes.subrange(0, 11) != spec_fnt_signature() || bytes[11] != 0 {
        Err(FontFault::BadSignature)
    } else {
        Ok(
            FntV1Header {
                pcx_offset: spec_u32_le(bytes, 16) as usize,
                pcx_size: spec_u32_le(bytes, 20) as usize,
                text_offset: spec_u32_le(bytes, 24) as usize,
                text_size: spec_u32_le(bytes, 28) as usize,
            },
        )
    }
}

impl FntV1Header {
    /// Reads the header of an FNT v1 file.
    pub fn parse(bytes: &[u8]) -> (header: Result<Self, FontError>)
        ensures
            spec_result_view(header) == spec_fnt_header(bytes@),
    {
        if bytes.len() < 32 {
            return Err(FontError::HeaderTooShort);
        }
        let signature: [u8; 11] = [0x45u8, 0x6c, 0x65, 0x63, 0x62, 0x79, 0x74, 0x65, 0x46, 0x6e, 0x74];
        let mut i: usize = 0;
        while i < 11
            invariant
                i <= 11,
                bytes@.len() >= 32,
                signature@ == spec_fnt_signature(),
                bytes@.subrange(0, i as int) == signature@.subrange(0, i as int),
            decreases 11 - i,
        {
            if bytes[i] != signature[i] {
                assert(bytes@.subrange(0, 11)[i as int] != spec_fnt_signature()[i as int]);
                return Err(FontError::BadSignature);
            }
            i = i + 1;
            assert(bytes@.subrange(0, i as int) =~= signature@.subrange(0, i as int));
        }
        assert(bytes@.subrange(0, 11) =~= spec_fnt_signature());
        if bytes[11] != 0 {
            return Err(FontError::BadSignature);
        }
        Ok(
            FntV1Header {
                pcx_offset: read_u32_le(bytes, 16) as usize,
                pcx_size: read_u32_le(bytes, 20) as usize,
                text_offset: read_u32_le(bytes, 24) as usize,
                text_size: read_u32_le(bytes, 28) as usize,
            },
        )
    }
}

/// The `size` bytes at `offset`, if the file holds them.
pub open spec fn spec_checked_slice(bytes: Seq<u8>, offset: usize, size: usize, section: FntSection) -> Result<
    Seq<u8>,
    FontFault,
> {
    if offset + size > usize::MAX {
        Err(FontFault::SectionOverflow(section))
    } else if offset + size > bytes.len() {
        Err(FontFault::SectionOutOfBounds(section))
    } else {
        Ok(bytes.subrange(offset as int, offset + size))
    }
}

fn checked_slice<'a>(bytes: &'a [u8], offset: usize, size: usize, section: FntSection) -> (slice: Result<
    &'a [u8],
    FontError,
>)
    ensures
        match spec_checked_slice(bytes@, offset, size, section) {
            Ok(s) => slice matches Ok(t) && t@ == s,
            Err(e) => slice matches Err(f) && f@ == e,
        },
{
    let end = match offset.checked_add(size) {
        Some(end) => end,
        None => return Err(FontError::SectionOverflow(section)),
    };
    if end > bytes.len() {
        return Err(FontError::SectionOutOfBounds(section));
    }
    Ok(slice_subrange(bytes, offset, end))
}

// ---------------------------------------------------------------------------
// Text decoding

/// What `String::from_utf8_lossy` makes of `bytes`.
pub uninterp spec fn spec_utf8_lossy(bytes: Seq<u8>) -> Seq<char>;

/// Decodes `bytes` as UTF-8 with `String::from_utf8_lossy`: the result is a
/// function of the bytes, and ASCII bytes decode to the same characters.
/// What it does with other bytes (decoding, replacement characters) is left
/// to the named result.
#[verifier::external_body]
fn utf8_lossy(bytes: &[u8]) -> (text: String)
    ensures
        text@ == spec_utf8_lossy(bytes@),
        (forall|i: int| 0 <= i < bytes@.len() ==> #[trigger] bytes@[i] < 0x80) ==> text@
            == bytes@.map_values(|b: u8| b as char),
{
    String::from_utf8_lossy(bytes).into_owned()
}

// ---------------------------------------------------------------------------
// Small text helpers

/// `s` without leading white space.
pub open spec fn spec_trim_start(s: Seq<char>) -> Seq<char>
    decreases s.len(),
{
    if s.len() > 0 && spec_is_whitespace(s[0]) {
        spec_trim_start(s.drop_first())
    } else {
        s
    }
}

/// `s` without trailing white space.
pub open spec fn spec_trim_end(s: Seq<char>) -> Seq<char>
    decreases s.len(),
{
    if s.len() > 0 && spec_is_whitespace(s.last()) {
        spec_trim_end(s.drop_last())
    } else {
        s
    }
}

/// `s` without leading and trailing white space (`str::trim`).
pub open spec fn spec_trim(s: Seq<char>) -> Seq<char> {
    spec_trim_end(spec_trim_start(s))
}

fn trim(s: &[char]) -> (t: Vec<char>)
    ensures
        t@ == spec_trim(s@),
{
    let mut start: usize = 0;
    assert(s@.skip(0) =~= s@);
    while start < s.len() && crate::text::is_whitespace(s[start])
        invariant
            start <= s@.len(),
            spec_trim_start(s@) == spec_trim_start(s@.skip(start as int)),
        decreases s.len() - start,
    {
        assert(s@.skip(start as int).drop_first() =~= s@.skip(start + 1));
        start = start + 1;
    }
    let ghost head = s@.skip(start as int);
    assert(spec_trim_start(s@) == head) by {
        if start < s@.len() {
            assert(head[0] == s@[start as int]);
        }
    }
    let mut end: usize = s.len();
    assert(head =~= s@.subrange(start as int, end as int));
    while end > start && crate::text::is_whitespace(s[end - 1])
        invariant
            start <= end <= s@.len(),
            head == s@.skip(start as int),
            spec_trim_end(head) == spec_trim_end(s@.subrange(start as int, end as int)),
        decreases end - start,
    {
        assert(s@.subrange(start as int, end as int).drop_last() =~= s@.subrange(
            start as int,
            end - 1,
        ));
        end = end - 1;
    }
    let t = slice_to_vec(slice_subrange(s, start, end));
    assert(spec_trim_end(s@.subrange(start as int, end as int)) == t@) by {
        if end > start {
            assert(s@.subrange(start as int, end as int).last() == s@[end - 1]);
        }
    }
    t
}

/// Whether `c` occurs in `s` and `k` is its first position.
pub open spec fn spec_first_at(s: Seq<char>, c: char, k: int) -> bool {
    &&& 0 <= k < s.len()
    &&& s[k] == c
    &&& forall|j: int| 0 <= j < k ==> s[j] != c
}

/// `s` split around the first `c` (`str::split_once`), if `c` occurs.
pub open spec fn spec_split_once(s: Seq<char>, c: char) -> Option<(Seq<char>, Seq<char>)> {
    if exists|k: int| spec_first_at(s, c, k) {
        let k = choose|k: int| spec_first_at(s, c, k);
        Some((s.take(k), s.skip(k + 1)))
    } else {
        None
    }
}

fn split_once(s: &[char], c: char) -> (parts: Option<(Vec<char>, Vec<char>)>)
    ensures
        match spec_split_once(s@, c) {
            None => parts is None,
            Some((before, after)) => parts matches Some((b, a)) && b@ == before && a@ == after,
        },
{
    let mut k: usize = 0;
    while k < s.len()
        invariant
            k <= s@.len(),
            forall|j: int| 0 <= j < k ==> s@[j] != c,
        decreases s.len() - k,
    {
        if s[k] == c {
            proof {
                assert(spec_first_at(s@, c, k as int));
                let p = choose|p: int| spec_first_at(s@, c, p);
                assert(p == k as int) by {
                    if p < k {
                        assert(s@[p] != c);
                    } else if p > k {
                        assert(s@[k as int] != c);
                    }
                }
            }
            let before = slice_to_vec(slice_subrange(s, 0, k));
            let after = slice_to_vec(slice_subrange(s, k + 1, s.len()));
            assert(before@ =~= s@.take(k as int));
            assert(after@ =~= s@.skip(k + 1));
            return Some((before, after));
        }
        k = k + 1;
    }
    proof {
        if exists|p: int| spec_first_at(s@, c, p) {
            let p = choose|p: int| spec_first_at(s@, c, p);
            assert(s@[p] != c);
        }
    }
    None
}

/// The part of a line before its first `;`.
pub open spec fn spec_strip_comment(line: Seq<char>) -> Seq<char> {
    match spec_split_once(line, ';') {
        Some((before, _)) => before,
        None => line,
    }
}

/// The ASCII lower-case form of `c`.
pub open spec fn spec_ascii_lower(c: char) -> char {
    if 'A' <= c <= 'Z' {
        ((c as u32) + 32) as char
    } else {
        c
    }
}

/// `str::eq_ignore_ascii_case`.
pub open spec fn spec_eq_ignore_ascii_case(a: Seq<char>, b: Seq<char>) -> bool {
    &&& a.len() == b.len()
    &&& forall|i: int| 0 <= i < a.len() ==> spec_ascii_lower(#[trigger] a[i]) == spec_ascii_lower(b[i])
}

fn ascii_lower(c: char) -> (lower: char)
    ensures
        lower == spec_ascii_lower(c),
{
    if 'A' <= c && c <= 'Z' {
        ((c as u8) + 32) as char
    } else {
        c
    }
}

fn eq_ignore_ascii_case(a: &[char], b: &str) -> (equal: bool)
    ensures
        equal == spec_eq_ignore_ascii_case(a@, b@),
{
    let other = str_chars(b);
    if a.len() != other.len() {
        return false;
    }
    let mut i: usize = 0;
    while i < a.len()
        invariant
            i <= a@.len(),
            a@.len() == other@.len(),
            other@ == b@,
            forall|j: int| 0 <= j < i ==> spec_ascii_lower(#[trigger] a@[j]) == spec_ascii_lower(other@[j]),
        decreases a.len() - i,
    {
        if ascii_lower(a[i]) != ascii_lower(other[i]) {
            assert(spec_ascii_lower(a@[i as int]) != spec_ascii_lower(b@[i as int]));
            return false;
        }
        i = i + 1;
    }
    true
}

// ---------------------------------------------------------------------------
// Integers

/// The value of `c` as a digit, or -1 where it is not a decimal digit or an
/// ASCII letter of `a`..=`f` / `A`..=`F`.
pub open spec fn spec_digit_value(c: char) -> int {
    if '0' <= c <= '9' {
        (c as u32) - ('0' as u32)
    } else if 'a' <= c <= 'f' {
        (c as u32) - ('a' as u32) + 10
    } else if 'A' <= c <= 'F' {
        (c as u32) - ('A' as u32) + 10
    } else {
        -1
    }
}

/// Whether every character of `s` is a digit in `radix` (10 or 16).
pub open spec fn spec_all_digits(s: Seq<char>, radix: int) -> bool {
    forall|i: int| 0 <= i < s.len() ==> 0 <= #[trigger] spec_digit_value(s[i]) < radix
}

/// The value of the digits `s` in `radix`.
pub open spec fn spec_digits_value(s: Seq<char>, radix: int) -> int
    decreases s.len(),
{
    if s.len() == 0 {
        0
    } else {
        spec_digits_value(s.drop_last(), radix) * radix + spec_digit_value(s.last())
    }
}

/// `s` without one leading `+`.
pub open spec fn spec_without_plus(s: Seq<char>) -> Seq<char> {
    if s.len() > 0 && s[0] == '+' {
        s.drop_first()
    } else {
        s
    }
}

/// `u32::from_str_radix(s, radix)` for radix 10 or 16: an optional `+` and at
/// least one digit, of a value that fits.
pub open spec fn spec_parse_u32(s: Seq<char>, radix: int) -> Option<u32> {
    let digits = spec_without_plus(s);
    if digits.len() == 0 || !spec_all_digits(digits, radix) || spec_digits_value(digits, radix)
        > u32::MAX {
        None
    } else {
        Some(spec_digits_value(digits, radix) as u32)
    }
}

/// `s.parse::<i32>()`: an optional sign and at least one decimal digit, of a
/// value that fits.
pub open spec fn spec_parse_i32(s: Seq<char>) -> Option<i32> {
    let negative = s.len() > 0 && s[0] == '-';
    let digits = if s.len() > 0 && (s[0] == '+' || s[0] == '-') {
        s.drop_first()
    } else {
        s
    };
    let magnitude = spec_digits_value(digits, 10);
    let value = if negative {
        -magnitude
    } else {
        magnitude
    };
    if digits.len() == 0 || !spec_all_digits(digits, 10) || value < i32::MIN || value > i32::MAX {
        None
    } else {
        Some(value as i32)
    }
}

fn digit_value(c: char) -> (value: i64)
    ensures
        value == spec_digit_value(c),
{
    if '0' <= c && c <= '9' {
        (c as u32 - '0' as u32) as i64
    } else if 'a' <= c && c <= 'f' {
        (c as u32 - 'a' as u32 + 10) as i64
    } else if 'A' <= c && c <= 'F' {
        (c as u32 - 'A' as u32 + 10) as i64
    } else {
        -1
    }
}

proof fn lemma_digits_value_nonneg(s: Seq<char>, radix: int)
    requires
        radix >= 1,
        spec_all_digits(s, radix),
    ensures
        spec_digits_value(s, radix) >= 0,
    decreases s.len(),
{
    if s.len() > 0 {
        assert(spec_all_digits(s.drop_last(), radix)) by {
            assert forall|i: int| 0 <= i < s.drop_last().len() implies 0 <= #[trigger] spec_digit_value(
                s.drop_last()[i],
            ) < radix by {
                assert(s.drop_last()[i] == s[i]);
            }
        }
        lemma_digits_value_nonneg(s.drop_last(), radix);
        assert(0 <= spec_digit_value(s[s.len() - 1]));
        assert(spec_digits_value(s.drop_last(), radix) * radix >= 0) by (nonlinear_arith)
            requires
                spec_digits_value(s.drop_last(), radix) >= 0,
                radix >= 1,
        ;
    }
}

/// The value of the digits `s` in `radix` (10 or 16), capped at
/// `limit + 1`; none where a character is not a digit.
fn capped_digits_value(s: &[char], radix: u64, limit: u64) -> (value: Option<u64>)
    requires
        radix == 10 || radix == 16,
        limit <= 0x1_0000_0000,
    ensures
        spec_all_digits(s@, radix as int) <==> value is Some,
        value matches Some(v) ==> v == if spec_digits_value(s@, radix as int) <= limit {
            spec_digits_value(s@, radix as int)
        } else {
            limit + 1
        },
{
    let mut acc: u64 = 0;
    let mut i: usize = 0;
    while i < s.len()
        invariant
            radix == 10 || radix == 16,
            limit <= 0x1_0000_0000,
            i <= s@.len(),
            spec_all_digits(s@.take(i as int), radix as int),
            acc <= limit + 1,
            acc == if spec_digits_value(s@.take(i as int), radix as int) <= limit {
                spec_digits_value(s@.take(i as int), radix as int)
            } else {
                limit + 1
            },
        decreases s.len() - i,
    {
        let d = digit_value(s[i]);
        if d < 0 || d as u64 >= radix {
            assert(!spec_all_digits(s@, radix as int)) by {
                assert(!(0 <= spec_digit_value(s@[i as int]) < radix));
            }
            return None;
        }
        proof {
            let prefix = s@.take(i + 1);
            assert(prefix.drop_last() =~= s@.take(i as int));
            assert(spec_all_digits(prefix, radix as int)) by {
                assert forall|j: int| 0 <= j < prefix.len() implies 0 <= #[trigger] spec_digit_value(
                    prefix[j],
                ) < radix by {
                    if j < i {
                        assert(prefix[j] == s@.take(i as int)[j]);
                    }
                }
            }
            lemma_digits_value_nonneg(s@.take(i as int), radix as int);
        }
        assert(acc * radix <= 0x1_0000_0001 * 16) by (nonlinear_arith)
            requires
                acc <= 0x1_0000_0001,
                radix <= 16,
        ;
        let next = acc * radix + d as u64;
        proof {
            let v = spec_digits_value(s@.take(i as int), radix as int);
            let prefix = s@.take(i + 1);
            assert(prefix.last() == s@[i as int]);
            assert(spec_digits_value(prefix, radix as int) == v * radix + d);
            if v > limit {
                assert(v * radix >= v) by (nonlinear_arith)
                    requires
                        v >= 0,
                        radix >= 1,
                ;
                assert(acc * radix >= acc) by (nonlinear_arith)
                    requires
                        radix >= 1,
                ;
                assert(next >= acc);
            }
        }
        acc = if next <= limit {
            next
        } else {
            limit + 1
        };
        i = i + 1;
    }
    assert(s@.take(i as int) =~= s@);
    Some(acc)
}

fn parse_u32(s: &[char], radix: u64) -> (value: Option<u32>)
    requires
        radix == 10 || radix == 16,
    ensures
        value == spec_parse_u32(s@, radix as int),
{
    let digits = if s.len() > 0 && s[0] == '+' {
        slice_subrange(s, 1, s.len())
    } else {
        s
    };
    assert(digits@ =~= spec_without_plus(s@));
    if digits.len() == 0 {
        return None;
    }
    match capped_digits_value(digits, radix, 0xffff_ffff) {
        None => None,
        Some(v) => {
            if v > 0xffff_ffff {
                None
            } else {
                Some(v as u32)
            }
        },
    }
}

fn parse_i32(s: &[char]) -> (value: Option<i32>)
    ensures
        value == spec_parse_i32(s@),
{
    let negative = s.len() > 0 && s[0] == '-';
    let digits = if s.len() > 0 && (s[0] == '+' || s[0] == '-') {
        slice_subrange(s, 1, s.len())
    } else {
        s
    };
    assert(digits@ =~= if s@.len() > 0 && (s@[0] == '+' || s@[0] == '-') {
        s@.drop_first()
    } else {
        s@
    });
    if digits.len() == 0 {
        return None;
    }
    match capped_digits_value(digits, 10, 0x8000_0000) {
        None => None,
        Some(v) => {
            if negative {
                if v > 0x8000_0000 {
                    None
                } else {
                    Some((0 - (v as i64)) as i32)
                }
            } else {
                if v > 0x7fff_ffff {
                    None
                } else {
                    Some(v as i32)
                }
            }
        },
    }
}

/// `char::from_u32`: the scalar value `value`, unless it is above
/// `0x10FFFF` or a surrogate.
pub open spec fn spec_char_from_u32(value: u32) -> Option<char> {
    if value <= 0x10_ffff && !(0xd800 <= value <= 0xdfff) {
        Some(value as char)
    } else {
        None
    }
}

/// Calls `char::from_u32`, which gives the character with scalar value
/// `value`, or none for a value above `0x10FFFF` or in the surrogate range.
#[verifier::external_body]
fn char_from_u32(value: u32) -> (c: Option<char>)
    ensures
        c == spec_char_from_u32(value),
{
    char::from_u32(value)
}

// ---------------------------------------------------------------------------
// The character map

/// Where a glyph sits in the atlas: its left column and its width.
#[derive(Clone, Copy, Debug, PartialEq, Eq, Structural)]
pub struct DiagnosticGlyph {
    pub x: u32,
    pub width: u32,
}

// A glyph table maps characters to glyphs. It is held as a vector of
// `(character, glyph)` pairs in which no character occurs twice, rather than
// as a `HashMap<char, DiagnosticGlyph>`: vstd specifies `HashMap` only for
// keys that obey its key model (integers, `bool`, boxes of them), which
// `char` is not, so a map keyed by `char` would carry no contract. Lookups
// and replacements are stated over the sequence below.

/// Whether no character occurs twice in a glyph table.
pub open spec fn spec_unique_chars(glyphs: Seq<(char, DiagnosticGlyph)>) -> bool {
    forall|i: int, j: int| 0 <= i < j < glyphs.len() ==> #[trigger] glyphs[i].0 != #[trigger] glyphs[j].0
}

/// Whether `c` has an entry in a glyph table.
pub open spec fn spec_has_glyph(glyphs: Seq<(char, DiagnosticGlyph)>, c: char) -> bool {
    exists|k: int| 0 <= k < glyphs.len() && glyphs[k].0 == c
}

/// The position of the entry of `c`, where it has one.
pub open spec fn spec_glyph_position(glyphs: Seq<(char, DiagnosticGlyph)>, c: char) -> int {
    choose|k: int| 0 <= k < glyphs.len() && glyphs[k].0 == c
}

/// The glyph of `c` in a table, if any.
pub open spec fn spec_glyph_lookup(glyphs: Seq<(char, DiagnosticGlyph)>, c: char) -> Option<
    DiagnosticGlyph,
> {
    if spec_has_glyph(glyphs, c) {
        Some(glyphs[spec_glyph_position(glyphs, c)].1)
    } else {
        None
    }
}

/// A table with `c` mapped to `glyph`: its entry replaced where it has one,
/// appended otherwise.
pub open spec fn spec_insert_glyph(
    glyphs: Seq<(char, DiagnosticGlyph)>,
    c: char,
    glyph: DiagnosticGlyph,
) -> Seq<(char, DiagnosticGlyph)> {
    if spec_has_glyph(glyphs, c) {
        glyphs.update(spec_glyph_position(glyphs, c), (c, glyph))
    } else {
        glyphs.push((c, glyph))
    }
}

proof fn lemma_unique_position(glyphs: Seq<(char, DiagnosticGlyph)>, c: char, k: int)
    requires
        spec_unique_chars(glyphs),
        0 <= k < glyphs.len(),
        glyphs[k].0 == c,
    ensures
        spec_has_glyph(glyphs, c),
        spec_glyph_position(glyphs, c) == k,
{
    assert(spec_has_glyph(glyphs, c));
    let p = spec_glyph_position(glyphs, c);
    if p < k {
        assert(glyphs[p].0 != glyphs[k].0);
    } else if p > k {
        assert(glyphs[k].0 != glyphs[p].0);
    }
}

/// The character map behaves as a map: after mapping `c` to `glyph`, `c`
/// finds `glyph`, every other character finds what it found before, and no
/// character has two entries.
pub proof fn lemma_insert_glyph_lookup(
    glyphs: Seq<(char, DiagnosticGlyph)>,
    c: char,
    glyph: DiagnosticGlyph,
    other: char,
)
    requires
        spec_unique_chars(glyphs),
    ensures
        spec_unique_chars(spec_insert_glyph(glyphs, c, glyph)),
        spec_glyph_lookup(spec_insert_glyph(glyphs, c, glyph), c) == Some(glyph),
        other != c ==> spec_glyph_lookup(spec_insert_glyph(glyphs, c, glyph), other)
            == spec_glyph_lookup(glyphs, other),
{
    let inserted = spec_insert_glyph(glyphs, c, glyph);
    let k = if spec_has_glyph(glyphs, c) {
        spec_glyph_position(glyphs, c)
    } else {
        glyphs.len() as int
    };
    assert(inserted.len() == glyphs.len() || inserted.len() == glyphs.len() + 1);
    assert(forall|i: int| 0 <= i < inserted.len() && i != k ==> #[trigger] inserted[i] == glyphs[i]);
    assert(inserted[k] == (c, glyph));
    assert(forall|i: int| 0 <= i < glyphs.len() && i != k ==> #[trigger] glyphs[i].0 != c);
    assert(spec_unique_chars(inserted)) by {
        assert forall|i: int, j: int| 0 <= i < j < inserted.len() implies #[trigger] inserted[i].0
            != #[trigger] inserted[j].0 by {
            if i != k && j != k {
                assert(glyphs[i].0 != glyphs[j].0);
            } else if i == k {
                assert(glyphs[j].0 != c);
            } else {
                assert(glyphs[i].0 != c);
            }
        }
    }
    lemma_unique_position(inserted, c, k);
    if other != c {
        if spec_has_glyph(glyphs, other) {
            let q = spec_glyph_position(glyphs, other);
            assert(q != k);
            assert(inserted[q] == glyphs[q]);
            lemma_unique_position(inserted, other, q);
        } else {
            assert(!spec_has_glyph(inserted, other)) by {
                if spec_has_glyph(inserted, other) {
                    let q = choose|q: int| 0 <= q < inserted.len() && inserted[q].0 == other;
                    assert(q != k);
                    assert(glyphs[q].0 == other);
                }
            }
        }
    }
}

/// The position of the entry of `c`, if any.
fn find_glyph(glyphs: &Vec<(char, DiagnosticGlyph)>, c: char) -> (position: Option<usize>)
    requires
        spec_unique_chars(glyphs@),
    ensures
        spec_has_glyph(glyphs@, c) <==> position is Some,
        position matches Some(k) ==> k == spec_glyph_position(glyphs@, c) && k < glyphs@.len()
            && glyphs@[k as int].0 == c,
{
    let mut k: usize = 0;
    while k < glyphs.len()
        invariant
            k <= glyphs@.len(),
            spec_unique_chars(glyphs@),
            forall|j: int| 0 <= j < k ==> glyphs@[j].0 != c,
        decreases glyphs.len() - k,
    {
        if glyphs[k].0 == c {
            proof {
                assert(0 <= k < glyphs@.len() && glyphs@[k as int].0 == c);
                assert(spec_has_glyph(glyphs@, c));
                let p = spec_glyph_position(glyphs@, c);
                assert(0 <= p < glyphs@.len() && glyphs@[p].0 == c);
                if p != k {
                    if p < k {
                        assert(glyphs@[p].0 != c);
                    } else {
                        assert(glyphs@[k as int].0 != glyphs@[p].0);
                    }
                }
            }
            return Some(k);
        }
        k = k + 1;
    }
    None
}

fn insert_glyph(glyphs: &mut Vec<(char, DiagnosticGlyph)>, c: char, glyph: DiagnosticGlyph)
    requires
        spec_unique_chars(old(glyphs)@),
    ensures
        final(glyphs)@ == spec_insert_glyph(old(glyphs)@, c, glyph),
        spec_unique_chars(final(glyphs)@),
{
    match find_glyph(glyphs, c) {
        Some(k) => {
            glyphs.set(k, (c, glyph));
        },
        None => {
            glyphs.push((c, glyph));
        },
    }
}

// ---------------------------------------------------------------------------
// The text section

/// What the text section has set so far: the current section, the glyph
/// size, the spacing and the character map.
pub struct FntTextState {
    pub section: Seq<char>,
    pub size: Option<(u32, u32)>,
    pub spacing_x: i32,
    pub spacing_y: i32,
    pub glyphs: Seq<(char, DiagnosticGlyph)>,
}

/// `Size` or `Spacing` values: two comma-separated trimmed 32-bit integers.
pub open spec fn spec_parse_pair_i32(value: Seq<char>) -> Result<(i32, i32), FontFault> {
    match spec_split_once(value, ',') {
        None => Err(FontFault::ExpectedPair(value)),
        Some((left, right)) => match spec_parse_i32(spec_trim(left)) {
            None => Err(FontFault::InvalidPairValue(left)),
            Some(l) => match spec_parse_i32(spec_trim(right)) {
                None => Err(FontFault::InvalidPairValue(right)),
                Some(r) => Ok((l, r)),
            },
        },
    }
}

/// The character a `[Map]` token names: `0x` or `0X` and a hexadecimal
/// scalar value, or otherwise the token's first character.
pub open spec fn spec_map_character(token: Seq<char>) -> Option<char> {
    if token.len() >= 2 && token[0] == '0' && (token[1] == 'x' || token[1] == 'X') {
        match spec_parse_u32(token.skip(2), 16) {
            None => None,
            Some(value) => spec_char_from_u32(value),
        }
    } else if token.len() == 0 {
        None
    } else {
        Some(token[0])
    }
}

/// A `[Def]` line: `Size = w, h` sets the glyph size (negative values as 0),
/// `Spacing = x, y` the spacing; other keys and lines without `=` change
/// nothing.
pub open spec fn spec_def_line(state: FntTextState, line: Seq<char>) -> Result<FntTextState, FontFault> {
    match spec_split_once(line, '=') {
        None => Ok(state),
        Some((raw_key, raw_value)) => {
            let key = spec_trim(raw_key);
            let value = spec_trim(raw_value);
            if spec_eq_ignore_ascii_case(key, "Size"@) {
                match spec_parse_pair_i32(value) {
                    Err(e) => Err(e),
                    Ok((w, h)) => Ok(
                        FntTextState {
                            size: Some(
                                (
                                    if w < 0 {
                                        0u32
                                    } else {
                                        w as u32
                                    },
                                    if h < 0 {
                                        0u32
                                    } else {
                                        h as u32
                                    },
                                ),
                            ),
                            ..state
                        },
                    ),
                }
            } else if spec_eq_ignore_ascii_case(key, "Spacing"@) {
                match spec_parse_pair_i32(value) {
                    Err(e) => Err(e),
                    Ok((x, y)) => Ok(FntTextState { spacing_x: x, spacing_y: y, ..state }),
                }
            } else {
                Ok(state)
            }
        },
    }
}

/// A `[Map]` line: `character x width`; lines with fewer than three words
/// or a token that names no character change nothing.
pub open spec fn spec_map_line(state: FntTextState, line: Seq<char>) -> Result<FntTextState, FontFault> {
    let parts = spec_split_whitespace(line);
    if parts.len() < 3 {
        Ok(state)
    } else {
        match spec_map_character(parts[0]) {
            None => Ok(state),
            Some(c) => match spec_parse_u32(parts[1], 10) {
                None => Err(FontFault::InvalidGlyphX(parts[1])),
                Some(x) => match spec_parse_u32(parts[2], 10) {
                    None => Err(FontFault::InvalidGlyphWidth(parts[2])),
                    Some(width) => Ok(
                        FntTextState {
                            glyphs: spec_insert_glyph(state.glyphs, c, DiagnosticGlyph { x, width }),
                            ..state
                        },
                    ),
                },
            },
        }
    }
}

/// One line of the text section: comments after `;` and surrounding white
/// space are dropped; `[name]` opens a section; other lines count in the
/// `Def` and `Map` sections (names compared ignoring ASCII case).
pub open spec fn spec_text_line(state: FntTextState, raw_line: Seq<char>) -> Result<FntTextState, FontFault> {
    let line = spec_trim(spec_strip_comment(raw_line));
    if line.len() == 0 {
        Ok(state)
    } else if line[0] == '[' && line.last() == ']' {
        Ok(FntTextState { section: line.subrange(1, line.len() - 1), ..state })
    } else if spec_eq_ignore_ascii_case(state.section, "Def"@) {
        spec_def_line(state, line)
    } else if spec_eq_ignore_ascii_case(state.section, "Map"@) {
        spec_map_line(state, line)
    } else {
        Ok(state)
    }
}

/// The state before the first line.
pub open spec fn spec_initial_text_state() -> FntTextState {
    FntTextState {
        section: Seq::empty(),
        size: None,
        spacing_x: 0,
        spacing_y: 0,
        glyphs: Seq::empty(),
    }
}

/// The state after `lines`, or the first error.
pub open spec fn spec_text_lines(lines: Seq<Seq<char>>) -> Result<FntTextState, FontFault>
    decreases lines.len(),
{
    if lines.len() == 0 {
        Ok(spec_initial_text_state())
    } else {
        match spec_text_lines(lines.drop_last()) {
            Err(e) => Err(e),
            Ok(state) => spec_text_line(state, lines.last()),
        }
    }
}

/// What the text section defines.
pub struct FntTextModel {
    pub glyphs: Seq<(char, DiagnosticGlyph)>,
    pub glyph_width: u32,
    pub glyph_height: u32,
    pub spacing_x: i32,
    pub spacing_y: i32,
}

/// The definition in a text section, which must set `Size`.
pub open spec fn spec_parse_fnt_text(text: Seq<char>) -> Result<FntTextModel, FontFault> {
    match spec_text_lines(spec_lines(text)) {
        Err(e) => Err(e),
        Ok(state) => match state.size {
            None => Err(FontFault::MissingSize),
            Some((w, h)) => Ok(
                FntTextModel {
                    glyphs: state.glyphs,
                    glyph_width: w,
                    glyph_height: h,
                    spacing_x: state.spacing_x,
                    spacing_y: state.spacing_y,
                },
            ),
        },
    }
}

fn parse_pair_i32(value: &[char]) -> (pair: Result<(i32, i32), FontError>)
    ensures
        spec_result_view(pair) == spec_parse_pair_i32(value@),
{
    match split_once(value, ',') {
        None => Err(FontError::ExpectedPair(string_from_chars(value))),
        Some((left, right)) => {
            let l = match parse_i32(trim(left.as_slice()).as_slice()) {
                None => return Err(FontError::InvalidPairValue(string_from_chars(left.as_slice()))),
                Some(l) => l,
            };
            let r = match parse_i32(trim(right.as_slice()).as_slice()) {
                None => return Err(FontError::InvalidPairValue(string_from_chars(right.as_slice()))),
                Some(r) => r,
            };
            Ok((l, r))
        },
    }
}

fn map_character(token: &[char]) -> (c: Option<char>)
    ensures
        c == spec_map_character(token@),
{
    if token.len() >= 2 && token[0] == '0' && (token[1] == 'x' || token[1] == 'X') {
        let hex = slice_subrange(token, 2, token.len());
        assert(hex@ =~= token@.skip(2));
        match parse_u32(hex, 16) {
            None => None,
            Some(value) => char_from_u32(value),
        }
    } else if token.len() == 0 {
        None
    } else {
        Some(token[0])
    }
}

/// The text section's parse state.
struct FntTextParser {
    section: Vec<char>,
    size: Option<(u32, u32)>,
    spacing_x: i32,
    spacing_y: i32,
    glyphs: Vec<(char, DiagnosticGlyph)>,
}

impl View for FntTextParser {
    type V = FntTextState;

    closed spec fn view(&self) -> FntTextState {
        FntTextState {
            section: self.section@,
            size: self.size,
            spacing_x: self.spacing_x,
            spacing_y: self.spacing_y,
            glyphs: self.glyphs@,
        }
    }
}

impl FntTextParser {
    fn def_line(&mut self, line: &[char]) -> (outcome: Result<(), FontError>)
        requires
            spec_unique_chars(old(self)@.glyphs),
        ensures
            spec_unique_chars(final(self)@.glyphs),
            match spec_def_line(old(self)@, line@) {
                Ok(state) => outcome is Ok && final(self)@ == state,
                Err(e) => outcome matches Err(f) && f@ == e,
            },
    {
        let (raw_key, raw_value) = match split_once(line, '=') {
            None => return Ok(()),
            Some(parts) => parts,
        };
        let key = trim(raw_key.as_slice());
        let value = trim(raw_value.as_slice());
        if eq_ignore_ascii_case(key.as_slice(), "Size") {
            let (w, h) = match parse_pair_i32(value.as_slice()) {
                Err(e) => return Err(e),
                Ok(pair) => pair,
            };
            let width: u32 = if w < 0 {
                0
            } else {
                w as u32
            };
            let height: u32 = if h < 0 {
                0
            } else {
                h as u32
            };
            self.size = Some((width, height));
        } else if eq_ignore_ascii_case(key.as_slice(), "Spacing") {
            let (x, y) = match parse_pair_i32(value.as_slice()) {
                Err(e) => return Err(e),
                Ok(pair) => pair,
            };
            self.spacing_x = x;
            self.spacing_y = y;
        }
        Ok(())
    }

    fn map_line(&mut self, line: &[char]) -> (outcome: Result<(), FontError>)
        requires
            spec_unique_chars(old(self)@.glyphs),
        ensures
            spec_unique_chars(final(self)@.glyphs),
            match spec_map_line(old(self)@, line@) {
                Ok(state) => outcome is Ok && final(self)@ == state,
                Err(e) => outcome matches Err(f) && f@ == e,
            },
    {
        let parts = split_whitespace(line);
        if parts.len() < 3 {
            return Ok(());
        }
        let c = match map_character(parts[0].as_slice()) {
            None => return Ok(()),
            Some(c) => c,
        };
        let x = match parse_u32(parts[1].as_slice(), 10) {
            None => return Err(FontError::InvalidGlyphX(string_from_chars(parts[1].as_slice()))),
            Some(x) => x,
        };
        let width = match parse_u32(parts[2].as_slice(), 10) {
            None => return Err(FontError::InvalidGlyphWidth(string_from_chars(parts[2].as_slice()))),
            Some(width) => width,
        };
        insert_glyph(&mut self.glyphs, c, DiagnosticGlyph { x, width });
        Ok(())
    }

    fn line(&mut self, raw_line: &[char]) -> (outcome: Result<(), FontError>)
        requires
            spec_unique_chars(old(self)@.glyphs),
        ensures
            spec_unique_chars(final(self)@.glyphs),
            match spec_text_line(old(self)@, raw_line@) {
                Ok(state) => outcome is Ok && final(self)@ == state,
                Err(e) => outcome matches Err(f) && f@ == e,
            },
    {
        let stripped = match split_once(raw_line, ';') {
            Some((before, _)) => before,
            None => slice_to_vec(raw_line),
        };
        let line = trim(stripped.as_slice());
        if line.len() == 0 {
            return Ok(());
        }
        if line[0] == '[' && line[line.len() - 1] == ']' {
            self.section = slice_to_vec(slice_subrange(line.as_slice(), 1, line.len() - 1));
            return Ok(());
        }
        if eq_ignore_ascii_case(self.section.as_slice(), "Def") {
            self.def_line(line.as_slice())
        } else if eq_ignore_ascii_case(self.section.as_slice(), "Map") {
            self.map_line(line.as_slice())
        } else {
            Ok(())
        }
    }
}

/// What the text section of an FNT v1 file defines.
pub struct FntTextDefinition {
    glyphs: Vec<(char, DiagnosticGlyph)>,
    pub glyph_width: u32,
    pub glyph_height: u32,
    pub spacing_x: i32,
    pub spacing_y: i32,
}

impl View for FntTextDefinition {
    type V = FntTextModel;

    closed spec fn view(&self) -> FntTextModel {
        FntTextModel {
            glyphs: self.glyphs@,
            glyph_width: self.glyph_width,
            glyph_height: self.glyph_height,
            spacing_x: self.spacing_x,
            spacing_y: self.spacing_y,
        }
    }
}

impl FntTextDefinition {
    /// Reads the text section: `[Def]` with `Size` and `Spacing`, `[Map]`
    /// with one `character x width` line per glyph; a later line for a
    /// character replaces an earlier one.
    pub fn parse(text: &str) -> (definition: Result<Self, FontError>)
        ensures
            match spec_parse_fnt_text(text@) {
                Ok(model) => definition matches Ok(d) && d@ == model && spec_unique_chars(d@.glyphs),
                Err(e) => definition matches Err(f) && f@ == e,
            },
    {
        let chars = str_chars(text);
        let source_lines = lines(chars.as_slice());
        let ghost all = spec_lines(chars@);
        let mut parser = FntTextParser {
            section: Vec::new(),
            size: None,
            spacing_x: 0,
            spacing_y: 0,
            glyphs: Vec::new(),
        };
        let mut k: usize = 0;
        assert(parser@ == spec_initial_text_state()) by {
            assert(parser.section@ =~= Seq::<char>::empty());
            assert(parser.glyphs@ =~= Seq::<(char, DiagnosticGlyph)>::empty());
        }
        assert(all.take(0) =~= Seq::<Seq<char>>::empty());
        while k < source_lines.len()
            invariant
                k <= source_lines@.len(),
                all == spec_lines(text@),
                source_lines@.len() == all.len(),
                forall|j: int| 0 <= j < source_lines@.len() ==> #[trigger] source_lines@[j]@ == all[j],
                spec_text_lines(all.take(k as int)) == Ok::<FntTextState, FontFault>(parser@),
                spec_unique_chars(parser@.glyphs),
            decreases source_lines.len() - k,
        {
            assert(all.take(k + 1).drop_last() =~= all.take(k as int));
            assert(all.take(k + 1).last() == source_lines@[k as int]@);
            match parser.line(source_lines[k].as_slice()) {
                Err(e) => {
                    proof {
                        lemma_text_lines_error_sticks(all, k as int + 1);
                    }
                    return Err(e);
                },
                Ok(()) => {},
            }
            k = k + 1;
        }
        assert(all.take(k as int) =~= all);
        match parser.size {
            None => Err(FontError::MissingSize),
            Some((w, h)) => Ok(
                FntTextDefinition {
                    glyphs: parser.glyphs,
                    glyph_width: w,
                    glyph_height: h,
                    spacing_x: parser.spacing_x,
                    spacing_y: parser.spacing_y,
                },
            ),
        }
    }
}

/// Once a prefix of the lines fails, every longer prefix fails the same way.
proof fn lemma_text_lines_error_sticks(lines: Seq<Seq<char>>, k: int)
    requires
        0 <= k <= lines.len(),
        spec_text_lines(lines.take(k)) is Err,
    ensures
        spec_text_lines(lines) == spec_text_lines(lines.take(k)),
    decreases lines.len() - k,
{
    if k < lines.len() {
        assert(lines.take(k + 1).drop_last() =~= lines.take(k));
        lemma_text_lines_error_sticks(lines, k + 1);
    } else {
        assert(lines.take(k) =~= lines);
    }
}

// ---------------------------------------------------------------------------
// The PCX atlas

/// Where the RLE data of a PCX image ends: before a trailing 256-color
/// palette (a `0x0C` byte 769 bytes from the end), or at the end.
pub open spec fn spec_rle_end(data: Seq<u8>) -> int {
    if data.len() >= 769 && data[data.len() - 769] == 0x0c {
        data.len() - 769
    } else {
        data.len() as int
    }
}

/// PCX run-length decoding from `cursor` until `required` bytes are decoded
/// or the data ends: a byte of `0xC0` or more repeats the next byte its low
/// six bits times; any other byte stands for itself.
pub open spec fn spec_rle_decode(
    data: Seq<u8>,
    end: int,
    required: int,
    cursor: int,
    decoded: Seq<u8>,
) -> Result<Seq<u8>, FontFault>
    decreases end - cursor,
{
    if decoded.len() >= required || cursor >= end || cursor < 0 {
        Ok(decoded)
    } else {
        let byte = data[cursor];
        if byte >= 0xc0 {
            if cursor + 1 >= end {
                Err(FontFault::PcxRunMissingValue)
            } else {
                let value = data[cursor + 1];
                spec_rle_decode(
                    data,
                    end,
                    required,
                    cursor + 2,
                    decoded + Seq::new((byte & 0x3f) as nat, |i: int| value),
                )
            }
        } else {
            spec_rle_decode(data, end, required, cursor + 1, decoded.push(byte))
        }
    }
}

/// An 8-bit RLE PCX image as indexed pixels, row after row, with its width
/// and height; `None` where the bounds span all 65536 values of a 16-bit
/// coordinate or a row reaches past the decoded data.
pub open spec fn spec_pcx_indexed(data: Seq<u8>) -> Option<Result<(Seq<u8>, u32, u32), FontFault>> {
    if data.len() < 128 {
        Some(Err(FontFault::PcxTooShort))
    } else if data[0] != 0x0a || data[2] != 1 || data[3] != 8 {
        Some(Err(FontFault::PcxNotRle8))
    } else {
        let x_min = spec_u16_le(data, 4);
        let y_min = spec_u16_le(data, 6);
        let x_max = spec_u16_le(data, 8);
        let y_max = spec_u16_le(data, 10);
        if x_max < x_min || y_max < y_min {
            Some(Err(FontFault::PcxBoundsInverted))
        } else if x_max - x_min == 0xffff || y_max - y_min == 0xffff {
            None
        } else {
            let width = x_max - x_min + 1;
            let height = y_max - y_min + 1;
            let bytes_per_line = spec_u16_le(data, 66) as int;
            let required = bytes_per_line * height;
            if required > u32::MAX {
                Some(Err(FontFault::PcxSizeOverflow))
            } else {
                match spec_rle_decode(data, spec_rle_end(data), required, 128, Seq::empty()) {
                    Err(e) => Some(Err(e)),
                    Ok(decoded) => if decoded.len() < required {
                        Some(
                            Err(
                                FontFault::PcxTruncated {
                                    decoded: decoded.len() as usize,
                                    required: required as u32,
                                },
                            ),
                        )
                    } else if (height - 1) * bytes_per_line + width > decoded.len() {
                        None
                    } else {
                        Some(
                            Ok(
                                (
                                    Seq::new(
                                        (width * height) as nat,
                                        |i: int| decoded[(i / width) * bytes_per_line + i % width],
                                    ),
                                    width as u32,
                                    height as u32,
                                ),
                            ),
                        )
                    },
                }
            }
        }
    }
}

fn rle_decode(data: &[u8], end: usize, required: usize) -> (decoded: Result<Vec<u8>, FontError>)
    requires
        end <= data@.len(),
        required <= u32::MAX,
    ensures
        match spec_rle_decode(data@, end as int, required as int, 128, Seq::empty()) {
            Ok(d) => decoded matches Ok(v) && v@ == d,
            Err(e) => decoded matches Err(f) && f@ == e,
        },
{
    let mut decoded: Vec<u8> = Vec::new();
    let mut cursor: usize = 128;
    while decoded.len() < required && cursor < end
        invariant_except_break
            end <= data@.len(),
            required <= u32::MAX,
            decoded@.len() < required + 64,
            spec_rle_decode(data@, end as int, required as int, 128, Seq::empty()) == spec_rle_decode(
                data@,
                end as int,
                required as int,
                cursor as int,
                decoded@,
            ),
        ensures
            decoded@.len() >= required || cursor >= end,
            spec_rle_decode(data@, end as int, required as int, 128, Seq::empty()) == spec_rle_decode(
                data@,
                end as int,
                required as int,
                cursor as int,
                decoded@,
            ),
        decreases end - cursor,
    {
        let byte = data[cursor];
        if byte >= 0xc0 {
            if cursor + 1 >= end {
                return Err(FontError::PcxRunMissingValue);
            }
            let count = (byte & 0x3f) as usize;
            let value = data[cursor + 1];
            let ghost before = decoded@;
            let mut n: usize = 0;
            assert(byte & 0x3f <= 0x3f) by (bit_vector);
            while n < count
                invariant
                    n <= count,
                    count <= 0x3f,
                    decoded@ == before + Seq::new(n as nat, |i: int| value),
                decreases count - n,
            {
                decoded.push(value);
                n = n + 1;
                assert(decoded@ =~= before + Seq::new(n as nat, |i: int| value));
            }
            cursor = cursor + 2;
        } else {
            decoded.push(byte);
            cursor = cursor + 1;
        }
    }
    Ok(decoded)
}

proof fn lemma_row_fits(y: int, height: int, bytes_per_line: int, width: int, len: int)
    requires
        0 <= y < height,
        bytes_per_line >= 0,
        (height - 1) * bytes_per_line + width <= len,
    ensures
        y * bytes_per_line + width <= len,
        y * bytes_per_line >= 0,
{
    assert(y * bytes_per_line <= (height - 1) * bytes_per_line) by (nonlinear_arith)
        requires
            0 <= y < height,
            bytes_per_line >= 0,
    ;
    assert(y * bytes_per_line >= 0) by (nonlinear_arith)
        requires
            y >= 0,
            bytes_per_line >= 0,
    ;
}

fn parse_pcx_indexed(data: &[u8]) -> (image: Option<Result<(Vec<u8>, u32, u32), FontError>>)
    ensures
        match spec_pcx_indexed(data@) {
            None => image is None,
            Some(Err(e)) => image matches Some(Err(f)) && f@ == e,
            Some(Ok((pixels, w, h))) => image matches Some(Ok((p, iw, ih))) && p@ == pixels && iw == w
                && ih == h,
        },
{
    if data.len() < 128 {
        return Some(Err(FontError::PcxTooShort));
    }
    if data[0] != 0x0a || data[2] != 1 || data[3] != 8 {
        return Some(Err(FontError::PcxNotRle8));
    }
    let x_min = read_u16_le(data, 4);
    let y_min = read_u16_le(data, 6);
    let x_max = read_u16_le(data, 8);
    let y_max = read_u16_le(data, 10);
    if x_max < x_min || y_max < y_min {
        return Some(Err(FontError::PcxBoundsInverted));
    }
    if x_max - x_min == 0xffff || y_max - y_min == 0xffff {
        return None;
    }
    let width = (x_max - x_min + 1) as u32;
    let height = (y_max - y_min + 1) as u32;
    let bytes_per_line = read_u16_le(data, 66) as u32;
    let required = match bytes_per_line.checked_mul(height) {
        Some(required) => required,
        None => return Some(Err(FontError::PcxSizeOverflow)),
    };
    let end = if data.len() >= 769 && data[data.len() - 769] == 0x0c {
        data.len() - 769
    } else {
        data.len()
    };
    let decoded = match rle_decode(data, end, required as usize) {
        Err(e) => return Some(Err(e)),
        Ok(decoded) => decoded,
    };
    if decoded.len() < required as usize {
        return Some(Err(FontError::PcxTruncated { decoded: decoded.len(), required }));
    }
    assert((height - 1) * bytes_per_line <= 0xffff * 0xffff) by (nonlinear_arith)
        requires
            height <= 0xffff,
            bytes_per_line <= 0xffff,
    ;
    if (height as u64 - 1) * bytes_per_line as u64 + width as u64 > decoded.len() as u64 {
        return None;
    }
    let ghost w = width as int;
    let ghost h = height as int;
    let ghost bpl = bytes_per_line as int;
    let decoded_len = decoded.len();
    let mut trimmed: Vec<u8> = Vec::new();
    let mut y: u32 = 0;
    while y < height
        invariant
            w == width,
            h == height,
            bpl == bytes_per_line,
            1 <= width <= 0xffff,
            1 <= height <= 0xffff,
            bytes_per_line <= 0xffff,
            y <= height,
            (h - 1) * bpl + w <= decoded@.len(),
            decoded_len == decoded@.len(),
            trimmed@.len() == y * w,
            forall|i: int| 0 <= i < trimmed@.len() ==> #[trigger] trimmed@[i] == decoded@[(i / w) * bpl + i % w],
        decreases height - y,
    {
        proof {
            lemma_row_fits(y as int, h, bpl, w, decoded@.len() as int);
        }
        assert(decoded_len <= usize::MAX);
        assert(y as usize * bytes_per_line as usize <= usize::MAX);
        let row_start = y as usize * bytes_per_line as usize;
        let mut x: u32 = 0;
        while x < width
            invariant
                w == width,
                h == height,
                bpl == bytes_per_line,
                1 <= width <= 0xffff,
                y < height,
                x <= width,
                row_start == y * bpl,
                row_start + w <= decoded@.len(),
                decoded_len == decoded@.len(),
                trimmed@.len() == y * w + x,
                forall|i: int| 0 <= i < trimmed@.len() ==> #[trigger] trimmed@[i] == decoded@[(i / w) * bpl + i % w],
            decreases width - x,
        {
            proof {
                crate::diagnostics::frame::lemma_pixel_coordinates(w, y as int, x as int);
            }
            trimmed.push(decoded[row_start + x as usize]);
            x = x + 1;
        }
        y = y + 1;
        assert(trimmed@.len() == y * w) by (nonlinear_arith)
            requires
                trimmed@.len() == (y - 1) * w + w,
        ;
    }
    assert(trimmed@.len() == w * h) by (nonlinear_arith)
        requires
            trimmed@.len() == y * w,
            y == h,
    ;
    Some(Ok((trimmed, width, height)))
}

// ---------------------------------------------------------------------------
// The font

/// The smallest power of two, from `p` upwards by doubling, that is at least
/// `n`.
pub open spec fn spec_power_of_two_from(p: int, n: int) -> int
    decreases n - p,
{
    if p >= n || p <= 0 {
        p
    } else if 2 * p >= n {
        2 * p
    } else {
        spec_power_of_two_from(2 * p, n)
    }
}

/// `u32::next_power_of_two`: the smallest power of two at least `n` (1 for 0).
pub open spec fn spec_next_power_of_two(n: u32) -> int {
    spec_power_of_two_from(1, n as int)
}

/// Whether `value` is a power of two.
pub open spec fn spec_is_power_of_two(value: int) -> bool {
    exists|k: nat| pow2(k) == value
}

proof fn lemma_power_of_two_from(p: int, n: int, k: nat)
    requires
        p == pow2(k),
    ensures
        spec_power_of_two_from(p, n) >= n,
        spec_is_power_of_two(spec_power_of_two_from(p, n)),
        p < n ==> spec_power_of_two_from(p, n) < 2 * n,
    decreases n - p,
{
    lemma_pow2_pos(k);
    lemma_pow2_unfold(k + 1);
    if p >= n {
        assert(pow2(k) == spec_power_of_two_from(p, n));
    } else if 2 * p >= n {
        assert(pow2(k + 1) == spec_power_of_two_from(p, n));
    } else {
        lemma_power_of_two_from(2 * p, n, k + 1);
    }
}

/// `next_power_of_two(n)` is a power of two that holds `n`, and for `n` of at
/// least 1 it is less than `2 * n`, so that no smaller power of two holds `n`.
pub proof fn lemma_next_power_of_two(n: u32)
    ensures
        n <= spec_next_power_of_two(n),
        spec_is_power_of_two(spec_next_power_of_two(n)),
        n >= 1 ==> spec_next_power_of_two(n) < 2 * n,
{
    reveal(pow);
    assert(pow2(0) == 1);
    lemma_power_of_two_from(1, n as int, 0);
}

fn next_power_of_two(n: u32) -> (p: u32)
    requires
        n <= 0x1_0000,
    ensures
        p == spec_next_power_of_two(n),
        n <= p <= 0x2_0000,
{
    let mut p: u32 = 1;
    while p < n
        invariant
            1 <= p <= 0x2_0000,
            n <= 0x1_0000,
            p == 1 || p < 2 * n,
            spec_power_of_two_from(p as int, n as int) == spec_next_power_of_two(n),
        decreases 0x2_0000 - p,
    {
        p = p * 2;
    }
    p
}

/// Whether a glyph reaches past a texture `texture_width` pixels wide.
pub open spec fn spec_glyph_outside(glyph: DiagnosticGlyph, texture_width: int) -> bool {
    glyph.x >= texture_width || glyph.x + glyph.width > texture_width
}

/// The first entry of a glyph table that reaches past the texture.
pub open spec fn spec_first_glyph_outside(glyphs: Seq<(char, DiagnosticGlyph)>, texture_width: int) -> Option<
    (char, DiagnosticGlyph),
>
    decreases glyphs.len(),
{
    if glyphs.len() == 0 {
        None
    } else if spec_glyph_outside(glyphs[0].1, texture_width) {
        Some(glyphs[0])
    } else {
        spec_first_glyph_outside(glyphs.drop_first(), texture_width)
    }
}

/// Byte `i` of the RGBA atlas: white pixels, opaque where the indexed image
/// is not 0, and transparent black in the padding.
pub open spec fn spec_atlas_byte(
    pixels: Seq<u8>,
    image_width: int,
    image_height: int,
    texture_width: int,
    i: int,
) -> u8 {
    let pixel = i / 4;
    let y = pixel / texture_width;
    let x = pixel % texture_width;
    if y < image_height && x < image_width {
        if i % 4 < 3 {
            255
        } else if pixels[y * image_width + x] == 0 {
            0
        } else {
            255
        }
    } else {
        0
    }
}

/// A font as plain values.
pub struct FontModel {
    pub glyphs: Seq<(char, DiagnosticGlyph)>,
    pub rgba_pixels: Seq<u8>,
    pub image_width: u32,
    pub image_height: u32,
    pub texture_width: u32,
    pub texture_height: u32,
    pub glyph_width: u32,
    pub glyph_height: u32,
    pub spacing_x: i32,
    pub spacing_y: i32,
}

/// The font in an FNT v1 file: the header, the two sections it points at,
/// the text section (decoded as UTF-8 with replacement), the PCX atlas, and
/// the checks on their metrics, in that order; the atlas is padded to powers
/// of two. `None` where reading it overflows: the PCX conditions of
/// `spec_pcx_indexed`, or a padded RGBA atlas of more than `u32::MAX` bytes.
pub open spec fn spec_fnt_v1_font(bytes: Seq<u8>) -> Option<Result<FontModel, FontFault>> {
    match spec_fnt_header(bytes) {
        Err(e) => Some(Err(e)),
        Ok(header) => match spec_checked_slice(bytes, header.pcx_offset, header.pcx_size, FntSection::Pcx) {
            Err(e) => Some(Err(e)),
            Ok(pcx) => match spec_checked_slice(bytes, header.text_offset, header.text_size, FntSection::Text) {
                Err(e) => Some(Err(e)),
                Ok(text) => match spec_parse_fnt_text(spec_utf8_lossy(text)) {
                    Err(e) => Some(Err(e)),
                    Ok(definition) => match spec_pcx_indexed(pcx) {
                        None => None,
                        Some(Err(e)) => Some(Err(e)),
                        Some(Ok((pixels, image_width, image_height))) => {
                            let texture_width = spec_next_power_of_two(image_width);
                            let texture_height = spec_next_power_of_two(image_height);
                            if definition.glyph_height == 0 || definition.glyph_width == 0 {
                                Some(Err(FontFault::ZeroGlyphMetrics))
                            } else if image_height < definition.glyph_height {
                                Some(
                                    Err(
                                        FontFault::ImageTooShort {
                                            image_height,
                                            glyph_height: definition.glyph_height,
                                        },
                                    ),
                                )
                            } else {
                                match spec_first_glyph_outside(definition.glyphs, texture_width) {
                                    Some((character, glyph)) => Some(
                                        Err(
                                            FontFault::GlyphOutsideTexture {
                                                character,
                                                x: glyph.x,
                                                width: glyph.width,
                                                texture_width: texture_width as u32,
                                            },
                                        ),
                                    ),
                                    None => if texture_width * texture_height * 4 > u32::MAX {
                                        None
                                    } else {
                                        Some(
                                            Ok(
                                                FontModel {
                                                    glyphs: definition.glyphs,
                                                    rgba_pixels: Seq::new(
                                                        (texture_width * texture_height * 4) as nat,
                                                        |i: int|
                                                            spec_atlas_byte(
                                                                pixels,
                                                                image_width as int,
                                                                image_height as int,
                                                                texture_width,
                                                                i,
                                                            ),
                                                    ),
                                                    image_width,
                                                    image_height,
                                                    texture_width: texture_width as u32,
                                                    texture_height: texture_height as u32,
                                                    glyph_width: definition.glyph_width,
                                                    glyph_height: definition.glyph_height,
                                                    spacing_x: definition.spacing_x,
                                                    spacing_y: definition.spacing_y,
                                                },
                                            ),
                                        )
                                    },
                                }
                            }
                        },
                    },
                },
            },
        },
    }
}

/// A font read from an FNT v1 file has an atlas padded to powers of two: each
/// texture dimension is the smallest power of two that holds the image
/// dimension, and the atlas holds four bytes per texture pixel.
pub proof fn lemma_fnt_v1_atlas_is_padded(bytes: Seq<u8>)
    ensures
        spec_fnt_v1_font(bytes) matches Some(Ok(font)) ==> {
            &&& font.image_width <= font.texture_width < 2 * font.image_width
            &&& font.image_height <= font.texture_height < 2 * font.image_height
            &&& spec_is_power_of_two(font.texture_width as int)
            &&& spec_is_power_of_two(font.texture_height as int)
            &&& font.rgba_pixels.len() == font.texture_width * font.texture_height * 4
        },
{
    if let Some(Ok(font)) = spec_fnt_v1_font(bytes) {
        lemma_next_power_of_two(font.image_width);
        lemma_next_power_of_two(font.image_height);
    }
}

/// A bitmap font: the character map, the RGBA atlas padded to powers of two,
/// and the glyph metrics.
pub struct DiagnosticFont {
    /// The glyph table: one entry per mapped character.
    glyphs: Vec<(char, DiagnosticGlyph)>,
    pub rgba_pixels: Vec<u8>,
    image_width: u32,
    image_height: u32,
    pub texture_width: u32,
    pub texture_height: u32,
    pub glyph_width: u32,
    pub glyph_height: u32,
    spacing_x: i32,
    spacing_y: i32,
}

impl View for DiagnosticFont {
    type V = FontModel;

    closed spec fn view(&self) -> FontModel {
        FontModel {
            glyphs: self.glyphs@,
            rgba_pixels: self.rgba_pixels@,
            image_width: self.image_width,
            image_height: self.image_height,
            texture_width: self.texture_width,
            texture_height: self.texture_height,
            glyph_width: self.glyph_width,
            glyph_height: self.glyph_height,
            spacing_x: self.spacing_x,
            spacing_y: self.spacing_y,
        }
    }
}

fn first_glyph_outside(glyphs: &Vec<(char, DiagnosticGlyph)>, texture_width: u32) -> (found: Option<
    (char, DiagnosticGlyph),
>)
    ensures
        found == spec_first_glyph_outside(glyphs@, texture_width as int),
{
    let mut i: usize = 0;
    assert(glyphs@.skip(0) =~= glyphs@);
    while i < glyphs.len()
        invariant
            i <= glyphs@.len(),
            spec_first_glyph_outside(glyphs@, texture_width as int) == spec_first_glyph_outside(
                glyphs@.skip(i as int),
                texture_width as int,
            ),
        decreases glyphs.len() - i,
    {
        let (character, glyph) = glyphs[i];
        assert(glyphs@.skip(i as int)[0] == glyphs@[i as int]);
        assert(glyphs@.skip(i as int).drop_first() =~= glyphs@.skip(i + 1));
        if glyph.x >= texture_width || glyph.x as u64 + glyph.width as u64 > texture_width as u64 {
            return Some((character, glyph));
        }
        i = i + 1;
    }
    assert(glyphs@.skip(i as int) =~= Seq::<(char, DiagnosticGlyph)>::empty());
    None
}

fn alpha_atlas(
    pixels: &Vec<u8>,
    image_width: u32,
    image_height: u32,
    texture_width: u32,
    texture_height: u32,
) -> (rgba: Vec<u8>)
    requires
        image_width <= texture_width,
        image_height <= texture_height,
        texture_width >= 1,
        pixels@.len() == image_width * image_height,
        texture_width * texture_height * 4 <= u32::MAX,
    ensures
        rgba@ == Seq::new(
            (texture_width * texture_height * 4) as nat,
            |i: int|
                spec_atlas_byte(pixels@, image_width as int, image_height as int, texture_width as int, i),
        ),
{
    let ghost tw = texture_width as int;
    let ghost iw = image_width as int;
    let ghost ih = image_height as int;
    let pixel_count = pixels.len();
    let mut rgba: Vec<u8> = Vec::new();
    let mut y: u32 = 0;
    while y < texture_height
        invariant
            tw == texture_width,
            iw == image_width,
            ih == image_height,
            image_width <= texture_width,
            image_height <= texture_height,
            texture_width >= 1,
            pixels@.len() == iw * ih,
            pixel_count == pixels@.len(),
            texture_width * texture_height * 4 <= u32::MAX,
            y <= texture_height,
            rgba@.len() == y * tw * 4,
            forall|i: int| 0 <= i < rgba@.len() ==> #[trigger] rgba@[i] == spec_atlas_byte(pixels@, iw, ih, tw, i),
        decreases texture_height - y,
    {
        let mut x: u32 = 0;
        while x < texture_width
            invariant
                tw == texture_width,
                iw == image_width,
                ih == image_height,
                image_width <= texture_width,
                image_height <= texture_height,
                texture_width >= 1,
                pixels@.len() == iw * ih,
                pixel_count == pixels@.len(),
                texture_width * texture_height * 4 <= u32::MAX,
                y < texture_height,
                x <= texture_width,
                rgba@.len() == (y * tw + x) * 4,
                forall|i: int| 0 <= i < rgba@.len() ==> #[trigger] rgba@[i] == spec_atlas_byte(pixels@, iw, ih, tw, i),
            decreases texture_width - x,
        {
            let ghost q = y * tw + x;
            proof {
                crate::diagnostics::frame::lemma_pixel_coordinates(tw, y as int, x as int);
                assert(q / tw == y && q % tw == x);
            }
            let alpha: u8 = if y < image_height && x < image_width {
                assert(y * iw + x < iw * ih) by (nonlinear_arith)
                    requires
                        y < ih,
                        x < iw,
                ;
                let index = y as usize * image_width as usize + x as usize;
                if pixels[index] == 0 {
                    0
                } else {
                    255
                }
            } else {
                0
            };
            let color: u8 = if y < image_height && x < image_width {
                255
            } else {
                0
            };
            let ghost base = rgba@.len() as int;
            assert(base == 4 * q);
            rgba.push(color);
            rgba.push(color);
            rgba.push(color);
            rgba.push(alpha);
            proof {
                assert forall|c: int| 0 <= c < 4 implies (#[trigger] (4 * q + c)) / 4 == q && (4 * q
                    + c) % 4 == c by {
                    vstd::arithmetic::div_mod::lemma_fundamental_div_mod_converse(4 * q + c, 4, q, c);
                }
                assert(forall|i: int| base <= i < base + 4 ==> #[trigger] rgba@[i] == spec_atlas_byte(pixels@, iw, ih, tw, i)) by {
                    assert forall|i: int| base <= i < base + 4 implies #[trigger] rgba@[i] == spec_atlas_byte(pixels@, iw, ih, tw, i) by {
                        assert(i == 4 * q + (i - base));
                    }
                }
            }
            x = x + 1;
            assert(rgba@.len() == (y * tw + x) * 4);
        }
        y = y + 1;
        assert(rgba@.len() == y * tw * 4) by (nonlinear_arith)
            requires
                rgba@.len() == ((y - 1) * tw + tw) * 4,
        ;
    }
    assert(rgba@.len() == tw * texture_height * 4) by (nonlinear_arith)
        requires
            rgba@.len() == y * tw * 4,
            y == texture_height,
    ;
    assert(rgba@ =~= Seq::new(
        (texture_width * texture_height * 4) as nat,
        |i: int| spec_atlas_byte(pixels@, iw, ih, tw, i),
    ));
    rgba
}

impl DiagnosticFont {
    /// Whether no character has two entries in the character map.
    pub closed spec fn wf(&self) -> bool {
        spec_unique_chars(self.glyphs@)
    }

    /// Reads an FNT v1 font, or says why it is refused; `None` on the
    /// inputs where reading it overflows (see `spec_fnt_v1_font`).
    pub fn try_from_fnt_v1(bytes: &[u8]) -> (font: Option<Result<Self, FontError>>)
        ensures
            match spec_fnt_v1_font(bytes@) {
                None => font is None,
                Some(Err(e)) => font matches Some(Err(f)) && f@ == e,
                Some(Ok(model)) => font matches Some(Ok(f)) && f@ == model && f.wf(),
            },
    {
        let header = match FntV1Header::parse(bytes) {
            Err(e) => return Some(Err(e)),
            Ok(header) => header,
        };
        let pcx = match checked_slice(bytes, header.pcx_offset, header.pcx_size, FntSection::Pcx) {
            Err(e) => return Some(Err(e)),
            Ok(pcx) => pcx,
        };
        let text_bytes = match checked_slice(bytes, header.text_offset, header.text_size, FntSection::Text) {
            Err(e) => return Some(Err(e)),
            Ok(text) => text,
        };
        let text = utf8_lossy(text_bytes);
        let definition = match FntTextDefinition::parse(text.as_str()) {
            Err(e) => return Some(Err(e)),
            Ok(definition) => definition,
        };
        let (pixels, image_width, image_height) = match parse_pcx_indexed(pcx) {
            None => return None,
            Some(Err(e)) => return Some(Err(e)),
            Some(Ok(image)) => image,
        };
        if definition.glyph_height == 0 || definition.glyph_width == 0 {
            return Some(Err(FontError::ZeroGlyphMetrics));
        }
        if image_height < definition.glyph_height {
            return Some(
                Err(
                    FontError::ImageTooShort {
                        image_height,
                        glyph_height: definition.glyph_height,
                    },
                ),
            );
        }
        let texture_width = next_power_of_two(image_width);
        let texture_height = next_power_of_two(image_height);
        match first_glyph_outside(&definition.glyphs, texture_width) {
            Some((character, glyph)) => {
                return Some(
                    Err(
                        FontError::GlyphOutsideTexture {
                            character,
                            x: glyph.x,
                            width: glyph.width,
                            texture_width,
                        },
                    ),
                );
            },
            None => {},
        }
        assert(texture_width * texture_height * 4 <= 0x2_0000 * 0x2_0000 * 4) by (nonlinear_arith)
            requires
                texture_width <= 0x2_0000,
                texture_height <= 0x2_0000,
        ;
        if texture_width as u64 * texture_height as u64 * 4 > 0xffff_ffff {
            return None;
        }
        let rgba_pixels = alpha_atlas(&pixels, image_width, image_height, texture_width, texture_height);
        Some(
            Ok(
                DiagnosticFont {
                    glyphs: definition.glyphs,
                    rgba_pixels,
                    image_width,
                    image_height,
                    texture_width,
                    texture_height,
                    glyph_width: definition.glyph_width,
                    glyph_height: definition.glyph_height,
                    spacing_x: definition.spacing_x,
                    spacing_y: definition.spacing_y,
                },
            ),
        )
    }

    /// Reads an FNT v1 font, or says why it is refused.
    pub fn from_fnt_v1(bytes: &[u8]) -> (font: Result<Self, FontError>)
        requires
            spec_fnt_v1_font(bytes@) is Some,
        ensures
            match spec_fnt_v1_font(bytes@) {
                None => false,
                Some(Err(e)) => font matches Err(f) && f@ == e,
                Some(Ok(model)) => font matches Ok(f) && f@ == model && f.wf(),
            },
    {
        match Self::try_from_fnt_v1(bytes) {
            Some(font) => font,
            None => Err(FontError::HeaderTooShort),
        }
    }

    /// The glyph of `value`, if the character map has one.
    pub fn glyph(&self, value: char) -> (glyph: Option<DiagnosticGlyph>)
        requires
            self.wf(),
        ensures
            glyph == spec_glyph_lookup(self@.glyphs, value),
    {
        match find_glyph(&self.glyphs, value) {
            Some(k) => Some(self.glyphs[k].1),
            None => None,
        }
    }

    /// Width of the PCX image the atlas was made from.
    pub fn image_width(&self) -> (width: u32)
        ensures
            width == self@.image_width,
    {
        self.image_width
    }

    /// Height of the PCX image the atlas was made from.
    pub fn image_height(&self) -> (height: u32)
        ensures
            height == self@.image_height,
    {
        self.image_height
    }

    /// Horizontal spacing between glyphs.
    pub fn spacing_x(&self) -> (spacing: i32)
        ensures
            spacing == self@.spacing_x,
    {
        self.spacing_x
    }

    /// Vertical spacing between lines.
    pub fn spacing_y(&self) -> (spacing: i32)
        ensures
            spacing == self@.spacing_y,
    {
        self.spacing_y
    }
}

} // verus!
