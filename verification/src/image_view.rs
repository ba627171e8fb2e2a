use vstd::prelude::*;
use crate::text::{decimal, digit_char, push_char, push_str, push_u64_decimal};
use base64::Engine;

verus! {

/// The image formats a model accepts as input.
#[derive(Debug, Clone, Copy, PartialEq, Eq, Structural)]
pub enum SupportedImageFormat {
    Png,
    Jpeg,
    Webp,
}

/// The largest image file read when the configuration sets no limit (20 MB).
pub const DEFAULT_MAX_FILE_SIZE_BYTES: u64 = 20971520;

/// Whether the image data travels with the tool result when the call does not say.
pub fn default_include_base64() -> (r: bool)
    ensures
        r,
{
    true
}

/// The image size limit: the configured one, else the default.
pub fn max_file_size_bytes(configured: Option<u64>) -> (r: u64)
    ensures
        r == (match configured {
            Some(m) => m,
            None => DEFAULT_MAX_FILE_SIZE_BYTES,
        }),
{
    match configured {
        Some(m) => m,
        None => DEFAULT_MAX_FILE_SIZE_BYTES,
    }
}

pub open spec fn mime_text(f: SupportedImageFormat) -> Seq<char> {
    match f {
        SupportedImageFormat::Png => "image/png"@,
        SupportedImageFormat::Jpeg => "image/jpeg"@,
        SupportedImageFormat::Webp => "image/webp"@,
    }
}

impl SupportedImageFormat {
    /// The MIME type of the format.
    pub fn mime_type(&self) -> (r: &'static str)
        ensures
            r@ == mime_text(*self),
    {
        match self {
            SupportedImageFormat::Png => "image/png",
            SupportedImageFormat::Jpeg => "image/jpeg",
            SupportedImageFormat::Webp => "image/webp",
        }
    }
}

/// `p` is a prefix of `b`.
pub open spec fn starts_with(b: Seq<u8>, p: Seq<u8>) -> bool {
    p.len() <= b.len() && b.subrange(0, p.len() as int) == p
}

/// The bytes of an ASCII letter in either case.
pub open spec fn ascii_lower(c: u8) -> u8 {
    if 65 <= c <= 90 { (c + 32) as u8 } else { c }
}

/// The bytes hold `<svg` at `i`, letters in any case.
pub open spec fn svg_tag_at(b: Seq<u8>, i: int) -> bool {
    &&& 0 <= i && i + 4 <= b.len()
    &&& b[i] == 60u8
    &&& ascii_lower(b[i + 1]) == 115u8
    &&& ascii_lower(b[i + 2]) == 118u8
    &&& ascii_lower(b[i + 3]) == 103u8
}

/// Whether `bytes` are well-formed UTF-8: `std::str::from_utf8` accepts
/// exactly the byte sequences that `vstd::utf8::valid_utf8` describes
/// (well-formed scalars, no overlong forms, no surrogates).
#[verifier::external_body]
fn utf8_valid(bytes: &[u8]) -> (r: bool)
    ensures
        r == vstd::utf8::valid_utf8(bytes@),
{
    std::str::from_utf8(bytes).is_ok()
}

/// The format of an image from its first bytes, or why it cannot be used.
pub open spec fn image_format(b: Seq<u8>) -> Result<SupportedImageFormat, Seq<char>> {
    if starts_with(b, seq![0x89u8, 0x50u8, 0x4eu8, 0x47u8, 0x0du8, 0x0au8, 0x1au8, 0x0au8]) {
        Ok(SupportedImageFormat::Png)
    } else if starts_with(b, seq![0xffu8, 0xd8u8, 0xffu8]) {
        Ok(SupportedImageFormat::Jpeg)
    } else if starts_with(b, seq![0x52u8, 0x49u8, 0x46u8, 0x46u8]) && b.len() >= 12 && b.subrange(8, 12)
        == seq![0x57u8, 0x45u8, 0x42u8, 0x50u8] {
        Ok(SupportedImageFormat::Webp)
    } else if starts_with(b, seq![0x47u8, 0x49u8, 0x46u8, 0x38u8, 0x37u8, 0x61u8]) || starts_with(
        b,
        seq![0x47u8, 0x49u8, 0x46u8, 0x38u8, 0x39u8, 0x61u8],
    ) {
        Err("GIF format is not supported for model image input. Only PNG, JPEG, and WEBP are supported."@)
    } else if starts_with(b, seq![0x42u8, 0x4du8]) {
        Err("BMP format is not supported for model image input. Only PNG, JPEG, and WEBP are supported."@)
    } else if starts_with(b, seq![0x49u8, 0x49u8, 0x2au8, 0x00u8]) || starts_with(
        b,
        seq![0x4du8, 0x4du8, 0x00u8, 0x2au8],
    ) {
        Err("TIFF format is not supported for model image input. Only PNG, JPEG, and WEBP are supported."@)
    } else if starts_with(b, seq![0x00u8, 0x00u8, 0x01u8, 0x00u8]) {
        Err("ICO format is not supported for model image input. Only PNG, JPEG, and WEBP are supported."@)
    } else if vstd::utf8::valid_utf8(b) && exists|i: int| #[trigger] svg_tag_at(b, i) {
        Err("SVG format is not supported for model image input. Only PNG, JPEG, and WEBP are supported."@)
    } else {
        Err("unrecognized or unsupported image format. Supported formats: PNG, JPEG, WEBP."@)
    }
}

fn bytes_start_with(b: &[u8], p: &[u8]) -> (r: bool)
    ensures
        r == starts_with(b@, p@),
{
    if p.len() > b.len() {
        return false;
    }
    let mut i: usize = 0;
    while i < p.len()
        invariant
            p@.len() <= b@.len(),
            i <= p@.len(),
            forall|j: int| 0 <= j < i ==> b@[j] == p@[j],
        decreases p@.len() - i,
    {
        if b[i] != p[i] {
            assert(b@.subrange(0, p@.len() as int)[i as int] != p@[i as int]);
            return false;
        }
        i = i + 1;
    }
    assert(b@.subrange(0, p@.len() as int) =~= p@);
    true
}

fn lower(c: u8) -> (r: u8)
    ensures
        r == ascii_lower(c),
{
    if 65 <= c && c <= 90 { c + 32 } else { c }
}

fn has_svg_tag(b: &[u8]) -> (r: bool)
    ensures
        r == exists|i: int| #[trigger] svg_tag_at(b@, i),
{
    if b.len() < 4 {
        return false;
    }
    let mut i: usize = 0;
    while i < b.len() - 3
        invariant
            b@.len() >= 4,
            i <= b@.len() - 3,
            forall|j: int| 0 <= j < i ==> !#[trigger] svg_tag_at(b@, j),
        decreases b@.len() - i,
    {
        if b[i] == 60 && lower(b[i + 1]) == 115 && lower(b[i + 2]) == 118 && lower(b[i + 3]) == 103 {
            assert(svg_tag_at(b@, i as int));
            return true;
        }
        i = i + 1;
    }
    assert forall|j: int| !#[trigger] svg_tag_at(b@, j) by {
        if 0 <= j < i {
        }
    }
    false
}

/// The format of an image (see `image_format`).
pub fn detect_supported_format(bytes: &[u8]) -> (r: Result<SupportedImageFormat, String>)
    ensures
        match image_format(bytes@) {
            Ok(f) => r == Ok::<SupportedImageFormat, String>(f),
            Err(m) => r matches Err(e) && e@ == m,
        },
{
    let png: [u8; 8] = [0x89, 0x50, 0x4e, 0x47, 0x0d, 0x0a, 0x1a, 0x0a];
    let jpeg: [u8; 3] = [0xff, 0xd8, 0xff];
    let riff: [u8; 4] = [0x52, 0x49, 0x46, 0x46];
    let webp: [u8; 4] = [0x57, 0x45, 0x42, 0x50];
    let gif7: [u8; 6] = [0x47, 0x49, 0x46, 0x38, 0x37, 0x61];
    let gif9: [u8; 6] = [0x47, 0x49, 0x46, 0x38, 0x39, 0x61];
    let bmp: [u8; 2] = [0x42, 0x4d];
    let tiff_le: [u8; 4] = [0x49, 0x49, 0x2a, 0x00];
    let tiff_be: [u8; 4] = [0x4d, 0x4d, 0x00, 0x2a];
    let ico: [u8; 4] = [0x00, 0x00, 0x01, 0x00];
    proof {
        assert(png@ =~= seq![0x89u8, 0x50u8, 0x4eu8, 0x47u8, 0x0du8, 0x0au8, 0x1au8, 0x0au8]);
        assert(jpeg@ =~= seq![0xffu8, 0xd8u8, 0xffu8]);
        assert(riff@ =~= seq![0x52u8, 0x49u8, 0x46u8, 0x46u8]);
        assert(webp@ =~= seq![0x57u8, 0x45u8, 0x42u8, 0x50u8]);
        assert(gif7@ =~= seq![0x47u8, 0x49u8, 0x46u8, 0x38u8, 0x37u8, 0x61u8]);
        assert(gif9@ =~= seq![0x47u8, 0x49u8, 0x46u8, 0x38u8, 0x39u8, 0x61u8]);
        assert(bmp@ =~= seq![0x42u8, 0x4du8]);
        assert(tiff_le@ =~= seq![0x49u8, 0x49u8, 0x2au8, 0x00u8]);
        assert(tiff_be@ =~= seq![0x4du8, 0x4du8, 0x00u8, 0x2au8]);
        assert(ico@ =~= seq![0x00u8, 0x00u8, 0x01u8, 0x00u8]);
    }
    if bytes_start_with(bytes, &png) {
        return Ok(SupportedImageFormat::Png);
    }
    if bytes_start_with(bytes, &jpeg) {
        return Ok(SupportedImageFormat::Jpeg);
    }
    if bytes_start_with(bytes, &riff) && bytes.len() >= 12 {
        let tail = &bytes[8..12];
        if bytes_start_with(tail, &webp) {
            assert(tail@ =~= bytes@.subrange(8, 12));
            assert(tail@.subrange(0, 4) =~= tail@);
            return Ok(SupportedImageFormat::Webp);
        }
        assert(tail@ =~= bytes@.subrange(8, 12));
        assert(tail@.subrange(0, 4) =~= tail@);
    }
    if bytes_start_with(bytes, &gif7) || bytes_start_with(bytes, &gif9) {
        return Err(
            "GIF format is not supported for model image input. Only PNG, JPEG, and WEBP are supported.".to_string(),
        );
    }
    if bytes_start_with(bytes, &bmp) {
        return Err(
            "BMP format is not supported for model image input. Only PNG, JPEG, and WEBP are supported.".to_string(),
        );
    }
    if bytes_start_with(bytes, &tiff_le) || bytes_start_with(bytes, &tiff_be) {
        return Err(
            "TIFF format is not supported for model image input. Only PNG, JPEG, and WEBP are supported.".to_string(),
        );
    }
    if bytes_start_with(bytes, &ico) {
        return Err(
            "ICO format is not supported for model image input. Only PNG, JPEG, and WEBP are supported.".to_string(),
        );
    }
    if utf8_valid(bytes) && has_svg_tag(bytes) {
        return Err(
            "SVG format is not supported for model image input. Only PNG, JPEG, and WEBP are supported.".to_string(),
        );
    }
    Err("unrecognized or unsupported image format. Supported formats: PNG, JPEG, WEBP.".to_string())
}

/// `num / den` rounded to the nearest integer, ties to even (how `{:.2}`
/// rounds an exactly representable value).
pub open spec fn round_half_even(num: nat, den: nat) -> nat
    recommends
        den > 0,
{
    let q = num / den;
    let r = num % den;
    if 2 * r > den {
        q + 1
    } else if 2 * r == den && q % 2 == 1 {
        q + 1
    } else {
        q
    }
}

/// `h` hundredths written with two decimals.
pub open spec fn hundredths_text(h: nat) -> Seq<char> {
    decimal(h / 100) + seq!['.', digit_char((h / 10) % 10), digit_char(h % 10)]
}

/// 2 to the power `s`.
pub open spec fn two_to(s: nat) -> nat
    decreases s,
{
    if s == 0 {
        1
    } else {
        2 * two_to((s - 1) as nat)
    }
}

/// How many low bits of `n` an `f64` cannot hold: those beyond the 53
/// significant bits of the format.
pub open spec fn dropped_bits(n: nat) -> nat
    decreases n,
{
    if n < 0x20_0000_0000_0000 {
        0
    } else {
        1 + dropped_bits(n / 2)
    }
}

/// The value of `n as f64`: `n` rounded to 53 significant bits, ties to even.
pub open spec fn as_f64(n: nat) -> nat {
    round_half_even(n, two_to(dropped_bits(n))) * two_to(dropped_bits(n))
}

/// The human readable size of a file of `bytes` bytes: the count converted
/// to `f64` and divided by 1024 or 1024 * 1024 (exact in binary), then
/// written with two decimals (ties to even), followed by the exact count.
pub open spec fn file_size_text(bytes: nat) -> Seq<char> {
    if bytes < 1024 {
        decimal(bytes) + " B"@
    } else if bytes < 1048576 {
        hundredths_text(round_half_even(bytes * 100, 1024)) + " KB ("@ + decimal(bytes) + " bytes)"@
    } else {
        hundredths_text(round_half_even(as_f64(bytes) * 100, 1048576)) + " MB ("@ + decimal(bytes) + " bytes)"@
    }
}

fn push_hundredths(s: &mut String, h: u64)
    ensures
        final(s)@ == old(s)@ + hundredths_text(h as nat),
{
    push_u64_decimal(s, h / 100);
    push_char(s, '.');
    let tens = (h / 10) % 10;
    let ones = h % 10;
    let mut d = String::new();
    push_u64_decimal(&mut d, tens);
    push_u64_decimal(&mut d, ones);
    assert(decimal(tens as nat) == seq![digit_char(tens as nat)]);
    assert(decimal(ones as nat) == seq![digit_char(ones as nat)]);
    push_str(s, d.as_str());
    assert(final(s)@ =~= old(s)@ + hundredths_text(h as nat));
}

fn rounded_hundredths(bytes: u64, den: u64) -> (r: u64)
    requires
        bytes <= 0x20_0000_0000_0000u64,
        den == 1024 || den == 1048576,
    ensures
        r == round_half_even(bytes as nat * 100, den as nat),
{
    let num = bytes * 100;
    let q = num / den;
    let rem = num % den;
    if 2 * rem > den {
        q + 1
    } else if 2 * rem == den && q % 2 == 1 {
        q + 1
    } else {
        q
    }
}

/// `n as f64`, as an integer (see `as_f64`).
fn f64_value(n: u64) -> (r: u128)
    ensures
        r as nat == as_f64(n as nat),
        r <= 0x1_0000_0000_0000_1000u128,
{
    let mut m: u64 = n;
    let mut unit: u128 = 1;
    let ghost mut s: nat = 0;
    while m >= 0x20_0000_0000_0000u64
        invariant
            m as nat == n as nat / (unit as nat),
            unit as nat == two_to(s),
            dropped_bits(n as nat) == s + dropped_bits(m as nat),
            1 <= unit <= 4096,
        decreases m,
    {
        proof {
            vstd::arithmetic::div_mod::lemma_div_denominator(n as int, unit as int, 2);
            vstd::arithmetic::div_mod::lemma_fundamental_div_mod(n as int, unit as int);
            assert(unit * m <= n);
            assert(unit * 0x20_0000_0000_0000 <= unit * m) by (nonlinear_arith)
                requires
                    m >= 0x20_0000_0000_0000u64,
                    unit >= 1,
            ;
            assert(dropped_bits(m as nat) == 1 + dropped_bits(m as nat / 2));
        }
        m = m / 2;
        unit = unit * 2;
        proof {
            s = s + 1;
        }
    }
    let q: u128 = (n as u128) / unit;
    let rem: u128 = (n as u128) % unit;
    proof {
        assert(q <= n);
    }
    let rounded: u128 = if 2 * rem > unit {
        q + 1
    } else if 2 * rem == unit && q % 2 == 1 {
        q + 1
    } else {
        q
    };
    proof {
        vstd::arithmetic::div_mod::lemma_fundamental_div_mod(n as int, unit as int);
        assert(q * unit <= n);
        assert(rounded * unit <= q * unit + unit) by (nonlinear_arith)
            requires
                rounded <= q + 1,
        ;
    }
    rounded * unit
}

/// The size of a file for people: bytes below 1 KiB, else KB or MB with two
/// decimals and the exact byte count.
pub fn format_file_size(bytes: usize) -> (r: String)
    ensures
        r@ == file_size_text(bytes as nat),
{
    let b = bytes as u64;
    let mut s = String::new();
    if b < 1024 {
        push_u64_decimal(&mut s, b);
        push_str(&mut s, " B");
    } else if b < 1048576 {
        push_hundredths(&mut s, rounded_hundredths(b, 1024));
        push_str(&mut s, " KB (");
        push_u64_decimal(&mut s, b);
        push_str(&mut s, " bytes)");
    } else {
        let f = f64_value(b);
        let num: u128 = f * 100;
        let q: u128 = num / 1048576;
        let rem: u128 = num % 1048576;
        let h: u128 = if 2 * rem > 1048576 {
            q + 1
        } else if 2 * rem == 1048576 && q % 2 == 1 {
            q + 1
        } else {
            q
        };
        assert(h <= 0x10_0000_0000_0000u128);
        push_hundredths(&mut s, h as u64);
        push_str(&mut s, " MB (");
        push_u64_decimal(&mut s, b);
        push_str(&mut s, " bytes)");
    }
    proof {
        assert(s@ =~= file_size_text(bytes as nat));
    }
    s
}

/// The base64 digit for a six-bit value (standard alphabet).
pub open spec fn b64_digit(n: int) -> char {
    if n < 26 {
        (65 + n) as char
    } else if n < 52 {
        (97 + n - 26) as char
    } else if n < 62 {
        (48 + n - 52) as char
    } else if n == 62 {
        '+'
    } else {
        '/'
    }
}

/// Standard base64 with padding (RFC 4648, section 4).
pub open spec fn base64_standard(b: Seq<u8>) -> Seq<char>
    decreases b.len(),
{
    if b.len() == 0 {
        Seq::empty()
    } else if b.len() == 1 {
        seq![b64_digit(b[0] as int / 4), b64_digit((b[0] as int % 4) * 16), '=', '=']
    } else if b.len() == 2 {
        seq![
            b64_digit(b[0] as int / 4),
            b64_digit((b[0] as int % 4) * 16 + b[1] as int / 16),
            b64_digit((b[1] as int % 16) * 4),
            '=',
        ]
    } else {
        seq![
            b64_digit(b[0] as int / 4),
            b64_digit((b[0] as int % 4) * 16 + b[1] as int / 16),
            b64_digit((b[1] as int % 16) * 4 + b[2] as int / 64),
            b64_digit(b[2] as int % 64),
        ] + base64_standard(b.skip(3))
    }
}

/// `base64::engine::general_purpose::STANDARD.encode`: standard base64 with
/// padding.
#[verifier::external_body]
fn base64_encode(bytes: &[u8]) -> (r: String)
    ensures
        r@ == base64_standard(bytes@),
{
    base64::engine::general_purpose::STANDARD.encode(bytes)
}

/// The width and height that `imagesize::blob_size` reads from image data,
/// or the text of its error.
pub uninterp spec fn blob_dimensions(bytes: Seq<u8>) -> Result<(usize, usize), Seq<char>>;

/// `imagesize::blob_size`: the dimensions read from the image's header.
#[verifier::external_body]
fn blob_size(bytes: &[u8]) -> (r: Result<(usize, usize), String>)
    ensures
        match blob_dimensions(bytes@) {
            Ok(d) => r == Ok::<(usize, usize), String>(d),
            Err(m) => r matches Err(e) && e@ == m,
        },
{
    match imagesize::blob_size(bytes) {
        Ok(size) => Ok((size.width, size.height)),
        Err(e) => Err(e.to_string()),
    }
}

/// A content part of the image tool's output.
#[derive(Debug)]
pub enum ViewPart {
    InputText { text: String },
    InputImage { image_url: Option<String> },
}

/// The image tool's output: text, or a text part and an image part.
#[derive(Debug)]
pub enum ViewOutput {
    Text(String),
    Parts(Vec<ViewPart>),
}

/// The result of a `view_image` call.
#[derive(Debug)]
pub struct ViewResult {
    pub success: bool,
    pub output: ViewOutput,
    pub error: Option<String>,
}

/// The result is the failure with this output and error.
pub open spec fn is_failure(r: ViewResult, output: Seq<char>, error: Seq<char>) -> bool {
    &&& !r.success
    &&& r.output matches ViewOutput::Text(t) && t@ == output
    &&& r.error matches Some(e) && e@ == error
}

fn failure(output: String, error: String) -> (r: ViewResult)
    ensures
        is_failure(r, output@, error@),
{
    ViewResult { success: false, output: ViewOutput::Text(output), error: Some(error) }
}

/// Checks an image file before it is read, from its metadata (whether it is
/// a directory and its length) or the error of reading them. `None` lets
/// the read go on.
pub fn check_image_file(path: &str, metadata: Result<(bool, u64), String>, max_allowed: u64) -> (r: Option<ViewResult>)
    ensures
        match metadata {
            Err(e) => r matches Some(f) && is_failure(
                f,
                "failed to read image file metadata for '"@ + path@ + "': "@ + e@,
                e@,
            ),
            Ok((is_dir, len)) => if is_dir {
                r matches Some(f) && is_failure(
                    f,
                    "target path '"@ + path@ + "' is a directory, not an image file"@,
                    "target is a directory"@,
                )
            } else if len > max_allowed {
                r matches Some(f) && is_failure(
                    f,
                    "image file '"@ + path@ + "' is too large ("@ + decimal(len as nat) + " bytes, exceeds limit of "@
                        + decimal(max_allowed as nat) + " bytes)"@,
                    "file too large"@,
                )
            } else {
                r is None
            },
        },
{
    match metadata {
        Err(e) => {
            let mut o = String::new();
            push_str(&mut o, "failed to read image file metadata for '");
            push_str(&mut o, path);
            push_str(&mut o, "': ");
            push_str(&mut o, e.as_str());
            proof {
                assert(o@ =~= "failed to read image file metadata for '"@ + path@ + "': "@ + e@);
            }
            Some(failure(o, e))
        },
        Ok((is_dir, len)) => {
            if is_dir {
                let mut o = String::new();
                push_str(&mut o, "target path '");
                push_str(&mut o, path);
                push_str(&mut o, "' is a directory, not an image file");
                proof {
                    assert(o@ =~= "target path '"@ + path@ + "' is a directory, not an image file"@);
                }
                Some(failure(o, "target is a directory".to_string()))
            } else if len > max_allowed {
                let mut o = String::new();
                push_str(&mut o, "image file '");
                push_str(&mut o, path);
                push_str(&mut o, "' is too large (");
                push_u64_decimal(&mut o, len);
                push_str(&mut o, " bytes, exceeds limit of ");
                push_u64_decimal(&mut o, max_allowed);
                push_str(&mut o, " bytes)");
                proof {
                    assert(o@ =~= "image file '"@ + path@ + "' is too large ("@ + decimal(len as nat)
                        + " bytes, exceeds limit of "@ + decimal(max_allowed as nat) + " bytes)"@);
                }
                Some(failure(o, "file too large".to_string()))
            } else {
                None
            }
        },
    }
}

/// The metadata summary of an image.
pub open spec fn summary_text(path: Seq<char>, mime: Seq<char>, w: usize, h: usize, size: Seq<char>) -> Seq<char> {
    "Image Metadata:\n- Path: "@ + path + "\n- Format: "@ + mime + "\n- Dimensions: "@ + decimal(w as nat)
        + " x "@ + decimal(h as nat) + "\n- File Size: "@ + size
}

/// The result of viewing the image data read from `path` (or the error of
/// reading it): its format, dimensions and size, with the data as a base64
/// data URL when `include_base64` is set.
pub fn view_image_bytes(path: &str, read: Result<Vec<u8>, String>, include_base64: bool) -> (r: ViewResult)
    ensures
        match read {
            Err(e) => is_failure(r, "failed to read image file '"@ + path@ + "': "@ + e@, e@),
            Ok(b) => match image_format(b@) {
                Err(m) => is_failure(r, "invalid or unsupported image in '"@ + path@ + "': "@ + m, m),
                Ok(f) => match blob_dimensions(b@) {
                    Err(m) => is_failure(
                        r,
                        "failed to decode image dimensions for '"@ + path@ + "': "@ + m,
                        "image decode error: "@ + m,
                    ),
                    Ok((w, h)) => {
                        let summary = summary_text(path@, mime_text(f), w, h, file_size_text(b@.len()));
                        &&& r.success
                        &&& r.error is None
                        &&& if include_base64 {
                            r.output matches ViewOutput::Parts(parts) && parts@.len() == 2 && (parts@[0] matches ViewPart::InputText { text } && text@ == summary) && (parts@[1] matches ViewPart::InputImage { image_url: Some(u) } && u@ == "data:"@ + mime_text(f) + ";base64,"@ + base64_standard(b@))
                        } else {
                            r.output matches ViewOutput::Text(t) && t@ == summary
                        }
                    },
                },
            },
        },
{
    let bytes = match read {
        Err(e) => {
            let mut o = String::new();
            push_str(&mut o, "failed to read image file '");
            push_str(&mut o, path);
            push_str(&mut o, "': ");
            push_str(&mut o, e.as_str());
            proof {
                assert(o@ =~= "failed to read image file '"@ + path@ + "': "@ + e@);
            }
            return failure(o, e);
        },
        Ok(b) => b,
    };
    let format = match detect_supported_format(bytes.as_slice()) {
        Err(m) => {
            let mut o = String::new();
            push_str(&mut o, "invalid or unsupported image in '");
            push_str(&mut o, path);
            push_str(&mut o, "': ");
            push_str(&mut o, m.as_str());
            proof {
                assert(o@ =~= "invalid or unsupported image in '"@ + path@ + "': "@ + m@);
            }
            return failure(o, m);
        },
        Ok(f) => f,
    };
    let dims = blob_size(bytes.as_slice());
    view_decoded_image(path, &bytes, format, dims, include_base64)
}

/// The result of viewing image data of format `format` read from `path`,
/// given what reading its dimensions gave: the failure to read them, or the
/// metadata summary, with the data as a base64 data URL when
/// `include_base64` is set.
pub fn view_decoded_image(
    path: &str,
    bytes: &Vec<u8>,
    format: SupportedImageFormat,
    dims: Result<(usize, usize), String>,
    include_base64: bool,
) -> (r: ViewResult)
    ensures
        match dims {
            Err(m) => is_failure(
                r,
                "failed to decode image dimensions for '"@ + path@ + "': "@ + m@,
                "image decode error: "@ + m@,
            ),
            Ok((w, h)) => {
                let summary = summary_text(path@, mime_text(format), w, h, file_size_text(bytes@.len()));
                &&& r.success
                &&& r.error is None
                &&& if include_base64 {
                    r.output matches ViewOutput::Parts(parts) && parts@.len() == 2 && (parts@[0] matches ViewPart::InputText { text } && text@ == summary) && (parts@[1] matches ViewPart::InputImage { image_url: Some(u) } && u@ == "data:"@ + mime_text(format) + ";base64,"@ + base64_standard(bytes@))
                } else {
                    r.output matches ViewOutput::Text(t) && t@ == summary
                }
            },
        },
{
    let (w, h) = match dims {
        Err(m) => {
            let mut o = String::new();
            push_str(&mut o, "failed to decode image dimensions for '");
            push_str(&mut o, path);
            push_str(&mut o, "': ");
            push_str(&mut o, m.as_str());
            let mut e = String::new();
            push_str(&mut e, "image decode error: ");
            push_str(&mut e, m.as_str());
            proof {
                assert(o@ =~= "failed to decode image dimensions for '"@ + path@ + "': "@ + m@);
                assert(e@ =~= "image decode error: "@ + m@);
            }
            return failure(o, e);
        },
        Ok(d) => d,
    };
    let mime = format.mime_type();
    let size = format_file_size(bytes.len());
    let mut summary = String::new();
    push_str(&mut summary, "Image Metadata:\n- Path: ");
    push_str(&mut summary, path);
    push_str(&mut summary, "\n- Format: ");
    push_str(&mut summary, mime);
    push_str(&mut summary, "\n- Dimensions: ");
    push_u64_decimal(&mut summary, w as u64);
    push_str(&mut summary, " x ");
    push_u64_decimal(&mut summary, h as u64);
    push_str(&mut summary, "\n- File Size: ");
    push_str(&mut summary, size.as_str());
    proof {
        assert(summary@ =~= summary_text(path@, mime_text(format), w, h, file_size_text(bytes@.len())));
    }
    if include_base64 {
        let b64 = base64_encode(bytes.as_slice());
        let mut url = String::new();
        push_str(&mut url, "data:");
        push_str(&mut url, mime);
        push_str(&mut url, ";base64,");
        push_str(&mut url, b64.as_str());
        proof {
            assert(url@ =~= "data:"@ + mime_text(format) + ";base64,"@ + base64_standard(bytes@));
        }
        let mut parts: Vec<ViewPart> = Vec::new();
        parts.push(ViewPart::InputText { text: summary });
        parts.push(ViewPart::InputImage { image_url: Some(url) });
        ViewResult { success: true, output: ViewOutput::Parts(parts), error: None }
    } else {
        ViewResult { success: true, output: ViewOutput::Text(summary), error: None }
    }
}

} // verus!
