//! QR codes of a label: the payload text, and its symbol rendered as SVG,
//! Base64 SVG, text art or a 0/1 module matrix.
use qrcode::QrCode;
use vstd::prelude::*;
use vstd::utf8::encode_utf8;

use crate::text::{lemma_split_concat, lemma_split_no_sep, nat_digits, split_on};

verus! {

/// The payload prefix "ARKR".
pub open spec fn qr_prefix() -> Seq<char> {
    seq!['A', 'R', 'K', 'R']
}

/// The payload of a label's QR code:
/// `ARKR-{item}-{batch}-{running}-{side}-{prod}`.
pub open spec fn qr_data(
    item_id: Seq<char>,
    batch_no: Seq<char>,
    running_no: Seq<char>,
    side: Seq<char>,
    prod_id: Seq<char>,
) -> Seq<char> {
    qr_prefix() + seq!['-'] + item_id + seq!['-'] + batch_no + seq!['-'] + running_no + seq!['-']
        + side + seq!['-'] + prod_id
}

/// Builds the QR payload `ARKR-{ItemId}-{BatchNo}-{Running}-{Side}-{ProdId}`,
/// e.g. `ARKR-7113800055-260202G71-0001-LH-P992383`.
pub fn generate_qr_data(
    item_id: &str,
    batch_no: &str,
    running_no: &str,
    side: &str,
    prod_id: &str,
) -> (data: String)
    ensures
        data@ == qr_data(item_id@, batch_no@, running_no@, side@, prod_id@),
        data@ == seq!['A', 'R', 'K', 'R', '-'] + item_id@ + seq!['-'] + batch_no@ + seq!['-']
            + running_no@ + seq!['-'] + side@ + seq!['-'] + prod_id@,
{
    proof {
        reveal_strlit("ARKR-");
        reveal_strlit("-");
    }
    let mut data = String::new();
    data.append("ARKR-");
    data.append(item_id);
    data.append("-");
    data.append(batch_no);
    data.append("-");
    data.append(running_no);
    data.append("-");
    data.append(side);
    data.append("-");
    data.append(prod_id);
    proof {
        assert(data@ =~= qr_data(item_id@, batch_no@, running_no@, side@, prod_id@));
    }
    data
}

/// The payload reads back: when no field holds '-', splitting it at '-'
/// gives "ARKR" and the five fields in order, so the fields can be
/// recovered from a scanned code.
pub proof fn lemma_qr_data_reads_back(
    item_id: Seq<char>,
    batch_no: Seq<char>,
    running_no: Seq<char>,
    side: Seq<char>,
    prod_id: Seq<char>,
)
    requires
        !item_id.contains('-'),
        !batch_no.contains('-'),
        !running_no.contains('-'),
        !side.contains('-'),
        !prod_id.contains('-'),
    ensures
        split_on(qr_data(item_id, batch_no, running_no, side, prod_id), '-') == seq![
            qr_prefix(),
            item_id,
            batch_no,
            running_no,
            side,
            prod_id,
        ],
{
    let p = qr_prefix();
    let d = seq!['-'];
    assert(!p.contains('-')) by {
        if p.contains('-') {
            let i = choose|i: int| 0 <= i < p.len() && p[i] == '-';
            assert(p[i] != '-');
        }
    }
    lemma_split_no_sep(p, '-');
    lemma_split_no_sep(item_id, '-');
    lemma_split_no_sep(batch_no, '-');
    lemma_split_no_sep(running_no, '-');
    lemma_split_no_sep(side, '-');
    lemma_split_no_sep(prod_id, '-');
    let s5 = side + d + prod_id;
    let s4 = running_no + d + s5;
    let s3 = batch_no + d + s4;
    let s2 = item_id + d + s3;
    let s1 = p + d + s2;
    lemma_split_concat(side, prod_id, '-');
    lemma_split_concat(running_no, s5, '-');
    lemma_split_concat(batch_no, s4, '-');
    lemma_split_concat(item_id, s3, '-');
    lemma_split_concat(p, s2, '-');
    assert(qr_data(item_id, batch_no, running_no, side, prod_id) =~= s1);
    assert(split_on(s1, '-') =~= seq![p, item_id, batch_no, running_no, side, prod_id]);
}

/// Why the QR encoder refused a payload (the cases of `qrcode::types::QrError`).
#[derive(Debug, Clone, Copy, PartialEq, Eq, Structural)]
pub enum QrErrorKind {
    /// The data does not fit in the largest symbol.
    DataTooLong,
    /// The version and error correction level do not go together.
    InvalidVersion,
    /// The version cannot hold some of the characters.
    UnsupportedCharacterSet,
    /// An ECI designator outside 0..=999999.
    InvalidEciDesignator,
    /// A character outside the character set.
    InvalidCharacter,
}

/// How the encoder's error displays.
pub open spec fn qr_error_text(kind: QrErrorKind) -> Seq<char> {
    match kind {
        QrErrorKind::DataTooLong => "data too long"@,
        QrErrorKind::InvalidVersion => "invalid version"@,
        QrErrorKind::UnsupportedCharacterSet => "unsupported character set"@,
        QrErrorKind::InvalidEciDesignator => "invalid ECI designator"@,
        QrErrorKind::InvalidCharacter => "invalid character"@,
    }
}

/// The message of a failed QR generation.
pub open spec fn qr_failure(kind: QrErrorKind) -> Seq<char> {
    "QR generation failed: "@ + qr_error_text(kind)
}

/// Builds the message of a failed QR generation: "QR generation failed: "
/// followed by the encoder's own description of the error.
pub fn qr_failure_message(kind: QrErrorKind) -> (msg: String)
    ensures
        msg@ == qr_failure(kind),
{
    let mut msg = String::new();
    msg.append("QR generation failed: ");
    match kind {
        QrErrorKind::DataTooLong => msg.append("data too long"),
        QrErrorKind::InvalidVersion => msg.append("invalid version"),
        QrErrorKind::UnsupportedCharacterSet => msg.append("unsupported character set"),
        QrErrorKind::InvalidEciDesignator => msg.append("invalid ECI designator"),
        QrErrorKind::InvalidCharacter => msg.append("invalid character"),
    }
    msg
}

/// The encoded QR symbol of the `qrcode` crate, carried opaquely.
#[verifier::external_type_specification]
#[verifier::external_body]
pub struct ExQrCode(qrcode::QrCode);

/// The modules of a QR symbol, row by row, `true` for dark.
pub uninterp spec fn qr_modules(code: QrCode) -> Seq<bool>;

/// The number of modules per side of a QR symbol.
pub uninterp spec fn qr_width(code: QrCode) -> nat;

/// What `QrCode::new` makes of some bytes: the symbol's width and modules,
/// or why it refused them.
pub uninterp spec fn qr_symbol(data: Seq<u8>) -> Result<(nat, Seq<bool>), QrErrorKind>;

/// The quiet zone that `QrCode::render` puts around a symbol, in modules:
/// 4 for a normal version (21 modules per side or more), 2 for a Micro QR
/// version (at most 17).
pub open spec fn qr_quiet_zone(width: nat) -> nat {
    if width >= 21 {
        4
    } else {
        2
    }
}

/// A module size as the renderer keeps it: at least 1.
pub open spec fn at_least_one(v: u32) -> nat {
    if v == 0 {
        1
    } else {
        v as nat
    }
}

/// The light and dark characters of the character renderer.
pub open spec fn text_pixel(dark: bool) -> char {
    if dark {
        '\u{2588}'
    } else {
        ' '
    }
}

/// The module under the character at (`col`, `row`) of a symbol drawn with
/// a quiet zone of `qz` modules and modules of `mw` x `mh` characters:
/// dark only inside the symbol where its module is dark.
pub open spec fn text_pixel_dark(
    modules: Seq<bool>,
    width: nat,
    qz: nat,
    mw: nat,
    mh: nat,
    col: int,
    row: int,
) -> bool {
    let x = col / (mw as int);
    let y = row / (mh as int);
    &&& qz <= x < width + qz
    &&& qz <= y < width + qz
    &&& modules[(y - qz) * width + (x - qz)]
}

/// What the character renderer of `qrcode` draws for a symbol: the grid of
/// modules (with a light quiet zone when `quiet_zone` is set), each module
/// `module_width` characters wide and `module_height` lines high ('█' for
/// dark, ' ' for light), lines joined by '\n' with none after the last.
pub open spec fn qr_text_image(
    modules: Seq<bool>,
    width: nat,
    quiet_zone: bool,
    module_width: u32,
    module_height: u32,
) -> Seq<char> {
    let qz: nat = if quiet_zone {
        qr_quiet_zone(width)
    } else {
        0
    };
    let n = width + 2 * qz;
    let mw = at_least_one(module_width);
    let mh = at_least_one(module_height);
    let cols: int = (n * mw) as int;
    let rows: int = (n * mh) as int;
    if rows == 0 {
        Seq::empty()
    } else {
        Seq::new(
            (rows * (cols + 1) - 1) as nat,
            |k: int|
                if k % (cols + 1) == cols {
                    '\n'
                } else {
                    text_pixel(
                        text_pixel_dark(modules, width, qz, mw, mh, k % (cols + 1), k / (cols + 1)),
                    )
                },
        )
    }
}

/// The character canvas of `qr_text_image` fits the renderer's arithmetic:
/// its width and height in characters fit in `u32`, and its characters,
/// four bytes each, fit in `isize`.
pub open spec fn text_canvas_fits(width: nat, quiet_zone: bool, module_width: u32, module_height: u32) -> bool {
    let qz: nat = if quiet_zone {
        qr_quiet_zone(width)
    } else {
        0
    };
    let n = width + 2 * qz;
    let cols = n * at_least_one(module_width);
    let rows = n * at_least_one(module_height);
    &&& cols <= u32::MAX
    &&& rows <= u32::MAX
    &&& cols * rows * 4 <= isize::MAX
}

/// The pixel size of a module when the image must be at least `min`
/// pixels across `n` modules: `min / n` rounded up, at least 1.
pub open spec fn svg_unit(min: u32, n: nat) -> nat {
    let u = (min as int + n - 1) / (n as int);
    if u <= 0 {
        1
    } else {
        u as nat
    }
}

/// The SVG drawing of the dark modules from index `i` on: for each dark
/// module, a path step `M{left} {top}h{mw}v{mh}H{left}V{top}` at its
/// pixel position.
pub open spec fn svg_path(modules: Seq<bool>, width: nat, qz: nat, mw: nat, mh: nat, i: int) -> Seq<char>
    decreases modules.len() - i,
{
    if i < 0 || i >= modules.len() || width == 0 {
        Seq::empty()
    } else {
        let left = nat_digits(((i % (width as int)) + qz) as nat * mw);
        let top = nat_digits(((i / (width as int)) + qz) as nat * mh);
        let step = if modules[i] {
            seq!['M'] + left + seq![' '] + top + seq!['h'] + nat_digits(mw) + seq!['v'] + nat_digits(mh)
                + seq!['H'] + left + seq!['V'] + top
        } else {
            Seq::empty()
        };
        step + svg_path(modules, width, qz, mw, mh, i + 1)
    }
}

/// What the SVG renderer of `qrcode` draws for a symbol with a quiet zone,
/// the given minimum image size and colours: the XML declaration, the
/// `<svg>` element sized to the modules, a background rectangle in the
/// light colour, one path in the dark colour with a step per dark module,
/// and the closing tags.
pub open spec fn qr_svg_image(
    modules: Seq<bool>,
    width: nat,
    min_width: u32,
    min_height: u32,
    dark: Seq<char>,
    light: Seq<char>,
) -> Seq<char> {
    let qz = qr_quiet_zone(width);
    let n = width + 2 * qz;
    let mw = svg_unit(min_width, n);
    let mh = svg_unit(min_height, n);
    let w = nat_digits(n * mw);
    let h = nat_digits(n * mh);
    svg_head() + w + "\" height=\""@ + h + "\" viewBox=\"0 0 "@ + w + " "@ + h
        + "\" shape-rendering=\"crispEdges\"><rect x=\"0\" y=\"0\" width=\""@ + w
        + "\" height=\""@ + h + "\" fill=\""@ + light + "\"/><path fill=\""@ + dark + "\" d=\""@
        + svg_path(modules, width, qz, mw, mh, 0) + svg_tail()
}

/// How every SVG of the renderer begins.
pub open spec fn svg_head() -> Seq<char> {
    "<?xml version=\"1.0\" standalone=\"yes\"?><svg xmlns=\"http://www.w3.org/2000/svg\" version=\"1.1\" width=\""@
}

/// How every SVG of the renderer ends.
pub open spec fn svg_tail() -> Seq<char> {
    "\"/></svg>"@
}

/// A symbol of a normal QR version: 17 + 4v modules per side for a version
/// v from 1 to 40 (21 to 177), and width * width modules.
pub open spec fn normal_symbol(width: nat, modules: Seq<bool>) -> bool {
    &&& 21 <= width <= 177
    &&& width % 4 == 1
    &&& modules.len() == width * width
}

/// Encodes bytes into a QR symbol with `qrcode::QrCode::new` (medium error
/// correction, smallest normal version that fits). Trusted: the symbol is
/// the one named by `qr_symbol`, its width is that of a normal version
/// (17 + 4v modules, 21 to 177), it holds width * width modules, and an error is
/// mapped variant by variant onto `QrErrorKind`.
#[verifier::external_body]
fn qr_code_new(data: &[u8]) -> (r: Result<QrCode, QrErrorKind>)
    ensures
        r matches Ok(code) ==> (qr_symbol(data@) matches Ok(sym) && sym.0 == qr_width(code)
            && sym.1 == qr_modules(code)),
        r matches Ok(code) ==> 21 <= qr_width(code) <= 177,
        r matches Ok(code) ==> qr_width(code) % 4 == 1,
        r matches Ok(code) ==> qr_modules(code).len() == qr_width(code) * qr_width(code),
        r matches Err(kind) ==> (qr_symbol(data@) matches Err(e) && e == kind),
{
    match QrCode::new(data) {
        Ok(code) => Ok(code),
        Err(qrcode::types::QrError::DataTooLong) => Err(QrErrorKind::DataTooLong),
        Err(qrcode::types::QrError::InvalidVersion) => Err(QrErrorKind::InvalidVersion),
        Err(qrcode::types::QrError::UnsupportedCharacterSet) => Err(QrErrorKind::UnsupportedCharacterSet),
        Err(qrcode::types::QrError::InvalidEciDesignator) => Err(QrErrorKind::InvalidEciDesignator),
        Err(qrcode::types::QrError::InvalidCharacter) => Err(QrErrorKind::InvalidCharacter),
    }
}

/// `QrCode::width`. Trusted: the symbol's width.
#[verifier::external_body]
fn qr_code_width(code: &QrCode) -> (w: usize)
    ensures
        w == qr_width(*code),
{
    code.width()
}

/// `QrCode::to_colors`, each colour turned into `true` for dark. Trusted:
/// the symbol's modules.
#[verifier::external_body]
fn qr_code_modules(code: &QrCode) -> (modules: Vec<bool>)
    ensures
        modules@ == qr_modules(*code),
{
    code.to_colors().into_iter().map(|c| c == qrcode::Color::Dark).collect()
}

/// `QrCode::render` into SVG with `min_dimensions`, `dark_color`,
/// `light_color` and `build`. Trusted: the image is `qr_svg_image` of the
/// symbol's modules and width (quiet zone, module size rounded up to reach
/// the minimum size, header, background, one path step per dark module).
/// The bounds on the size keep the renderer's `u32` arithmetic from
/// overflowing.
#[verifier::external_body]
fn qr_code_svg(code: &QrCode, min_width: u32, min_height: u32, dark: &str, light: &str) -> (svg:
    String)
    requires
        min_width <= 1_000_000,
        min_height <= 1_000_000,
    ensures
        svg@ == qr_svg_image(qr_modules(*code), qr_width(*code), min_width, min_height, dark@, light@),
{
    code.render::<qrcode::render::svg::Color>().min_dimensions(min_width, min_height).dark_color(
        qrcode::render::svg::Color(dark),
    ).light_color(qrcode::render::svg::Color(light)).build()
}

/// `QrCode::render` into characters with `quiet_zone`,
/// `module_dimensions` and `build`. Trusted: the text is `qr_text_image` of
/// the symbol's modules and width. The `requires` leaves out the canvas
/// sizes on which the renderer's `u32` or `usize` arithmetic, or its
/// allocation, would overflow and panic.
#[verifier::external_body]
fn qr_code_text(code: &QrCode, quiet_zone: bool, module_width: u32, module_height: u32) -> (text:
    String)
    requires
        text_canvas_fits(qr_width(*code), quiet_zone, module_width, module_height),
    ensures
        text@ == qr_text_image(
            qr_modules(*code),
            qr_width(*code),
            quiet_zone,
            module_width,
            module_height,
        ),
{
    code.render::<char>().quiet_zone(quiet_zone).module_dimensions(module_width, module_height).build()
}

/// The character of a 6-bit value in the standard Base64 alphabet.
pub open spec fn base64_char(v: int) -> char {
    if v < 26 {
        (65 + v) as char
    } else if v < 52 {
        (97 + v - 26) as char
    } else if v < 62 {
        (48 + v - 52) as char
    } else if v == 62 {
        '+'
    } else {
        '/'
    }
}

/// Standard Base64 with padding (RFC 4648, section 4): every three bytes
/// become four characters; a last group of one or two bytes is padded
/// with '='.
pub open spec fn base64_standard(b: Seq<u8>) -> Seq<char>
    decreases b.len(),
{
    if b.len() == 0 {
        Seq::empty()
    } else {
        let x = b[0] as int;
        let y = if b.len() > 1 {
            b[1] as int
        } else {
            0
        };
        let z = if b.len() > 2 {
            b[2] as int
        } else {
            0
        };
        let c1 = base64_char(x / 4);
        let c2 = base64_char((x % 4) * 16 + y / 16);
        let c3 = if b.len() > 1 {
            base64_char((y % 16) * 4 + z / 64)
        } else {
            '='
        };
        let c4 = if b.len() > 2 {
            base64_char(z % 64)
        } else {
            '='
        };
        if b.len() <= 3 {
            seq![c1, c2, c3, c4]
        } else {
            seq![c1, c2, c3, c4] + base64_standard(b.subrange(3, b.len() as int))
        }
    }
}

/// The length of the padded Base64 text of `n` bytes.
pub open spec fn base64_len(n: nat) -> nat {
    (n / 3) * 4 + if n % 3 > 0 {
        4nat
    } else {
        0nat
    }
}

/// `Engine::encode` of `base64::engine::general_purpose::STANDARD`.
/// Trusted: the standard alphabet with padding. The length bound is the
/// one under which the crate's length computation does not overflow
/// (beyond it the crate panics).
#[verifier::external_body]
fn base64_encode_standard(bytes: &[u8]) -> (text: String)
    requires
        base64_len(bytes@.len()) <= usize::MAX,
    ensures
        text@ == base64_standard(bytes@),
{
    base64::Engine::encode(&base64::engine::general_purpose::STANDARD, bytes)
}

/// The Base64 text of `n` bytes has `4 * ceil(n / 3)` characters.
pub proof fn lemma_base64_length(b: Seq<u8>)
    ensures
        base64_standard(b).len() == base64_len(b.len()),
    decreases b.len(),
{
    if b.len() >= 3 {
        let rest = b.subrange(3, b.len() as int);
        lemma_base64_length(rest);
        assert(rest.len() == b.len() - 3);
        assert(base64_len(b.len()) == 4 + base64_len(rest.len())) by {
            assert((b.len() as int - 3) / 3 == b.len() / 3 - 1);
            assert((b.len() as int - 3) % 3 == b.len() % 3);
        }
    }
}

/// The 6-bit value of a character of the standard Base64 alphabet.
pub open spec fn base64_value(c: char) -> int {
    if 'A' <= c <= 'Z' {
        c as int - 65
    } else if 'a' <= c <= 'z' {
        c as int - 97 + 26
    } else if '0' <= c <= '9' {
        c as int - 48 + 52
    } else if c == '+' {
        62
    } else {
        63
    }
}

/// Standard padded Base64 read back into bytes: every four characters give
/// three bytes, fewer when the group ends in '='.
pub open spec fn base64_decode(s: Seq<char>) -> Seq<u8>
    decreases s.len(),
{
    if s.len() < 4 {
        Seq::empty()
    } else {
        let v1 = base64_value(s[0]);
        let v2 = base64_value(s[1]);
        let v3 = base64_value(s[2]);
        let v4 = base64_value(s[3]);
        let b1 = (v1 * 4 + v2 / 16) as u8;
        let b2 = ((v2 % 16) * 16 + v3 / 4) as u8;
        let b3 = ((v3 % 4) * 64 + v4) as u8;
        if s[2] == '=' {
            seq![b1]
        } else if s[3] == '=' {
            seq![b1, b2]
        } else {
            seq![b1, b2, b3] + base64_decode(s.subrange(4, s.len() as int))
        }
    }
}

/// Each 6-bit value reads back from its Base64 character, which is never
/// the padding '='.
pub proof fn lemma_base64_char_value(v: int)
    requires
        0 <= v < 64,
    ensures
        base64_value(base64_char(v)) == v,
        base64_char(v) != '=',
{
    if v < 26 {
        assert((65 + v) as char as int == 65 + v);
    } else if v < 52 {
        assert((97 + v - 26) as char as int == 97 + v - 26);
    } else if v < 62 {
        assert((48 + v - 52) as char as int == 48 + v - 52);
    }
}

/// Base64 loses nothing: decoding the standard Base64 text of some bytes
/// gives those bytes back.
pub proof fn lemma_base64_decodes_back(b: Seq<u8>)
    ensures
        base64_decode(base64_standard(b)) == b,
    decreases b.len(),
{
    let e = base64_standard(b);
    if b.len() == 0 {
        assert(b =~= Seq::<u8>::empty());
    } else {
        let x = b[0] as int;
        let y = if b.len() > 1 {
            b[1] as int
        } else {
            0
        };
        let z = if b.len() > 2 {
            b[2] as int
        } else {
            0
        };
        lemma_base64_char_value(x / 4);
        lemma_base64_char_value((x % 4) * 16 + y / 16);
        lemma_base64_char_value((y % 16) * 4 + z / 64);
        lemma_base64_char_value(z % 64);
        let v1 = x / 4;
        let v2 = (x % 4) * 16 + y / 16;
        let v3 = (y % 16) * 4 + z / 64;
        let v4 = z % 64;
        assert(v1 * 4 + v2 / 16 == x);
        assert((v2 % 16) * 16 + v3 / 4 == y);
        assert((v3 % 4) * 64 + v4 == z);
        assert(e.len() >= 4);
        if b.len() == 1 {
            assert(base64_decode(e) =~= seq![x as u8]);
            assert(b =~= seq![b[0]]);
        } else if b.len() == 2 {
            assert(base64_decode(e) =~= seq![x as u8, y as u8]);
            assert(b =~= seq![b[0], b[1]]);
        } else {
            let rest = b.subrange(3, b.len() as int);
            if b.len() == 3 {
                assert(e.subrange(4, e.len() as int) =~= Seq::<char>::empty());
                assert(rest =~= Seq::<u8>::empty());
            } else {
                assert(e.subrange(4, e.len() as int) =~= base64_standard(rest));
            }
            lemma_base64_decodes_back(rest);
            assert(base64_decode(e) =~= seq![x as u8, y as u8, z as u8] + rest);
            assert(b =~= seq![b[0], b[1], b[2]] + rest);
        }
    }
}

/// Renders the QR symbol of `data` as SVG for the web page: at least
/// 200x200 pixels, black on white.
pub fn generate_qr_svg(data: &str) -> (r: Result<String, String>)
    ensures
        match qr_symbol(encode_utf8(data@)) {
            Ok((w, m)) => r matches Ok(svg) && svg@ == qr_svg_image(
                m,
                w,
                200,
                200,
                "#000000"@,
                "#ffffff"@,
            ) && svg_head().is_prefix_of(svg@) && svg_tail().is_suffix_of(svg@),
            Err(kind) => r matches Err(msg) && msg@ == qr_failure(kind),
        },
        qr_symbol(encode_utf8(data@)) matches Ok((w, m)) ==> normal_symbol(w, m),
{
    let bytes = data.as_bytes();
    match qr_code_new(bytes) {
        Ok(code) => Ok(qr_code_svg(&code, 200, 200, "#000000", "#ffffff")),
        Err(kind) => Err(qr_failure_message(kind)),
    }
}

/// Whether the Base64 text of `n` bytes has a length that fits in memory
/// arithmetic.
pub open spec fn base64_fits(n: nat) -> bool {
    base64_len(n) <= usize::MAX
}

/// Renders the QR symbol of `data` as SVG (as `generate_qr_svg`) and
/// encodes the SVG's UTF-8 bytes in standard Base64, for the web page.
/// An SVG too long for Base64's length arithmetic is refused as data too
/// long.
pub fn generate_qr_base64_svg(data: &str) -> (r: Result<String, String>)
    ensures
        match qr_symbol(encode_utf8(data@)) {
            Ok((w, m)) => {
                let svg = encode_utf8(qr_svg_image(m, w, 200, 200, "#000000"@, "#ffffff"@));
                if base64_fits(svg.len()) {
                    r matches Ok(text) && text@ == base64_standard(svg)
                } else {
                    r matches Err(msg) && msg@ == qr_failure(QrErrorKind::DataTooLong)
                }
            },
            Err(kind) => r matches Err(msg) && msg@ == qr_failure(kind),
        },
        qr_symbol(encode_utf8(data@)) matches Ok((w, m)) ==> normal_symbol(w, m),
        r matches Ok(text) ==> (qr_symbol(encode_utf8(data@)) matches Ok((w, m))
            && base64_decode(text@) == encode_utf8(
            qr_svg_image(m, w, 200, 200, "#000000"@, "#ffffff"@),
        )),
{
    let svg = generate_qr_svg(data)?;
    let bytes = svg.as_str().as_bytes();
    let n = bytes.len();
    let groups = n / 3;
    let fits = groups <= usize::MAX / 4 && (n % 3 == 0 || groups * 4 <= usize::MAX - 4);
    if !fits {
        return Err(qr_failure_message(QrErrorKind::DataTooLong));
    }
    let text = base64_encode_standard(bytes);
    proof {
        lemma_base64_decodes_back(bytes@);
    }
    Ok(text)
}

/// Renders the QR symbol of `data` as text art for debugging: no quiet
/// zone, each module two characters wide and one line high.
pub fn generate_qr_ascii(data: &str) -> (r: Result<String, String>)
    ensures
        match qr_symbol(encode_utf8(data@)) {
            Ok((w, m)) => r matches Ok(text) && text@ == qr_text_image(m, w, false, 2, 1),
            Err(kind) => r matches Err(msg) && msg@ == qr_failure(kind),
        },
        qr_symbol(encode_utf8(data@)) matches Ok((w, m)) ==> normal_symbol(w, m),
{
    let bytes = data.as_bytes();
    match qr_code_new(bytes) {
        Ok(code) => {
            proof {
                let w = qr_width(code);
                assert(w * 2 * (w * 1) * 4 <= 250632) by (nonlinear_arith)
                    requires
                        w <= 177,
                ;
                let n: nat = w + 2 * 0nat;
                assert(n * at_least_one(2) == w * 2);
                assert(n * at_least_one(1) == w * 1);
                assert(text_canvas_fits(w, false, 2, 1));
            }
            Ok(qr_code_text(&code, false, 2, 1))
        },
        Err(kind) => Err(qr_failure_message(kind)),
    }
}

/// The 0/1 form of a module sequence: 1 for dark, 0 for light.
pub open spec fn module_bits(modules: Seq<bool>) -> Seq<u8> {
    modules.map_values(|dark: bool| if dark { 1u8 } else { 0u8 })
}

/// Turns a symbol of `width` modules per side into (width, height, 0/1
/// modules), 1 for dark.
pub fn modules_to_binary(width: usize, modules: &[bool]) -> (r: (usize, usize, Vec<u8>))
    ensures
        r.0 == width,
        r.1 == width,
        r.2@ == module_bits(modules@),
        r.2@.len() == modules@.len(),
        forall|i: int|
            0 <= i < modules@.len() ==> #[trigger] r.2@[i] == (if modules@[i] {
                1u8
            } else {
                0u8
            }),
{
    let mut bits: Vec<u8> = Vec::new();
    let n = modules.len();
    for i in 0..n
        invariant
            n == modules@.len(),
            bits@ == module_bits(modules@.take(i as int)),
    {
        let bit: u8 = if modules[i] {
            1
        } else {
            0
        };
        bits.push(bit);
        assert(modules@.take(i + 1) =~= modules@.take(i as int).push(modules@[i as int]));
        assert(bits@ =~= module_bits(modules@.take(i + 1)));
    }
    assert(modules@.take(n as int) =~= modules@);
    (width, width, bits)
}

/// The QR symbol of `data` as a 0/1 matrix for ZPL: (width, height,
/// modules row by row, 1 for dark). The matrix is square and holds
/// width * width entries, each 0 or 1.
pub fn generate_qr_binary(data: &str) -> (r: Result<(usize, usize, Vec<u8>), String>)
    ensures
        match qr_symbol(encode_utf8(data@)) {
            Ok((w, m)) => r matches Ok(res) && res.0 == w && res.1 == w && res.2@ == module_bits(m),
            Err(kind) => r matches Err(msg) && msg@ == qr_failure(kind),
        },
        qr_symbol(encode_utf8(data@)) matches Ok((w, m)) ==> normal_symbol(w, m),
        r matches Ok(res) ==> 21 <= res.0 <= 177 && res.0 % 4 == 1,
        r matches Ok(res) ==> (qr_symbol(encode_utf8(data@)) matches Ok((w, m)) && res.2@.len()
            == m.len() && forall|i: int|
            0 <= i < m.len() ==> #[trigger] res.2@[i] == (if m[i] {
                1u8
            } else {
                0u8
            })),
        r matches Ok(res) ==> res.0 == res.1 && res.2@.len() == res.0 * res.1 && forall|i: int|
            0 <= i < res.2@.len() ==> #[trigger] res.2@[i] == 0 || res.2@[i] == 1,
{
    let bytes = data.as_bytes();
    match qr_code_new(bytes) {
        Ok(code) => {
            let width = qr_code_width(&code);
            let modules = qr_code_modules(&code);
            Ok(modules_to_binary(width, modules.as_slice()))
        },
        Err(kind) => Err(qr_failure_message(kind)),
    }
}

} // verus!
