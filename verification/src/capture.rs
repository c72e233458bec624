//! What a capture request selects and how its result is handed back.

use vstd::prelude::*;
use vstd::string::*;
use crate::base64::{base64, base64_encode};
use crate::text::{decimal_text, push_char, str_equals};

verus! {

/// The texture that a capture reads back.
#[derive(PartialEq, Eq, Structural, Debug, Clone, Copy)]
pub enum CaptureKind {
    /// The final composited frame.
    Composite,
    /// The refraction displacement texture.
    Displacement,
    /// The horizontally blurred background.
    HBlur,
    /// The fully blurred background.
    VBlur,
}

/// The kind that the request text names.
pub open spec fn kind_named(kind: Seq<char>) -> Option<CaptureKind> {
    if kind == "composite"@ {
        Some(CaptureKind::Composite)
    } else if kind == "displacement"@ {
        Some(CaptureKind::Displacement)
    } else if kind == "h_blur"@ {
        Some(CaptureKind::HBlur)
    } else if kind == "v_blur"@ {
        Some(CaptureKind::VBlur)
    } else {
        None
    }
}

/// Reads the capture kind: `composite`, `displacement`, `h_blur` or
/// `v_blur`; any other text gives the error `未知的 capture kind: <kind>`.
pub fn capture_kind(kind: &str) -> (r: Result<CaptureKind, String>)
    ensures
        match r {
            Ok(k) => kind_named(kind@) == Some(k),
            Err(m) => kind_named(kind@) is None && m@ == "未知的 capture kind: "@ + kind@,
        },
{
    if str_equals(kind, "composite") {
        Ok(CaptureKind::Composite)
    } else if str_equals(kind, "displacement") {
        Ok(CaptureKind::Displacement)
    } else if str_equals(kind, "h_blur") {
        Ok(CaptureKind::HBlur)
    } else if str_equals(kind, "v_blur") {
        Ok(CaptureKind::VBlur)
    } else {
        Err(String::from_str("未知的 capture kind: ").concat(kind))
    }
}

/// A captured PNG handed back inline: its base64 text and the MIME type
/// `image/png;base64`.
pub fn inline_capture(png: &[u8]) -> (r: (String, String))
    ensures
        r.0@ == base64(png@),
        r.1@ == "image/png;base64"@,
{
    (base64_encode(png), String::from_str("image/png;base64"))
}

/// The text that answers a capture: a file path (MIME `image/png`) as it
/// stands, anything else as a data URL `data:<mime>,<result>`.
pub open spec fn reply_text(result: Seq<char>, mime: Seq<char>) -> Seq<char> {
    if mime == "image/png"@ {
        result
    } else {
        "data:"@ + mime + ","@ + result
    }
}

/// Formats the answer to a capture request.
pub fn capture_reply(result: &str, mime: &str) -> (r: String)
    ensures
        r@ == reply_text(result@, mime@),
{
    if str_equals(mime, "image/png") {
        String::from_str(result)
    } else {
        let mut r = String::from_str("data:");
        r.append(mime);
        r.append(",");
        r.append(result);
        r
    }
}

/// Writes `n` in decimal.
fn u64_decimal(n: u64) -> (r: String)
    ensures
        r@ == decimal_text(n as nat),
{
    let mut digits: Vec<char> = Vec::new();
    let mut m = n;
    loop
        invariant_except_break
            m <= n,
            decimal_text(n as nat) == decimal_text(m as nat) + digits@.reverse(),
        ensures
            decimal_text(n as nat) == digits@.reverse(),
        decreases m,
    {
        let d = (m % 10) as u32;
        let c = char_from_digit(d);
        if m < 10 {
            assert(decimal_text(m as nat) == seq![c]);
            let ghost before = digits@;
            digits.push(c);
            assert(digits@.reverse() =~= seq![c] + before.reverse());
            break;
        }
        assert(decimal_text(m as nat) == decimal_text((m / 10) as nat) + seq![c]);
        let ghost before = digits@;
        digits.push(c);
        assert(digits@.reverse() =~= seq![c] + before.reverse());
        assert(decimal_text(n as nat) =~= decimal_text((m / 10) as nat) + digits@.reverse());
        m = m / 10;
    }
    let mut r = String::new();
    let mut i = digits.len();
    while i > 0
        invariant
            i <= digits@.len(),
            decimal_text(n as nat) == digits@.reverse(),
            r@ == digits@.reverse().subrange(0, digits@.len() - i),
        decreases i,
    {
        i = i - 1;
        push_char(&mut r, digits[i]);
        assert(r@ =~= digits@.reverse().subrange(0, digits@.len() - i));
    }
    assert(r@ =~= digits@.reverse());
    r
}

fn char_from_digit(d: u32) -> (c: char)
    requires
        d < 10,
    ensures
        c == ((d + 48) as char),
{
    (d + 48) as u8 as char
}

/// File name of a capture written without an explicit path:
/// `lg0-<kind>-<unix seconds>.png`.
pub fn capture_file_name(kind: &str, unix_secs: u64) -> (r: String)
    ensures
        r@ == "lg0-"@ + kind@ + "-"@ + decimal_text(unix_secs as nat) + ".png"@,
{
    let mut r = String::from_str("lg0-");
    r.append(kind);
    r.append("-");
    let digits = u64_decimal(unix_secs);
    r.append(digits.as_str());
    r.append(".png");
    r
}

} // verus!
