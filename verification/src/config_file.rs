//! Reading `config.toml`: its text as JSON, as an editable document, and the
//! default configuration.

use vstd::prelude::*;
use vstd::string::*;

verus! {

/// The editable TOML document of the `toml_edit` crate (keeps formatting and
/// comments when written back).
#[verifier::external_type_specification]
#[verifier::external_body]
pub struct ExDocumentMut(toml_edit::DocumentMut);

/// What the configuration text reads as in JSON: `None` where `toml` does not
/// parse it as a TOML value; otherwise the outcome of writing that value as
/// pretty JSON with `serde_json` (`None` where that reports an error).
pub uninterp spec fn toml_as_json(text: Seq<char>) -> Option<Option<Seq<char>>>;

/// Reads TOML text and writes its value as pretty JSON.
///
/// Trusted: calls `toml::from_str::<toml::Value>` on the text and, where it
/// succeeds, `serde_json::to_string_pretty` on the value. The parsed value is
/// opaque here, so the two calls stand together and their outcome is named as
/// a function of the text alone (both depend on nothing else).
#[verifier::external_body]
fn toml_text_as_json(text: &str) -> (r: Option<Option<String>>)
    ensures
        match r {
            None => toml_as_json(text@) is None,
            Some(None) => toml_as_json(text@) == Some(None::<Seq<char>>),
            Some(Some(j)) => toml_as_json(text@) == Some(Some(j@)),
        },
{
    match toml::from_str::<toml::Value>(text) {
        Ok(v) => Some(serde_json::to_string_pretty(&v).ok()),
        Err(_) => None,
    }
}

/// The configuration as pretty JSON text (the whole configuration as one JSON
/// object): `{}` when the text is not TOML, and empty text when the value
/// cannot be written as JSON.
pub fn config_json(text: &str) -> (r: String)
    ensures
        r@ == match toml_as_json(text@) {
            None => "{}"@,
            Some(None) => Seq::<char>::empty(),
            Some(Some(j)) => j,
        },
{
    match toml_text_as_json(text) {
        Some(Some(s)) => s,
        Some(None) => String::new(),
        None => String::from_str("{}"),
    }
}

/// The text of a document as its `Display` writes it (what is written back
/// to `config.toml`).
pub uninterp spec fn document_text(doc: toml_edit::DocumentMut) -> Seq<char>;

/// What `toml_edit` makes of `text` as a document: the parsed document's text
/// (`document_text`), or the message of the parse error.
pub uninterp spec fn toml_document(text: Seq<char>) -> Result<Seq<char>, Seq<char>>;

/// Parses TOML text into an editable document.
///
/// Trusted: calls `<toml_edit::DocumentMut as FromStr>::from_str`; on error,
/// hands back the error's `Display` text. The outcome (the parsed document's
/// text, or the error text) is taken to be a function of the input text. How
/// the document's text relates to the input is not stated: the crate keeps
/// formatting and comments, with the exceptions its documentation lists.
#[verifier::external_body]
fn parse_document(text: &str) -> (r: Result<toml_edit::DocumentMut, String>)
    ensures
        match r {
            Ok(d) => toml_document(text@) == Ok::<Seq<char>, Seq<char>>(document_text(d)),
            Err(m) => toml_document(text@) == Err::<Seq<char>, Seq<char>>(m@),
        },
{
    match text.parse::<toml_edit::DocumentMut>() {
        Ok(d) => Ok(d),
        Err(e) => Err(e.to_string()),
    }
}

/// An empty document.
///
/// Trusted: calls `toml_edit::DocumentMut::new`, a document with an empty
/// root table and no decoration, which `Display` writes as empty text.
#[verifier::external_body]
fn empty_document() -> (d: toml_edit::DocumentMut)
    ensures
        document_text(d) == Seq::<char>::empty(),
{
    toml_edit::DocumentMut::new()
}

/// Parses the text of `config.toml` for editing; a parse error becomes
/// `解析 config.toml 失败: <error>`.
pub fn parse_config(text: &str) -> (r: Result<toml_edit::DocumentMut, String>)
    ensures
        r is Ok <==> toml_document(text@) is Ok,
        r matches Ok(d) ==> toml_document(text@) == Ok::<Seq<char>, Seq<char>>(document_text(d)),
        r matches Err(m) ==> toml_document(text@) matches Err(e) && m@ == "解析 config.toml 失败: "@
            + e,
{
    match parse_document(text) {
        Ok(d) => Ok(d),
        Err(e) => {
            let mut m = String::from_str("解析 config.toml 失败: ");
            m.append(e.as_str());
            Err(m)
        },
    }
}

/// The default configuration, as TOML text.
pub const DEFAULT_CONFIG: &'static str = "
[panel]
half_size = [200.0, 150.0]
corner_radius = 28.0
bevel_width = 0.20
bevel_depth = 55.0
reference_size = 200.0

[optical]
refractive_index = 1.3
chromatic_strength = 0.03
fresnel_intensity = 2.0
fresnel_color = [0.9, 0.95, 1.0]
specular_intensity = 0.4
specular_shininess = 150.0
blur_radius = 20.0

[material]
tint_color = [1.0, 1.0, 1.0]
tint_opacity = 0.08
background_opacity = 0.92
saturation = 1.4
contrast = 1.04
brightness = 0.08

[shadow]
opacity = 0.3
blur = 8.0
offset_y = 4.0

[interaction]
spring_k = 300.0
damping_b = 20.0

[[lights]]
position_factor = [0.2, 0.15]
color = [1.0, 1.0, 1.0]
intensity = 0.9

[[lights]]
position_factor = [0.85, 0.25]
color = [0.95, 0.97, 1.0]
intensity = 0.5

[[lights]]
position_factor = [0.75, 0.8]
color = [1.0, 0.98, 0.95]
intensity = 0.3
";

/// The default configuration as a document: `DEFAULT_CONFIG` as `toml_edit`
/// parses it (an empty document should the default text not parse).
pub fn default_config_doc() -> (d: toml_edit::DocumentMut)
    ensures
        match toml_document(DEFAULT_CONFIG@) {
            Ok(t) => document_text(d) == t,
            Err(_) => document_text(d) == Seq::<char>::empty(),
        },
{
    match parse_document(DEFAULT_CONFIG) {
        Ok(d) => d,
        Err(_) => empty_document(),
    }
}

} // verus!
