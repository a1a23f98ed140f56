//! Templating of the site's root files: HTML and CSS files are rendered as
//! Tera templates, every other file is copied as it is.
//!
//! The library decides which files are templates, hands their text to Tera
//! and turns the rendered text into bytes. The render call itself is left
//! to the caller: Tera's built-in functions may panic (`get_random` with an
//! empty range) on templates that it accepts, and which ones cannot be told
//! from the text beforehand.

use vstd::prelude::*;

use crate::template::{engine_with, tera_accepts, TemplateEngine};
use crate::text::{str_equal, utf8_bytes, utf8_string};

verus! {

/// Why a root file could not be rendered.
#[derive(Debug, Clone, Copy, PartialEq, Eq, Structural)]
pub enum RenderError {
    /// An HTML or CSS file is not UTF-8.
    NotUtf8,
    /// Tera refused the file as a template.
    TemplateParse,
    /// Rendering the template failed.
    TemplateRender,
}

/// Whether a file with this extension is rendered as a template.
pub open spec fn is_template_extension(ext: Option<Seq<char>>) -> bool {
    match ext {
        Some(e) => e == "html"@ || e == "css"@,
        None => false,
    }
}

/// A file is a template exactly when its extension is `html` or `css`,
/// compared character for character; a file without an extension, or with
/// any other one, is copied as it is.
pub proof fn law_templates_are_html_and_css(e: Seq<char>)
    ensures
        is_template_extension(Some(e)) == (e == seq!['h', 't', 'm', 'l'] || e == seq!['c', 's', 's']),
        !is_template_extension(None),
{
    reveal_strlit("html");
    reveal_strlit("css");
    assert("html"@ =~= seq!['h', 't', 'm', 'l']);
    assert("css"@ =~= seq!['c', 's', 's']);
}

/// Whether a file with this extension is rendered as a template: HTML and
/// CSS files are.
pub fn template_extension(ext: Option<&str>) -> (res: bool)
    ensures
        res == is_template_extension(
            match ext {
                Some(e) => Some(e@),
                None => None,
            },
        ),
{
    match ext {
        Some(e) => str_equal(e, "html") || str_equal(e, "css"),
        None => false,
    }
}

/// The bytes written for a rendered template, or the error of its rendering.
pub fn rendered_bytes(outcome: Result<String, tera::Error>) -> (res: Result<Vec<u8>, RenderError>)
    ensures
        match outcome {
            Ok(s) => res matches Ok(b) && b@ == vstd::utf8::encode_utf8(s@),
            Err(_) => res matches Err(e) && e == RenderError::TemplateRender,
        },
{
    match outcome {
        Ok(s) => Ok(utf8_bytes(&s)),
        Err(_) => Err(RenderError::TemplateRender),
    }
}

/// What a root file is taken as.
pub enum RootFile {
    /// A file copied as it is.
    Copy(Vec<u8>),
    /// An HTML or CSS file, whose text is rendered as a template.
    Template(String),
}

/// Sorts a root file with contents `content` and extension `ext`: HTML and
/// CSS files are templates, whose text is the UTF-8 they hold; every other
/// file is copied as it is.
pub fn classify_root_file(content: Vec<u8>, ext: Option<&str>) -> (res: Result<RootFile, RenderError>)
    ensures
        ({
            let e = match ext {
                Some(e) => Some(e@),
                None => None,
            };
            &&& !is_template_extension(e) ==> (res matches Ok(RootFile::Copy(b)) && b@ == content@)
            &&& is_template_extension(e) && !vstd::utf8::valid_utf8(content@) ==> (res matches Err(
                RenderError::NotUtf8,
            ))
            &&& is_template_extension(e) && vstd::utf8::valid_utf8(content@) ==> (res matches Ok(
                RootFile::Template(t),
            ) && t@ == vstd::utf8::decode_utf8(content@))
        }),
{
    if !template_extension(ext) {
        return Ok(RootFile::Copy(content));
    }
    match utf8_string(content) {
        Some(t) => Ok(RootFile::Template(t)),
        None => Err(RenderError::NotUtf8),
    }
}

/// A Tera engine holding `template` as its only template, under the name
/// `template`, or `TemplateParse` where Tera refuses it.
pub fn template_engine(template: &str) -> (res: Result<TemplateEngine, RenderError>)
    ensures
        res is Ok <==> tera_accepts("template"@, template@),
        res matches Ok(e) ==> e.template_name() == "template"@ && e.text() == template@,
        res matches Err(e) ==> e == RenderError::TemplateParse,
{
    match engine_with("template", template) {
        Ok(engine) => Ok(engine),
        Err(_) => Err(RenderError::TemplateParse),
    }
}

} // verus!
