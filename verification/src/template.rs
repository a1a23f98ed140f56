//! A Tera engine that holds one template, together with the name and the
//! text it was given.

use vstd::prelude::*;

verus! {

/// `tera::Tera`, a set of parsed templates.
#[verifier::external_type_specification]
#[verifier::external_body]
pub struct ExTera(tera::Tera);

/// `tera::Error`.
#[verifier::external_type_specification]
#[verifier::external_body]
pub struct ExTeraError(tera::Error);

/// Whether Tera accepts `template`, under the name `name`, as the only
/// template of a fresh engine.
pub uninterp spec fn tera_accepts(name: Seq<char>, template: Seq<char>) -> bool;

/// A Tera engine holding exactly one template.
pub struct TemplateEngine {
    engine: tera::Tera,
    name: String,
    text: Ghost<Seq<char>>,
}

impl TemplateEngine {
    /// The name the template is held under.
    pub closed spec fn template_name(&self) -> Seq<char> {
        self.name@
    }

    /// The text the template was parsed from.
    pub closed spec fn text(&self) -> Seq<char> {
        self.text@
    }

    /// The engine, to render the template with.
    pub fn engine(&self) -> &tera::Tera {
        &self.engine
    }

    /// The name the template is held under, to render it by.
    pub fn name(&self) -> (res: &str)
        ensures
            res@ == self.template_name(),
    {
        self.name.as_str()
    }
}

/// A fresh `tera::Tera::default()`, which holds no template, with `template`
/// added under `name` by `Tera::add_raw_template`. Claimed: whether it
/// succeeds is a function of the name and the text alone, named
/// `tera_accepts`; on success the engine holds that text under that name.
#[verifier::external_body]
pub(crate) fn engine_with(name: &str, template: &str) -> (res: Result<TemplateEngine, tera::Error>)
    ensures
        res is Ok <==> tera_accepts(name@, template@),
        res matches Ok(e) ==> e.template_name() == name@ && e.text() == template@,
{
    let mut engine = tera::Tera::default();
    match engine.add_raw_template(name, template) {
        Ok(()) => Ok(TemplateEngine { engine, name: name.to_owned(), text: Ghost(template@) }),
        Err(e) => Err(e),
    }
}

} // verus!
