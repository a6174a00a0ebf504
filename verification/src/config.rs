//! Process-wide configuration: one descriptor per supported media type, and
//! the builder that turns a request into a generation prompt.

use vstd::prelude::*;

verus! {

/// Configuration for a single content type: which model generates it, the
/// system instructions it is generated under, the `Content-Type` header it is
/// served with, and the file extensions that select it.
pub struct ContentTypeConfig {
    pub model: String,
    pub system_prompt: String,
    pub content_type_header: String,
    pub extensions: Vec<String>,
}

impl ContentTypeConfig {
    pub fn user_prompt_builder(&self, path: String) -> (r: UserPromptBuilder)
        ensures
            r.path@ == path@,
            r.headers is None,
            r.reference_materials is None,
    {
        UserPromptBuilder { path, headers: None, reference_materials: None }
    }
}

/// Root configuration: media-type key to descriptor, scanned in order; the
/// resolver takes the first match, so well-formed configurations keep the
/// matchable keys and extension sets disjoint.
pub struct WebSimConfig {
    pub content_types: Vec<(String, ContentTypeConfig)>,
}

/// The rendered user prompt: a fixed template around the target path, the
/// referrer text and the assembled reference material.
pub open spec fn user_prompt_text(path: Seq<char>, headers: Seq<char>, refs: Seq<char>) -> Seq<
    char,
> {
    "Generate content for path: "@ + path
        + "\n\nThe following materials are context-only. They are **not part of the output**.\nUse them only to stay consistent with style or data conventions.\n\nHeaders: "@
        + headers + "\nReference materials: "@ + refs
}

/// Builder for constructing user prompts.
pub struct UserPromptBuilder {
    pub path: String,
    pub headers: Option<String>,
    pub reference_materials: Option<String>,
}

/// Relies on minijinja (Environment::new, add_template, get_template,
/// Template::render): the template here is fixed and valid and every
/// placeholder it names is supplied, so adding and rendering it succeed; and
/// the template name carries no extension, so minijinja's default
/// auto-escape callback selects no escaping and `{{ ... }}` substitutes each
/// string value verbatim.  The rendered prompt is therefore exactly the
/// template text around the three values.
#[verifier::external_body]
fn render_user_prompt(path: &str, headers: &str, reference_materials: &str) -> (r: Result<
    String,
    String,
>)
    ensures
        r is Ok,
        r matches Ok(p) ==> p@ == user_prompt_text(path@, headers@, reference_materials@),
{
    let mut env = minijinja::Environment::new();
    env.add_template("user_prompt", "Generate content for path: {{ path }}\n\nThe following materials are context-only. They are **not part of the output**.\nUse them only to stay consistent with style or data conventions.\n\nHeaders: {{ headers }}\nReference materials: {{ reference_materials }}").map_err(|e| format!("{}", e))?;
    let template = env.get_template("user_prompt").map_err(|e| format!("{}", e))?;
    let mut ctx = std::collections::BTreeMap::new();
    ctx.insert("path", path);
    ctx.insert("headers", headers);
    ctx.insert("reference_materials", reference_materials);
    template.render(&ctx).map_err(|e| format!("{}", e))
}

impl UserPromptBuilder {
    /// Renders the user prompt; absent headers or reference material appear
    /// as the literal placeholder "none".  The fixed template always
    /// renders, so the result is always the prompt; the `Result` records
    /// that a rendering failure would be reported, not swallowed.
    pub fn build(self) -> (r: Result<String, String>)
        ensures
            (r matches Ok(p) && p@ == user_prompt_text(
                self.path@,
                match self.headers {
                    Some(h) => h@,
                    None => "none"@,
                },
                match self.reference_materials {
                    Some(m) => m@,
                    None => "none"@,
                },
            )),
    {
        let UserPromptBuilder { path, headers, reference_materials } = self;
        let headers_text = match headers {
            Some(h) => h,
            None => "none".to_owned(),
        };
        let refs_text = match reference_materials {
            Some(m) => m,
            None => "none".to_owned(),
        };
        render_user_prompt(path.as_str(), headers_text.as_str(), refs_text.as_str())
    }

    pub fn headers(self, headers: String) -> (r: Self)
        ensures
            r.path == self.path,
            (r.headers matches Some(h) && h@ == headers@),
            r.reference_materials == self.reference_materials,
    {
        UserPromptBuilder { headers: Some(headers), ..self }
    }

    pub fn reference_materials(self, reference_materials: String) -> (r: Self)
        ensures
            r.path == self.path,
            r.headers == self.headers,
            (r.reference_materials matches Some(m) && m@ == reference_materials@),
    {
        UserPromptBuilder { reference_materials: Some(reference_materials), ..self }
    }
}

} // verus!
