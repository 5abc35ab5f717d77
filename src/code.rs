//! Code blocks: keywords are wrapped in spans that carry a CSS class.
use vstd::prelude::*;

use crate::model::TemplateType;

verus! {

/// The text that `haystack` becomes when every match of the regular
/// expression `pattern` is replaced by `rep`, in which `$name`, `${name}`
/// and `$n` stand for the groups of the match (and `$$` for `$`); `None`
/// when `pattern` is not a valid expression.
pub uninterp spec fn replaced_all(pattern: Seq<char>, haystack: Seq<char>, rep: Seq<char>) -> Option<Seq<char>>;

/// Relies on regex's `Regex::new` and `Regex::replace_all`: the result
/// depends on the pattern, the text and the replacement alone.
#[verifier::external_body]
fn regex_replace_all(pattern: &str, haystack: &str, rep: &str) -> (r: Option<String>)
    ensures
        match r {
            Some(s) => replaced_all(pattern@, haystack@, rep@) == Some(s@),
            None => replaced_all(pattern@, haystack@, rep@) is None,
        },
{
    let re = regex::Regex::new(pattern).ok()?;
    Some(re.replace_all(haystack, rep).into_owned())
}

/// Keywords to be marked with one CSS class.
#[derive(Clone, Debug)]
pub struct Replacement {
    pub css_class: String,
    pub match_keywords: Vec<String>,
}

/// `keyword` wrapped in a span of class `code-<css_class>`.
pub open spec fn span_of(keyword: Seq<char>, css_class: Seq<char>) -> Seq<char> {
    "<span class=\"code-"@ + css_class + "\">"@ + keyword + "</span>"@
}

/// The expression that matches `keyword` as a whole word.
pub open spec fn word_pattern(keyword: Seq<char>) -> Seq<char> {
    "\\b"@ + keyword + "\\b"@
}

/// `code` with each whole-word `keyword` wrapped in its span; unchanged
/// when the keyword does not make a valid expression.
pub open spec fn replace_keyword(code: Seq<char>, keyword: Seq<char>, css_class: Seq<char>) -> Seq<char> {
    match replaced_all(word_pattern(keyword), code, span_of(keyword, css_class)) {
        Some(c) => c,
        None => code,
    }
}

/// `code` after the first `n` keywords of one class, in order.
pub open spec fn replace_keywords(code: Seq<char>, keywords: Seq<Seq<char>>, css_class: Seq<char>, n: nat) -> Seq<char>
    decreases n,
{
    if n == 0 || n > keywords.len() {
        code
    } else {
        replace_keyword(replace_keywords(code, keywords, css_class, (n - 1) as nat), keywords[n - 1], css_class)
    }
}

/// The class and the keywords of a replacement.
pub open spec fn replacement_model(r: Replacement) -> (Seq<char>, Seq<Seq<char>>) {
    (r.css_class@, r.match_keywords@.map_values(|k: String| k@))
}

/// `code` after the first `n` replacements, in order.
pub open spec fn replace_all_keywords(code: Seq<char>, reps: Seq<(Seq<char>, Seq<Seq<char>>)>, n: nat) -> Seq<char>
    decreases n,
{
    if n == 0 || n > reps.len() {
        code
    } else {
        let prev = replace_all_keywords(code, reps, (n - 1) as nat);
        replace_keywords(prev, reps[n - 1].1, reps[n - 1].0, reps[n - 1].1.len())
    }
}

/// The span that marks `keyword` with class `code-<css_class>`.
pub fn wrap_in_span(keyword: &str, css_class: &str) -> (r: String)
    ensures
        r@ == span_of(keyword@, css_class@),
{
    String::from_str("<span class=\"code-").concat(css_class).concat("\">").concat(keyword).concat(
        "</span>",
    )
}

/// Wraps each whole-word occurrence of `keyword` in `haystack` in `rep`;
/// `None` when the keyword does not make a valid expression.
pub fn keyword_replacement(keyword: &str, haystack: &str, rep: &str) -> (r: Option<String>)
    ensures
        match r {
            Some(s) => replaced_all(word_pattern(keyword@), haystack@, rep@) == Some(s@),
            None => replaced_all(word_pattern(keyword@), haystack@, rep@) is None,
        },
{
    let pattern = String::from_str("\\b").concat(keyword).concat("\\b");
    regex_replace_all(pattern.as_str(), haystack, rep)
}

/// Marks the keywords of each replacement in `code`, replacement after
/// replacement and keyword after keyword.
pub fn process_replacements(code: &str, replacements: &[Replacement]) -> (r: String)
    ensures
        r@ == replace_all_keywords(
            code@,
            replacements@.map_values(|x: Replacement| replacement_model(x)),
            replacements@.len(),
        ),
{
    let ghost reps = replacements@.map_values(|x: Replacement| replacement_model(x));
    let ghost source = code@;
    let mut code = code.to_owned();
    let mut i: usize = 0;
    while i < replacements.len()
        invariant
            reps == replacements@.map_values(|x: Replacement| replacement_model(x)),
            i <= replacements@.len(),
            code@ == replace_all_keywords(source, reps, i as nat),
        decreases replacements@.len() - i,
    {
        let replacement = &replacements[i];
        let ghost before = code@;
        let ghost keywords = reps[i as int].1;
        assert(reps[i as int] == replacement_model(*replacement));
        let mut j: usize = 0;
        while j < replacement.match_keywords.len()
            invariant
                i < replacements@.len(),
                reps == replacements@.map_values(|x: Replacement| replacement_model(x)),
                before == replace_all_keywords(source, reps, i as nat),
                keywords == reps[i as int].1,
                keywords == replacement.match_keywords@.map_values(|k: String| k@),
                reps[i as int].0 == replacement.css_class@,
                j <= replacement.match_keywords@.len(),
                code@ == replace_keywords(before, keywords, replacement.css_class@, j as nat),
            decreases replacement.match_keywords@.len() - j,
        {
            let keyword = &replacement.match_keywords[j];
            assert(keywords[j as int] == keyword@);
            let span = wrap_in_span(keyword.as_str(), replacement.css_class.as_str());
            code = match keyword_replacement(keyword.as_str(), code.as_str(), span.as_str()) {
                Some(c) => c,
                None => code,
            };
            j = j + 1;
        }
        i = i + 1;
    }
    code
}

/// No replacements are configured.
pub fn load_replacements() -> (r: Vec<Replacement>)
    ensures
        r@.len() == 0,
{
    Vec::new()
}

/// The HTML of a `Code` element: its text, keywords marked, in a
/// preformatted block; empty for any other element.
pub fn gen_code(template: &TemplateType) -> (r: String)
    ensures
        r@ == match template {
            TemplateType::Code { code } => "<pre><code>\n"@ + code@ + "\n</code></pre>"@,
            _ => Seq::<char>::empty(),
        },
{
    let replacements = load_replacements();
    match template {
        TemplateType::Code { code } => {
            let marked = process_replacements(code.as_str(), replacements.as_slice());
            assert(replacements@.map_values(|x: Replacement| replacement_model(x)).len() == 0);
            String::from_str("<pre><code>\n").concat(marked.as_str()).concat("\n</code></pre>")
        },
        _ => String::new(),
    }
}

} // verus!
