//! The template resolver: turns tag bodies into elements and pages, going
//! down into nested pages and blog directories up to a fixed depth.
use vstd::prelude::*;

use crate::answers::{find_dir, lookup, request_model, Answers, AnswersModel, Request, RequestModel};
use crate::dates::{date_tag, parse_date};
use crate::elements::{
    is_text, links_element, navbar_paths, option_model, parse_code, parse_links, parse_name, parse_navbar,
    parse_nkr_cms_info, parse_paragraph, parse_title, text_element, NR_CMS_INFO_TEXT,
};
use crate::images::{image_tag, parse_image};
use crate::model::{
    element_model, element_wf, elements_model, elements_wf, post_model, posts_model, posts_wf,
    BlogPost, CMSBlog, CMSPage, CMSSite, ElementModel, NamedPage, PostModel, TemplateType,
};
use crate::tags::{extract, get_tags};
use crate::text::{cut_first, split_first, strings_view};

verus! {

/// How deep pages and blogs may nest inside each other.
pub const MAX_NESTING: u32 = 16;

/// What one tag body resolves to.
pub enum Resolved {
    Element(ElementModel),
    /// The elements of a nested page.
    Page(Seq<ElementModel>),
}

/// The elements and named pages of a text.
pub struct ParsedModel {
    pub elements: Seq<ElementModel>,
    pub pages: Seq<(Seq<char>, Seq<ElementModel>)>,
}

pub open spec fn parsed_empty() -> ParsedModel {
    ParsedModel { elements: Seq::empty(), pages: Seq::empty() }
}

/// The text of the first `Name` element.
pub open spec fn first_name(s: Seq<ElementModel>) -> Option<Seq<char>>
    decreases s.len(),
{
    if s.len() == 0 {
        None
    } else {
        match first_name(s.drop_last()) {
            Some(n) => Some(n),
            None => match s.last() {
                ElementModel::Name(n) => Some(n),
                _ => None,
            },
        }
    }
}

/// The timestamp of the first `Date` element.
pub open spec fn first_date(s: Seq<ElementModel>) -> Option<i64>
    decreases s.len(),
{
    if s.len() == 0 {
        None
    } else {
        match first_date(s.drop_last()) {
            Some(d) => Some(d),
            None => match s.last() {
                ElementModel::Date(d) => Some(d),
                _ => None,
            },
        }
    }
}

/// The first position at or after `i` of a page named `name`.
pub open spec fn page_slot(pages: Seq<(Seq<char>, Seq<ElementModel>)>, name: Seq<char>, i: int) -> Option<int>
    decreases pages.len() - i,
{
    if i < 0 || i >= pages.len() {
        None
    } else if pages[i].0 == name {
        Some(i)
    } else {
        page_slot(pages, name, i + 1)
    }
}

/// Registers a page under `name`, replacing one registered before.
pub open spec fn insert_page(
    pages: Seq<(Seq<char>, Seq<ElementModel>)>,
    name: Seq<char>,
    elements: Seq<ElementModel>,
) -> Seq<(Seq<char>, Seq<ElementModel>)> {
    match page_slot(pages, name, 0) {
        Some(k) => pages.update(k, (name, elements)),
        None => pages.push((name, elements)),
    }
}

/// Adds what one tag resolved to: an element is appended; a page is
/// registered under its first name, and dropped when it has none.
pub open spec fn add_resolved(p: ParsedModel, r: Option<Resolved>) -> ParsedModel {
    match r {
        None => p,
        Some(Resolved::Element(e)) => ParsedModel { elements: p.elements.push(e), pages: p.pages },
        Some(Resolved::Page(els)) => match first_name(els) {
            Some(n) => ParsedModel { elements: p.elements, pages: insert_page(p.pages, n, els) },
            None => p,
        },
    }
}

pub open spec fn as_element(e: Option<ElementModel>) -> Option<Resolved> {
    match e {
        Some(e) => Some(Resolved::Element(e)),
        None => None,
    }
}

pub open spec fn element_result(r: Result<Option<ElementModel>, RequestModel>) -> Result<Option<Resolved>, RequestModel> {
    match r {
        Ok(e) => Ok(as_element(e)),
        Err(q) => Err(q),
    }
}

/// What a text parses to, with pages and blogs resolved down to `depth`
/// more levels: its elements and pages, or the first request that the
/// answers leave open. A text whose markers do not balance has no tags.
pub open spec fn parse_spec(s: Seq<char>, env: AnswersModel, depth: nat) -> Result<ParsedModel, RequestModel>
    decreases depth, 3nat, 0nat,
{
    match extract(s) {
        None => Ok(parsed_empty()),
        Some(tags) => fold_tags(tags, tags.len(), env, depth),
    }
}

/// The first `n` tags, resolved in order.
pub open spec fn fold_tags(tags: Seq<Seq<char>>, n: nat, env: AnswersModel, depth: nat) -> Result<ParsedModel, RequestModel>
    decreases depth, 2nat, n,
{
    if n == 0 || n > tags.len() {
        Ok(parsed_empty())
    } else {
        match fold_tags(tags, (n - 1) as nat, env, depth) {
            Err(q) => Err(q),
            Ok(p) => match tag_spec(tags[n - 1], env, depth) {
                Err(q) => Err(q),
                Ok(r) => Ok(add_resolved(p, r)),
            },
        }
    }
}

/// What one tag body `Name|payload` resolves to. Unknown names, missing
/// payloads and nesting beyond `depth` give nothing.
pub open spec fn tag_spec(body: Seq<char>, env: AnswersModel, depth: nat) -> Result<Option<Resolved>, RequestModel>
    decreases depth, 1nat, 0nat,
{
    let name = split_first(body, '|').0;
    let payload = split_first(body, '|').1;
    if name == "Navbar"@ {
        Ok(as_element(text_element(payload, |p| ElementModel::Navbar(navbar_paths(p)))))
    } else if name == "Title"@ {
        Ok(as_element(text_element(payload, |p| ElementModel::Title(p))))
    } else if name == "Paragraph"@ {
        Ok(as_element(text_element(payload, |p| ElementModel::Paragraph(p))))
    } else if name == "Links"@ {
        Ok(
            as_element(
                match payload {
                    Some(p) => links_element(p),
                    None => None,
                },
            ),
        )
    } else if name == "NKR-CMS-INFO"@ {
        Ok(Some(Resolved::Element(ElementModel::Info(NR_CMS_INFO_TEXT@))))
    } else if name == "Image"@ {
        match payload {
            Some(p) => element_result(image_tag(p, env)),
            None => Ok(None),
        }
    } else if name == "Name"@ {
        Ok(as_element(text_element(payload, |p| ElementModel::Name(p))))
    } else if name == "Page"@ {
        match payload {
            Some(p) => if depth == 0 {
                Ok(None)
            } else {
                match parse_spec(p, env, (depth - 1) as nat) {
                    Err(q) => Err(q),
                    Ok(pm) => Ok(Some(Resolved::Page(pm.elements))),
                }
            },
            None => Ok(None),
        }
    } else if name == "Date"@ {
        match payload {
            Some(p) => element_result(date_tag(p, env)),
            None => Ok(None),
        }
    } else if name == "Blog"@ {
        match payload {
            Some(d) => if depth == 0 {
                Ok(None)
            } else {
                match lookup(env.dirs, d) {
                    None => Err(RequestModel::BlogDir(d)),
                    Some(None) => Ok(None),
                    Some(Some(files)) => match posts_spec(files, files.len(), env, (depth - 1) as nat) {
                        Err(q) => Err(q),
                        Ok(ps) => Ok(Some(Resolved::Element(ElementModel::Blog(ps)))),
                    },
                }
            },
            None => Ok(None),
        }
    } else if name == "Code"@ {
        Ok(as_element(text_element(payload, |p| ElementModel::Code(p))))
    } else {
        Ok(None)
    }
}

/// The posts of the first `n` blog files, in order; a file without a
/// `Date` element gives no post.
pub open spec fn posts_spec(files: Seq<Seq<char>>, n: nat, env: AnswersModel, depth: nat) -> Result<Seq<PostModel>, RequestModel>
    decreases depth, 4nat, n,
{
    if n == 0 || n > files.len() {
        Ok(Seq::empty())
    } else {
        match posts_spec(files, (n - 1) as nat, env, depth) {
            Err(q) => Err(q),
            Ok(ps) => match parse_spec(files[n - 1], env, depth) {
                Err(q) => Err(q),
                Ok(pm) => match first_date(pm.elements) {
                    Some(d) => Ok(ps.push(PostModel { date: d, elements: pm.elements })),
                    None => Ok(ps),
                },
            },
        }
    }
}

/// The model of registered pages.
pub open spec fn pages_model(v: Seq<NamedPage>) -> Seq<(Seq<char>, Seq<ElementModel>)> {
    v.map_values(|p: NamedPage| (p.name@, elements_model(p.page.templates@)))
}

pub open spec fn parsed_model(elements: Seq<TemplateType>, pages: Seq<NamedPage>) -> ParsedModel {
    ParsedModel { elements: elements_model(elements), pages: pages_model(pages) }
}

/// A tag body resolved in the executable form.
pub enum ParseElements {
    Template(TemplateType),
    Page(CMSPage),
}

pub open spec fn parse_elements_model(r: Option<ParseElements>) -> Option<Resolved> {
    match r {
        None => None,
        Some(ParseElements::Template(t)) => Some(Resolved::Element(element_model(t))),
        Some(ParseElements::Page(p)) => Some(Resolved::Page(elements_model(p.templates@))),
    }
}

pub proof fn lemma_elements_model_push(v: Seq<TemplateType>, t: TemplateType)
    ensures
        elements_model(v.push(t)) == elements_model(v).push(element_model(t)),
        elements_wf(v.push(t)) == (elements_wf(v) && element_wf(t)),
{
    assert(v.push(t).drop_last() =~= v);
}

pub proof fn lemma_posts_model_push(v: Seq<BlogPost>, p: BlogPost)
    ensures
        posts_model(v.push(p)) == posts_model(v).push(post_model(p)),
        posts_wf(v.push(p)) == (posts_wf(v) && elements_wf(p.templates@)),
{
    assert(v.push(p).drop_last() =~= v);
}

/// Every page's elements are well formed.
pub open spec fn pages_wf(v: Seq<NamedPage>) -> bool {
    forall|k: int| 0 <= k < v.len() ==> elements_wf(#[trigger] v[k].page.templates@)
}

pub proof fn lemma_elements_model_index(v: Seq<TemplateType>)
    ensures
        elements_model(v).len() == v.len(),
        forall|k: int| 0 <= k < v.len() ==> #[trigger] elements_model(v)[k] == element_model(v[k]),
    decreases v.len(),
{
    if v.len() > 0 {
        lemma_elements_model_index(v.drop_last());
        assert forall|k: int| 0 <= k < v.len() implies #[trigger] elements_model(v)[k]
            == element_model(v[k]) by {
            if k < v.len() - 1 {
                assert(v.drop_last()[k] == v[k]);
            }
        }
    }
}

proof fn lemma_fold_err_sticks(tags: Seq<Seq<char>>, i: nat, n: nat, env: AnswersModel, depth: nat)
    requires
        i <= n <= tags.len(),
        fold_tags(tags, i, env, depth) is Err,
    ensures
        fold_tags(tags, n, env, depth) == fold_tags(tags, i, env, depth),
    decreases n - i,
{
    if n > i {
        lemma_fold_err_sticks(tags, i, (n - 1) as nat, env, depth);
    }
}

proof fn lemma_posts_err_sticks(files: Seq<Seq<char>>, i: nat, n: nat, env: AnswersModel, depth: nat)
    requires
        i <= n <= files.len(),
        posts_spec(files, i, env, depth) is Err,
    ensures
        posts_spec(files, n, env, depth) == posts_spec(files, i, env, depth),
    decreases n - i,
{
    if n > i {
        lemma_posts_err_sticks(files, i, (n - 1) as nat, env, depth);
    }
}

proof fn lemma_first_name_extends(s: Seq<ElementModel>, j: int)
    requires
        0 <= j <= s.len(),
        first_name(s.subrange(0, j)) is Some,
    ensures
        first_name(s) == first_name(s.subrange(0, j)),
    decreases s.len() - j,
{
    if j < s.len() {
        assert(s.subrange(0, j + 1).drop_last() =~= s.subrange(0, j));
        lemma_first_name_extends(s, j + 1);
    } else {
        assert(s.subrange(0, j) =~= s);
    }
}

proof fn lemma_first_date_extends(s: Seq<ElementModel>, j: int)
    requires
        0 <= j <= s.len(),
        first_date(s.subrange(0, j)) is Some,
    ensures
        first_date(s) == first_date(s.subrange(0, j)),
    decreases s.len() - j,
{
    if j < s.len() {
        assert(s.subrange(0, j + 1).drop_last() =~= s.subrange(0, j));
        lemma_first_date_extends(s, j + 1);
    } else {
        assert(s.subrange(0, j) =~= s);
    }
}

/// The text of the first `Name` element of `templates`.
pub fn get_name_of(templates: &Vec<TemplateType>) -> (r: Option<String>)
    ensures
        match r {
            Some(n) => first_name(elements_model(templates@)) == Some(n@),
            None => first_name(elements_model(templates@)) is None,
        },
{
    let ghost m = elements_model(templates@);
    proof {
        lemma_elements_model_index(templates@);
    }
    let mut i: usize = 0;
    assert(m.subrange(0, 0) =~= Seq::<ElementModel>::empty());
    while i < templates.len()
        invariant
            m == elements_model(templates@),
            m.len() == templates@.len(),
            forall|k: int| 0 <= k < templates@.len() ==> #[trigger] m[k] == element_model(templates@[k]),
            i <= templates@.len(),
            first_name(m.subrange(0, i as int)) is None,
        decreases templates@.len() - i,
    {
        assert(m.subrange(0, i as int + 1).drop_last() =~= m.subrange(0, i as int));
        assert(m[i as int] == element_model(templates@[i as int]));
        if let TemplateType::Name { name } = &templates[i] {
            proof {
                lemma_first_name_extends(m, i as int + 1);
            }
            return Some(name.clone());
        }
        i = i + 1;
    }
    assert(m.subrange(0, i as int) =~= m);
    None
}

/// The timestamp of the first `Date` element of `templates`.
pub fn get_date_of(templates: &Vec<TemplateType>) -> (r: Option<i64>)
    ensures
        r == first_date(elements_model(templates@)),
{
    let ghost m = elements_model(templates@);
    proof {
        lemma_elements_model_index(templates@);
    }
    let mut i: usize = 0;
    assert(m.subrange(0, 0) =~= Seq::<ElementModel>::empty());
    while i < templates.len()
        invariant
            m == elements_model(templates@),
            m.len() == templates@.len(),
            forall|k: int| 0 <= k < templates@.len() ==> #[trigger] m[k] == element_model(templates@[k]),
            i <= templates@.len(),
            first_date(m.subrange(0, i as int)) is None,
        decreases templates@.len() - i,
    {
        assert(m.subrange(0, i as int + 1).drop_last() =~= m.subrange(0, i as int));
        assert(m[i as int] == element_model(templates@[i as int]));
        if let TemplateType::Date { date } = &templates[i] {
            proof {
                lemma_first_date_extends(m, i as int + 1);
            }
            return Some(*date);
        }
        i = i + 1;
    }
    assert(m.subrange(0, i as int) =~= m);
    None
}

/// Registers `page` under `name`, replacing a page of that name.
pub fn insert_named_page(pages: &mut Vec<NamedPage>, name: String, page: CMSPage)
    requires
        pages_wf(old(pages)@),
        elements_wf(page.templates@),
    ensures
        pages_wf(final(pages)@),
        pages_model(final(pages)@) == insert_page(
            pages_model(old(pages)@),
            name@,
            elements_model(page.templates@),
        ),
{
    let ghost m = pages_model(pages@);
    let ghost els = elements_model(page.templates@);
    let n = pages.len();
    let mut i: usize = 0;
    while i < n
        invariant
            n == pages@.len(),
            i <= n,
            *pages == *old(pages),
            m == pages_model(pages@),
            els == elements_model(page.templates@),
            pages_wf(pages@),
            elements_wf(page.templates@),
            page_slot(m, name@, 0) == page_slot(m, name@, i as int),
        decreases n - i,
    {
        if pages[i].name == name {
            let ghost before = pages@;
            let entry = NamedPage { name, page };
            let ghost g = entry;
            pages.set(i, entry);
            assert(pages@ =~= before.update(i as int, g));
            assert(page_slot(m, g.name@, i as int) == Some(i as int));
            assert forall|k: int| 0 <= k < pages@.len() implies #[trigger] pages_model(pages@)[k]
                == m.update(i as int, (g.name@, els))[k] by {
                if k != i {
                    assert(pages@[k] == before[k]);
                }
            }
            assert(pages_model(pages@) =~= m.update(i as int, (g.name@, els)));
            assert forall|k: int| 0 <= k < pages@.len() implies elements_wf(
                #[trigger] pages@[k].page.templates@,
            ) by {
                if k != i {
                    assert(pages@[k] == before[k]);
                }
            }
            return;
        }
        i = i + 1;
    }
    let ghost before = pages@;
    pages.push(NamedPage { name, page });
    assert(pages_model(pages@) =~= m.push((name@, els)));
    assert forall|k: int| 0 <= k < pages@.len() implies elements_wf(
        #[trigger] pages@[k].page.templates@,
    ) by {
        if k < before.len() {
            assert(pages@[k] == before[k]);
        }
    }
}

/// Parses `content` into its elements and named pages, resolving nested
/// pages and blogs down to `depth` more levels. Returns the first request
/// that `answers` leaves open, if any.
pub fn parse_templates(content: &str, answers: &Answers, depth: u32) -> (r: Result<
    (Vec<TemplateType>, Vec<NamedPage>),
    Request,
>)
    ensures
        match (r, parse_spec(content@, answers@, depth as nat)) {
            (Ok(v), Ok(m)) => parsed_model(v.0@, v.1@) == m,
            (Err(q), Err(m)) => request_model(q) == m,
            _ => false,
        },
        r matches Ok(v) ==> elements_wf(v.0@) && pages_wf(v.1@),
    decreases depth, 3nat, 0nat,
{
    let mut result: Vec<TemplateType> = Vec::new();
    let mut pages: Vec<NamedPage> = Vec::new();
    assert(elements_model(result@) =~= Seq::<ElementModel>::empty());
    assert(pages_model(pages@) =~= Seq::<(Seq<char>, Seq<ElementModel>)>::empty());
    assert(elements_wf(result@));
    let tags = match get_tags(content) {
        Some(t) => t,
        None => return Ok((result, pages)),
    };
    let ghost bodies = strings_view(tags@);
    let mut i: usize = 0;
    while i < tags.len()
        invariant
            extract(content@) == Some(bodies),
            bodies == strings_view(tags@),
            i <= tags@.len(),
            fold_tags(bodies, i as nat, answers@, depth as nat) == Ok::<
                ParsedModel,
                RequestModel,
            >(parsed_model(result@, pages@)),
            elements_wf(result@),
            pages_wf(pages@),
        decreases tags@.len() - i,
    {
        assert(bodies[i as int] == tags@[i as int]@);
        let resolved = match parse_template(tags[i].as_str(), answers, depth) {
            Ok(r) => r,
            Err(q) => {
                proof {
                    lemma_fold_err_sticks(bodies, i as nat + 1, bodies.len(), answers@, depth as nat);
                }
                return Err(q);
            },
        };
        match resolved {
            None => {},
            Some(ParseElements::Template(t)) => {
                proof {
                    lemma_elements_model_push(result@, t);
                }
                result.push(t);
            },
            Some(ParseElements::Page(page)) => {
                match get_name_of(&page.templates) {
                    Some(name) => {
                        insert_named_page(&mut pages, name, page);
                    },
                    None => {},
                }
            },
        }
        i = i + 1;
    }
    Ok((result, pages))
}

/// Resolves one tag body `Name|payload`.
pub fn parse_template(template_content: &str, answers: &Answers, depth: u32) -> (r: Result<
    Option<ParseElements>,
    Request,
>)
    ensures
        match (r, tag_spec(template_content@, answers@, depth as nat)) {
            (Ok(v), Ok(m)) => parse_elements_model(v) == m,
            (Err(q), Err(m)) => request_model(q) == m,
            _ => false,
        },
        r matches Ok(Some(ParseElements::Template(t))) ==> element_wf(t),
        r matches Ok(Some(ParseElements::Page(p))) ==> elements_wf(p.templates@),
    decreases depth, 1nat, 0nat,
{
    let (template_name, payload) = cut_first(template_content, '|');
    let content: Option<&str> = match &payload {
        Some(p) => Some(p.as_str()),
        None => None,
    };
    if is_text(&template_name, "Navbar") {
        Ok(as_template(parse_navbar(content)))
    } else if is_text(&template_name, "Title") {
        Ok(as_template(parse_title(content)))
    } else if is_text(&template_name, "Paragraph") {
        Ok(as_template(parse_paragraph(content)))
    } else if is_text(&template_name, "Links") {
        Ok(as_template(parse_links(content)))
    } else if is_text(&template_name, "NKR-CMS-INFO") {
        Ok(as_template(parse_nkr_cms_info()))
    } else if is_text(&template_name, "Image") {
        Ok(as_template(parse_image(content, answers)?))
    } else if is_text(&template_name, "Name") {
        Ok(as_template(parse_name(content)))
    } else if is_text(&template_name, "Page") {
        match content {
            Some(p) => if depth == 0 {
                Ok(None)
            } else {
                let page = parse_page(p, answers, depth - 1)?;
                Ok(Some(ParseElements::Page(page)))
            },
            None => Ok(None),
        }
    } else if is_text(&template_name, "Date") {
        Ok(as_template(parse_date(content, answers)?))
    } else if is_text(&template_name, "Blog") {
        match content {
            Some(d) => if depth == 0 {
                Ok(None)
            } else {
                Ok(as_template(parse_blog(d, answers, depth - 1)?))
            },
            None => Ok(None),
        }
    } else if is_text(&template_name, "Code") {
        Ok(as_template(parse_code(content)))
    } else {
        Ok(None)
    }
}

fn as_template(t: Option<TemplateType>) -> (r: Option<ParseElements>)
    requires
        t matches Some(x) ==> element_wf(x),
    ensures
        parse_elements_model(r) == as_element(option_model(t)),
        r matches Some(ParseElements::Template(x)) ==> element_wf(x),
        r matches Some(ParseElements::Page(_)) ==> false,
{
    match t {
        Some(t) => Some(ParseElements::Template(t)),
        None => None,
    }
}

/// The elements of a nested page; its own nested pages are dropped.
pub fn parse_page(content: &str, answers: &Answers, depth: u32) -> (r: Result<CMSPage, Request>)
    ensures
        match (r, parse_spec(content@, answers@, depth as nat)) {
            (Ok(p), Ok(m)) => elements_model(p.templates@) == m.elements,
            (Err(q), Err(m)) => request_model(q) == m,
            _ => false,
        },
        r matches Ok(p) ==> elements_wf(p.templates@),
    decreases depth, 4nat, 0nat,
{
    let (templates, _pages) = parse_templates(content, answers, depth)?;
    Ok(CMSPage { templates })
}

/// The blog in the directory `dir`: one post per file that has a `Date`
/// element, in the order the files were listed.
pub fn parse_blog(dir: &str, answers: &Answers, depth: u32) -> (r: Result<Option<TemplateType>, Request>)
    ensures
        match (r, lookup(answers@.dirs, dir@)) {
            (Err(q), None) => request_model(q) == RequestModel::BlogDir(dir@),
            (Ok(None), Some(None)) => true,
            (Ok(Some(t)), Some(Some(files))) => match posts_spec(files, files.len(), answers@, depth as nat) {
                Ok(ps) => element_model(t) == ElementModel::Blog(ps),
                Err(_) => false,
            },
            (Err(q), Some(Some(files))) => match posts_spec(files, files.len(), answers@, depth as nat) {
                Ok(_) => false,
                Err(m) => request_model(q) == m,
            },
            _ => false,
        },
        r matches Ok(Some(t)) ==> element_wf(t),
    decreases depth, 4nat, 0nat,
{
    let dir_name = dir.to_owned();
    let files = match find_dir(answers, &dir_name) {
        None => return Err(Request::BlogDir(dir_name)),
        Some(None) => return Ok(None),
        Some(Some(f)) => f,
    };
    let ghost texts = strings_view(files@);
    let mut posts: Vec<BlogPost> = Vec::new();
    let mut i: usize = 0;
    assert(posts_model(posts@) =~= Seq::<PostModel>::empty());
    assert(posts_wf(posts@));
    while i < files.len()
        invariant
            texts == strings_view(files@),
            dir_name@ == dir@,
            lookup(answers@.dirs, dir@) == Some(Some(texts)),
            i <= files@.len(),
            posts_spec(texts, i as nat, answers@, depth as nat) == Ok::<
                Seq<PostModel>,
                RequestModel,
            >(posts_model(posts@)),
            posts_wf(posts@),
        decreases files@.len() - i,
    {
        assert(texts[i as int] == files@[i as int]@);
        let (templates, _pages) = match parse_templates(files[i].as_str(), answers, depth) {
            Ok(v) => v,
            Err(q) => {
                proof {
                    assert(posts_spec(texts, i as nat + 1, answers@, depth as nat) == Err::<
                        Seq<PostModel>,
                        RequestModel,
                    >(request_model(q)));
                    lemma_posts_err_sticks(texts, i as nat + 1, texts.len(), answers@, depth as nat);
                }
                return Err(q);
            },
        };
        match get_date_of(&templates) {
            Some(d) => {
                let post = BlogPost { post_date: d, templates };
                proof {
                    lemma_posts_model_push(posts@, post);
                }
                posts.push(post);
            },
            None => {},
        }
        i = i + 1;
    }
    Ok(Some(TemplateType::Blog(CMSBlog { posts })))
}

/// Parses a whole site from its source text.
pub fn parse_site(contents: String, answers: &Answers) -> (r: Result<CMSSite, Request>)
    ensures
        match (r, parse_spec(contents@, answers@, MAX_NESTING as nat)) {
            (Ok(site), Ok(m)) => site.original_content@ == contents@ && parsed_model(
                site.templates@,
                site.pages@,
            ) == m,
            (Err(q), Err(m)) => request_model(q) == m,
            _ => false,
        },
        r matches Ok(site) ==> elements_wf(site.templates@) && pages_wf(site.pages@),
{
    let (templates, pages) = parse_templates(contents.as_str(), answers, MAX_NESTING)?;
    Ok(CMSSite { original_content: contents, templates, pages })
}

} // verus!
