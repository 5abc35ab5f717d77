//! Finding elements in a sequence: the first of a kind, or all paragraphs.
use vstd::prelude::*;

use crate::model::{CMSBlog, LinkMap, TemplateType};

verus! {

/// The variant of an element.
#[derive(Clone, Copy, Debug, PartialEq, Eq, Structural)]
pub enum ElementKind {
    Title,
    Paragraph,
    Links,
    Navbar,
    Info,
    Image,
    Name,
    Date,
    Blog,
    Code,
}

pub open spec fn kind_of(t: TemplateType) -> ElementKind {
    match t {
        TemplateType::Title { .. } => ElementKind::Title,
        TemplateType::Paragraph { .. } => ElementKind::Paragraph,
        TemplateType::Links { .. } => ElementKind::Links,
        TemplateType::Navbar { .. } => ElementKind::Navbar,
        TemplateType::NRCMSInfo { .. } => ElementKind::Info,
        TemplateType::Image { .. } => ElementKind::Image,
        TemplateType::Name { .. } => ElementKind::Name,
        TemplateType::Date { .. } => ElementKind::Date,
        TemplateType::Blog(_) => ElementKind::Blog,
        TemplateType::Code { .. } => ElementKind::Code,
    }
}

/// The variant of `t`.
pub fn element_kind(t: &TemplateType) -> (r: ElementKind)
    ensures
        r == kind_of(*t),
{
    match t {
        TemplateType::Title { .. } => ElementKind::Title,
        TemplateType::Paragraph { .. } => ElementKind::Paragraph,
        TemplateType::Links { .. } => ElementKind::Links,
        TemplateType::Navbar { .. } => ElementKind::Navbar,
        TemplateType::NRCMSInfo { .. } => ElementKind::Info,
        TemplateType::Image { .. } => ElementKind::Image,
        TemplateType::Name { .. } => ElementKind::Name,
        TemplateType::Date { .. } => ElementKind::Date,
        TemplateType::Blog(_) => ElementKind::Blog,
        TemplateType::Code { .. } => ElementKind::Code,
    }
}

/// The position of the first element of kind `k`.
pub open spec fn first_of_kind(s: Seq<TemplateType>, k: ElementKind) -> Option<int>
    decreases s.len(),
{
    if s.len() == 0 {
        None
    } else {
        match first_of_kind(s.drop_last(), k) {
            Some(i) => Some(i),
            None => if kind_of(s.last()) == k {
                Some(s.len() - 1)
            } else {
                None
            },
        }
    }
}

pub proof fn lemma_first_of_kind(s: Seq<TemplateType>, k: ElementKind)
    ensures
        first_of_kind(s, k) matches Some(i) ==> 0 <= i < s.len() && kind_of(s[i]) == k,
    decreases s.len(),
{
    if s.len() > 0 {
        lemma_first_of_kind(s.drop_last(), k);
    }
}

proof fn lemma_first_of_kind_extends(s: Seq<TemplateType>, k: ElementKind, j: int)
    requires
        0 <= j <= s.len(),
        first_of_kind(s.subrange(0, j), k) is Some,
    ensures
        first_of_kind(s, k) == first_of_kind(s.subrange(0, j), k),
    decreases s.len() - j,
{
    if j < s.len() {
        assert(s.subrange(0, j + 1).drop_last() =~= s.subrange(0, j));
        lemma_first_of_kind_extends(s, k, j + 1);
    } else {
        assert(s.subrange(0, j) =~= s);
    }
}

/// The position of the first element of kind `kind` in `templates`.
pub fn find_first(templates: &Vec<TemplateType>, kind: ElementKind) -> (r: Option<usize>)
    ensures
        match r {
            Some(i) => first_of_kind(templates@, kind) == Some(i as int),
            None => first_of_kind(templates@, kind) is None,
        },
{
    let mut i: usize = 0;
    assert(templates@.subrange(0, 0) =~= Seq::<TemplateType>::empty());
    while i < templates.len()
        invariant
            i <= templates@.len(),
            first_of_kind(templates@.subrange(0, i as int), kind) is None,
        decreases templates@.len() - i,
    {
        assert(templates@.subrange(0, i as int + 1).drop_last() =~= templates@.subrange(0, i as int));
        assert(templates@.subrange(0, i as int + 1).last() == templates@[i as int]);
        if element_kind(&templates[i]) == kind {
            proof {
                lemma_first_of_kind_extends(templates@, kind, i as int + 1);
            }
            return Some(i);
        }
        i = i + 1;
    }
    assert(templates@.subrange(0, i as int) =~= templates@);
    None
}


/// The first element of kind `k` in `s`, if any.
pub open spec fn first_element(s: Seq<TemplateType>, k: ElementKind) -> Option<TemplateType> {
    match first_of_kind(s, k) {
        Some(i) => Some(s[i]),
        None => None,
    }
}

/// The text of the first `Title` element.
pub fn find_title(templates: &Vec<TemplateType>) -> (r: Option<&String>)
    ensures
        match first_element(templates@, ElementKind::Title) {
            Some(TemplateType::Title { title }) => r matches Some(t) && *t == title,
            _ => r is None,
        },
{
    proof {
        lemma_first_of_kind(templates@, ElementKind::Title);
    }
    match find_first(templates, ElementKind::Title) {
        Some(i) => templates[i].get_title(),
        None => None,
    }
}

/// The page names of the first `Navbar` element.
pub fn find_navbar(templates: &Vec<TemplateType>) -> (r: Option<&Vec<String>>)
    ensures
        match first_element(templates@, ElementKind::Navbar) {
            Some(TemplateType::Navbar { paths }) => r matches Some(p) && *p == paths,
            _ => r is None,
        },
{
    proof {
        lemma_first_of_kind(templates@, ElementKind::Navbar);
    }
    match find_first(templates, ElementKind::Navbar) {
        Some(i) => templates[i].get_navbar(),
        None => None,
    }
}

/// The links of the first `Links` element.
pub fn find_links(templates: &Vec<TemplateType>) -> (r: Option<&LinkMap>)
    ensures
        match first_element(templates@, ElementKind::Links) {
            Some(TemplateType::Links { links }) => r matches Some(l) && *l == links,
            _ => r is None,
        },
{
    proof {
        lemma_first_of_kind(templates@, ElementKind::Links);
    }
    match find_first(templates, ElementKind::Links) {
        Some(i) => templates[i].get_links(),
        None => None,
    }
}

/// The text of the first `NKR-CMS-INFO` element.
pub fn find_nr_cms_info(templates: &Vec<TemplateType>) -> (r: Option<&str>)
    ensures
        match first_element(templates@, ElementKind::Info) {
            Some(TemplateType::NRCMSInfo { text }) => r matches Some(t) && t@ == text@,
            _ => r is None,
        },
{
    proof {
        lemma_first_of_kind(templates@, ElementKind::Info);
    }
    match find_first(templates, ElementKind::Info) {
        Some(i) => templates[i].get_nr_cms_info(),
        None => None,
    }
}

/// The URL, copy flag and size of the first `Image` element.
pub fn find_image(templates: &Vec<TemplateType>) -> (r: Option<(&String, &bool, &Option<u32>)>)
    ensures
        match first_element(templates@, ElementKind::Image) {
            Some(TemplateType::Image { url, copy_asset, size }) => r matches Some(t) && *t.0 == url
                && *t.1 == copy_asset && *t.2 == size,
            _ => r is None,
        },
{
    proof {
        lemma_first_of_kind(templates@, ElementKind::Image);
    }
    match find_first(templates, ElementKind::Image) {
        Some(i) => templates[i].get_image(),
        None => None,
    }
}

/// The timestamp of the first `Date` element.
pub fn find_date(templates: &Vec<TemplateType>) -> (r: Option<&i64>)
    ensures
        match first_element(templates@, ElementKind::Date) {
            Some(TemplateType::Date { date }) => r matches Some(d) && *d == date,
            _ => r is None,
        },
{
    proof {
        lemma_first_of_kind(templates@, ElementKind::Date);
    }
    match find_first(templates, ElementKind::Date) {
        Some(i) => templates[i].get_date(),
        None => None,
    }
}

/// The blog of the first `Blog` element.
pub fn find_blog(templates: &Vec<TemplateType>) -> (r: Option<&CMSBlog>)
    ensures
        match first_element(templates@, ElementKind::Blog) {
            Some(TemplateType::Blog(blog)) => r matches Some(b) && *b == blog,
            _ => r is None,
        },
{
    proof {
        lemma_first_of_kind(templates@, ElementKind::Blog);
    }
    match find_first(templates, ElementKind::Blog) {
        Some(i) => templates[i].get_blog(),
        None => None,
    }
}

/// The text of the first `Code` element.
pub fn find_code(templates: &Vec<TemplateType>) -> (r: Option<&String>)
    ensures
        match first_element(templates@, ElementKind::Code) {
            Some(TemplateType::Code { code }) => r matches Some(c) && *c == code,
            _ => r is None,
        },
{
    proof {
        lemma_first_of_kind(templates@, ElementKind::Code);
    }
    match find_first(templates, ElementKind::Code) {
        Some(i) => templates[i].get_code(),
        None => None,
    }
}

/// The texts of the `Paragraph` elements, in order.
pub open spec fn paragraphs_of(s: Seq<TemplateType>) -> Seq<Seq<char>>
    decreases s.len(),
{
    if s.len() == 0 {
        Seq::empty()
    } else {
        let earlier = paragraphs_of(s.drop_last());
        match s.last() {
            TemplateType::Paragraph { content } => earlier.push(content@),
            _ => earlier,
        }
    }
}

/// The texts of all `Paragraph` elements, in order.
pub fn find_paragraphs(templates: &Vec<TemplateType>) -> (r: Vec<&String>)
    ensures
        r@.map_values(|t: &String| t@) == paragraphs_of(templates@),
{
    let mut r: Vec<&String> = Vec::new();
    let mut i: usize = 0;
    assert(templates@.subrange(0, 0) =~= Seq::<TemplateType>::empty());
    assert(r@.map_values(|t: &String| t@) =~= Seq::<Seq<char>>::empty());
    while i < templates.len()
        invariant
            i <= templates@.len(),
            r@.map_values(|t: &String| t@) == paragraphs_of(templates@.subrange(0, i as int)),
        decreases templates@.len() - i,
    {
        let ghost seen = templates@.subrange(0, i as int + 1);
        assert(seen.drop_last() =~= templates@.subrange(0, i as int));
        assert(seen.last() == templates@[i as int]);
        if let TemplateType::Paragraph { content } = &templates[i] {
            let ghost before = r@;
            r.push(content);
            assert(r@.map_values(|t: &String| t@) =~= before.map_values(|t: &String| t@).push(
                content@,
            ));
        }
        i = i + 1;
    }
    assert(templates@.subrange(0, i as int) =~= templates@);
    r
}

} // verus!
