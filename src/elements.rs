//! Parsers for the tags whose payload alone decides the element.
use vstd::prelude::*;

use crate::model::{element_model, ElementModel, LinkMap, LinkType, TemplateType};
use crate::text::{chars_of, cut_first, split, split_first, split_on, strings_view};

verus! {

/// The attribution text of the `NKR-CMS-INFO` tag.
pub const NR_CMS_INFO_TEXT: &'static str = "This website was automatically generated with <a href=\"https://github.com/naresh97/nr-cms\">NR-CMS.</a>";

/// Whether `s` holds exactly the text `w`.
pub fn is_text(s: &String, w: &str) -> (r: bool)
    ensures
        r == (s@ == w@),
{
    let w = String::from_str(w);
    s.eq(&w)
}

/// A payload taken verbatim as the text of an element.
pub open spec fn text_element(payload: Option<Seq<char>>, make: spec_fn(Seq<char>) -> ElementModel) -> Option<ElementModel> {
    match payload {
        Some(p) => Some(make(p)),
        None => None,
    }
}

pub open spec fn option_view(o: Option<&str>) -> Option<Seq<char>> {
    match o {
        Some(s) => Some(s@),
        None => None,
    }
}

pub open spec fn option_model(o: Option<TemplateType>) -> Option<ElementModel> {
    match o {
        Some(t) => Some(element_model(t)),
        None => None,
    }
}

/// `Title|text`.
pub fn parse_title(content: Option<&str>) -> (r: Option<TemplateType>)
    ensures
        option_model(r) == text_element(option_view(content), |p| ElementModel::Title(p)),
{
    let content = content?;
    Some(TemplateType::Title { title: content.to_owned() })
}

/// `Paragraph|text`.
pub fn parse_paragraph(content: Option<&str>) -> (r: Option<TemplateType>)
    ensures
        option_model(r) == text_element(option_view(content), |p| ElementModel::Paragraph(p)),
{
    let content = content?;
    Some(TemplateType::Paragraph { content: content.to_owned() })
}

/// `Name|text`.
pub fn parse_name(content: Option<&str>) -> (r: Option<TemplateType>)
    ensures
        option_model(r) == text_element(option_view(content), |p| ElementModel::Name(p)),
{
    let content = content?;
    Some(TemplateType::Name { name: content.to_owned() })
}

/// `Code|text`.
pub fn parse_code(content: Option<&str>) -> (r: Option<TemplateType>)
    ensures
        option_model(r) == text_element(option_view(content), |p| ElementModel::Code(p)),
{
    let content = content?;
    Some(TemplateType::Code { code: content.to_owned() })
}

/// The page names of a `Navbar` payload, in order; none for an empty
/// payload.
pub open spec fn navbar_paths(payload: Seq<char>) -> Seq<Seq<char>> {
    if payload.len() == 0 {
        Seq::empty()
    } else {
        split_on(payload, ',')
    }
}

/// `Navbar|a,b,...`.
pub fn parse_navbar(content: Option<&str>) -> (r: Option<TemplateType>)
    ensures
        option_model(r) == text_element(
            option_view(content),
            |p| ElementModel::Navbar(navbar_paths(p)),
        ),
{
    let content = content?;
    if content.is_empty() {
        let paths: Vec<String> = Vec::new();
        assert(strings_view(paths@) =~= Seq::<Seq<char>>::empty());
        return Some(TemplateType::Navbar { paths });
    }
    Some(TemplateType::Navbar { paths: split(content, ',') })
}

/// `NKR-CMS-INFO`: the fixed attribution, whatever the payload.
pub fn parse_nkr_cms_info() -> (r: Option<TemplateType>)
    ensures
        option_model(r) == Some(ElementModel::Info(NR_CMS_INFO_TEXT@)),
{
    Some(TemplateType::NRCMSInfo { text: String::from_str(NR_CMS_INFO_TEXT) })
}

/// The kind of link that `name` names.
pub open spec fn link_kind(name: Seq<char>) -> Option<LinkType> {
    if name == "Github"@ {
        Some(LinkType::Github)
    } else {
        None
    }
}

/// A `Kind:value` item, cut at its first `:`: a known kind before it, and
/// the value everything after it. An item without `:` is no link.
pub open spec fn link_entry(item: Seq<char>) -> Option<(LinkType, Seq<char>)> {
    let (kind, value) = split_first(item, ':');
    match (link_kind(kind), value) {
        (Some(k), Some(v)) => Some((k, v)),
        _ => None,
    }
}

/// The links of the items in order, a later one of a kind replacing an
/// earlier one; items that do not parse are left out.
pub open spec fn links_of(items: Seq<Seq<char>>) -> Map<LinkType, Seq<char>>
    decreases items.len(),
{
    if items.len() == 0 {
        Map::empty()
    } else {
        let m = links_of(items.drop_last());
        match link_entry(items.last()) {
            Some(e) => m.insert(e.0, e.1),
            None => m,
        }
    }
}

/// The element of a `Links` payload: none when no item is valid.
pub open spec fn links_element(payload: Seq<char>) -> Option<ElementModel> {
    let m = links_of(split_on(payload, ','));
    if m.dom().len() == 0 {
        None
    } else {
        Some(ElementModel::Links(m))
    }
}

/// `Links|Kind:value,...`.
pub fn parse_links(content: Option<&str>) -> (r: Option<TemplateType>)
    ensures
        option_model(r) == match option_view(content) {
            Some(p) => links_element(p),
            None => None,
        },
        r matches Some(TemplateType::Links { links }) ==> links.wf(),
{
    let content = content?;
    let items = split(content, ',');
    let mut links = LinkMap::new();
    let mut i: usize = 0;
    while i < items.len()
        invariant
            i <= items@.len(),
            strings_view(items@) == split_on(content@, ','),
            links.wf(),
            links.view() == links_of(strings_view(items@).subrange(0, i as int)),
        decreases items@.len() - i,
    {
        let ghost seen = strings_view(items@).subrange(0, i as int + 1);
        assert(seen.drop_last() =~= strings_view(items@).subrange(0, i as int));
        let (kind, value) = cut_first(items[i].as_str(), ':');
        match value {
            Some(v) => {
                if is_text(&kind, "Github") {
                    links.insert(LinkType::Github, v);
                }
            },
            None => {},
        }
        i = i + 1;
    }
    assert(strings_view(items@).subrange(0, i as int) =~= strings_view(items@));
    if links.is_empty() {
        return None;
    }
    Some(TemplateType::Links { links })
}

/// `s` is a non-empty run of decimal digits.
pub open spec fn all_digits(s: Seq<char>) -> bool {
    forall|i: int| 0 <= i < s.len() ==> '0' <= #[trigger] s[i] <= '9'
}

/// The number that a run of decimal digits writes.
pub open spec fn digits_value(s: Seq<char>) -> nat
    decreases s.len(),
{
    if s.len() == 0 {
        0
    } else {
        digits_value(s.drop_last()) * 10 + (s.last() as nat - '0' as nat) as nat
    }
}

/// What `str::parse::<u32>` accepts: an optional `+`, then at least one
/// decimal digit, the value fitting in 32 bits.
pub open spec fn u32_of(s: Seq<char>) -> Option<u32> {
    let d = if s.len() > 0 && s[0] == '+' {
        s.drop_first()
    } else {
        s
    };
    if d.len() > 0 && all_digits(d) && digits_value(d) <= u32::MAX {
        Some(digits_value(d) as u32)
    } else {
        None
    }
}

proof fn lemma_digits_value_grows(s: Seq<char>, j: int)
    requires
        all_digits(s),
        0 <= j <= s.len(),
    ensures
        digits_value(s.subrange(0, j)) <= digits_value(s),
    decreases s.len() - j,
{
    if j < s.len() {
        let t = s.subrange(0, j + 1);
        assert(t.drop_last() =~= s.subrange(0, j));
        assert('0' <= t.last());
        lemma_digits_value_grows(s, j + 1);
    } else {
        assert(s.subrange(0, j) =~= s);
    }
}

/// Reads a decimal number as `str::parse::<u32>` does.
pub fn parse_u32(s: &str) -> (r: Option<u32>)
    ensures
        r == u32_of(s@),
{
    let cs = chars_of(s);
    let n = cs.len();
    let mut i: usize = 0;
    if n > 0 && cs[0] == '+' {
        i = 1;
    }
    let ghost d = if s@.len() > 0 && s@[0] == '+' {
        s@.drop_first()
    } else {
        s@
    };
    let first = i;
    if first == n {
        return None;
    }
    let mut acc: u64 = 0;
    while i < n
        invariant
            cs@ == s@,
            n == s@.len(),
            first <= i <= n,
            first == 0 || first == 1,
            d == (if s@.len() > 0 && s@[0] == '+' {
                s@.drop_first()
            } else {
                s@
            }),
            d == s@.subrange(first as int, n as int),
            all_digits(d.subrange(0, i - first)),
            acc == digits_value(d.subrange(0, i - first)),
            acc <= u32::MAX,
        decreases n - i,
    {
        let c = cs[i];
        if c < '0' || c > '9' {
            assert(d[i - first] == c);
            assert(!('0' <= d[i - first] <= '9'));
            assert(!all_digits(d));
            return None;
        }
        let ghost t = d.subrange(0, i - first + 1);
        assert(t.drop_last() =~= d.subrange(0, i - first));
        assert(t.last() == c);
        acc = acc * 10 + (c as u64 - '0' as u64);
        i = i + 1;
        assert(t =~= d.subrange(0, i - first));
        assert(acc == digits_value(t));
        assert(all_digits(d.subrange(0, i - first)));
        if acc > u32::MAX as u64 {
            proof {
                if all_digits(d) {
                    lemma_digits_value_grows(d, i - first);
                }
            }
            return None;
        }
    }
    assert(d.subrange(0, n - first) =~= d);
    Some(acc as u32)
}

} // verus!
