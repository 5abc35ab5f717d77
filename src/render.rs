//! HTML fragments for the elements that render without touching the
//! output tree.
use vstd::prelude::*;

use crate::lookup::{find_first, first_of_kind, lemma_first_of_kind, ElementKind};
use crate::model::{LinkType, TemplateType};
use crate::text::strings_view;

verus! {

/// Shown before the text of a Github link.
pub const GITHUB_MARK: &'static str = "<span class=\"link_image\">&#x1F517;</span>";

/// `parts` with `sep` between each two.
pub open spec fn join_with(parts: Seq<Seq<char>>, sep: Seq<char>) -> Seq<char>
    decreases parts.len(),
{
    if parts.len() == 0 {
        Seq::empty()
    } else if parts.len() == 1 {
        parts[0]
    } else {
        join_with(parts.drop_last(), sep) + sep + parts.last()
    }
}

/// Joins `parts` with `sep` between each two.
pub fn join_strings(parts: &Vec<String>, sep: &str) -> (r: String)
    ensures
        r@ == join_with(strings_view(parts@), sep@),
{
    let mut r = String::new();
    let mut i: usize = 0;
    assert(strings_view(parts@).subrange(0, 0) =~= Seq::<Seq<char>>::empty());
    while i < parts.len()
        invariant
            i <= parts@.len(),
            r@ == join_with(strings_view(parts@).subrange(0, i as int), sep@),
        decreases parts@.len() - i,
    {
        let ghost done = strings_view(parts@).subrange(0, i as int + 1);
        assert(done.drop_last() =~= strings_view(parts@).subrange(0, i as int));
        assert(done.last() == parts@[i as int]@);
        if i > 0 {
            r = r.concat(sep);
        } else {
            assert(done =~= seq![parts@[0]@]);
        }
        r = r.concat(parts[i].as_str());
        i = i + 1;
    }
    assert(strings_view(parts@).subrange(0, i as int) =~= strings_view(parts@));
    r
}

/// The title of a page: the text of its first `Title` element, or nothing.
pub open spec fn title_text(s: Seq<TemplateType>) -> Seq<char> {
    match first_of_kind(s, ElementKind::Title) {
        Some(i) => s[i]->title@,
        None => Seq::empty(),
    }
}

pub fn gen_title(templates: &Vec<TemplateType>) -> (r: &str)
    ensures
        r@ == title_text(templates@),
{
    proof {
        lemma_first_of_kind(templates@, ElementKind::Title);
    }
    match find_first(templates, ElementKind::Title) {
        Some(i) => match &templates[i] {
            TemplateType::Title { title } => title.as_str(),
            _ => "",
        },
        None => {
            proof {
                reveal_strlit("");
            }
            ""
        },
    }
}

/// A navigation link to the page `name`.
pub open spec fn nav_anchor(name: Seq<char>) -> Seq<char> {
    "<a href=\"?page="@ + name + "\">"@ + name + "</a>"@
}

/// The navigation bar: a link to each page of the first `Navbar` element,
/// separated by bars; nothing without one.
pub open spec fn navbar_html(s: Seq<TemplateType>) -> Seq<char> {
    match first_of_kind(s, ElementKind::Navbar) {
        Some(i) => {
            let paths = strings_view(s[i]->paths@);
            "<p>"@ + join_with(Seq::new(paths.len(), |j: int| nav_anchor(paths[j])), " | "@)
                + "</p>"@
        },
        None => Seq::empty(),
    }
}

pub fn gen_navbar(templates: &Vec<TemplateType>) -> (r: String)
    ensures
        r@ == navbar_html(templates@),
{
    proof {
        lemma_first_of_kind(templates@, ElementKind::Navbar);
    }
    let i = match find_first(templates, ElementKind::Navbar) {
        Some(i) => i,
        None => return String::new(),
    };
    let paths = match &templates[i] {
        TemplateType::Navbar { paths } => paths,
        _ => return String::new(),
    };
    let ghost names = strings_view(paths@);
    let mut anchors: Vec<String> = Vec::new();
    let mut j: usize = 0;
    while j < paths.len()
        invariant
            names == strings_view(paths@),
            j <= paths@.len(),
            strings_view(anchors@) == Seq::new(j as nat, |k: int| nav_anchor(names[k])),
        decreases paths@.len() - j,
    {
        let name = paths[j].as_str();
        let anchor = String::from_str("<a href=\"?page=").concat(name).concat("\">").concat(
            name,
        ).concat("</a>");
        let ghost before = anchors@;
        anchors.push(anchor);
        assert(strings_view(anchors@) =~= Seq::new(j as nat + 1, |k: int| nav_anchor(names[k]))) by {
            assert(strings_view(anchors@) =~= strings_view(before).push(anchor@));
        }
        j = j + 1;
    }
    let joined = join_strings(&anchors, " | ");
    String::from_str("<p>").concat(joined.as_str()).concat("</p>")
}

/// A paragraph element as HTML; nothing for any other element.
pub fn gen_paragraph(template: &TemplateType) -> (r: String)
    ensures
        r@ == match template {
            TemplateType::Paragraph { content } => "<p>"@ + content@ + "</p>"@,
            _ => Seq::<char>::empty(),
        },
{
    match template {
        TemplateType::Paragraph { content } => String::from_str("<p>").concat(content.as_str()).concat(
            "</p>",
        ),
        _ => String::new(),
    }
}

/// The link to a Github account.
pub open spec fn github_anchor(user: Seq<char>) -> Seq<char> {
    "<a href=\"https://github.com/"@ + user + "/\">"@ + GITHUB_MARK@ + " Github</a>"@
}

/// The links of the first `Links` element, separated by bars; nothing
/// without one.
pub open spec fn links_html(s: Seq<TemplateType>) -> Seq<char> {
    match first_of_kind(s, ElementKind::Links) {
        Some(i) => {
            let entries = s[i]->links.entries@;
            "<p>"@ + join_with(Seq::new(entries.len(), |j: int| github_anchor(entries[j].1@)), " | "@)
                + "</p>"@
        },
        None => Seq::empty(),
    }
}

pub fn gen_links(templates: &Vec<TemplateType>) -> (r: String)
    ensures
        r@ == links_html(templates@),
{
    proof {
        lemma_first_of_kind(templates@, ElementKind::Links);
    }
    let i = match find_first(templates, ElementKind::Links) {
        Some(i) => i,
        None => return String::new(),
    };
    let links = match &templates[i] {
        TemplateType::Links { links } => links,
        _ => return String::new(),
    };
    let mut anchors: Vec<String> = Vec::new();
    let mut j: usize = 0;
    while j < links.entries.len()
        invariant
            j <= links.entries@.len(),
            strings_view(anchors@) == Seq::new(
                j as nat,
                |k: int| github_anchor(links.entries@[k].1@),
            ),
        decreases links.entries@.len() - j,
    {
        let anchor = match links.entries[j].0 {
            LinkType::Github => String::from_str("<a href=\"https://github.com/").concat(
                links.entries[j].1.as_str(),
            ).concat("/\">").concat(GITHUB_MARK).concat(" Github</a>"),
        };
        let ghost before = anchors@;
        anchors.push(anchor);
        assert(strings_view(anchors@) =~= Seq::new(
            j as nat + 1,
            |k: int| github_anchor(links.entries@[k].1@),
        )) by {
            assert(strings_view(anchors@) =~= strings_view(before).push(anchor@));
        }
        j = j + 1;
    }
    let joined = join_strings(&anchors, " | ");
    String::from_str("<p>").concat(joined.as_str()).concat("</p>")
}

/// The attribution of the first `NKR-CMS-INFO` element as a paragraph;
/// nothing without one.
pub open spec fn info_html(s: Seq<TemplateType>) -> Seq<char> {
    match first_of_kind(s, ElementKind::Info) {
        Some(i) => "<p>"@ + s[i]->NRCMSInfo_text@ + "</p>"@,
        None => Seq::empty(),
    }
}

pub fn gen_nr_cms_info(templates: &Vec<TemplateType>) -> (r: String)
    ensures
        r@ == info_html(templates@),
{
    proof {
        lemma_first_of_kind(templates@, ElementKind::Info);
    }
    match find_first(templates, ElementKind::Info) {
        Some(i) => match &templates[i] {
            TemplateType::NRCMSInfo { text } => String::from_str("<p>").concat(text.as_str()).concat(
                "</p>",
            ),
            _ => String::new(),
        },
        None => String::new(),
    }
}

/// Post `i` is shown before post `j`: the newer one first, and of two of
/// the same date the one listed later first.
pub open spec fn shown_before(dates: Seq<i64>, i: int, j: int) -> bool {
    dates[i] > dates[j] || (dates[i] == dates[j] && i > j)
}

/// The order in which a blog shows its posts, given their dates in listing
/// order: each position once, newest first.
pub fn newest_first(dates: &Vec<i64>) -> (r: Vec<usize>)
    ensures
        r@.len() == dates@.len(),
        forall|k: int| 0 <= k < r@.len() ==> #[trigger] r@[k] < dates@.len(),
        forall|a: int, b: int| 0 <= a < b < r@.len() ==> #[trigger] r@[a] != #[trigger] r@[b],
        forall|a: int, b: int|
            0 <= a < b < r@.len() ==> shown_before(dates@, #[trigger] r@[a] as int, #[trigger] r@[b] as int),
{
    let n = dates.len();
    let mut r: Vec<usize> = Vec::new();
    let mut i: usize = 0;
    while i < n
        invariant
            n == dates@.len(),
            i <= n,
            r@.len() == i,
            forall|k: int| 0 <= k < r@.len() ==> #[trigger] r@[k] < i,
            forall|a: int, b: int| 0 <= a < b < r@.len() ==> #[trigger] r@[a] != #[trigger] r@[b],
            forall|a: int, b: int|
                0 <= a < b < r@.len() ==> shown_before(dates@, #[trigger] r@[a] as int, #[trigger] r@[b] as int),
        decreases n - i,
    {
        let mut p: usize = 0;
        while p < r.len() && dates[r[p]] > dates[i]
            invariant
                n == dates@.len(),
                i < n,
                p <= r@.len(),
                r@.len() == i,
                forall|k: int| 0 <= k < r@.len() ==> #[trigger] r@[k] < i,
                forall|k: int| 0 <= k < p ==> dates@[#[trigger] r@[k] as int] > dates@[i as int],
            decreases r@.len() - p,
        {
            p = p + 1;
        }
        let ghost before = r@;
        r.insert(p, i);
        assert(r@ == before.insert(p as int, i));
        assert forall|k: int| 0 <= k < r@.len() implies #[trigger] r@[k] < i + 1 by {
            if k < p {
                assert(r@[k] == before[k]);
            } else if k > p {
                assert(r@[k] == before[k - 1]);
            }
        }
        assert forall|a: int, b: int| 0 <= a < b < r@.len() implies #[trigger] r@[a] != #[trigger] r@[b] by {
            if a != p as int && b != p as int {
                let a0 = if a < p { a } else { a - 1 };
                let b0 = if b < p { b } else { b - 1 };
                assert(r@[a] == before[a0] && r@[b] == before[b0]);
            } else if a == p as int {
                assert(r@[b] == before[b - 1]);
            } else {
                assert(r@[a] == before[a]);
            }
        }
        assert forall|a: int, b: int| 0 <= a < b < r@.len() implies shown_before(
            dates@,
            #[trigger] r@[a] as int,
            #[trigger] r@[b] as int,
        ) by {
            if a != p as int && b != p as int {
                let a0 = if a < p { a } else { a - 1 };
                let b0 = if b < p { b } else { b - 1 };
                assert(r@[a] == before[a0] && r@[b] == before[b0]);
            } else if a == p as int {
                assert(r@[b] == before[b - 1]);
                if p < before.len() {
                    assert(dates@[before[p as int] as int] <= dates@[i as int]);
                    if b - 1 > p {
                        assert(shown_before(dates@, before[p as int] as int, before[b - 1] as int));
                    }
                }
            } else {
                assert(r@[a] == before[a]);
            }
        }
        i = i + 1;
    }
    r
}

} // verus!
