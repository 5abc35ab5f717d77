//! The content model: typed elements, pages, blog posts and the site, each
//! with a mathematical model that the parser's contracts speak of.
use vstd::prelude::*;

use crate::text::strings_view;

verus! {

/// The kinds of link that a `Links` element can hold.
#[derive(Clone, Copy, Debug, PartialEq, Eq, Structural, Hash)]
pub enum LinkType {
    Github,
}

/// Links keyed by their kind; each kind occurs at most once.
#[derive(Clone, Debug)]
pub struct LinkMap {
    pub entries: Vec<(LinkType, String)>,
}

/// A unit of content parsed from one tag body.
#[derive(Debug)]
pub enum TemplateType {
    Title { title: String },
    Paragraph { content: String },
    Links { links: LinkMap },
    Navbar { paths: Vec<String> },
    NRCMSInfo { text: String },
    Image { url: String, copy_asset: bool, size: Option<u32> },
    Name { name: String },
    /// Seconds since the Unix epoch, in UTC.
    Date { date: i64 },
    Blog(CMSBlog),
    Code { code: String },
}

/// One dated post of a blog, with all the elements of its file.
#[derive(Debug)]
pub struct BlogPost {
    pub post_date: i64,
    pub templates: Vec<TemplateType>,
}

/// The posts of a blog, in the order their files were listed.
#[derive(Debug)]
pub struct CMSBlog {
    pub posts: Vec<BlogPost>,
}

/// The elements of a named page, in order.
#[derive(Debug)]
pub struct CMSPage {
    pub templates: Vec<TemplateType>,
}

/// A page registered under its name.
#[derive(Debug)]
pub struct NamedPage {
    pub name: String,
    pub page: CMSPage,
}

/// A parsed site: the source text, its top-level elements, and its pages,
/// each name occurring once.
#[derive(Debug)]
pub struct CMSSite {
    pub original_content: String,
    pub templates: Vec<TemplateType>,
    pub pages: Vec<NamedPage>,
}

impl TemplateType {
    pub fn get_title(&self) -> (r: Option<&String>)
        ensures
            match self {
                TemplateType::Title { title } => r == Some(title),
                _ => r is None,
            },
    {
        if let TemplateType::Title { title } = self {
            return Some(title);
        }
        None
    }

    pub fn get_paragraph(&self) -> (r: Option<&String>)
        ensures
            match self {
                TemplateType::Paragraph { content } => r == Some(content),
                _ => r is None,
            },
    {
        if let TemplateType::Paragraph { content } = self {
            return Some(content);
        }
        None
    }

    pub fn get_links(&self) -> (r: Option<&LinkMap>)
        ensures
            match self {
                TemplateType::Links { links } => r == Some(links),
                _ => r is None,
            },
    {
        if let TemplateType::Links { links } = self {
            return Some(links);
        }
        None
    }

    pub fn get_navbar(&self) -> (r: Option<&Vec<String>>)
        ensures
            match self {
                TemplateType::Navbar { paths } => r == Some(paths),
                _ => r is None,
            },
    {
        if let TemplateType::Navbar { paths } = self {
            return Some(paths);
        }
        None
    }

    pub fn get_nr_cms_info(&self) -> (r: Option<&str>)
        ensures
            match self {
                TemplateType::NRCMSInfo { text } => r matches Some(t) && t@ == text@,
                _ => r is None,
            },
    {
        if let TemplateType::NRCMSInfo { text } = self {
            return Some(text.as_str());
        }
        None
    }

    pub fn get_image(&self) -> (r: Option<(&String, &bool, &Option<u32>)>)
        ensures
            match self {
                TemplateType::Image { url, copy_asset, size } => r == Some((url, copy_asset, size)),
                _ => r is None,
            },
    {
        if let TemplateType::Image { url, copy_asset, size } = self {
            return Some((url, copy_asset, size));
        }
        None
    }

    pub fn get_name(&self) -> (r: Option<&str>)
        ensures
            match self {
                TemplateType::Name { name } => r matches Some(t) && t@ == name@,
                _ => r is None,
            },
    {
        if let TemplateType::Name { name } = self {
            return Some(name.as_str());
        }
        None
    }

    pub fn get_date(&self) -> (r: Option<&i64>)
        ensures
            match self {
                TemplateType::Date { date } => r == Some(date),
                _ => r is None,
            },
    {
        if let TemplateType::Date { date } = self {
            return Some(date);
        }
        None
    }

    pub fn get_blog(&self) -> (r: Option<&CMSBlog>)
        ensures
            match self {
                TemplateType::Blog(blog) => r == Some(blog),
                _ => r is None,
            },
    {
        if let TemplateType::Blog(blog) = self {
            return Some(blog);
        }
        None
    }

    pub fn get_code(&self) -> (r: Option<&String>)
        ensures
            match self {
                TemplateType::Code { code } => r == Some(code),
                _ => r is None,
            },
    {
        if let TemplateType::Code { code } = self {
            return Some(code);
        }
        None
    }
}

/// What an element is, with text as sequences of characters.
pub enum ElementModel {
    Title(Seq<char>),
    Paragraph(Seq<char>),
    Links(Map<LinkType, Seq<char>>),
    Navbar(Seq<Seq<char>>),
    Info(Seq<char>),
    Image(Seq<char>, bool, Option<u32>),
    Name(Seq<char>),
    Date(i64),
    Blog(Seq<PostModel>),
    Code(Seq<char>),
}

/// What a blog post is.
pub struct PostModel {
    pub date: i64,
    pub elements: Seq<ElementModel>,
}

/// The map that a list of distinct-keyed link entries stands for.
pub open spec fn links_model(entries: Seq<(LinkType, String)>) -> Map<LinkType, Seq<char>>
    decreases entries.len(),
{
    if entries.len() == 0 {
        Map::empty()
    } else {
        links_model(entries.drop_last()).insert(entries.last().0, entries.last().1@)
    }
}

/// No two link entries have the same kind.
pub open spec fn keys_distinct(entries: Seq<(LinkType, String)>) -> bool {
    forall|i: int, j: int|
        0 <= i < entries.len() && 0 <= j < entries.len() && i != j ==> #[trigger] entries[i].0
            != #[trigger] entries[j].0
}

impl LinkMap {
    pub open spec fn wf(&self) -> bool {
        keys_distinct(self.entries@)
    }

    pub open spec fn view(&self) -> Map<LinkType, Seq<char>> {
        links_model(self.entries@)
    }

    /// An empty map.
    pub fn new() -> (r: LinkMap)
        ensures
            r.wf(),
            r.view() == Map::<LinkType, Seq<char>>::empty(),
    {
        LinkMap { entries: Vec::new() }
    }

    /// Sets the link of `kind` to `target`, replacing an earlier one.
    pub fn insert(&mut self, kind: LinkType, target: String)
        requires
            old(self).wf(),
        ensures
            final(self).wf(),
            final(self).view() == old(self).view().insert(kind, target@),
    {
        let n = self.entries.len();
        let mut i: usize = 0;
        while i < n
            invariant
                n == self.entries@.len(),
                i <= n,
                self.wf(),
                *self == *old(self),
                forall|j: int| 0 <= j < i ==> #[trigger] self.entries@[j].0 != kind,
            decreases n - i,
        {
            if self.entries[i].0 == kind {
                proof {
                    lemma_links_model_update(self.entries@, i as int, target);
                }
                self.entries.set(i, (kind, target));
                return;
            }
            i = i + 1;
        }
        let ghost before = self.entries@;
        self.entries.push((kind, target));
        assert(self.entries@.drop_last() =~= before);
        assert(keys_distinct(self.entries@)) by {
            assert forall|a: int, b: int|
                0 <= a < self.entries@.len() && 0 <= b < self.entries@.len() && a != b implies #[trigger] self.entries@[a].0
                    != #[trigger] self.entries@[b].0 by {
                if a < n && b < n {
                    assert(before[a] == self.entries@[a] && before[b] == self.entries@[b]);
                }
            }
        }
    }

    /// The link of `kind`, if there is one.
    pub fn get(&self, kind: &LinkType) -> (r: Option<&String>)
        requires
            self.wf(),
        ensures
            match r {
                Some(t) => self.view().contains_key(*kind) && self.view()[*kind] == t@,
                None => !self.view().contains_key(*kind),
            },
    {
        let n = self.entries.len();
        let mut i: usize = 0;
        while i < n
            invariant
                n == self.entries@.len(),
                i <= n,
                self.wf(),
                forall|j: int| 0 <= j < i ==> #[trigger] self.entries@[j].0 != *kind,
            decreases n - i,
        {
            if self.entries[i].0 == *kind {
                proof {
                    lemma_links_model_at(self.entries@, i as int);
                }
                return Some(&self.entries[i].1);
            }
            i = i + 1;
        }
        proof {
            lemma_links_model_absent(self.entries@, *kind);
        }
        None
    }

    /// Whether there is a link of `kind`.
    pub fn contains_key(&self, kind: &LinkType) -> (r: bool)
        requires
            self.wf(),
        ensures
            r == self.view().contains_key(*kind),
    {
        self.get(kind).is_some()
    }

    /// The number of links.
    pub fn len(&self) -> (r: usize)
        requires
            self.wf(),
        ensures
            r == self.view().dom().len(),
    {
        proof {
            lemma_links_model_size(self.entries@);
        }
        self.entries.len()
    }

    /// Whether there are no links.
    pub fn is_empty(&self) -> (r: bool)
        requires
            self.wf(),
        ensures
            r == (self.view().dom().len() == 0),
    {
        self.len() == 0
    }
}

proof fn lemma_links_model_absent(entries: Seq<(LinkType, String)>, kind: LinkType)
    requires
        forall|j: int| 0 <= j < entries.len() ==> #[trigger] entries[j].0 != kind,
    ensures
        !links_model(entries).contains_key(kind),
    decreases entries.len(),
{
    if entries.len() > 0 {
        lemma_links_model_absent(entries.drop_last(), kind);
    }
}

proof fn lemma_links_model_at(entries: Seq<(LinkType, String)>, i: int)
    requires
        keys_distinct(entries),
        0 <= i < entries.len(),
    ensures
        links_model(entries).contains_key(entries[i].0),
        links_model(entries)[entries[i].0] == entries[i].1@,
    decreases entries.len(),
{
    if i < entries.len() - 1 {
        assert(entries.drop_last()[i] == entries[i]);
        assert(entries.last().0 != entries[i].0) by {
            assert(entries.last() == entries[entries.len() - 1]);
        }
        lemma_links_model_at(entries.drop_last(), i);
    }
}

proof fn lemma_links_model_update(entries: Seq<(LinkType, String)>, i: int, target: String)
    requires
        keys_distinct(entries),
        0 <= i < entries.len(),
    ensures
        keys_distinct(entries.update(i, (entries[i].0, target))),
        links_model(entries.update(i, (entries[i].0, target))) == links_model(entries).insert(
            entries[i].0,
            target@,
        ),
    decreases entries.len(),
{
    let kind = entries[i].0;
    let u = entries.update(i, (kind, target));
    if i < entries.len() - 1 {
        assert(u.drop_last() =~= entries.drop_last().update(i, (kind, target)));
        assert(entries.last().0 != kind) by {
            assert(entries.last() == entries[entries.len() - 1]);
        }
        lemma_links_model_update(entries.drop_last(), i, target);
        assert(links_model(u) =~= links_model(entries).insert(kind, target@));
    } else {
        assert(u.drop_last() =~= entries.drop_last());
        assert(links_model(u) =~= links_model(entries).insert(kind, target@));
    }
}

proof fn lemma_links_model_size(entries: Seq<(LinkType, String)>)
    requires
        keys_distinct(entries),
    ensures
        links_model(entries).dom().len() == entries.len(),
        links_model(entries).dom().finite(),
    decreases entries.len(),
{
    if entries.len() > 0 {
        let init = entries.drop_last();
        assert(keys_distinct(init));
        lemma_links_model_size(init);
        assert forall|j: int| 0 <= j < init.len() implies #[trigger] init[j].0 != entries.last().0 by {
            assert(init[j] == entries[j]);
            assert(entries.last() == entries[entries.len() - 1]);
        }
        lemma_links_model_absent(init, entries.last().0);
    }
}

/// The model of an element.
pub open spec fn element_model(t: TemplateType) -> ElementModel
    decreases t,
{
    match t {
        TemplateType::Title { title } => ElementModel::Title(title@),
        TemplateType::Paragraph { content } => ElementModel::Paragraph(content@),
        TemplateType::Links { links } => ElementModel::Links(links.view()),
        TemplateType::Navbar { paths } => ElementModel::Navbar(strings_view(paths@)),
        TemplateType::NRCMSInfo { text } => ElementModel::Info(text@),
        TemplateType::Image { url, copy_asset, size } => ElementModel::Image(url@, copy_asset, size),
        TemplateType::Name { name } => ElementModel::Name(name@),
        TemplateType::Date { date } => ElementModel::Date(date),
        TemplateType::Blog(blog) => ElementModel::Blog(posts_model(blog.posts@)),
        TemplateType::Code { code } => ElementModel::Code(code@),
    }
}

/// The models of a sequence of elements.
pub open spec fn elements_model(s: Seq<TemplateType>) -> Seq<ElementModel>
    decreases s,
{
    if s.len() == 0 {
        Seq::empty()
    } else {
        elements_model(s.drop_last()).push(element_model(s.last()))
    }
}

/// The model of a blog post.
pub open spec fn post_model(p: BlogPost) -> PostModel
    decreases p,
{
    PostModel { date: p.post_date, elements: elements_model(p.templates@) }
}

/// The models of a sequence of blog posts.
pub open spec fn posts_model(s: Seq<BlogPost>) -> Seq<PostModel>
    decreases s,
{
    if s.len() == 0 {
        Seq::empty()
    } else {
        posts_model(s.drop_last()).push(post_model(s.last()))
    }
}

/// Every links element in a sequence holds distinct kinds, down through
/// the posts of blogs.
pub open spec fn elements_wf(s: Seq<TemplateType>) -> bool
    decreases s,
{
    if s.len() == 0 {
        true
    } else {
        elements_wf(s.drop_last()) && element_wf(s.last())
    }
}

pub open spec fn element_wf(t: TemplateType) -> bool
    decreases t,
{
    match t {
        TemplateType::Links { links } => links.wf(),
        TemplateType::Blog(blog) => posts_wf(blog.posts@),
        _ => true,
    }
}

pub open spec fn posts_wf(s: Seq<BlogPost>) -> bool
    decreases s,
{
    if s.len() == 0 {
        true
    } else {
        posts_wf(s.drop_last()) && elements_wf(s.last().templates@)
    }
}

} // verus!
