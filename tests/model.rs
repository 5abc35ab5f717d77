use nr_cms::model::{CMSBlog, LinkMap, LinkType, TemplateType};

#[test]
fn test_get_title() {
    let a = TemplateType::Title {
        title: "test".to_string(),
    };
    assert_eq!(a.get_title().unwrap(), "test");
    let b = TemplateType::Name {
        name: "abc".to_string(),
    };
    assert!(b.get_title().is_none());
}

#[test]
fn test_get_paragraph() {
    let a = TemplateType::Paragraph {
        content: "test".to_string(),
    };
    assert_eq!(a.get_paragraph().unwrap(), "test");
    let b = TemplateType::Name {
        name: "abc".to_string(),
    };
    assert!(b.get_paragraph().is_none());
}

#[test]
fn test_get_links() {
    let mut links = LinkMap::new();
    links.insert(LinkType::Github, "test".to_string());
    let a = TemplateType::Links { links };
    assert_eq!(
        a.get_links().unwrap().get(&LinkType::Github).unwrap(),
        "test"
    );
    let b = TemplateType::Name {
        name: "abc".to_string(),
    };
    assert!(b.get_links().is_none());
}

#[test]
fn test_get_nr_cms_info() {
    let a = TemplateType::NRCMSInfo { text: "test".to_string() };
    assert_eq!(a.get_nr_cms_info().unwrap(), "test");
    let b = TemplateType::Name {
        name: "abc".to_string(),
    };
    assert!(b.get_nr_cms_info().is_none());
}

#[test]
fn test_get_image() {
    let a = TemplateType::Image {
        url: "test".to_string(),
        copy_asset: false,
        size: Some(10),
    };
    assert_eq!(a.get_image().unwrap().0, "test");
    let b = TemplateType::Name {
        name: "abc".to_string(),
    };
    assert!(b.get_image().is_none());
}

#[test]
fn test_get_name() {
    let a = TemplateType::Name {
        name: "test".to_string(),
    };
    assert_eq!(a.get_name().unwrap(), "test");
    let b = TemplateType::Title {
        title: "test".to_string(),
    };
    assert!(b.get_name().is_none());
}

#[test]
fn test_get_navbar() {
    let a = TemplateType::Navbar {
        paths: Vec::from(["test".to_string()]),
    };
    assert_eq!(a.get_navbar().unwrap().get(0).unwrap(), "test");
    let b = TemplateType::Title {
        title: "test".to_string(),
    };
    assert!(b.get_navbar().is_none());
}

#[test]
fn getters_of_date_blog_and_code() {
    let d = TemplateType::Date { date: 42 };
    assert_eq!(d.get_date(), Some(&42));
    assert!(d.get_code().is_none());
    let b = TemplateType::Blog(CMSBlog { posts: Vec::new() });
    assert!(b.get_blog().unwrap().posts.is_empty());
    let c = TemplateType::Code { code: "x".to_string() };
    assert_eq!(c.get_code().unwrap(), "x");
    assert!(c.get_blog().is_none());
}
