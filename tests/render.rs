use nr_cms::model::{LinkMap, LinkType, TemplateType};
use nr_cms::render::{
    gen_links, gen_navbar, gen_nr_cms_info, gen_paragraph, gen_title, newest_first, GITHUB_MARK,
};

#[test]
fn test_gen_title() {
    let test = vec![TemplateType::Title {
        title: "test".to_string(),
    }];
    assert_eq!(gen_title(&test), "test");
}

#[test]
fn test_gen_navbar() {
    let test = vec![TemplateType::Navbar {
        paths: Vec::from(["first".to_string(), "second".to_string()]),
    }];
    let navbar = gen_navbar(&test);
    assert!(navbar.contains("first"));
    assert!(navbar.contains("second"));
}

#[test]
fn test_gen_paragraph() {
    let test = TemplateType::Paragraph {
        content: "first".to_string(),
    };
    let paragraphs = gen_paragraph(&test);
    assert!(paragraphs.contains("first"));
}

#[test]
fn test_gen_links() {
    let mut links = LinkMap::new();
    links.insert(LinkType::Github, "first".to_string());
    let test = vec![TemplateType::Links { links }];
    let links = gen_links(&test);
    assert!(links.contains("first"));
}

#[test]
fn test_gen_info() {
    let test = vec![TemplateType::NRCMSInfo { text: "first".to_string() }];
    let info = gen_nr_cms_info(&test);
    assert!(info.contains("first"));
}

#[test]
fn test_no_templates() {
    let test = Vec::<TemplateType>::new();
    assert_eq!(gen_title(&test), String::new());
    assert_eq!(gen_nr_cms_info(&test), String::new());
    assert_eq!(gen_links(&test), String::new());
    assert_eq!(gen_navbar(&test), String::new());
}

#[test]
fn renderers_use_the_first_element_of_their_kind() {
    let test = vec![
        TemplateType::Name { name: "n".to_string() },
        TemplateType::Title { title: "one".to_string() },
        TemplateType::Title { title: "two".to_string() },
        TemplateType::Navbar { paths: vec!["a".to_string(), "b".to_string()] },
        TemplateType::Navbar { paths: vec!["c".to_string()] },
    ];
    assert_eq!(gen_title(&test), "one");
    assert_eq!(
        gen_navbar(&test),
        r#"<p><a href="?page=a">a</a> | <a href="?page=b">b</a></p>"#
    );
}

#[test]
fn exact_fragments() {
    let mut links = LinkMap::new();
    links.insert(LinkType::Github, "me".to_string());
    let test = vec![
        TemplateType::Links { links },
        TemplateType::NRCMSInfo { text: "made here".to_string() },
    ];
    assert_eq!(
        gen_links(&test),
        format!(r#"<p><a href="https://github.com/me/">{} Github</a></p>"#, GITHUB_MARK)
    );
    assert_eq!(gen_nr_cms_info(&test), "<p>made here</p>");
    assert_eq!(gen_paragraph(&TemplateType::Code { code: "c".to_string() }), "");
    let empty_nav = vec![TemplateType::Navbar { paths: Vec::new() }];
    assert_eq!(gen_navbar(&empty_nav), "<p></p>");
}

#[test]
fn posts_newest_first_later_listed_first_on_ties() {
    assert_eq!(newest_first(&vec![]), Vec::<usize>::new());
    assert_eq!(newest_first(&vec![10, 30, 20]), vec![1, 2, 0]);
    assert_eq!(newest_first(&vec![5, 5, 7, 5]), vec![2, 3, 1, 0]);
    assert_eq!(newest_first(&vec![-1, i64::MAX, i64::MIN]), vec![1, 0, 2]);
}
