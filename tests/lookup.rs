use nr_cms::lookup::{
    find_blog, find_code, find_date, find_image, find_links, find_navbar, find_nr_cms_info,
    find_paragraphs, find_title,
};
use nr_cms::model::{CMSBlog, LinkMap, LinkType, TemplateType};

fn sample() -> Vec<TemplateType> {
    let mut links = LinkMap::new();
    links.insert(LinkType::Github, "me".to_string());
    vec![
        TemplateType::Paragraph { content: "p1".to_string() },
        TemplateType::Title { title: "first".to_string() },
        TemplateType::Date { date: 7 },
        TemplateType::Paragraph { content: "p2".to_string() },
        TemplateType::Title { title: "second".to_string() },
        TemplateType::Links { links },
        TemplateType::Image { url: "a.jpg".to_string(), copy_asset: true, size: Some(3) },
        TemplateType::Code { code: "c".to_string() },
        TemplateType::NRCMSInfo { text: "info".to_string() },
        TemplateType::Navbar { paths: vec!["x".to_string()] },
        TemplateType::Blog(CMSBlog { posts: Vec::new() }),
        TemplateType::Date { date: 9 },
    ]
}

#[test]
fn first_of_each_kind_is_found() {
    let s = sample();
    assert_eq!(find_title(&s).unwrap(), "first");
    assert_eq!(find_date(&s), Some(&7));
    assert_eq!(find_links(&s).unwrap().get(&LinkType::Github).unwrap(), "me");
    let (url, copy, size) = find_image(&s).unwrap();
    assert_eq!((url.as_str(), *copy, *size), ("a.jpg", true, Some(3)));
    assert_eq!(find_code(&s).unwrap(), "c");
    assert_eq!(find_nr_cms_info(&s).unwrap(), "info");
    assert_eq!(find_navbar(&s).unwrap(), &vec!["x".to_string()]);
    assert!(find_blog(&s).unwrap().posts.is_empty());
    assert_eq!(find_paragraphs(&s), vec!["p1", "p2"]);
}

#[test]
fn nothing_found_in_an_empty_sequence() {
    let s: Vec<TemplateType> = Vec::new();
    assert!(find_title(&s).is_none());
    assert!(find_date(&s).is_none());
    assert!(find_blog(&s).is_none());
    assert!(find_paragraphs(&s).is_empty());
}
