use std::io::Cursor;

use nr_cms::answers::{Answers, LocalDateTime, Request};
use nr_cms::images::get_img_as_b64_url;
use nr_cms::model::{LinkType, TemplateType};
use nr_cms::resolver::{parse_blog, parse_site, parse_template, parse_templates, ParseElements, MAX_NESTING};

fn gradient_jpeg() -> Vec<u8> {
    let img = image::RgbImage::from_fn(64, 64, |x, y| {
        image::Rgb([(x * 4) as u8, (y * 4) as u8, 128])
    });
    let mut buf: Vec<u8> = Vec::new();
    image::DynamicImage::ImageRgb8(img)
        .write_to(&mut Cursor::new(&mut buf), image::ImageOutputFormat::Jpeg(90))
        .unwrap();
    buf
}

fn no_answers() -> Answers {
    Answers { images: Vec::new(), dirs: Vec::new(), times: Vec::new() }
}

fn midnight(year: i32, month: u32, day: u32) -> LocalDateTime {
    LocalDateTime { year, month, day, hour: 0, minute: 0, second: 0 }
}

fn blog_answers() -> Answers {
    Answers {
        images: Vec::new(),
        dirs: vec![(
            "blog_files/".to_string(),
            Some(vec![
                "{{Title|my first toy}}{{Date|2023-01-02}}{{Paragraph|a}}".to_string(),
                "{{Title|undated}}{{Paragraph|b}}".to_string(),
                "{{Date|2023-02-03}}{{Title|second}}".to_string(),
            ]),
        )],
        times: vec![
            (midnight(2023, 1, 2), Some(1672617600)),
            (midnight(2023, 2, 3), Some(1675382400)),
        ],
    }
}

#[test]
fn test_parse_templates() {
    const CONTENT: &str = r#"
        {{Title|hi}}
        {{Image|sample.jpg}}
        {{Navbar|bla,bla}}
        {{Links|Github:bla}}
        {{NKR-CMS-INFO}}
        {{Nonsense}}
        {{Page|
        {{Name|TestPage}}
        {{Paragraph|hi}}
        }}
        "#;
    let answers = Answers {
        images: vec![(
            "sample.jpg".to_string(),
            None,
            get_img_as_b64_url("sample.jpg", &gradient_jpeg(), None),
        )],
        dirs: Vec::new(),
        times: Vec::new(),
    };
    let (templates, pages) = parse_templates(CONTENT, &answers, MAX_NESTING).unwrap();
    assert_eq!(templates.len(), 5);
    assert_eq!(pages.len(), 1);
    let (templates, pages) = parse_templates("{{broken_content", &answers, MAX_NESTING).unwrap();
    assert_eq!(templates.len(), 0);
    assert_eq!(pages.len(), 0);
}

#[test]
fn test_parse_blog() {
    let answers = blog_answers();
    let blog = parse_blog("blog_files/", &answers, MAX_NESTING).unwrap().unwrap();
    let blog = blog.get_blog().unwrap();
    assert!(!blog.posts.is_empty());
    assert!(blog.posts[0].templates[0].get_title().unwrap().contains("toy"));
}

#[test]
fn test_blog_file() {
    let answers = blog_answers();
    let (templates, _) = parse_templates(&answers.dirs[0].1.as_ref().unwrap()[0], &answers, MAX_NESTING).unwrap();
    let title = templates.iter().find_map(|t| t.get_title()).unwrap();
    assert!(title.contains("toy"));
}

#[test]
fn resolve_links_keeps_valid_entries() {
    let r = parse_template("Links|Github:user,Bogus:x", &no_answers(), MAX_NESTING).unwrap();
    match r {
        Some(ParseElements::Template(t)) => {
            let links = t.get_links().unwrap();
            assert_eq!(links.len(), 1);
            assert_eq!(links.get(&LinkType::Github).unwrap(), "user");
        },
        _ => panic!("expected a links element"),
    }
}

#[test]
fn resolve_links_all_invalid_gives_nothing() {
    assert!(parse_template("Links|Bogus:x", &no_answers(), MAX_NESTING).unwrap().is_none());
}

#[test]
fn page_without_name_is_not_registered() {
    let (templates, pages) =
        parse_templates("{{Page|{{Paragraph|hi}}}}", &no_answers(), MAX_NESTING).unwrap();
    assert!(templates.is_empty());
    assert!(pages.is_empty());
}

#[test]
fn page_with_name_is_registered() {
    let (templates, pages) = parse_templates(
        "{{Page|{{Name|P}}{{Paragraph|hi}}}}",
        &no_answers(),
        MAX_NESTING,
    )
    .unwrap();
    assert!(templates.is_empty());
    assert_eq!(pages.len(), 1);
    assert_eq!(pages[0].name, "P");
    let paragraphs: Vec<&String> =
        pages[0].page.templates.iter().filter_map(|t| t.get_paragraph()).collect();
    assert_eq!(paragraphs, vec!["hi"]);
}

#[test]
fn duplicate_page_names_last_wins() {
    let (_, pages) = parse_templates(
        "{{Page|{{Name|P}}{{Paragraph|one}}}}{{Page|{{Name|P}}{{Paragraph|two}}}}",
        &no_answers(),
        MAX_NESTING,
    )
    .unwrap();
    assert_eq!(pages.len(), 1);
    assert_eq!(pages[0].page.templates[1].get_paragraph().unwrap(), "two");
}

#[test]
fn blog_with_undated_file_yields_two_posts() {
    let answers = blog_answers();
    let (templates, _) = parse_templates("{{Blog|blog_files/}}", &answers, MAX_NESTING).unwrap();
    let blog = templates[0].get_blog().unwrap();
    assert_eq!(blog.posts.len(), 2);
    assert_eq!(blog.posts[0].post_date, 1672617600);
    assert_eq!(blog.posts[1].post_date, 1675382400);
}

#[test]
fn blog_requests_its_directory_then_dates() {
    match parse_templates("{{Blog|posts}}", &no_answers(), MAX_NESTING) {
        Err(Request::BlogDir(d)) => assert_eq!(d, "posts"),
        other => panic!("unexpected {:?}", other),
    }
    let answers = Answers {
        images: Vec::new(),
        dirs: vec![("posts".to_string(), Some(vec!["{{Date|2024-05-06}}".to_string()]))],
        times: Vec::new(),
    };
    match parse_templates("{{Blog|posts}}", &answers, MAX_NESTING) {
        Err(Request::LocalTime(t)) => assert_eq!(t, midnight(2024, 5, 6)),
        other => panic!("unexpected {:?}", other),
    }
    let answers = Answers {
        images: Vec::new(),
        dirs: vec![("posts".to_string(), None)],
        times: Vec::new(),
    };
    let (templates, _) = parse_templates("{{Blog|posts}}", &answers, MAX_NESTING).unwrap();
    assert!(templates.is_empty());
}

#[test]
fn first_unanswered_request_is_reported() {
    match parse_templates("{{Title|t}}{{Image|a.png}}{{Date|2020-01-01}}", &no_answers(), MAX_NESTING) {
        Err(Request::InlineImage(p, size)) => {
            assert_eq!(p, "a.png");
            assert_eq!(size, None);
        },
        other => panic!("unexpected {:?}", other),
    }
}

#[test]
fn parsing_twice_gives_the_same_model() {
    let answers = blog_answers();
    let text = "{{Title|t}}{{Blog|blog_files/}}{{Page|{{Name|P}}{{Code|c}}}}{{Navbar|a,b}}";
    let first = parse_templates(text, &answers, MAX_NESTING).unwrap();
    let second = parse_templates(text, &answers, MAX_NESTING).unwrap();
    assert_eq!(format!("{:?}", first), format!("{:?}", second));
}

#[test]
fn unknown_tags_and_missing_payloads_are_dropped() {
    let answers = no_answers();
    assert!(parse_template("Nonsense|x", &answers, MAX_NESTING).unwrap().is_none());
    assert!(parse_template("Title", &answers, MAX_NESTING).unwrap().is_none());
    assert!(parse_template("title|x", &answers, MAX_NESTING).unwrap().is_none());
    match parse_template("NKR-CMS-INFO", &answers, MAX_NESTING).unwrap() {
        Some(ParseElements::Template(t)) => assert!(t.get_nr_cms_info().is_some()),
        _ => panic!("expected the info element"),
    }
}

#[test]
fn payload_is_split_at_the_first_bar_only() {
    match parse_template("Paragraph|a|b", &no_answers(), MAX_NESTING).unwrap() {
        Some(ParseElements::Template(TemplateType::Paragraph { content })) => assert_eq!(content, "a|b"),
        _ => panic!("expected a paragraph"),
    }
}

#[test]
fn nesting_stops_at_the_depth_bound() {
    let (_, pages) = parse_templates("{{Page|{{Name|P}}}}", &no_answers(), 0).unwrap();
    assert!(pages.is_empty());
    let (_, pages) = parse_templates("{{Page|{{Name|P}}}}", &no_answers(), 1).unwrap();
    assert_eq!(pages.len(), 1);
}

#[test]
fn site_keeps_its_source_text() {
    let text = "{{Title|Home}}{{Page|{{Name|home}}{{Paragraph|x}}}}".to_string();
    let site = parse_site(text.clone(), &no_answers()).unwrap();
    assert_eq!(site.original_content, text);
    assert_eq!(site.templates[0].get_title().unwrap(), "Home");
    assert_eq!(site.pages[0].name, "home");
}
