use nr_cms::elements::{
    parse_code, parse_links, parse_name, parse_navbar, parse_nkr_cms_info, parse_paragraph,
    parse_title, parse_u32, NR_CMS_INFO_TEXT,
};
use nr_cms::model::{LinkMap, LinkType, TemplateType};

#[test]
fn test_simple_parsing() {
    const TEST: &str = "test";
    assert_eq!(parse_name(Some(TEST)).unwrap().get_name().unwrap(), TEST);
    assert_eq!(
        parse_paragraph(Some(TEST))
            .unwrap()
            .get_paragraph()
            .unwrap(),
        TEST
    );
    assert_eq!(parse_title(Some(TEST)).unwrap().get_title().unwrap(), TEST);
    assert!(parse_nkr_cms_info().unwrap().get_nr_cms_info().is_some());
}

#[test]
fn test_parse_links() {
    const LINKS: &str = "Github:A,None:B";
    let links = parse_links(Some(LINKS)).unwrap();
    let links = links.get_links().unwrap();
    assert!(links.contains_key(&LinkType::Github));
    assert_eq!(links.get(&LinkType::Github).unwrap(), "A");
    const LINKS_BROKEN: &str = "GithubA,NoneB";
    let links = parse_links(Some(LINKS_BROKEN));
    assert!(links.is_none());
}

#[test]
fn test_parse_navbar() {
    const PAGES: &str = "a,b,c";
    let pages = parse_navbar(Some(PAGES)).unwrap();
    let pages = pages.get_navbar().unwrap();
    assert_eq!(pages.len(), 3);
}

#[test]
fn text_tags_need_a_payload() {
    assert!(parse_title(None).is_none());
    assert!(parse_paragraph(None).is_none());
    assert!(parse_name(None).is_none());
    assert!(parse_code(None).is_none());
    assert!(parse_navbar(None).is_none());
    assert!(parse_links(None).is_none());
    assert_eq!(parse_code(Some("x = 1;")).unwrap().get_code().unwrap(), "x = 1;");
}

#[test]
fn navbar_keeps_order_and_empty_payload_gives_no_names() {
    let nav = parse_navbar(Some("home,blog")).unwrap();
    assert_eq!(nav.get_navbar().unwrap(), &vec!["home".to_string(), "blog".to_string()]);
    let nav = parse_navbar(Some("")).unwrap();
    assert!(nav.get_navbar().unwrap().is_empty());
    let nav = parse_navbar(Some("a,,b")).unwrap();
    assert_eq!(nav.get_navbar().unwrap().len(), 3);
}

#[test]
fn links_keep_only_valid_github_entries() {
    let links = parse_links(Some("Github:user,Bogus:x")).unwrap();
    let links = links.get_links().unwrap();
    assert_eq!(links.len(), 1);
    assert_eq!(links.get(&LinkType::Github).unwrap(), "user");
    assert!(parse_links(Some("Bogus:x")).is_none());
}

#[test]
fn links_split_at_the_first_colon() {
    let links = parse_links(Some("Github:a:b")).unwrap();
    let links = links.get_links().unwrap();
    assert_eq!(links.len(), 1);
    assert_eq!(links.get(&LinkType::Github).unwrap(), "a:b");
    let links = parse_links(Some("Github:")).unwrap();
    assert_eq!(links.get_links().unwrap().get(&LinkType::Github).unwrap(), "");
    assert!(parse_links(Some(":Github")).is_none());
}

#[test]
fn links_later_duplicate_wins() {
    let links = parse_links(Some("Github:first,Github:second,Bogus:x")).unwrap();
    let links = links.get_links().unwrap();
    assert_eq!(links.len(), 1);
    assert_eq!(links.get(&LinkType::Github).unwrap(), "second");
}

#[test]
fn info_ignores_payload() {
    let info = parse_nkr_cms_info().unwrap();
    assert_eq!(info.get_nr_cms_info().unwrap(), NR_CMS_INFO_TEXT);
}

#[test]
fn u32_parsing_matches_std() {
    for s in ["10", "+10", "0", "007", "4294967295", "4294967296", "", "+", "-1", "1a", " 1"] {
        assert_eq!(parse_u32(s), s.parse::<u32>().ok(), "input {:?}", s);
    }
}

#[test]
fn link_map_insert_replaces() {
    let mut links = LinkMap::new();
    assert!(links.is_empty());
    links.insert(LinkType::Github, "a".to_string());
    links.insert(LinkType::Github, "b".to_string());
    assert_eq!(links.len(), 1);
    assert_eq!(links.get(&LinkType::Github).unwrap(), "b");
    let element = TemplateType::Links { links };
    assert!(element.get_links().is_some());
}
