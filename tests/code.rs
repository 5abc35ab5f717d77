use nr_cms::code::{gen_code, keyword_replacement, load_replacements, process_replacements, wrap_in_span, Replacement};
use nr_cms::model::TemplateType;

#[test]
fn test_process_replacements() {
    let replacements = [Replacement {
        css_class: "keywords".into(),
        match_keywords: ["int", "true"].iter().map(|x| x.to_string()).collect(),
    }];
    let code = r#"
            int main(){
                bool x = true;
                std::string y = "namewithtrue";
                return 0;
            }
        "#;
    let code = process_replacements(code, &replacements);
    println!("{}", code);
    assert!(code.contains(r#"<span class="code-keywords">int</span> main()"#));
    assert!(code.contains(r#"x = <span class="code-keywords">true</span>;"#));
    assert!(code.contains(r#""namewithtrue""#));
}

#[test]
fn wrap_in_span_exact() {
    assert_eq!(wrap_in_span("fn", "kw"), r#"<span class="code-kw">fn</span>"#);
}

#[test]
fn keyword_replacement_whole_words_only() {
    assert_eq!(keyword_replacement("if", "if iffy if", "X").unwrap(), "X iffy X");
    assert!(keyword_replacement("(", "a ( b", "X").is_none());
}

#[test]
fn gen_code_wraps_code_and_ignores_other_elements() {
    assert!(load_replacements().is_empty());
    let code = TemplateType::Code { code: "let x = 1;".to_string() };
    assert_eq!(gen_code(&code), "<pre><code>\nlet x = 1;\n</code></pre>");
    let other = TemplateType::Title { title: "t".to_string() };
    assert_eq!(gen_code(&other), "");
}
