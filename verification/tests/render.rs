use website::render::{
    classify_root_file, rendered_bytes, template_engine, template_extension, RenderError, RootFile,
};

fn context() -> tera::Context {
    let mut ctx = tera::Context::new();
    ctx.insert("title", "Talks");
    ctx
}

fn render(content: &[u8], ext: Option<&str>) -> Result<Vec<u8>, RenderError> {
    match classify_root_file(content.to_vec(), ext)? {
        RootFile::Copy(b) => Ok(b),
        RootFile::Template(t) => {
            let engine = template_engine(&t)?;
            rendered_bytes(engine.engine().render(engine.name(), &context()))
        }
    }
}

#[test]
fn only_html_and_css_are_templates() {
    assert!(template_extension(Some("html")));
    assert!(template_extension(Some("css")));
    assert!(!template_extension(Some("js")));
    assert!(!template_extension(Some("HTML")));
    assert!(!template_extension(None));
}

#[test]
fn other_files_are_copied_unchanged() {
    let bytes = vec![0xff, 0x00, b'{', b'{'];
    assert!(matches!(classify_root_file(bytes.clone(), Some("png")), Ok(RootFile::Copy(b)) if b == bytes));
    assert!(matches!(classify_root_file(bytes.clone(), None), Ok(RootFile::Copy(b)) if b == bytes));
}

#[test]
fn templates_hold_their_text() {
    assert!(matches!(
        classify_root_file("<p>é {{ x }}</p>".as_bytes().to_vec(), Some("html")),
        Ok(RootFile::Template(t)) if t == "<p>é {{ x }}</p>"
    ));
}

#[test]
fn html_is_rendered_with_the_context() {
    assert_eq!(render(b"<h1>{{ title }}</h1>", Some("html")), Ok(b"<h1>Talks</h1>".to_vec()));
}

#[test]
fn css_is_rendered_too() {
    assert_eq!(render(b"a { x: {{ 1 + 1 }}; }", Some("css")), Ok(b"a { x: 2; }".to_vec()));
}

#[test]
fn template_that_is_not_utf8_is_refused() {
    assert!(matches!(classify_root_file(vec![0xff], Some("html")), Err(RenderError::NotUtf8)));
}

#[test]
fn template_that_does_not_parse_is_refused() {
    assert!(matches!(template_engine("{{ unclosed"), Err(RenderError::TemplateParse)));
    assert!(template_engine("plain text").is_ok());
}

#[test]
fn template_with_unknown_variable_fails_to_render() {
    assert_eq!(render(b"{{ missing }}", Some("html")), Err(RenderError::TemplateRender));
}

#[test]
fn rendered_bytes_are_utf8() {
    assert_eq!(rendered_bytes(Ok("é".to_string())), Ok(vec![0xc3, 0xa9]));
}

#[test]
fn engine_holds_the_template_under_its_name() {
    let engine = template_engine("<b>{{ title }}</b>").ok().unwrap();
    assert_eq!(engine.name(), "template");
    assert_eq!(engine.engine().render(engine.name(), &context()).unwrap(), "<b>Talks</b>");
}
