use deathrip::{Page, PageError};

#[test]
fn extracts_base_and_title() {
    let markup = r#"<html><head><title>Site - My Item</title></head>
<body><image-viewer class="v" url="https://host/base"></image-viewer></body></html>"#;
    let page = Page::from_markup(markup).unwrap();
    assert_eq!(page.base_url, "https://host/base");
    assert_eq!(page.title, "My Item");
}

#[test]
fn missing_viewer_is_base_not_found() {
    let markup = "<html><head><title>Site - My Item</title></head><body></body></html>";
    assert!(matches!(Page::from_markup(markup), Err(PageError::BaseNotFound)));
}

#[test]
fn missing_title_is_title_not_found() {
    let markup = r#"<body><image-viewer url="https://host/base"></image-viewer></body>"#;
    assert!(matches!(Page::from_markup(markup), Err(PageError::TitleNotFound)));
}

#[test]
fn captures_decide() {
    let ok = Page::from_captures(Some("u".to_string()), Some("t".to_string())).unwrap();
    assert_eq!(ok, Page { title: "t".to_string(), base_url: "u".to_string() });
    assert!(matches!(Page::from_captures(None, Some("t".to_string())), Err(PageError::BaseNotFound)));
    assert!(matches!(Page::from_captures(Some("u".to_string()), None), Err(PageError::TitleNotFound)));
    assert!(matches!(Page::from_captures(None, None), Err(PageError::BaseNotFound)));
}
