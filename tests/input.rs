use deathrip::{Input, item_page_url};

#[test]
fn input_kinds() {
    let base = Input::try_from("https://lh3.ggpht.com/abc").unwrap();
    assert_eq!(base, Input::BaseUrl("https://lh3.ggpht.com/abc".to_string()));
    let page = Input::try_from("https://www.deadseascrolls.org.il/explore-the-archive/image/B-1").unwrap();
    assert_eq!(
        page,
        Input::PageUrl("https://www.deadseascrolls.org.il/explore-the-archive/image/B-1".to_string())
    );
    let item = Input::try_from("B-284528").unwrap();
    assert_eq!(item, Input::ItemId("B-284528".to_string()));
    let both = Input::try_from("deadseascrolls.org ggpht.com").unwrap();
    assert!(matches!(both, Input::BaseUrl(_)));
}

#[test]
fn input_text() {
    let item = Input::try_from("B-1").unwrap();
    assert_eq!(item.as_ref(), "B-1");
    assert_eq!(item.to_string(), "B-1");
    let empty = Input::try_from("").unwrap();
    assert_eq!(empty, Input::ItemId(String::new()));
}

#[test]
fn item_page_address() {
    assert_eq!(
        item_page_url("B-284528"),
        "https://www.deadseascrolls.org.il/explore-the-archive/image/B-284528"
    );
}
