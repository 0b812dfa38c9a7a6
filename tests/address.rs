use deathrip::{StringMutTail, column_template, row_template, tile_address, zoom_template};

#[test]
fn templates() {
    assert_eq!(zoom_template("https://h/b"), "https://h/b=x0-y0-z");
    assert_eq!(column_template("https://h/b", 3), "https://h/b=z3-y0-x");
    assert_eq!(row_template("https://h/b", 12), "https://h/b=z12-x0-y");
}

#[test]
fn tile_addresses() {
    assert_eq!(tile_address("b", 2, 3, 10), "b=x2-y3-z10");
    assert_eq!(tile_address("b", 0, 0, 0), "b=x0-y0-z0");
    assert_eq!(
        tile_address("b", usize::MAX, 1, 7),
        format!("b=x{}-y1-z7", usize::MAX)
    );
}

#[test]
fn mutating_tail() {
    let mut t = StringMutTail::from("b=z3-y0-x");
    assert_eq!(t.with_tail_int(12), "b=z3-y0-x12");
    assert_eq!(t.with_tail_int(7), "b=z3-y0-x7");
    assert_eq!(t.with_tail_int(0), "b=z3-y0-x0");
    let mut u = StringMutTail::from(String::from("q="));
    assert_eq!(u.with_tail_int(1000), "q=1000");
    let mut v = StringMutTail::new("p");
    assert_eq!(v.with_tail_int(9), "p9");
}

#[test]
fn tail_after_a_longer_tail() {
    let mut s = StringMutTail::from("u=x0-y0-z");
    assert_eq!(s.with_tail_int(12345), "u=x0-y0-z12345");
    assert_eq!(s.with_tail_int(7), "u=x0-y0-z7");
    let base = "u=z2-x0-y";
    assert_eq!(
        StringMutTail::from(base).with_tail_int(40),
        StringMutTail::from(base.to_string()).with_tail_int(40)
    );
}
