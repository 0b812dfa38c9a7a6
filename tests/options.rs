use deathrip::{OutputFormat, cli_validate_zoom, parse_format};

#[test]
fn named_formats() {
    assert_eq!(parse_format("png"), Ok(OutputFormat::Png));
    assert_eq!(parse_format("PNG"), Ok(OutputFormat::Png));
    assert_eq!(parse_format("bmp"), Ok(OutputFormat::Bmp));
    assert_eq!(parse_format("gif"), Ok(OutputFormat::Gif));
    assert_eq!(parse_format("ico"), Ok(OutputFormat::Ico));
    assert_eq!(parse_format("farbfeld"), Ok(OutputFormat::Farbfeld));
    assert_eq!(parse_format("tga"), Ok(OutputFormat::Tga));
    assert_eq!(parse_format("exr"), Ok(OutputFormat::OpenExr));
    assert_eq!(parse_format("OpenEXR"), Ok(OutputFormat::OpenExr));
    assert_eq!(parse_format("tiff"), Ok(OutputFormat::Tiff));
}

#[test]
fn jpeg_formats() {
    assert_eq!(parse_format("jpg"), Ok(OutputFormat::Jpeg(100)));
    assert_eq!(parse_format("jpeg"), Ok(OutputFormat::Jpeg(100)));
    assert_eq!(parse_format("JPG80"), Ok(OutputFormat::Jpeg(80)));
    assert_eq!(parse_format("jpeg0"), Ok(OutputFormat::Jpeg(0)));
    assert_eq!(parse_format("jpg200"), Ok(OutputFormat::Jpeg(100)));
    assert_eq!(parse_format("jpg+7"), Ok(OutputFormat::Jpeg(7)));
    assert_eq!(
        parse_format("jpg256"),
        Err("couldn't parse the quality, it should be a number within [0,100]")
    );
    assert_eq!(
        parse_format("jpegx"),
        Err("couldn't parse the quality, it should be a number within [0,100]")
    );
}

#[test]
fn unknown_format() {
    assert_eq!(parse_format("webp"), Err("unrecognized image output format"));
    assert_eq!(parse_format(""), Err("unrecognized image output format"));
}

#[test]
fn zoom_levels() {
    assert_eq!(cli_validate_zoom("0"), Ok(0));
    assert_eq!(cli_validate_zoom("7"), Ok(7));
    assert_eq!(cli_validate_zoom("+3"), Ok(3));
    assert_eq!(cli_validate_zoom("-1"), Err("Zoom level must be >= 0"));
    assert_eq!(cli_validate_zoom("x"), Err("zoom should be a number >= 0"));
    assert_eq!(cli_validate_zoom(""), Err("zoom should be a number >= 0"));
    assert_eq!(cli_validate_zoom("99999999999999999999"), Err("zoom should be a number >= 0"));
}
