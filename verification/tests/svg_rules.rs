use supertools::svg::{
    export_clear_color, icon_clear_color, normalize_rgb_hex, parse_color, sanitize_file_stem,
    validate_icon_set_request, validate_request, IconPlatform, SvgExportFormat, SvgExportRequest,
    SvgIconSetRequest,
};

fn export_request() -> SvgExportRequest {
    SvgExportRequest {
        svg_code: "<svg/>".to_string(),
        width: 64,
        height: 64,
        format: SvgExportFormat::Png,
        quality: 90,
        keep_aspect_ratio: true,
        background: "#ffffff".to_string(),
        padding_percent: 10,
        output_path: "/tmp/out.png".to_string(),
    }
}

#[test]
fn export_request_checks_in_order() {
    assert_eq!(validate_request(&export_request()), Ok(()));
    let mut r = export_request();
    r.svg_code = "  \n".to_string();
    r.width = 0;
    assert_eq!(validate_request(&r), Err("SVG 代码不能为空".to_string()));
    let mut r = export_request();
    r.height = 0;
    r.padding_percent = 50;
    assert_eq!(validate_request(&r), Err("导出尺寸必须大于 0".to_string()));
    let mut r = export_request();
    r.padding_percent = 41;
    assert_eq!(validate_request(&r), Err("图标内边距不能超过 40%".to_string()));
    let mut r = export_request();
    r.padding_percent = 40;
    r.output_path = " \t".to_string();
    assert_eq!(validate_request(&r), Err("缺少输出路径".to_string()));
}

fn icon_request() -> SvgIconSetRequest {
    SvgIconSetRequest {
        svg_code: "<svg/>".to_string(),
        output_dir: "/tmp".to_string(),
        app_name: "demo".to_string(),
        platforms: vec![IconPlatform::Ios],
        background: "#21bd87".to_string(),
        padding_percent: 12,
    }
}

#[test]
fn icon_set_request_checks_in_order() {
    assert_eq!(validate_icon_set_request(&icon_request()), Ok(()));
    let mut r = icon_request();
    r.svg_code = String::new();
    assert_eq!(validate_icon_set_request(&r), Err("SVG 代码不能为空".to_string()));
    let mut r = icon_request();
    r.output_dir = "   ".to_string();
    r.platforms.clear();
    assert_eq!(validate_icon_set_request(&r), Err("请选择输出目录".to_string()));
    let mut r = icon_request();
    r.platforms.clear();
    assert_eq!(validate_icon_set_request(&r), Err("请至少选择一个目标平台".to_string()));
    let mut r = icon_request();
    r.padding_percent = 41;
    assert_eq!(validate_icon_set_request(&r), Err("图标内边距不能超过 40%".to_string()));
}

#[test]
fn package_names() {
    assert_eq!(sanitize_file_stem("  My App!! "), "my-app");
    assert_eq!(sanitize_file_stem("demo"), "demo");
    assert_eq!(sanitize_file_stem("***"), "app");
    assert_eq!(sanitize_file_stem(""), "app");
    assert_eq!(sanitize_file_stem("Foo_Bar--2"), "foo_bar--2");
    assert_eq!(sanitize_file_stem("-_x_-"), "_x_");
    assert_eq!(sanitize_file_stem("超级 工具 Pro"), "pro");
}

#[test]
fn package_names_are_stable() {
    for name in ["  My App!! ", "***", "a  b__c--", "Ünïcödé App 2", "-lead", "trail-"] {
        let once = sanitize_file_stem(name);
        assert_eq!(sanitize_file_stem(&once), once);
    }
}

#[test]
fn rgb_hex_normalisation() {
    assert_eq!(normalize_rgb_hex("#21bd87"), "#21bd87");
    assert_eq!(normalize_rgb_hex("  ##ABCDEF99 "), "#ABCDEF");
    assert_eq!(normalize_rgb_hex("xyz"), "#ffffff");
    assert_eq!(normalize_rgb_hex("12345"), "#ffffff");
    assert_eq!(normalize_rgb_hex("12345g"), "#ffffff");
}

#[test]
fn colour_parsing() {
    assert_eq!(parse_color("#21bd87"), Some((0x21, 0xbd, 0x87, 255)));
    assert_eq!(parse_color(" #00000000 "), Some((0, 0, 0, 0)));
    assert_eq!(parse_color("#ff000080"), Some((255, 0, 0, 128)));
    assert_eq!(parse_color("+f+f+f"), Some((15, 15, 15, 255)));
    assert_eq!(parse_color("#12345"), None);
    assert_eq!(parse_color("zzzzzz"), None);
    assert_eq!(parse_color("-fffff"), None);
    assert_eq!(parse_color(""), None);
}

#[test]
fn canvas_colours() {
    assert_eq!(export_clear_color(SvgExportFormat::Png, "bad"), (255, 255, 255, 0));
    assert_eq!(export_clear_color(SvgExportFormat::Jpg, "bad"), (255, 255, 255, 255));
    assert_eq!(export_clear_color(SvgExportFormat::Jpeg, "#010203"), (1, 2, 3, 255));
    assert_eq!(icon_clear_color("#00000000"), (0, 0, 0, 0));
    assert_eq!(icon_clear_color("none"), (255, 255, 255, 0));
}

#[test]
fn package_names_are_clean() {
    for input in ["  My App!! 2 ", "demo", "中文", "--a--", "", "A_b-C"] {
        let s = sanitize_file_stem(input);
        assert!(!s.is_empty());
        assert!(s.chars().all(|c| c.is_ascii_lowercase() || c.is_ascii_digit() || c == '-' || c == '_'));
        assert!(!s.starts_with('-') && !s.ends_with('-'));
        assert_eq!(sanitize_file_stem(&s), s);
    }
    assert_eq!(sanitize_file_stem("  My App!! 2 "), "my-app-2");
    assert_eq!(sanitize_file_stem("中文"), "app");
}
