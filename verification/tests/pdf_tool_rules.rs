use supertools::pdf_tools::{
    check_images_to_pdf, check_merge, clamp_dpi, clean_args, collect_outputs, draw_args,
    escape_xml_text, file_stem_or_default, get_pdf_page_count, images_dir_name,
    images_to_pdf_message, merge_args, merge_message, missing_file_message, mutool_outcome,
    page_file_name, pages_args, pdf_to_images_message, sanitize_file_stem, select_pages_args,
    selected_pages_file_name, single_output_result, split_dir_name, split_message, split_ranges,
    watermark_message, watermark_text, watermarked_page_name, ImagesToPdfRequest,
    MergePdfsRequest, OutputFile, SplitMode, SplitPdfRequest,
};
use supertools::pdf_tools::{ensure_file, normalize_pdf_output_path};

#[test]
fn mutool_command_lines() {
    assert_eq!(clean_args("raw.pdf", "out.pdf"), vec!["clean", "-gggg", "-z", "-i", "-e", "80", "raw.pdf", "out.pdf"]);
    assert_eq!(
        merge_args("o.pdf", &vec!["a.pdf".to_string(), "b.pdf".to_string()]),
        vec!["merge", "-o", "o.pdf", "-O", "garbage=deduplicate,compress=yes,compress-images", "a.pdf", "b.pdf"]
    );
    assert_eq!(select_pages_args("o.pdf", "in.pdf", "1-3,5"), vec!["merge", "-o", "o.pdf", "in.pdf", "1-3,5"]);
    assert_eq!(draw_args(144, "p-%04d.png", "in.pdf"), vec!["draw", "-q", "-r", "144", "-F", "png", "-o", "p-%04d.png", "in.pdf"]);
    assert_eq!(pages_args("in.pdf"), vec!["pages", "in.pdf"]);
}

#[test]
fn dpi_is_clamped() {
    assert_eq!(clamp_dpi(10), 36);
    assert_eq!(clamp_dpi(300), 300);
    assert_eq!(clamp_dpi(1200), 600);
}

#[test]
fn page_counts() {
    let out = "in.pdf:\n<page pagenum=\"1\">\n  <MediaBox/>\n</page>\n  <page pagenum=\"2\">\r\n\t<page pagenum=\"3\">";
    assert_eq!(get_pdf_page_count(out), Ok(3));
    assert_eq!(get_pdf_page_count("<pages>\n<page\n"), Err("无法读取 PDF 页数。".to_string()));
    assert_eq!(get_pdf_page_count(""), Err("无法读取 PDF 页数。".to_string()));
}

#[test]
fn mutool_outcomes() {
    assert_eq!(mutool_outcome(true, "ok".to_string(), "warn"), Ok("ok".to_string()));
    assert_eq!(mutool_outcome(false, "ok".to_string(), "  bad file \n"), Err("bad file".to_string()));
    assert_eq!(mutool_outcome(false, String::new(), ""), Err("mutool 返回失败状态。".to_string()));
}

#[test]
fn file_names() {
    assert_eq!(page_file_name(7), "page-007.pdf");
    assert_eq!(page_file_name(1234), "page-1234.pdf");
    assert_eq!(watermarked_page_name(12), "watermarked-0012.png");
    assert_eq!(images_dir_name("doc"), "doc_images");
    assert_eq!(split_dir_name("doc"), "doc_split");
    assert_eq!(selected_pages_file_name("doc"), "doc_selected.pdf");
    assert_eq!(sanitize_file_stem("My File (1)"), "My_File__1_");
    assert_eq!(file_stem_or_default(Some("年度 报告"), "pdf"), "_____");
    assert_eq!(file_stem_or_default(Some(""), "pdf"), "pdf");
    assert_eq!(file_stem_or_default(None, "pdf"), "pdf");
    assert_eq!(missing_file_message("PDF 文件", "/x.pdf"), "PDF 文件不存在: /x.pdf");
}

#[test]
fn inputs_must_be_files() {
    assert_eq!(ensure_file(true, "PDF 文件", "/x.pdf"), Ok(()));
    assert_eq!(ensure_file(false, "PDF 文件", "/x.pdf"), Err("PDF 文件不存在: /x.pdf".to_string()));
}

#[test]
fn request_checks_and_messages() {
    let none = ImagesToPdfRequest { image_paths: vec![], output_path: "o.pdf".into() };
    assert_eq!(check_images_to_pdf(&none), Err("请选择至少一张图片。".to_string()));
    let one = ImagesToPdfRequest { image_paths: vec!["a.png".into()], output_path: "o.pdf".into() };
    assert_eq!(check_images_to_pdf(&one), Ok(()));
    assert_eq!(images_to_pdf_message(3), "已生成 1 个 PDF，包含 3 张图片。");
    let single = MergePdfsRequest { pdf_paths: vec!["a.pdf".into()], output_path: "o.pdf".into() };
    assert_eq!(check_merge(&single), Err("请选择至少两个 PDF。".to_string()));
    assert_eq!(merge_message(2), "已合并 2 个 PDF。");
    assert_eq!(pdf_to_images_message(10), "已导出 10 张图片。");
    assert_eq!(split_message(4), "已拆分输出 4 个文件。");
    let blank = SplitPdfRequest { pdf_path: "a.pdf".into(), output_dir: "/o".into(), mode: SplitMode::Range, page_ranges: "   ".into() };
    assert_eq!(split_ranges(&blank), Err("请输入页码范围，例如 1-3,5。".to_string()));
    let ranges = SplitPdfRequest { page_ranges: " 1-3,5 ".into(), ..blank };
    assert_eq!(split_ranges(&ranges), Ok("1-3,5".to_string()));
    assert_eq!(watermark_text("  \t"), Err("请输入水印文本。".to_string()));
    assert_eq!(watermark_text(" 机密 "), Ok("机密".to_string()));
    assert_eq!(watermark_message(), "已添加文本水印。");
    let r = single_output_result("/o/a.pdf".into(), "/o".into(), "m".into());
    assert_eq!((r.output_dir.as_str(), r.output_paths.len(), r.message.as_str()), ("/o", 1, "m"));
}

#[test]
fn xml_escaping() {
    assert_eq!(escape_xml_text("a<b>&\"c'"), "a&lt;b&gt;&amp;&quot;c&apos;");
    let escaped = escape_xml_text("<script>alert('x')</script>");
    assert!(!escaped.contains('<') && !escaped.contains('>') && !escaped.contains('\''));
}

#[test]
fn outputs_are_filtered_and_sorted() {
    let files = vec![
        OutputFile { path: "/o/page-0002.png".into(), extension: Some("png".into()) },
        OutputFile { path: "/o/notes.txt".into(), extension: Some("txt".into()) },
        OutputFile { path: "/o/page-0001.PNG".into(), extension: Some("PNG".into()) },
        OutputFile { path: "/o/README".into(), extension: None },
        OutputFile { path: "/o/page-0010.png".into(), extension: Some("png".into()) },
    ];
    assert_eq!(
        collect_outputs(files, "png"),
        vec!["/o/page-0001.PNG".to_string(), "/o/page-0002.png".to_string(), "/o/page-0010.png".to_string()]
    );
}

#[test]
fn pdf_output_paths_get_an_extension() {
    assert_eq!(normalize_pdf_output_path("out", Some("out")), "out.pdf");
    assert_eq!(normalize_pdf_output_path("/d/out/", Some("out")), "/d/out.pdf");
    assert_eq!(normalize_pdf_output_path("/d/out.pdf", Some("out.pdf")), "/d/out.pdf");
    assert_eq!(normalize_pdf_output_path("/d/a.", Some("a.")), "/d/a.");
    assert_eq!(normalize_pdf_output_path("/d/.hidden", Some(".hidden")), "/d/.hidden.pdf");
    assert_eq!(normalize_pdf_output_path("/", None), "/");
    assert_eq!(normalize_pdf_output_path("out/out", Some("out")), "out/out.pdf");
}

#[test]
fn rendered_pages_become_jpeg() {
    let png = supertools::raster::png_bytes_from_rgba(2, 2, vec![100u8; 16]).unwrap();
    let jpg = supertools::pdf_tools::page_png_to_jpeg(&png).unwrap();
    assert_eq!(&jpg[..2], &[0xFF, 0xD8]);
    assert!(supertools::pdf_tools::page_png_to_jpeg(b"nope").unwrap_err().starts_with("读取渲染图片失败: "));
}
