use supertools::compress::{
    build_cancelled_result, build_output_path, check_candidates, encode_in_process, encoder_step,
    finished_result, output_extension, avifenc_args, EncoderStep,
    conflict_action, cwebp_args, emit_progress, failed_result, is_png_path, preset_args,
    rename_candidate, running_state, scan_inputs, skipped_existing_result, succeeded_result,
    CompressionOptions, CompressionPreset, ConflictAction, ConflictPolicy, FolderPathParts,
    InputSource, ItemStatus, JobTally, OutputFormat, ProgressState, ScanEntry, ScanObservation,
    SourcePathParts,
};
use supertools::compress::uniquify_output_path;
use supertools::png::{PngError, PngInspection};

fn options(preset: CompressionPreset) -> CompressionOptions {
    CompressionOptions {
        output_format: OutputFormat::Webp,
        preset,
        quality: None,
        strip_metadata: false,
        keep_transparent_rgb: false,
        conflict_policy: ConflictPolicy::Replace,
        output_suffix: String::new(),
        recursive: false,
        skip_larger: false,
    }
}

#[test]
fn preset_arguments() {
    assert_eq!(
        preset_args(&options(CompressionPreset::Balanced)),
        vec!["-q", "82", "-m", "6", "-mt", "-af", "-sharp_yuv", "-alpha_q", "100", "-metadata", "all"]
    );
    assert_eq!(preset_args(&options(CompressionPreset::Quality))[1], "90");
    let size = preset_args(&options(CompressionPreset::Size));
    assert_eq!((size[1].as_str(), size[8].as_str()), ("75", "90"));
}

#[test]
fn quality_override_is_clamped() {
    let mut o = options(CompressionPreset::Size);
    o.quality = Some(0);
    o.keep_transparent_rgb = true;
    o.strip_metadata = true;
    assert_eq!(
        preset_args(&o),
        vec!["-q", "1", "-m", "6", "-mt", "-af", "-sharp_yuv", "-alpha_q", "90", "-exact", "-metadata", "none"]
    );
    o.quality = Some(150);
    assert_eq!(preset_args(&o)[1], "100");
    o.quality = Some(55);
    assert_eq!(preset_args(&o)[1], "55");
}

#[test]
fn cwebp_command_line() {
    let args = cwebp_args(&options(CompressionPreset::Balanced), "/a/b.png", "/a_compressed/b.webp");
    let n = args.len();
    assert_eq!(&args[n - 3..], &["/a/b.png", "-o", "/a_compressed/b.webp"]);
}

#[test]
fn png_extensions() {
    assert!(is_png_path(Some("png")));
    assert!(is_png_path(Some("PnG")));
    assert!(!is_png_path(Some("jpg")));
    assert!(!is_png_path(Some("pngx")));
    assert!(!is_png_path(None));
}

fn source(stem: Option<&str>, parent: Option<&str>, name: Option<&str>, grand: Option<&str>) -> SourcePathParts {
    SourcePathParts {
        stem: stem.map(String::from),
        parent: parent.map(String::from),
        parent_name: name.map(String::from),
        grandparent: grand.map(String::from),
    }
}

fn folder(parent: Option<&str>, name: Option<&str>) -> FolderPathParts {
    FolderPathParts { parent: parent.map(String::from), name: name.map(String::from) }
}

#[test]
fn output_paths() {
    let files = InputSource::Files { paths: vec![] };
    let folder_input = InputSource::Folder { path: "/pics".to_string() };
    let t = build_output_path(&folder_input, folder(Some("/"), Some("pics")), source(Some("cat"), None, None, None), "_min", OutputFormat::Webp).unwrap();
    assert_eq!((t.base_dir.as_str(), t.dir_name.as_str(), t.file_name.as_str()), ("/", "pics_compressed", "cat_min.webp"));
    let t = build_output_path(&files, folder(None, None), source(Some("dog"), Some("/a/b"), Some("b"), Some("/a")), "", OutputFormat::Avif).unwrap();
    assert_eq!((t.base_dir.as_str(), t.dir_name.as_str(), t.file_name.as_str()), ("/a", "b_compressed", "dog.avif"));
    let e = |r: Result<_, String>| r.err().unwrap();
    assert_eq!(e(build_output_path(&files, folder(None, None), source(None, None, None, None), "", OutputFormat::Png)), "无法解析源文件名");
    assert_eq!(e(build_output_path(&folder_input, folder(None, Some("x")), source(Some("a"), None, None, None), "", OutputFormat::Jpg)), "文件夹缺少父目录");
    assert_eq!(e(build_output_path(&folder_input, folder(Some("/"), None), source(Some("a"), None, None, None), "", OutputFormat::Jpg)), "无法解析文件夹名");
    assert_eq!(e(build_output_path(&files, folder(None, None), source(Some("a"), None, None, None), "", OutputFormat::Jpg)), "源文件缺少父目录");
    assert_eq!(e(build_output_path(&files, folder(None, None), source(Some("a"), Some("/"), None, None), "", OutputFormat::Jpg)), "无法解析源目录名");
    assert_eq!(e(build_output_path(&files, folder(None, None), source(Some("a"), Some("/b"), Some("b"), None), "", OutputFormat::Jpg)), "源目录缺少上级目录");
}

#[test]
fn rename_candidates() {
    assert_eq!(rename_candidate(Some("a"), Some("webp"), 3), "a_3.webp");
    assert_eq!(rename_candidate(Some("a"), Some("webp"), 999), "a_999.webp");
    assert_eq!(rename_candidate(Some("a"), Some("webp"), 1000), "a_overflow.webp");
    assert_eq!(rename_candidate(None, None, 1), "output_1.webp");
}

#[test]
fn free_name_after_probing() {
    assert_eq!(uniquify_output_path(Some("a"), Some("webp"), &vec![false]), "a_1.webp");
    assert_eq!(uniquify_output_path(Some("a"), Some("webp"), &vec![true, true, false]), "a_3.webp");
    assert_eq!(uniquify_output_path(None, None, &vec![true, false]), "output_2.webp");
    assert_eq!(uniquify_output_path(Some("a"), Some("webp"), &vec![true; 999]), "a_overflow.webp");
    assert_eq!(uniquify_output_path(Some("a"), Some("png"), &vec![]), "a_overflow.png");
}

#[test]
fn conflict_actions() {
    assert_eq!(conflict_action(ConflictPolicy::Replace, true), ConflictAction::RemoveExisting);
    assert_eq!(conflict_action(ConflictPolicy::Replace, false), ConflictAction::Proceed);
    assert_eq!(conflict_action(ConflictPolicy::Skip, true), ConflictAction::SkipItem);
    assert_eq!(conflict_action(ConflictPolicy::Skip, false), ConflictAction::Proceed);
    assert_eq!(conflict_action(ConflictPolicy::Rename, false), ConflictAction::FindFreeName);
}

#[test]
fn item_results() {
    let s = skipped_existing_result("a".into(), "b".into(), 10, 5);
    assert_eq!((s.status, s.error.as_deref()), (ItemStatus::Skipped, Some("输出文件已存在")));
    let f = failed_result("a".into(), "b".into(), 10, 5, "cwebp", "  boom \n");
    assert_eq!((f.status, f.error.as_deref()), (ItemStatus::Failed, Some("boom")));
    let f = failed_result("a".into(), "b".into(), 10, 5, "avifenc", " \n ");
    assert_eq!(f.error.as_deref(), Some("avifenc 返回失败状态"));
    let ok = succeeded_result("a".into(), "b".into(), 10, 4, 5, true);
    assert_eq!((ok.status, ok.output_bytes, ok.error.as_deref()), (ItemStatus::Succeeded, Some(4), Some("__replaced__")));
    assert_eq!(succeeded_result("a".into(), "b".into(), 10, 4, 5, false).error, None);
    let c = build_cancelled_result("a".into(), 7);
    assert_eq!((c.status, c.output_path.as_str(), c.duration_ms, c.error.as_deref()), (ItemStatus::Skipped, "", 0, Some("任务已取消")));
}

#[test]
fn scan_summary() {
    let entries = vec![
        ScanEntry { path: "a.txt".into(), observation: ScanObservation::NotPng },
        ScanEntry { path: "b.png".into(), observation: ScanObservation::MetadataError { error: "denied".into() } },
        ScanEntry { path: "c.png".into(), observation: ScanObservation::Inspected { bytes: 100, inspection: Ok(PngInspection { is_apng: true }) } },
        ScanEntry { path: "d.png".into(), observation: ScanObservation::Inspected { bytes: 200, inspection: Ok(PngInspection { is_apng: false }) } },
        ScanEntry { path: "e.png".into(), observation: ScanObservation::Inspected { bytes: 300, inspection: Err(PngError::Truncated) } },
        ScanEntry { path: "f.png".into(), observation: ScanObservation::Inspected { bytes: 50, inspection: Ok(PngInspection { is_apng: false }) } },
    ];
    let r = scan_inputs(entries);
    assert_eq!((r.supported_count, r.ignored_count, r.total_bytes), (2, 1, 250));
    let reasons: Vec<(&str, &str)> = r.skipped.iter().map(|s| (s.path.as_str(), s.reason.as_str())).collect();
    assert_eq!(
        reasons,
        vec![
            ("a.txt", "不是 PNG 文件"),
            ("b.png", "读取文件信息失败: denied"),
            ("c.png", "APNG 暂不支持"),
            ("e.png", "PNG 结构不完整"),
        ]
    );
    assert_eq!(r.candidates[0].path, "d.png");
    assert_eq!(r.candidates[1].bytes, 50);
}

#[test]
fn job_checks() {
    assert_eq!(check_candidates(0), Err("没有可处理的 PNG 文件。".to_string()));
    assert_eq!(check_candidates(3), Ok(()));
}

#[test]
fn progress_events() {
    let e = emit_progress("job-1", Some("x.png".into()), 2, 5, 100, running_state(true));
    assert_eq!((e.state, e.state_label.as_str()), (ProgressState::Cancelling, "正在取消"));
    assert_eq!(running_state(false), ProgressState::Running);
    assert_eq!(ProgressState::Queued.label(), "任务已排队");
    assert_eq!(ProgressState::Completed.label(), "任务完成");
    assert_eq!(ProgressState::Running.label(), "正在压缩");
}

#[test]
fn tally_counts_and_roots() {
    let mut t = JobTally::new();
    t.record(succeeded_result("a".into(), "/o/a.webp".into(), 100, 40, 1, true), Some("/o".into()));
    t.record(succeeded_result("b".into(), "/o/b.webp".into(), 100, 150, 1, false), Some("/o".into()));
    t.record(failed_result("c".into(), "/m/c.webp".into(), 10, 1, "cwebp", "x"), Some("/m".into()));
    t.record(build_cancelled_result("d".into(), 10), None);
    assert_eq!((t.completed(), t.saved_bytes()), (4, 60));
    let r = t.finish("job-9".into(), 77);
    assert_eq!((r.succeeded, r.failed, r.skipped, r.replaced), (2, 1, 1, 1));
    assert_eq!(r.succeeded + r.failed + r.skipped, r.items.len());
    assert_eq!(r.output_roots, vec!["/m".to_string(), "/o".to_string()]);
    assert_eq!((r.job_id.as_str(), r.duration_ms, r.saved_bytes), ("job-9", 77, 60));
}

#[test]
fn every_format_has_an_encoder() {
    let mut o = options(CompressionPreset::Balanced);
    match encoder_step(&o, "/a/b.png", "/c/b.webp") {
        EncoderStep::Sidecar { name, program, args } => {
            assert_eq!((name.as_str(), program.as_str()), ("cwebp", "binaries/cwebp"));
            assert_eq!(args, cwebp_args(&o, "/a/b.png", "/c/b.webp"));
        }
        EncoderStep::InProcess => panic!("webp goes through cwebp"),
    }
    o.output_format = OutputFormat::Avif;
    match encoder_step(&o, "/a/b.png", "/c/b.avif") {
        EncoderStep::Sidecar { name, program, args } => {
            assert_eq!((name.as_str(), program.as_str()), ("avifenc", "binaries/avifenc"));
            assert_eq!(args, vec!["-q", "82", "--qalpha", "100", "-s", "6", "-j", "all", "/a/b.png", "/c/b.avif"]);
        }
        EncoderStep::InProcess => panic!("avif goes through avifenc"),
    }
    o.output_format = OutputFormat::Png;
    assert!(matches!(encoder_step(&o, "a", "b"), EncoderStep::InProcess));
    o.output_format = OutputFormat::Jpg;
    assert!(matches!(encoder_step(&o, "a", "b"), EncoderStep::InProcess));
    assert_eq!(
        (output_extension(OutputFormat::Webp), output_extension(OutputFormat::Png), output_extension(OutputFormat::Avif), output_extension(OutputFormat::Jpg)),
        ("webp", "png", "avif", "jpg")
    );
}

#[test]
fn avifenc_command_line() {
    let mut o = options(CompressionPreset::Size);
    o.strip_metadata = true;
    o.quality = Some(0);
    assert_eq!(
        avifenc_args(&o, "in.png", "out.avif"),
        vec!["-q", "1", "--qalpha", "90", "-s", "6", "-j", "all", "--ignore-exif", "--ignore-xmp", "in.png", "out.avif"]
    );
}

#[test]
fn larger_outputs_are_skipped_when_asked() {
    let mut o = options(CompressionPreset::Balanced);
    let kept = finished_result(&o, "a".into(), "b".into(), 10, 40, 5, false);
    assert_eq!((kept.status, kept.output_bytes, kept.error), (ItemStatus::Succeeded, Some(40), None));
    o.skip_larger = true;
    let dropped = finished_result(&o, "a".into(), "b".into(), 10, 40, 5, true);
    assert_eq!((dropped.status, dropped.output_bytes, dropped.error.as_deref()), (ItemStatus::Skipped, None, Some("输出比原图更大，已跳过")));
    let smaller = finished_result(&o, "a".into(), "b".into(), 10, 10, 5, true);
    assert_eq!((smaller.status, smaller.output_bytes, smaller.error.as_deref()), (ItemStatus::Succeeded, Some(10), Some("__replaced__")));
}

#[test]
fn png_and_jpg_are_encoded_in_process() {
    let source = supertools::raster::png_bytes_from_rgba(2, 2, vec![30u8; 16]).unwrap();
    let mut o = options(CompressionPreset::Balanced);
    o.output_format = OutputFormat::Png;
    let png = encode_in_process(&o, &source).unwrap();
    assert_eq!(&png[1..4], b"PNG");
    o.output_format = OutputFormat::Jpg;
    let jpg = encode_in_process(&o, &source).unwrap();
    assert_eq!(&jpg[..2], &[0xFF, 0xD8]);
    let e = encode_in_process(&o, b"not a png").unwrap_err();
    assert!(e.starts_with("解码 PNG 失败: "));
}

#[test]
fn progress_protocol_of_a_job() {
    let queued = JobTally::queued_event("job-1", 2);
    assert_eq!((queued.completed, queued.saved_bytes, queued.current_file, queued.state), (0, 0, None, ProgressState::Queued));
    let mut t = JobTally::new();
    let item = succeeded_result("a.png".into(), "/o/a.webp".into(), 100, 40, 1, false);
    assert!(t.can_record(&item));
    let first = t.record_and_report(item, Some("/o".into()), "job-1", 2, false);
    assert_eq!((first.completed, first.saved_bytes, first.current_file.as_deref(), first.state), (1, 60, Some("a.png"), ProgressState::Running));
    let second = t.record_and_report(failed_result("b.png".into(), "/o/b.webp".into(), 10, 1, "cwebp", "x"), Some("/o".into()), "job-1", 2, true);
    assert_eq!((second.completed, second.saved_bytes, second.state), (2, 60, ProgressState::Cancelling));
    let done = t.completed_event("job-1", 2);
    assert_eq!((done.completed, done.saved_bytes, done.state, done.job_id.as_str()), (2, 60, ProgressState::Completed, "job-1"));
    let r = t.finish("job-1".into(), 5);
    assert_eq!(r.output_roots, vec!["/o".to_string()]);
}

#[test]
fn tally_refuses_an_overflowing_saving() {
    let mut t = JobTally::new();
    t.record(succeeded_result("a".into(), "/o/a".into(), u64::MAX, 0, 1, false), None);
    assert!(!t.can_record(&succeeded_result("b".into(), "/o/b".into(), 2, 1, 1, false)));
    assert!(t.can_record(&failed_result("c".into(), "/o/c".into(), 2, 1, "cwebp", "x")));
}
