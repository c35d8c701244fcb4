//! PNG compression jobs: request and result types, the encoder of each
//! output format (`cwebp` and `avifenc` command lines, PNG and JPG
//! re-encoding in process), the scan summary, output naming, conflict
//! handling, per-item results (skipping outputs larger than their source on
//! request), progress events and the running tally of a job.

use vstd::prelude::*;
use crate::text::{chars_of, push_chars, push_decimal, string_of};

verus! {

/// Where the PNG files of a job come from.
pub enum InputSource {
    Files { paths: Vec<String> },
    Folder { path: String },
}

/// The output format of a job: WebP (through `cwebp`), AVIF (through
/// `avifenc`), or PNG and JPG (re-encoded in process).
#[derive(Debug, Clone, Copy, PartialEq, Eq, Structural)]
pub enum OutputFormat {
    Webp,
    Png,
    Avif,
    Jpg,
}

/// The `cwebp` settings preset.
#[derive(Debug, Clone, Copy, PartialEq, Eq, Structural)]
pub enum CompressionPreset {
    Balanced,
    Quality,
    Size,
}

/// What to do when the output file already exists.
#[derive(Debug, Clone, Copy, PartialEq, Eq, Structural)]
pub enum ConflictPolicy {
    Replace,
    Skip,
    Rename,
}

/// The options of a compression job.
pub struct CompressionOptions {
    pub output_format: OutputFormat,
    pub preset: CompressionPreset,
    pub quality: Option<u8>,
    pub strip_metadata: bool,
    pub keep_transparent_rgb: bool,
    pub conflict_policy: ConflictPolicy,
    pub output_suffix: String,
    pub recursive: bool,
    /// Drop an output that came out larger than its source, and report the
    /// item as skipped.
    pub skip_larger: bool,
}

/// A compression job: its input and options.
pub struct CompressJobRequest {
    pub input: InputSource,
    pub options: CompressionOptions,
}

/// A PNG file that a job will compress, with its size in bytes.
pub struct ScanCandidate {
    pub path: String,
    pub bytes: u64,
}

/// A file left out of a job, with the reason.
pub struct SkippedItem {
    pub path: String,
    pub reason: String,
}

/// The outcome of scanning a job's input.
pub struct ScanResult {
    pub candidates: Vec<ScanCandidate>,
    pub skipped: Vec<SkippedItem>,
    pub supported_count: usize,
    pub ignored_count: usize,
    pub total_bytes: u64,
}

/// The state of one item after a job handled it.
#[derive(Debug, Clone, Copy, PartialEq, Eq, Structural)]
pub enum ItemStatus {
    Succeeded,
    Failed,
    Skipped,
}

/// What a job did with one file. The compression ratio is
/// `output_bytes / source_bytes` when the output size is known.
pub struct CompressItemResult {
    pub source_path: String,
    pub output_path: String,
    pub source_bytes: u64,
    pub output_bytes: Option<u64>,
    pub duration_ms: u128,
    pub status: ItemStatus,
    pub error: Option<String>,
}

/// The outcome of a whole job.
pub struct CompressJobResult {
    pub job_id: String,
    pub succeeded: usize,
    pub failed: usize,
    pub skipped: usize,
    pub replaced: usize,
    pub duration_ms: u128,
    pub saved_bytes: u64,
    pub output_roots: Vec<String>,
    pub items: Vec<CompressItemResult>,
}

/// The phase reported by a progress event.
#[derive(Debug, Clone, Copy, PartialEq, Eq, Structural)]
pub enum ProgressState {
    Queued,
    Running,
    Cancelling,
    Completed,
}

/// A progress event of a job.
pub struct CompressProgressEvent {
    pub job_id: String,
    pub current_file: Option<String>,
    pub completed: usize,
    pub total: usize,
    pub saved_bytes: u64,
    pub state: ProgressState,
    pub state_label: String,
}

/// The label shown for a progress state.
pub open spec fn state_label(state: ProgressState) -> Seq<char> {
    match state {
        ProgressState::Queued => "任务已排队"@,
        ProgressState::Running => "正在压缩"@,
        ProgressState::Cancelling => "正在取消"@,
        ProgressState::Completed => "任务完成"@,
    }
}

impl ProgressState {
    /// The label shown for this state.
    pub fn label(&self) -> (r: String)
        ensures
            r@ == state_label(*self),
    {
        match self {
            ProgressState::Queued => String::from_str("任务已排队"),
            ProgressState::Running => String::from_str("正在压缩"),
            ProgressState::Cancelling => String::from_str("正在取消"),
            ProgressState::Completed => String::from_str("任务完成"),
        }
    }
}

/// The views of a list of strings.
pub open spec fn string_views(v: Seq<String>) -> Seq<Seq<char>> {
    v.map_values(|s: String| s@)
}

/// The quality a preset starts from.
pub open spec fn preset_quality(preset: CompressionPreset) -> Seq<char> {
    match preset {
        CompressionPreset::Balanced => "82"@,
        CompressionPreset::Quality => "90"@,
        CompressionPreset::Size => "75"@,
    }
}

/// The alpha quality of a preset.
pub open spec fn preset_alpha_quality(preset: CompressionPreset) -> Seq<char> {
    match preset {
        CompressionPreset::Balanced => "100"@,
        CompressionPreset::Quality => "100"@,
        CompressionPreset::Size => "90"@,
    }
}

/// `u8::clamp(q, 1, 100)`.
pub open spec fn clamp_quality(q: u8) -> u8 {
    if q < 1 {
        1
    } else if q > 100 {
        100
    } else {
        q
    }
}

/// The `cwebp` options of a job: quality (the explicit one clamped to
/// 1..=100, else the preset's), method 6, multithreading, auto-filter,
/// sharp YUV, alpha quality, `-exact` to keep transparent RGB, and which
/// metadata to copy.
pub open spec fn preset_args_of(options: CompressionOptions) -> Seq<Seq<char>> {
    let q = match options.quality {
        Some(q) => crate::text::decimal(clamp_quality(q) as nat),
        None => preset_quality(options.preset),
    };
    let base = seq!["-q"@, q, "-m"@, "6"@, "-mt"@, "-af"@, "-sharp_yuv"@, "-alpha_q"@, preset_alpha_quality(options.preset)];
    let exact = if options.keep_transparent_rgb { seq!["-exact"@] } else { Seq::empty() };
    base + exact + seq!["-metadata"@, if options.strip_metadata { "none"@ } else { "all"@ }]
}

fn push_string(v: &mut Vec<String>, s: String)
    ensures
        string_views(final(v)@) == string_views(old(v)@).push(s@),
{
    v.push(s);
    assert(string_views(v@) =~= string_views(old(v)@).push(s@));
}

fn push_text(v: &mut Vec<String>, s: &str)
    ensures
        string_views(final(v)@) == string_views(old(v)@).push(s@),
{
    push_string(v, String::from_str(s));
}

/// The `cwebp` options of a job (see `preset_args_of`).
pub fn preset_args(options: &CompressionOptions) -> (r: Vec<String>)
    ensures
        string_views(r@) == preset_args_of(*options),
{
    let mut args: Vec<String> = Vec::new();
    push_text(&mut args, "-q");
    match options.quality {
        Some(quality) => {
            let q: u8 = if quality < 1 { 1 } else if quality > 100 { 100 } else { quality };
            push_string(&mut args, crate::text::decimal_string(q as u64));
        },
        None => match options.preset {
            CompressionPreset::Balanced => push_text(&mut args, "82"),
            CompressionPreset::Quality => push_text(&mut args, "90"),
            CompressionPreset::Size => push_text(&mut args, "75"),
        },
    }
    push_text(&mut args, "-m");
    push_text(&mut args, "6");
    push_text(&mut args, "-mt");
    push_text(&mut args, "-af");
    push_text(&mut args, "-sharp_yuv");
    push_text(&mut args, "-alpha_q");
    match options.preset {
        CompressionPreset::Balanced => push_text(&mut args, "100"),
        CompressionPreset::Quality => push_text(&mut args, "100"),
        CompressionPreset::Size => push_text(&mut args, "90"),
    }
    if options.keep_transparent_rgb {
        push_text(&mut args, "-exact");
    }
    push_text(&mut args, "-metadata");
    if options.strip_metadata {
        push_text(&mut args, "none");
    } else {
        push_text(&mut args, "all");
    }
    assert(string_views(args@) =~= preset_args_of(*options));
    args
}


/// The full `cwebp` command line: options, source, `-o`, output.
pub fn cwebp_args(options: &CompressionOptions, source_path: &str, output_path: &str) -> (r: Vec<String>)
    ensures
        string_views(r@) == preset_args_of(*options) + seq![source_path@, "-o"@, output_path@],
{
    let mut args = preset_args(options);
    push_text(&mut args, source_path);
    push_text(&mut args, "-o");
    push_text(&mut args, output_path);
    assert(string_views(args@) =~= preset_args_of(*options) + seq![source_path@, "-o"@, output_path@]);
    args
}

/// `char::eq_ignore_ascii_case`.
pub open spec fn same_ignoring_ascii_case(a: char, b: char) -> bool {
    crate::svg::ascii_lower(a) == crate::svg::ascii_lower(b)
}

/// The extension is `png` in any ASCII case.
pub open spec fn is_png_extension(ext: Seq<char>) -> bool {
    ext.len() == 3 && same_ignoring_ascii_case(ext[0], 'p') && same_ignoring_ascii_case(ext[1], 'n')
        && same_ignoring_ascii_case(ext[2], 'g')
}

fn to_lower(c: char) -> (r: char)
    ensures
        r == crate::svg::ascii_lower(c),
{
    if 'A' <= c && c <= 'Z' {
        let b: u8 = c as u8;
        (b + 32) as char
    } else {
        c
    }
}

/// A path is a PNG path when it has an extension (valid UTF-8) that is `png`
/// in any ASCII case.
pub fn is_png_path(extension: Option<&str>) -> (r: bool)
    ensures
        r == match extension {
            Some(ext) => is_png_extension(ext@),
            None => false,
        },
{
    match extension {
        Some(ext) => {
            let v = chars_of(ext);
            v.len() == 3 && to_lower(v[0]) == 'p' && to_lower(v[1]) == 'n' && to_lower(v[2]) == 'g'
        },
        None => false,
    }
}

/// What the path of a source file shows (each `None` when the component is
/// missing or not valid UTF-8): file stem, parent directory, the parent's
/// name, and the parent's parent.
pub struct SourcePathParts {
    pub stem: Option<String>,
    pub parent: Option<String>,
    pub parent_name: Option<String>,
    pub grandparent: Option<String>,
}

/// What the path of an input folder shows: its parent and its name.
pub struct FolderPathParts {
    pub parent: Option<String>,
    pub name: Option<String>,
}

/// Where a compressed file goes: `base_dir / dir_name / file_name`.
pub struct OutputTarget {
    pub base_dir: String,
    pub dir_name: String,
    pub file_name: String,
}

/// The file extension of an output format.
pub open spec fn extension_of(format: OutputFormat) -> Seq<char> {
    match format {
        OutputFormat::Webp => "webp"@,
        OutputFormat::Png => "png"@,
        OutputFormat::Avif => "avif"@,
        OutputFormat::Jpg => "jpg"@,
    }
}

/// The file extension of an output format (see `extension_of`).
pub fn output_extension(format: OutputFormat) -> (r: &'static str)
    ensures
        r@ == extension_of(format),
{
    match format {
        OutputFormat::Webp => "webp",
        OutputFormat::Png => "png",
        OutputFormat::Avif => "avif",
        OutputFormat::Jpg => "jpg",
    }
}

/// The output location of a source file: a `{name}_compressed` directory
/// beside the input folder (or beside the source's own directory for a list
/// of files), holding `{stem}{suffix}.{extension}`.
pub open spec fn output_target_of(is_folder: bool, folder: FolderPathParts, source: SourcePathParts, suffix: Seq<char>, format: OutputFormat) -> Result<(Seq<char>, Seq<char>, Seq<char>), Seq<char>> {
    match source.stem {
        None => Err("无法解析源文件名"@),
        Some(stem) => {
            let file_name = stem@ + suffix + "."@ + extension_of(format);
            if is_folder {
                match (folder.parent, folder.name) {
                    (None, _) => Err("文件夹缺少父目录"@),
                    (Some(_), None) => Err("无法解析文件夹名"@),
                    (Some(p), Some(n)) => Ok((p@, n@ + "_compressed"@, file_name)),
                }
            } else {
                match (source.parent, source.parent_name, source.grandparent) {
                    (None, _, _) => Err("源文件缺少父目录"@),
                    (Some(_), None, _) => Err("无法解析源目录名"@),
                    (Some(_), Some(_), None) => Err("源目录缺少上级目录"@),
                    (Some(_), Some(n), Some(g)) => Ok((g@, n@ + "_compressed"@, file_name)),
                }
            }
        },
    }
}

/// The model of an output target.
pub open spec fn target_view(r: Result<OutputTarget, String>) -> Result<(Seq<char>, Seq<char>, Seq<char>), Seq<char>> {
    match r {
        Ok(t) => Ok((t.base_dir@, t.dir_name@, t.file_name@)),
        Err(e) => Err(e@),
    }
}

fn suffixed(a: &str, b: &str) -> (r: String)
    ensures
        r@ == a@ + b@,
{
    let mut v = chars_of(a);
    push_chars(&mut v, b);
    string_of(v)
}

/// Decides where a compressed file goes (see `output_target_of`).
pub fn build_output_path(input: &InputSource, folder: FolderPathParts, source: SourcePathParts, suffix: &str, format: OutputFormat) -> (r: Result<OutputTarget, String>)
    ensures
        target_view(r) == output_target_of(input is Folder, folder, source, suffix@, format),
{
    let stem = match source.stem {
        Some(stem) => stem,
        None => return Err(String::from_str("无法解析源文件名")),
    };
    let mut name = chars_of(stem.as_str());
    push_chars(&mut name, suffix);
    push_chars(&mut name, ".");
    push_chars(&mut name, output_extension(format));
    let file_name = string_of(name);
    match input {
        InputSource::Folder { .. } => {
            let parent = match folder.parent {
                Some(p) => p,
                None => return Err(String::from_str("文件夹缺少父目录")),
            };
            let folder_name = match folder.name {
                Some(n) => n,
                None => return Err(String::from_str("无法解析文件夹名")),
            };
            Ok(OutputTarget { base_dir: parent, dir_name: suffixed(folder_name.as_str(), "_compressed"), file_name })
        },
        InputSource::Files { .. } => {
            if source.parent.is_none() {
                return Err(String::from_str("源文件缺少父目录"));
            }
            let parent_name = match source.parent_name {
                Some(n) => n,
                None => return Err(String::from_str("无法解析源目录名")),
            };
            let grandparent = match source.grandparent {
                Some(g) => g,
                None => return Err(String::from_str("源目录缺少上级目录")),
            };
            Ok(OutputTarget { base_dir: grandparent, dir_name: suffixed(parent_name.as_str(), "_compressed"), file_name })
        },
    }
}

/// The file name tried at `attempt` when renaming around an existing file:
/// `{stem}_{attempt}.{ext}` for attempts 1 to 999, then
/// `{stem}_overflow.{ext}`; the stem defaults to `output`, the extension to
/// `webp`.
pub open spec fn rename_candidate_of(stem: Option<Seq<char>>, extension: Option<Seq<char>>, attempt: u32) -> Seq<char> {
    let s = match stem { Some(s) => s, None => "output"@ };
    let e = match extension { Some(e) => e, None => "webp"@ };
    if 1 <= attempt <= 999 {
        s + "_"@ + crate::text::decimal(attempt as nat) + "."@ + e
    } else {
        s + "_overflow."@ + e
    }
}

/// The file name tried at `attempt` (see `rename_candidate_of`).
pub fn rename_candidate(stem: Option<&str>, extension: Option<&str>, attempt: u32) -> (r: String)
    ensures
        r@ == rename_candidate_of(
            match stem { Some(s) => Some(s@), None => None },
            match extension { Some(e) => Some(e@), None => None },
            attempt,
        ),
{
    let s: &str = match stem { Some(s) => s, None => "output" };
    let e: &str = match extension { Some(e) => e, None => "webp" };
    let mut v = chars_of(s);
    if 1 <= attempt && attempt <= 999 {
        push_chars(&mut v, "_");
        push_decimal(&mut v, attempt as u64);
        push_chars(&mut v, ".");
    } else {
        push_chars(&mut v, "_overflow.");
    }
    push_chars(&mut v, e);
    string_of(v)
}

/// The attempt chosen when the candidates `1..` were probed in order and
/// `taken[i]` tells whether attempt `i + 1` is already on disk: the first
/// free one among the first 999, else the overflow attempt 1000.
pub open spec fn chosen_attempt(taken: Seq<bool>, i: int) -> u32
    decreases 999 - i,
{
    if i < 0 || i >= 999 || i >= taken.len() {
        1000
    } else if !taken[i] {
        (i + 1) as u32
    } else {
        chosen_attempt(taken, i + 1)
    }
}

/// Picks the free name beside an existing output file from what probing the
/// candidates in order found (see `chosen_attempt`).
pub fn uniquify_output_path(stem: Option<&str>, extension: Option<&str>, taken: &Vec<bool>) -> (r: String)
    ensures
        r@ == rename_candidate_of(
            match stem { Some(s) => Some(s@), None => None },
            match extension { Some(e) => Some(e@), None => None },
            chosen_attempt(taken@, 0),
        ),
        1 <= chosen_attempt(taken@, 0) <= 999 ==> !taken@[chosen_attempt(taken@, 0) - 1],
        forall|i: int| 0 <= i < chosen_attempt(taken@, 0) - 1 && i < taken@.len() ==> #[trigger] taken@[i],
{
    let mut i: usize = 0;
    let mut attempt: u32 = 1000;
    while attempt == 1000 && i < taken.len() && i < 999
        invariant
            i <= 999,
            i <= taken@.len(),
            forall|j: int| 0 <= j < i ==> #[trigger] taken@[j],
            attempt == 1000 ==> chosen_attempt(taken@, 0) == chosen_attempt(taken@, i as int),
            attempt != 1000 ==> attempt == chosen_attempt(taken@, 0) && attempt == i + 1
                && i < taken@.len() && !taken@[i as int],
        decreases 999 - i + (if attempt == 1000 { 1int } else { 0int }),
    {
        if !taken[i] {
            attempt = (i + 1) as u32;
        } else {
            i = i + 1;
        }
    }
    rename_candidate(stem, extension, attempt)
}

/// What to do about the output file before compressing.
#[derive(Debug, Clone, Copy, PartialEq, Eq, Structural)]
pub enum ConflictAction {
    /// Write to the output path as it is.
    Proceed,
    /// Delete the existing file first, and report the item as a replacement.
    RemoveExisting,
    /// Do not compress; report the item as skipped.
    SkipItem,
    /// Look for a free name beside the output path.
    FindFreeName,
}

/// The conflict rule: replace an existing file, skip when it exists, or
/// always look for a free name when renaming.
pub open spec fn conflict_action_of(policy: ConflictPolicy, output_exists: bool) -> ConflictAction {
    match policy {
        ConflictPolicy::Replace => if output_exists { ConflictAction::RemoveExisting } else { ConflictAction::Proceed },
        ConflictPolicy::Skip => if output_exists { ConflictAction::SkipItem } else { ConflictAction::Proceed },
        ConflictPolicy::Rename => ConflictAction::FindFreeName,
    }
}

/// Decides what to do about the output file (see `conflict_action_of`).
pub fn conflict_action(policy: ConflictPolicy, output_exists: bool) -> (r: ConflictAction)
    ensures
        r == conflict_action_of(policy, output_exists),
{
    match policy {
        ConflictPolicy::Replace => if output_exists { ConflictAction::RemoveExisting } else { ConflictAction::Proceed },
        ConflictPolicy::Skip => if output_exists { ConflictAction::SkipItem } else { ConflictAction::Proceed },
        ConflictPolicy::Rename => ConflictAction::FindFreeName,
    }
}

/// An existing output file is only ever deleted under the Replace policy;
/// it is never written over in place; renaming always looks for a free name,
/// whether or not the output exists; skipping only happens to an existing
/// output under the Skip policy.
pub proof fn law_existing_outputs_are_kept(policy: ConflictPolicy, output_exists: bool)
    ensures
        conflict_action_of(policy, output_exists) == ConflictAction::RemoveExisting
            ==> policy == ConflictPolicy::Replace && output_exists,
        output_exists ==> conflict_action_of(policy, output_exists) != ConflictAction::Proceed,
        policy == ConflictPolicy::Rename ==> conflict_action_of(policy, output_exists) == ConflictAction::FindFreeName,
        conflict_action_of(policy, output_exists) == ConflictAction::SkipItem
            ==> policy == ConflictPolicy::Skip && output_exists,
        !output_exists && policy != ConflictPolicy::Rename ==> conflict_action_of(policy, output_exists) == ConflictAction::Proceed,
{
}

/// The marker error of an item that replaced an existing file.
pub open spec fn replaced_marker() -> Seq<char> {
    "__replaced__"@
}

/// The result of an item skipped because its output already exists.
pub fn skipped_existing_result(source_path: String, output_path: String, source_bytes: u64, duration_ms: u128) -> (r: CompressItemResult)
    ensures
        r.source_path == source_path,
        r.output_path == output_path,
        r.source_bytes == source_bytes,
        r.output_bytes is None,
        r.duration_ms == duration_ms,
        r.status == ItemStatus::Skipped,
        r.error matches Some(e) && e@ == "输出文件已存在"@,
{
    CompressItemResult {
        source_path,
        output_path,
        source_bytes,
        output_bytes: None,
        duration_ms,
        status: ItemStatus::Skipped,
        error: Some(String::from_str("输出文件已存在")),
    }
}

/// The result of an item whose encoder failed: the trimmed error output, or
/// `{encoder} 返回失败状态` when it is empty.
pub fn failed_result(source_path: String, output_path: String, source_bytes: u64, duration_ms: u128, encoder: &str, stderr: &str) -> (r: CompressItemResult)
    ensures
        r.source_path == source_path,
        r.output_path == output_path,
        r.source_bytes == source_bytes,
        r.output_bytes is None,
        r.duration_ms == duration_ms,
        r.status == ItemStatus::Failed,
        r.error matches Some(e) && e@ == (if crate::text::trim(stderr@).len() == 0 { encoder@ + " 返回失败状态"@ } else { crate::text::trim(stderr@) }),
{
    let trimmed = crate::text::trimmed_chars(stderr);
    let error = if trimmed.len() == 0 { suffixed(encoder, " 返回失败状态") } else { string_of(trimmed) };
    CompressItemResult {
        source_path,
        output_path,
        source_bytes,
        output_bytes: None,
        duration_ms,
        status: ItemStatus::Failed,
        error: Some(error),
    }
}

/// The result of a compressed item; a replacement carries the marker error.
pub fn succeeded_result(source_path: String, output_path: String, source_bytes: u64, output_bytes: u64, duration_ms: u128, replaced_existing: bool) -> (r: CompressItemResult)
    ensures
        r.source_path == source_path,
        r.output_path == output_path,
        r.source_bytes == source_bytes,
        r.output_bytes == Some(output_bytes),
        r.duration_ms == duration_ms,
        r.status == ItemStatus::Succeeded,
        replaced_existing ==> (r.error matches Some(e) && e@ == replaced_marker()),
        !replaced_existing ==> r.error is None,
{
    CompressItemResult {
        source_path,
        output_path,
        source_bytes,
        output_bytes: Some(output_bytes),
        duration_ms,
        status: ItemStatus::Succeeded,
        error: if replaced_existing { Some(String::from_str("__replaced__")) } else { None },
    }
}

/// Whether a finished output is dropped: the job skips outputs larger than
/// their source and this one is.
pub open spec fn drops_larger_output(options: CompressionOptions, source_bytes: u64, output_bytes: u64) -> bool {
    options.skip_larger && output_bytes > source_bytes
}

/// The result of an encoded item. An output that the job drops as larger
/// than its source makes the item skipped, with no output size and the
/// message `输出比原图更大，已跳过`; otherwise the item succeeded (see
/// `succeeded_result`).
pub fn finished_result(options: &CompressionOptions, source_path: String, output_path: String, source_bytes: u64, output_bytes: u64, duration_ms: u128, replaced_existing: bool) -> (r: CompressItemResult)
    ensures
        r.source_path == source_path,
        r.output_path == output_path,
        r.source_bytes == source_bytes,
        r.duration_ms == duration_ms,
        drops_larger_output(*options, source_bytes, output_bytes) ==> {
            &&& r.status == ItemStatus::Skipped
            &&& r.output_bytes is None
            &&& r.error matches Some(e) && e@ == "输出比原图更大，已跳过"@
        },
        !drops_larger_output(*options, source_bytes, output_bytes) ==> {
            &&& r.status == ItemStatus::Succeeded
            &&& r.output_bytes == Some(output_bytes)
            &&& replaced_existing ==> (r.error matches Some(e) && e@ == replaced_marker())
            &&& !replaced_existing ==> r.error is None
        },
{
    if options.skip_larger && output_bytes > source_bytes {
        CompressItemResult {
            source_path,
            output_path,
            source_bytes,
            output_bytes: None,
            duration_ms,
            status: ItemStatus::Skipped,
            error: Some(String::from_str("输出比原图更大，已跳过")),
        }
    } else {
        succeeded_result(source_path, output_path, source_bytes, output_bytes, duration_ms, replaced_existing)
    }
}

/// The result of an item that a cancelled job did not start.
pub fn build_cancelled_result(source_path: String, source_bytes: u64) -> (r: CompressItemResult)
    ensures
        r.source_path == source_path,
        r.output_path@ == Seq::<char>::empty(),
        r.source_bytes == source_bytes,
        r.output_bytes is None,
        r.duration_ms == 0,
        r.status == ItemStatus::Skipped,
        r.error matches Some(e) && e@ == "任务已取消"@,
{
    CompressItemResult {
        source_path,
        output_path: String::new(),
        source_bytes,
        output_bytes: None,
        duration_ms: 0,
        status: ItemStatus::Skipped,
        error: Some(String::from_str("任务已取消")),
    }
}


/// What was learnt about one path of a job's input, in the order the checks
/// are made: the extension, the file's metadata, reading the file, then its
/// PNG structure.
pub enum ScanObservation {
    /// The path does not end in `.png`.
    NotPng,
    /// The metadata could not be read; the I/O error's text.
    MetadataError { error: String },
    /// The file could not be opened; the I/O error's text.
    OpenFailed { error: String },
    /// The file could not be read; the I/O error's text.
    ReadFailed { error: String },
    /// The file's size and what inspecting its bytes gave.
    Inspected { bytes: u64, inspection: Result<crate::png::PngInspection, crate::png::PngError> },
}

/// One path of a job's input and what was learnt about it.
pub struct ScanEntry {
    pub path: String,
    pub observation: ScanObservation,
}

/// The candidates (path, bytes), the skipped items (path, reason) and the
/// count of non-PNG paths of a scan.
pub struct ScanTally {
    pub candidates: Seq<(Seq<char>, u64)>,
    pub skipped: Seq<(Seq<char>, Seq<char>)>,
    pub ignored: nat,
}

/// How one entry changes a scan tally.
pub open spec fn scan_step(t: ScanTally, e: ScanEntry) -> ScanTally {
    match e.observation {
        ScanObservation::NotPng => ScanTally {
            ignored: t.ignored + 1,
            skipped: t.skipped.push((e.path@, "不是 PNG 文件"@)),
            ..t
        },
        ScanObservation::MetadataError { error } => ScanTally {
            skipped: t.skipped.push((e.path@, "读取文件信息失败: "@ + error@)),
            ..t
        },
        ScanObservation::OpenFailed { error } => ScanTally {
            skipped: t.skipped.push((e.path@, "打开文件失败: "@ + error@)),
            ..t
        },
        ScanObservation::ReadFailed { error } => ScanTally {
            skipped: t.skipped.push((e.path@, "读取文件失败: "@ + error@)),
            ..t
        },
        ScanObservation::Inspected { bytes, inspection } => match inspection {
            Ok(i) => if i.is_apng {
                ScanTally { skipped: t.skipped.push((e.path@, "APNG 暂不支持"@)), ..t }
            } else {
                ScanTally { candidates: t.candidates.push((e.path@, bytes)), ..t }
            },
            Err(err) => ScanTally {
                skipped: t.skipped.push((e.path@, crate::png::png_error_text(err))),
                ..t
            },
        },
    }
}

/// The tally of the first `k` entries.
pub open spec fn scan_tally(entries: Seq<ScanEntry>, k: int) -> ScanTally
    decreases k,
{
    if k <= 0 {
        ScanTally { candidates: Seq::empty(), skipped: Seq::empty(), ignored: 0 }
    } else {
        scan_step(scan_tally(entries, k - 1), entries[k - 1])
    }
}

/// The total size of the first `k` candidates.
pub open spec fn candidate_bytes(c: Seq<(Seq<char>, u64)>, k: int) -> int
    decreases k,
{
    if k <= 0 {
        0
    } else {
        candidate_bytes(c, k - 1) + c[k - 1].1
    }
}

/// The model of a scan result: candidates, skipped items, counts and total.
pub open spec fn scan_result_view(r: ScanResult) -> (Seq<(Seq<char>, u64)>, Seq<(Seq<char>, Seq<char>)>, nat, nat, nat) {
    (
        r.candidates@.map_values(|c: ScanCandidate| (c.path@, c.bytes)),
        r.skipped@.map_values(|s: SkippedItem| (s.path@, s.reason@)),
        r.supported_count as nat,
        r.ignored_count as nat,
        r.total_bytes as nat,
    )
}

proof fn lemma_candidate_bytes_monotone(c: Seq<(Seq<char>, u64)>, i: int, j: int)
    requires
        0 <= i <= j,
    ensures
        0 <= candidate_bytes(c, i) <= candidate_bytes(c, j),
    decreases j,
{
    if i < j {
        lemma_candidate_bytes_monotone(c, i, j - 1);
    } else if i > 0 {
        lemma_candidate_bytes_monotone(c, i - 1, i - 1);
    }
}

/// Sorts the paths of a job's input into PNG candidates and skipped items
/// (with their reasons), counts the non-PNG paths and sums the candidates'
/// sizes.
pub fn scan_inputs(entries: Vec<ScanEntry>) -> (r: ScanResult)
    requires
        candidate_bytes(scan_tally(entries@, entries@.len() as int).candidates, scan_tally(entries@, entries@.len() as int).candidates.len() as int) <= u64::MAX,
    ensures
        ({
            let t = scan_tally(entries@, entries@.len() as int);
            scan_result_view(r) == (t.candidates, t.skipped, t.candidates.len(), t.ignored, candidate_bytes(t.candidates, t.candidates.len() as int) as nat)
        }),
{
    let ghost all = entries@;
    let n = entries.len();
    let mut candidates: Vec<ScanCandidate> = Vec::new();
    let mut skipped: Vec<SkippedItem> = Vec::new();
    let mut ignored_count: usize = 0;
    let mut rest = entries;
    let mut i: usize = 0;
    let mut k: usize = n;
    let mut queue: Vec<ScanEntry> = Vec::new();
    while k > 0
        invariant
            k <= n == all.len(),
            rest@ == all.take(k as int),
            queue@ == all.skip(k as int).reverse(),
        decreases k,
    {
        let e = rest.pop().unwrap();
        queue.push(e);
        k = k - 1;
        assert(rest@ =~= all.take(k as int));
        assert(queue@ =~= all.skip(k as int).reverse());
    }
    while i < n
        invariant
            i <= n == all.len(),
            queue@ == all.skip(i as int).reverse(),
            candidates@.map_values(|c: ScanCandidate| (c.path@, c.bytes)) == scan_tally(all, i as int).candidates,
            skipped@.map_values(|s: SkippedItem| (s.path@, s.reason@)) == scan_tally(all, i as int).skipped,
            ignored_count == scan_tally(all, i as int).ignored,
            ignored_count <= i,
        decreases n - i,
    {
        assert(queue@.len() > 0);
        let e = queue.pop().unwrap();
        assert(e == all[i as int]);
        let ghost before_c = candidates@;
        let ghost before_s = skipped@;
        match e.observation {
            ScanObservation::NotPng => {
                ignored_count = ignored_count + 1;
                skipped.push(SkippedItem { path: e.path, reason: String::from_str("不是 PNG 文件") });
            },
            ScanObservation::MetadataError { error } => {
                let mut reason = chars_of("读取文件信息失败: ");
                push_chars(&mut reason, error.as_str());
                skipped.push(SkippedItem { path: e.path, reason: string_of(reason) });
            },
            ScanObservation::OpenFailed { error } => {
                let mut reason = chars_of("打开文件失败: ");
                push_chars(&mut reason, error.as_str());
                skipped.push(SkippedItem { path: e.path, reason: string_of(reason) });
            },
            ScanObservation::ReadFailed { error } => {
                let mut reason = chars_of("读取文件失败: ");
                push_chars(&mut reason, error.as_str());
                skipped.push(SkippedItem { path: e.path, reason: string_of(reason) });
            },
            ScanObservation::Inspected { bytes, inspection } => match inspection {
                Ok(inspection) => if inspection.is_apng {
                    skipped.push(SkippedItem { path: e.path, reason: String::from_str("APNG 暂不支持") });
                } else {
                    candidates.push(ScanCandidate { path: e.path, bytes });
                },
                Err(error) => {
                    skipped.push(SkippedItem { path: e.path, reason: error.message() });
                },
            },
        }
        i = i + 1;
        assert(queue@ =~= all.skip(i as int).reverse());
        assert(candidates@.map_values(|c: ScanCandidate| (c.path@, c.bytes)) =~= scan_tally(all, i as int).candidates);
        assert(skipped@.map_values(|s: SkippedItem| (s.path@, s.reason@)) =~= scan_tally(all, i as int).skipped);
    }
    let ghost cs = scan_tally(all, n as int).candidates;
    let mut total_bytes: u64 = 0;
    let mut j: usize = 0;
    while j < candidates.len()
        invariant
            j <= candidates@.len() == cs.len(),
            candidates@.map_values(|c: ScanCandidate| (c.path@, c.bytes)) == cs,
            candidate_bytes(cs, cs.len() as int) <= u64::MAX,
            total_bytes == candidate_bytes(cs, j as int),
        decreases candidates@.len() - j,
    {
        proof {
            lemma_candidate_bytes_monotone(cs, j as int + 1, cs.len() as int);
            assert(cs[j as int].1 == candidates@[j as int].bytes);
        }
        total_bytes = total_bytes + candidates[j].bytes;
        j = j + 1;
    }
    let supported_count = candidates.len();
    ScanResult { candidates, skipped, supported_count, ignored_count, total_bytes }
}


/// The quality argument of a job: the explicit one clamped to 1..=100, else
/// the preset's.
pub open spec fn quality_arg_of(options: CompressionOptions) -> Seq<char> {
    match options.quality {
        Some(q) => crate::text::decimal(clamp_quality(q) as nat),
        None => preset_quality(options.preset),
    }
}

/// The `avifenc` command line of a job: colour quality, alpha quality,
/// speed 6, all threads, the metadata to drop, then source and output.
pub open spec fn avifenc_args_of(options: CompressionOptions, source_path: Seq<char>, output_path: Seq<char>) -> Seq<Seq<char>> {
    let base = seq!["-q"@, quality_arg_of(options), "--qalpha"@, preset_alpha_quality(options.preset),
        "-s"@, "6"@, "-j"@, "all"@];
    let strip = if options.strip_metadata { seq!["--ignore-exif"@, "--ignore-xmp"@] } else { Seq::empty() };
    base + strip + seq![source_path, output_path]
}

/// The `avifenc` command line of a job (see `avifenc_args_of`).
pub fn avifenc_args(options: &CompressionOptions, source_path: &str, output_path: &str) -> (r: Vec<String>)
    ensures
        string_views(r@) == avifenc_args_of(*options, source_path@, output_path@),
{
    let mut args: Vec<String> = Vec::new();
    push_text(&mut args, "-q");
    match options.quality {
        Some(quality) => {
            let q: u8 = if quality < 1 { 1 } else if quality > 100 { 100 } else { quality };
            push_string(&mut args, crate::text::decimal_string(q as u64));
        },
        None => match options.preset {
            CompressionPreset::Balanced => push_text(&mut args, "82"),
            CompressionPreset::Quality => push_text(&mut args, "90"),
            CompressionPreset::Size => push_text(&mut args, "75"),
        },
    }
    push_text(&mut args, "--qalpha");
    match options.preset {
        CompressionPreset::Balanced => push_text(&mut args, "100"),
        CompressionPreset::Quality => push_text(&mut args, "100"),
        CompressionPreset::Size => push_text(&mut args, "90"),
    }
    push_text(&mut args, "-s");
    push_text(&mut args, "6");
    push_text(&mut args, "-j");
    push_text(&mut args, "all");
    if options.strip_metadata {
        push_text(&mut args, "--ignore-exif");
        push_text(&mut args, "--ignore-xmp");
    }
    push_text(&mut args, source_path);
    push_text(&mut args, output_path);
    assert(string_views(args@) =~= avifenc_args_of(*options, source_path@, output_path@));
    args
}

/// How one file is encoded: by running an encoder binary shipped beside the
/// application, or in this process.
pub enum EncoderStep {
    /// Run `program` with `args`; `name` is the encoder's name in messages.
    Sidecar { name: String, program: String, args: Vec<String> },
    /// Decode the PNG and encode it here (see `encode_in_process`).
    InProcess,
}

/// The encoder of each format: WebP through `cwebp`, AVIF through `avifenc`,
/// PNG and JPG in process.
pub fn encoder_step(options: &CompressionOptions, source_path: &str, output_path: &str) -> (r: EncoderStep)
    ensures
        options.output_format == OutputFormat::Webp ==> (r matches EncoderStep::Sidecar { name, program, args }
            && name@ == "cwebp"@ && program@ == "binaries/cwebp"@
            && string_views(args@) == preset_args_of(*options) + seq![source_path@, "-o"@, output_path@]),
        options.output_format == OutputFormat::Avif ==> (r matches EncoderStep::Sidecar { name, program, args }
            && name@ == "avifenc"@ && program@ == "binaries/avifenc"@
            && string_views(args@) == avifenc_args_of(*options, source_path@, output_path@)),
        (options.output_format == OutputFormat::Png || options.output_format == OutputFormat::Jpg) ==> r is InProcess,
{
    match options.output_format {
        OutputFormat::Webp => EncoderStep::Sidecar {
            name: String::from_str("cwebp"),
            program: String::from_str("binaries/cwebp"),
            args: cwebp_args(options, source_path, output_path),
        },
        OutputFormat::Avif => EncoderStep::Sidecar {
            name: String::from_str("avifenc"),
            program: String::from_str("binaries/avifenc"),
            args: avifenc_args(options, source_path, output_path),
        },
        OutputFormat::Png => EncoderStep::InProcess,
        OutputFormat::Jpg => EncoderStep::InProcess,
    }
}

/// The JPEG quality of a job: the explicit one clamped to 1..=100, else the
/// preset's (82, 90 or 75).
pub open spec fn jpeg_quality_of(options: CompressionOptions) -> u8 {
    match options.quality {
        Some(q) => clamp_quality(q),
        None => match options.preset {
            CompressionPreset::Balanced => 82,
            CompressionPreset::Quality => 90,
            CompressionPreset::Size => 75,
        },
    }
}

/// Re-encodes a PNG file as PNG or JPG. Bytes that do not decode give the
/// decoding error; an image with an edge of 0 (or, for JPG, above 65535) is
/// refused by the encoder; every other image is encoded.
pub fn encode_in_process(options: &CompressionOptions, source: &[u8]) -> (r: Result<Vec<u8>, String>)
    requires
        options.output_format == OutputFormat::Png || options.output_format == OutputFormat::Jpg,
    ensures
        crate::raster::png_decoding(source@) is None ==> (r matches Err(e) && e@.take(11) == "解码 PNG 失败: "@),
        crate::raster::png_decoding(source@) matches Some((w, h, d)) ==> {
            &&& (w == 0 || h == 0) ==> r is Err
            &&& (options.output_format == OutputFormat::Png && w >= 1 && h >= 1) ==>
                (r matches Ok(b) && b@ == crate::raster::png_encoding(w, h, d))
            &&& (options.output_format == OutputFormat::Jpg && 1 <= w <= 65535 && 1 <= h <= 65535) ==>
                (r matches Ok(b) && b@ == crate::raster::jpeg_encoding(w, h, d, jpeg_quality_of(*options)))
            &&& (options.output_format == OutputFormat::Jpg && (w > 65535 || h > 65535)) ==> r is Err
        },
{
    let (width, height, pixels) = match crate::raster::png_rgba_from_bytes(source, "解码 PNG 失败: ") {
        Ok(decoded) => decoded,
        Err(e) => {
            proof {
                reveal_strlit("解码 PNG 失败: ");
            }
            return Err(e);
        },
    };
    let n: usize = pixels.len();
    proof {
        assert(n == pixels@.len());
        if width >= 1 && height >= 1 {
            assert(4 * (width as int) <= 4 * (width as int * height as int)) by (nonlinear_arith)
                requires
                    height >= 1,
            ;
        }
    }
    match options.output_format {
        OutputFormat::Png => crate::raster::png_bytes_from_rgba(width, height, pixels),
        _ => {
            let quality: u8 = match options.quality {
                Some(q) => if q < 1 { 1 } else if q > 100 { 100 } else { q },
                None => match options.preset {
                    CompressionPreset::Balanced => 82,
                    CompressionPreset::Quality => 90,
                    CompressionPreset::Size => 75,
                },
            };
            crate::raster::jpeg_bytes_from_rgba(width, height, pixels, quality)
        },
    }
}

/// The second check of a job: its scan found at least one PNG.
pub fn check_candidates(supported_count: usize) -> (r: Result<(), String>)
    ensures
        supported_count > 0 <==> r is Ok,
        r matches Err(e) ==> e@ == "没有可处理的 PNG 文件。"@,
{
    if supported_count == 0 {
        return Err(String::from_str("没有可处理的 PNG 文件。"));
    }
    Ok(())
}

/// The state reported after an item: cancelling once the job was cancelled.
pub fn running_state(cancelled: bool) -> (r: ProgressState)
    ensures
        r == (if cancelled { ProgressState::Cancelling } else { ProgressState::Running }),
{
    if cancelled { ProgressState::Cancelling } else { ProgressState::Running }
}

/// A progress event, labelled after its state.
pub fn emit_progress(job_id: &str, current_file: Option<String>, completed: usize, total: usize, saved_bytes: u64, state: ProgressState) -> (r: CompressProgressEvent)
    ensures
        r.job_id@ == job_id@,
        r.current_file == current_file,
        r.completed == completed,
        r.total == total,
        r.saved_bytes == saved_bytes,
        r.state == state,
        r.state_label@ == state_label(state),
{
    CompressProgressEvent {
        job_id: String::from_str(job_id),
        current_file,
        completed,
        total,
        saved_bytes,
        state,
        state_label: state.label(),
    }
}

/// Strictly increasing in `seq_lt` order (so without duplicates).
pub open spec fn strictly_sorted(v: Seq<Seq<char>>) -> bool {
    forall|i: int, j: int| 0 <= i < j < v.len() ==> crate::text::seq_lt(v[i], v[j])
}

/// The bytes that a succeeded item saved.
pub open spec fn item_saving(item: CompressItemResult) -> int {
    match (item.status, item.output_bytes) {
        (ItemStatus::Succeeded, Some(out)) => if out < item.source_bytes { item.source_bytes - out } else { 0 },
        _ => 0,
    }
}

/// The item replaced an existing output file.
pub open spec fn item_replaced(item: CompressItemResult) -> bool {
    item.error matches Some(e) && e@ == replaced_marker()
}

/// The running totals of a job, kept as its items come back.
/// The total saving of a list of items.
pub open spec fn saving_sum(items: Seq<CompressItemResult>) -> int
    decreases items.len(),
{
    if items.len() == 0 {
        0
    } else {
        saving_sum(items.drop_last()) + item_saving(items.last())
    }
}

/// `root` is a directory of `path`: a strict prefix of it, as the parent of a
/// path is.
pub open spec fn is_strict_prefix(root: Seq<char>, path: Seq<char>) -> bool {
    root.len() < path.len() && path.take(root.len() as int) == root
}

/// The directories recorded beside a list of items.
pub open spec fn root_set(item_roots: Seq<Option<Seq<char>>>) -> Set<Seq<char>> {
    Set::new(|r: Seq<char>| exists|i: int| 0 <= i < item_roots.len() && #[trigger] item_roots[i] == Some(r))
}

/// What recording `item` (with the directory `root` of its output) does to
/// a tally: one more completed item, its saving added, its status and
/// replacement counted, its directory added, the item appended.
pub open spec fn tally_step(before: JobTally, after: JobTally, item: CompressItemResult, root: Option<Seq<char>>) -> bool {
    &&& after.completed_spec() == before.completed_spec() + 1
    &&& after.saved_spec() == before.saved_spec() + item_saving(item)
    &&& after.counts() == ({
        let (s, f, k, r) = before.counts();
        (
            if item.status == ItemStatus::Succeeded { s + 1 } else { s },
            if item.status == ItemStatus::Failed { f + 1 } else { f },
            if item.status == ItemStatus::Skipped { k + 1 } else { k },
            if item_replaced(item) { r + 1 } else { r },
        )
    })
    &&& after.roots() == (match root {
        Some(r) => before.roots().insert(r),
        None => before.roots(),
    })
    &&& after.items_spec() == before.items_spec().push(item)
    &&& after.item_roots_spec() == before.item_roots_spec().push(root)
}

pub struct JobTally {
    completed: usize,
    saved_bytes: u64,
    succeeded: usize,
    failed: usize,
    skipped: usize,
    replaced: usize,
    output_roots: Vec<String>,
    items: Vec<CompressItemResult>,
    item_roots: Ghost<Seq<Option<Seq<char>>>>,
}

impl JobTally {
    /// The totals agree: every completed item has one status, replacements
    /// are among the completed items, output directories are sorted and
    /// listed once.
    pub closed spec fn wf(&self) -> bool {
        &&& self.succeeded + self.failed + self.skipped == self.completed
        &&& self.replaced <= self.completed
        &&& self.items@.len() == self.completed
        &&& strictly_sorted(string_views(self.output_roots@))
        &&& self.item_roots@.len() == self.items@.len()
        &&& forall|i: int| 0 <= i < self.items@.len() ==> (#[trigger] self.item_roots@[i] matches Some(r)
            ==> is_strict_prefix(r, self.items@[i].output_path@))
        &&& string_views(self.output_roots@).to_set() == root_set(self.item_roots@)
        &&& self.saved_bytes == saving_sum(self.items@)
    }

    /// The output directory recorded with each item, in order.
    pub closed spec fn item_roots_spec(&self) -> Seq<Option<Seq<char>>> {
        self.item_roots@
    }

    pub closed spec fn completed_spec(&self) -> nat {
        self.completed as nat
    }

    pub closed spec fn saved_spec(&self) -> nat {
        self.saved_bytes as nat
    }

    pub closed spec fn counts(&self) -> (nat, nat, nat, nat) {
        (self.succeeded as nat, self.failed as nat, self.skipped as nat, self.replaced as nat)
    }

    pub closed spec fn roots(&self) -> Set<Seq<char>> {
        string_views(self.output_roots@).to_set()
    }

    pub closed spec fn items_spec(&self) -> Seq<CompressItemResult> {
        self.items@
    }

    /// An empty tally.
    pub fn new() -> (r: JobTally)
        ensures
            r.wf(),
            r.completed_spec() == 0,
            r.saved_spec() == 0,
            r.counts() == (0nat, 0nat, 0nat, 0nat),
            r.roots() == Set::<Seq<char>>::empty(),
            r.items_spec() == Seq::<CompressItemResult>::empty(),
            r.item_roots_spec() == Seq::<Option<Seq<char>>>::empty(),
    {
        let r = JobTally {
            completed: 0,
            saved_bytes: 0,
            succeeded: 0,
            failed: 0,
            skipped: 0,
            replaced: 0,
            output_roots: Vec::new(),
            items: Vec::new(),
            item_roots: Ghost(Seq::empty()),
        };
        assert(string_views(r.output_roots@).to_set() =~= Set::<Seq<char>>::empty());
        assert(root_set(Seq::<Option<Seq<char>>>::empty()) =~= Set::<Seq<char>>::empty());
        r
    }

    /// The number of items recorded so far.
    pub fn completed(&self) -> (r: usize)
        ensures
            r == self.completed_spec(),
    {
        self.completed
    }

    /// The bytes saved so far.
    pub fn saved_bytes(&self) -> (r: u64)
        ensures
            r == self.saved_spec(),
    {
        self.saved_bytes
    }

    /// Whether one more item fits the counters: the completed count and the
    /// saved bytes stay within their integer types.
    pub fn can_record(&self, item: &CompressItemResult) -> (r: bool)
        requires
            self.wf(),
        ensures
            r == (self.completed_spec() < usize::MAX && self.saved_spec() + item_saving(*item) <= u64::MAX),
    {
        let saving: u64 = match (item.status, item.output_bytes) {
            (ItemStatus::Succeeded, Some(out)) => item.source_bytes.saturating_sub(out),
            _ => 0,
        };
        self.completed < usize::MAX && self.saved_bytes <= u64::MAX - saving
    }

    /// Records an item: its status is counted, its saving (source minus
    /// output, not below zero) added when it succeeded, a replacement
    /// counted, and the directory of its output (if it has one, a strict
    /// prefix of its output path as a parent directory is) added to the
    /// output directories.
    pub fn record(&mut self, item: CompressItemResult, output_root: Option<String>)
        requires
            old(self).wf(),
            old(self).completed_spec() < usize::MAX,
            old(self).saved_spec() + item_saving(item) <= u64::MAX,
            output_root matches Some(root) ==> is_strict_prefix(root@, item.output_path@),
        ensures
            final(self).wf(),
            tally_step(*old(self), *final(self), item, match output_root {
                Some(root) => Some(root@),
                None => None,
            }),
    {
        let ghost old_items = self.items@;
        let ghost old_roots = self.item_roots@;
        let ghost entry: Option<Seq<char>> = match &output_root { Some(root) => Some(root@), None => None };
        self.completed = self.completed + 1;
        match item.status {
            ItemStatus::Succeeded => {
                self.succeeded = self.succeeded + 1;
                if let Some(output_bytes) = item.output_bytes {
                    self.saved_bytes = self.saved_bytes + item.source_bytes.saturating_sub(output_bytes);
                }
            },
            ItemStatus::Failed => {
                self.failed = self.failed + 1;
            },
            ItemStatus::Skipped => {
                self.skipped = self.skipped + 1;
            },
        }
        let is_replaced = match &item.error {
            Some(e) => crate::text::str_equal(e.as_str(), "__replaced__"),
            None => false,
        };
        if is_replaced {
            self.replaced = self.replaced + 1;
        }
        if let Some(root) = output_root {
            insert_sorted(&mut self.output_roots, root);
        }
        self.items.push(item);
        proof {
            self.item_roots@ = old_roots.push(entry);
            assert(self.items@.drop_last() =~= old_items);
            let nr = old_roots.push(entry);
            assert(nr.drop_last() =~= old_roots);
            match entry {
                Some(r) => {
                    assert(nr[old_roots.len() as int] == Some(r));
                    assert(root_set(nr) =~= root_set(old_roots).insert(r)) by {
                        assert forall|x: Seq<char>| root_set(nr).contains(x) implies root_set(old_roots).insert(r).contains(x) by {
                            let i = choose|i: int| 0 <= i < nr.len() && #[trigger] nr[i] == Some(x);
                            if i < old_roots.len() {
                                assert(old_roots[i] == Some(x));
                            }
                        }
                        assert forall|x: Seq<char>| root_set(old_roots).contains(x) implies root_set(nr).contains(x) by {
                            let i = choose|i: int| 0 <= i < old_roots.len() && #[trigger] old_roots[i] == Some(x);
                            assert(nr[i] == Some(x));
                        }
                    }
                },
                None => {
                    assert(root_set(nr) =~= root_set(old_roots)) by {
                        assert forall|x: Seq<char>| root_set(nr).contains(x) implies root_set(old_roots).contains(x) by {
                            let i = choose|i: int| 0 <= i < nr.len() && #[trigger] nr[i] == Some(x);
                            if i < old_roots.len() {
                                assert(old_roots[i] == Some(x));
                            }
                        }
                        assert forall|x: Seq<char>| root_set(old_roots).contains(x) implies root_set(nr).contains(x) by {
                            let i = choose|i: int| 0 <= i < old_roots.len() && #[trigger] old_roots[i] == Some(x);
                            assert(nr[i] == Some(x));
                        }
                    }
                },
            }
        }
    }

    /// The first event of a job: queued, with nothing completed or saved.
    pub fn queued_event(job_id: &str, total: usize) -> (e: CompressProgressEvent)
        ensures
            e.job_id@ == job_id@,
            e.current_file is None,
            e.completed == 0,
            e.total == total,
            e.saved_bytes == 0,
            e.state == ProgressState::Queued,
            e.state_label@ == state_label(ProgressState::Queued),
    {
        emit_progress(job_id, None, 0, total, 0, ProgressState::Queued)
    }

    /// Records a finished item (see `record`) and gives the event reported
    /// after it: the item's source as the current file, the new completed
    /// count and saved bytes, and running or cancelling as the job was
    /// cancelled.
    pub fn record_and_report(&mut self, item: CompressItemResult, output_root: Option<String>, job_id: &str, total: usize, cancelled: bool) -> (e: CompressProgressEvent)
        requires
            old(self).wf(),
            old(self).completed_spec() < usize::MAX,
            old(self).saved_spec() + item_saving(item) <= u64::MAX,
            output_root matches Some(root) ==> is_strict_prefix(root@, item.output_path@),
        ensures
            final(self).wf(),
            tally_step(*old(self), *final(self), item, match output_root {
                Some(root) => Some(root@),
                None => None,
            }),
            e.job_id@ == job_id@,
            e.current_file == Some(item.source_path),
            e.completed == final(self).completed_spec(),
            e.total == total,
            e.saved_bytes == final(self).saved_spec(),
            e.saved_bytes >= old(self).saved_spec(),
            e.state == (if cancelled { ProgressState::Cancelling } else { ProgressState::Running }),
            e.state_label@ == state_label(e.state),
    {
        let source = item.source_path.clone();
        self.record(item, output_root);
        emit_progress(job_id, Some(source), self.completed, total, self.saved_bytes, running_state(cancelled))
    }

    /// The last event of a job: completed, with the final counts.
    pub fn completed_event(&self, job_id: &str, total: usize) -> (e: CompressProgressEvent)
        ensures
            e.job_id@ == job_id@,
            e.current_file is None,
            e.completed == self.completed_spec(),
            e.total == total,
            e.saved_bytes == self.saved_spec(),
            e.state == ProgressState::Completed,
            e.state_label@ == state_label(ProgressState::Completed),
    {
        emit_progress(job_id, None, self.completed, total, self.saved_bytes, ProgressState::Completed)
    }

    /// The result of the finished job.
    pub fn finish(self, job_id: String, duration_ms: u128) -> (r: CompressJobResult)
        requires
            self.wf(),
        ensures
            r.job_id == job_id,
            r.duration_ms == duration_ms,
            (r.succeeded as nat, r.failed as nat, r.skipped as nat, r.replaced as nat) == self.counts(),
            r.succeeded + r.failed + r.skipped == r.items@.len(),
            r.saved_bytes == self.saved_spec(),
            r.saved_bytes == saving_sum(r.items@),
            string_views(r.output_roots@).to_set() == self.roots(),
            string_views(r.output_roots@).to_set() == root_set(self.item_roots_spec()),
            strictly_sorted(string_views(r.output_roots@)),
            r.items@ == self.items_spec(),
    {
        CompressJobResult {
            job_id,
            succeeded: self.succeeded,
            failed: self.failed,
            skipped: self.skipped,
            replaced: self.replaced,
            duration_ms,
            saved_bytes: self.saved_bytes,
            output_roots: self.output_roots,
            items: self.items,
        }
    }
}

/// Every state of a tally accounts for each completed item exactly once:
/// succeeded, failed and skipped add up to the completed count.
pub proof fn law_tally_counts_add_up(t: JobTally)
    requires
        t.wf(),
    ensures
        t.counts().0 + t.counts().1 + t.counts().2 == t.completed_spec(),
        t.counts().3 <= t.completed_spec(),
{
}

/// The directories of a tally are those recorded with its items, each a
/// strict prefix of its item's output path, and its saved bytes are the sum
/// of its items' savings.
pub proof fn law_roots_are_item_directories(t: JobTally)
    requires
        t.wf(),
    ensures
        t.item_roots_spec().len() == t.items_spec().len(),
        forall|r: Seq<char>| t.roots().contains(r) <==> exists|i: int|
            0 <= i < t.item_roots_spec().len() && #[trigger] t.item_roots_spec()[i] == Some(r),
        forall|i: int| 0 <= i < t.items_spec().len() ==> (#[trigger] t.item_roots_spec()[i] matches Some(r)
            ==> is_strict_prefix(r, t.items_spec()[i].output_path@)),
        t.saved_spec() == saving_sum(t.items_spec()),
{
}

/// Saved bytes never decrease as items are recorded: the saving of a
/// shorter prefix of the items is at most that of a longer one.
pub proof fn law_saved_bytes_never_decrease(items: Seq<CompressItemResult>, j: int, k: int)
    requires
        0 <= j <= k <= items.len(),
    ensures
        saving_sum(items.take(j)) <= saving_sum(items.take(k)),
    decreases k - j,
{
    if j < k {
        law_saved_bytes_never_decrease(items, j, k - 1);
        assert(items.take(k).drop_last() =~= items.take(k - 1));
    }
}

/// Inserts a string into a strictly sorted list unless it is already there.
pub fn insert_sorted(v: &mut Vec<String>, x: String)
    requires
        strictly_sorted(string_views(old(v)@)),
    ensures
        strictly_sorted(string_views(final(v)@)),
        string_views(final(v)@).to_set() == string_views(old(v)@).to_set().insert(x@),
{
    let ghost old_views = string_views(v@);
    let n = v.len();
    let mut p: usize = 0;
    while p < n && crate::text::str_less(v[p].as_str(), x.as_str())
        invariant
            p <= n == v@.len(),
            string_views(v@) == old_views,
            forall|k: int| 0 <= k < p ==> crate::text::seq_lt(#[trigger] old_views[k], x@),
        decreases n - p,
    {
        assert(old_views[p as int] == v@[p as int]@);
        p = p + 1;
    }
    if p < n && v[p] == x {
        assert(old_views[p as int] == x@);
        assert(old_views.to_set().insert(x@) =~= old_views.to_set());
        return;
    }
    proof {
        if p < n {
            assert(old_views[p as int] == v@[p as int]@);
            crate::text::lemma_seq_lt_total(old_views[p as int], x@);
            assert forall|k: int| p <= k < n implies crate::text::seq_lt(x@, #[trigger] old_views[k]) by {
                if k > p {
                    crate::text::lemma_seq_lt_transitive(x@, old_views[p as int], old_views[k]);
                }
            }
        }
    }
    v.insert(p, x);
    let ghost nv = string_views(v@);
    assert(nv =~= old_views.take(p as int).push(x@) + old_views.skip(p as int));
    assert forall|i: int, j: int| 0 <= i < j < nv.len() implies crate::text::seq_lt(nv[i], nv[j]) by {
        if j < p {
            assert(nv[i] == old_views[i] && nv[j] == old_views[j]);
        } else if j == p {
            assert(nv[i] == old_views[i]);
        } else if i < p {
            assert(nv[i] == old_views[i] && nv[j] == old_views[j - 1]);
            crate::text::lemma_seq_lt_transitive(old_views[i], x@, old_views[j - 1]);
        } else if i == p {
            assert(nv[j] == old_views[j - 1]);
        } else {
            assert(nv[i] == old_views[i - 1] && nv[j] == old_views[j - 1]);
        }
    }
    assert forall|s: Seq<char>| nv.to_set().contains(s) <==> old_views.to_set().insert(x@).contains(s) by {
        if nv.to_set().contains(s) {
            let i = choose|i: int| 0 <= i < nv.len() && nv[i] == s;
            if i < p {
                assert(old_views[i] == s);
            } else if i > p {
                assert(old_views[i - 1] == s);
            }
        }
        if old_views.to_set().contains(s) && s != x@ {
            let i = choose|i: int| 0 <= i < old_views.len() && old_views[i] == s;
            if i < p {
                assert(nv[i] == s);
            } else {
                assert(nv[i + 1] == s);
            }
        }
        if s == x@ {
            assert(nv[p as int] == s);
        }
    }
    assert(nv.to_set() =~= old_views.to_set().insert(x@));
}

} // verus!
