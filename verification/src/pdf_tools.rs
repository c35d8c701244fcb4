//! The PDF commands' own rules: request types, checks and messages, the
//! `mutool` command lines, the names of generated files, the page count read
//! from `mutool pages`, and the text escaping of watermarks.

use vstd::prelude::*;
use crate::compress::string_views;
use crate::text::{chars_of, push_chars, push_decimal, string_of, trimmed_chars};

verus! {

/// Images to bundle into one PDF.
pub struct ImagesToPdfRequest {
    pub image_paths: Vec<String>,
    pub output_path: String,
}

/// The image format of rendered PDF pages.
#[derive(Debug, Clone, Copy, PartialEq, Eq, Structural)]
pub enum PdfImageFormat {
    Png,
    Jpg,
}

/// A PDF to render into images.
pub struct PdfToImagesRequest {
    pub pdf_path: String,
    pub output_dir: String,
    pub format: PdfImageFormat,
    pub dpi: u16,
}

/// PDFs to merge into one.
pub struct MergePdfsRequest {
    pub pdf_paths: Vec<String>,
    pub output_path: String,
}

/// How a PDF is split: one file of selected pages, or one file per page.
#[derive(Debug, Clone, Copy, PartialEq, Eq, Structural)]
pub enum SplitMode {
    Range,
    Pages,
}

/// A PDF to split.
pub struct SplitPdfRequest {
    pub pdf_path: String,
    pub output_dir: String,
    pub mode: SplitMode,
    pub page_ranges: String,
}

/// What a PDF command produced.
pub struct PdfOperationResult {
    pub output_dir: String,
    pub output_paths: Vec<String>,
    pub message: String,
}

fn text(s: &str) -> (r: String)
    ensures
        r@ == s@,
{
    String::from_str(s)
}

fn push_string(v: &mut Vec<String>, s: String)
    ensures
        string_views(final(v)@) == string_views(old(v)@).push(s@),
{
    v.push(s);
    assert(string_views(v@) =~= string_views(old(v)@).push(s@));
}

fn strings(items: &[&str]) -> (r: Vec<String>)
    ensures
        string_views(r@) == items@.map_values(|s: &str| s@),
{
    let mut v: Vec<String> = Vec::new();
    let mut i: usize = 0;
    while i < items.len()
        invariant
            i <= items@.len(),
            string_views(v@) == items@.take(i as int).map_values(|s: &str| s@),
        decreases items@.len() - i,
    {
        push_string(&mut v, text(items[i]));
        i = i + 1;
        assert(string_views(v@) =~= items@.take(i as int).map_values(|s: &str| s@));
    }
    assert(items@.take(items@.len() as int) =~= items@);
    v
}

/// `mutool clean` arguments that recompress a raw PDF into the output.
pub fn clean_args(raw_path: &str, output_path: &str) -> (r: Vec<String>)
    ensures
        string_views(r@) == seq!["clean"@, "-gggg"@, "-z"@, "-i"@, "-e"@, "80"@, raw_path@, output_path@],
{
    let r = strings(&["clean", "-gggg", "-z", "-i", "-e", "80", raw_path, output_path]);
    assert(string_views(r@) =~= seq!["clean"@, "-gggg"@, "-z"@, "-i"@, "-e"@, "80"@, raw_path@, output_path@]);
    r
}

/// `mutool merge` arguments that merge the PDFs, in order, into the output.
pub fn merge_args(output_path: &str, pdf_paths: &Vec<String>) -> (r: Vec<String>)
    ensures
        string_views(r@) == seq!["merge"@, "-o"@, output_path@, "-O"@, "garbage=deduplicate,compress=yes,compress-images"@] + string_views(pdf_paths@),
{
    let mut r = strings(&["merge", "-o", output_path, "-O", "garbage=deduplicate,compress=yes,compress-images"]);
    let ghost head = string_views(r@);
    let mut i: usize = 0;
    while i < pdf_paths.len()
        invariant
            i <= pdf_paths@.len(),
            string_views(r@) == head + string_views(pdf_paths@).take(i as int),
        decreases pdf_paths@.len() - i,
    {
        push_string(&mut r, pdf_paths[i].clone());
        i = i + 1;
        assert(string_views(r@) =~= head + string_views(pdf_paths@).take(i as int));
    }
    assert(string_views(pdf_paths@).take(pdf_paths@.len() as int) =~= string_views(pdf_paths@));
    r
}

/// `mutool merge` arguments that copy the selected pages into the output.
pub fn select_pages_args(output_path: &str, pdf_path: &str, pages: &str) -> (r: Vec<String>)
    ensures
        string_views(r@) == seq!["merge"@, "-o"@, output_path@, pdf_path@, pages@],
{
    let r = strings(&["merge", "-o", output_path, pdf_path, pages]);
    assert(string_views(r@) =~= seq!["merge"@, "-o"@, output_path@, pdf_path@, pages@]);
    r
}

/// `mutool draw` arguments that render every page as PNG at `dpi`.
pub fn draw_args(dpi: u16, pattern: &str, pdf_path: &str) -> (r: Vec<String>)
    ensures
        string_views(r@) == seq!["draw"@, "-q"@, "-r"@, crate::text::decimal(dpi as nat), "-F"@, "png"@, "-o"@, pattern@, pdf_path@],
{
    let mut r = strings(&["draw", "-q", "-r"]);
    push_string(&mut r, crate::text::decimal_string(dpi as u64));
    push_string(&mut r, text("-F"));
    push_string(&mut r, text("png"));
    push_string(&mut r, text("-o"));
    push_string(&mut r, text(pattern));
    push_string(&mut r, text(pdf_path));
    assert(string_views(r@) =~= seq!["draw"@, "-q"@, "-r"@, crate::text::decimal(dpi as nat), "-F"@, "png"@, "-o"@, pattern@, pdf_path@]);
    r
}

/// `mutool pages` arguments that list the pages of a PDF.
pub fn pages_args(pdf_path: &str) -> (r: Vec<String>)
    ensures
        string_views(r@) == seq!["pages"@, pdf_path@],
{
    let r = strings(&["pages", pdf_path]);
    assert(string_views(r@) =~= seq!["pages"@, pdf_path@]);
    r
}

/// The resolution pages are rendered at: the requested one clamped to 36..=600.
pub open spec fn render_dpi(dpi: u16) -> u16 {
    if dpi < 36 {
        36
    } else if dpi > 600 {
        600
    } else {
        dpi
    }
}

/// The resolution pages are rendered at (see `render_dpi`).
pub fn clamp_dpi(dpi: u16) -> (r: u16)
    ensures
        r == render_dpi(dpi),
{
    if dpi < 36 { 36 } else if dpi > 600 { 600 } else { dpi }
}

/// What a finished `mutool` run gives: its standard output on success,
/// else its trimmed error output, or a fixed message when that is empty.
pub fn mutool_outcome(success: bool, stdout: String, stderr: &str) -> (r: Result<String, String>)
    ensures
        success ==> r == Ok::<String, String>(stdout),
        !success ==> (r matches Err(e) && e@ == (if crate::text::trim(stderr@).len() == 0 { "mutool 返回失败状态。"@ } else { crate::text::trim(stderr@) })),
{
    if success {
        return Ok(stdout);
    }
    let trimmed = trimmed_chars(stderr);
    if trimmed.len() == 0 {
        Err(text("mutool 返回失败状态。"))
    } else {
        Err(string_of(trimmed))
    }
}


/// The length of the first line of `s` (up to, not including, `\n`).
pub open spec fn first_line_len(s: Seq<char>) -> nat
    decreases s.len(),
{
    if s.len() == 0 || s[0] == '\n' {
        0
    } else {
        1 + first_line_len(s.drop_first())
    }
}

/// A line of `mutool pages` output that describes a page.
pub open spec fn is_page_line(line: Seq<char>) -> bool {
    let t = crate::text::trim_start(line);
    t.len() >= 6 && t.take(6) == "<page "@
}

/// The number of page lines in `mutool pages` output.
pub open spec fn page_lines(s: Seq<char>) -> nat
    decreases s.len(),
{
    let k = first_line_len(s);
    let here: nat = if is_page_line(s.take(k as int)) { 1 } else { 0 };
    if k < s.len() {
        here + page_lines(s.skip(k + 1 as int))
    } else {
        here
    }
}

proof fn lemma_first_line(s: Seq<char>)
    ensures
        first_line_len(s) <= s.len(),
        first_line_len(s) < s.len() ==> s[first_line_len(s) as int] == '\n',
        forall|i: int| 0 <= i < first_line_len(s) ==> s[i] != '\n',
    decreases s.len(),
{
    if s.len() > 0 && s[0] != '\n' {
        lemma_first_line(s.drop_first());
        assert forall|i: int| 0 <= i < first_line_len(s) implies s[i] != '\n' by {
            if i > 0 {
                assert(s[i] == s.drop_first()[i - 1]);
            }
        }
    }
}

fn line_end(v: &Vec<char>, start: usize) -> (end: usize)
    requires
        start <= v@.len(),
    ensures
        start <= end <= v@.len(),
        end - start == first_line_len(v@.skip(start as int)),
{
    let mut end = start;
    while end < v.len() && v[end] != '\n'
        invariant
            start <= end <= v@.len(),
            forall|i: int| start <= i < end ==> v@[i] != '\n',
        decreases v@.len() - end,
    {
        end = end + 1;
    }
    proof {
        let t = v@.skip(start as int);
        lemma_first_line(t);
        let k = first_line_len(t);
        if k < end - start {
            assert(t[k as int] == v@[start + k]);
        }
        if k > end - start {
            assert(t[end - start] == v@[end as int]);
        }
    }
    end
}

fn page_line_at(v: &Vec<char>, start: usize, end: usize) -> (r: bool)
    requires
        start <= end <= v@.len(),
    ensures
        r == is_page_line(v@.subrange(start as int, end as int)),
{
    let ghost line = v@.subrange(start as int, end as int);
    let mut i = start;
    assert(line.skip(0) =~= line);
    while i < end && crate::text::is_space_char(v[i])
        invariant
            start <= i <= end <= v@.len(),
            line == v@.subrange(start as int, end as int),
            crate::text::trim_start(line) == crate::text::trim_start(line.skip(i - start)),
        decreases end - i,
    {
        assert(line.skip(i - start).drop_first() =~= line.skip(i + 1 - start));
        i = i + 1;
    }
    let ghost t = line.skip(i - start);
    assert(crate::text::trim_start(t) == t);
    if end - i < 6 {
        return false;
    }
    let r = v[i] == '<' && v[i + 1] == 'p' && v[i + 2] == 'a' && v[i + 3] == 'g' && v[i + 4] == 'e' && v[i + 5] == ' ';
    proof {
        reveal_strlit("<page ");
        assert(t.take(6) =~= v@.subrange(i as int, i + 6));
        if r {
            assert(t.take(6) =~= "<page "@);
        }
        if t.take(6) == "<page "@ {
            assert(t.take(6)[0] == '<' && t.take(6)[1] == 'p' && t.take(6)[2] == 'a');
            assert(t.take(6)[3] == 'g' && t.take(6)[4] == 'e' && t.take(6)[5] == ' ');
        }
    }
    r
}

/// The page count of a PDF from the output of `mutool pages`: the number of
/// lines that start, after white space, with `<page `; none is an error.
pub fn get_pdf_page_count(output: &str) -> (r: Result<usize, String>)
    ensures
        page_lines(output@) == 0 ==> (r matches Err(e) && e@ == "无法读取 PDF 页数。"@),
        page_lines(output@) > 0 ==> r == Ok::<usize, String>(page_lines(output@) as usize),
{
    let v = chars_of(output);
    let n = v.len();
    let mut count: usize = 0;
    let mut start: usize = 0;
    assert(v@.skip(0) =~= v@);
    loop
        invariant_except_break
            start <= n == v@.len(),
            count <= start,
            page_lines(v@) == count + page_lines(v@.skip(start as int)),
        ensures
            page_lines(v@) == count,
            count <= n,
        decreases n - start,
    {
        let end = line_end(&v, start);
        let ghost t = v@.skip(start as int);
        assert(t.take(end - start) =~= v@.subrange(start as int, end as int));
        if page_line_at(&v, start, end) {
            count = count + 1;
        }
        if end < n {
            assert(t.skip(end - start + 1) =~= v@.skip(end + 1));
            start = end + 1;
        } else {
            break;
        }
    }
    if count == 0 {
        Err(text("无法读取 PDF 页数。"))
    } else {
        Ok(count)
    }
}


/// The XML escape of one character.
pub open spec fn xml_escape_char(c: char) -> Seq<char> {
    if c == '&' {
        "&amp;"@
    } else if c == '<' {
        "&lt;"@
    } else if c == '>' {
        "&gt;"@
    } else if c == '"' {
        "&quot;"@
    } else if c == '\'' {
        "&apos;"@
    } else {
        seq![c]
    }
}

/// Text with `& < > " '` written as XML entities.
pub open spec fn xml_escaped(s: Seq<char>) -> Seq<char>
    decreases s.len(),
{
    if s.len() == 0 {
        Seq::empty()
    } else {
        xml_escaped(s.drop_last()) + xml_escape_char(s.last())
    }
}

/// Escapes text for use inside an SVG text element.
pub fn escape_xml_text(value: &str) -> (r: String)
    ensures
        r@ == xml_escaped(value@),
{
    let v = chars_of(value);
    let mut out: Vec<char> = Vec::new();
    let mut i: usize = 0;
    while i < v.len()
        invariant
            i <= v@.len(),
            v@ == value@,
            out@ == xml_escaped(v@.take(i as int)),
        decreases v@.len() - i,
    {
        let c = v[i];
        assert(v@.take(i + 1).drop_last() =~= v@.take(i as int));
        if c == '&' {
            push_chars(&mut out, "&amp;");
        } else if c == '<' {
            push_chars(&mut out, "&lt;");
        } else if c == '>' {
            push_chars(&mut out, "&gt;");
        } else if c == '"' {
            push_chars(&mut out, "&quot;");
        } else if c == '\'' {
            push_chars(&mut out, "&apos;");
        } else {
            out.push(c);
        }
        i = i + 1;
        assert(out@ =~= xml_escaped(v@.take(i as int)));
    }
    assert(v@.take(v@.len() as int) =~= v@);
    string_of(out)
}

/// A file-name character kept as it is; any other becomes `_`.
pub open spec fn stem_char(c: char) -> char {
    if crate::svg::is_ascii_alnum(c) || c == '-' || c == '_' {
        c
    } else {
        '_'
    }
}

/// Makes a file stem safe: ASCII letters, digits, `-` and `_` are kept,
/// every other character becomes `_`.
pub fn sanitize_file_stem(value: &str) -> (r: String)
    ensures
        r@ == value@.map_values(|c: char| stem_char(c)),
{
    let v = chars_of(value);
    let mut out: Vec<char> = Vec::new();
    let mut i: usize = 0;
    while i < v.len()
        invariant
            i <= v@.len(),
            v@ == value@,
            out@ == v@.take(i as int).map_values(|c: char| stem_char(c)),
        decreases v@.len() - i,
    {
        let c = v[i];
        if ('0' <= c && c <= '9') || ('a' <= c && c <= 'z') || ('A' <= c && c <= 'Z') || c == '-' || c == '_' {
            out.push(c);
        } else {
            out.push('_');
        }
        i = i + 1;
        assert(out@ =~= v@.take(i as int).map_values(|c: char| stem_char(c)));
    }
    assert(v@.take(v@.len() as int) =~= v@);
    string_of(out)
}

/// The name given to a PDF's outputs: its sanitized file stem, or the
/// fallback when it has none (or it is empty).
pub open spec fn stem_or_default(stem: Option<Seq<char>>, fallback: Seq<char>) -> Seq<char> {
    match stem {
        Some(s) => if s.len() > 0 { s.map_values(|c: char| stem_char(c)) } else { fallback },
        None => fallback,
    }
}

/// The name given to a PDF's outputs (see `stem_or_default`); `stem` is the
/// path's file stem when it has one that is valid UTF-8.
pub fn file_stem_or_default(stem: Option<&str>, fallback: &str) -> (r: String)
    ensures
        r@ == stem_or_default(match stem { Some(s) => Some(s@), None => None }, fallback@),
{
    match stem {
        Some(s) => {
            let cleaned = sanitize_file_stem(s);
            if cleaned.as_str().is_empty() {
                text(fallback)
            } else {
                cleaned
            }
        },
        None => text(fallback),
    }
}

fn concat(a: &str, b: &str) -> (r: String)
    ensures
        r@ == a@ + b@,
{
    let mut v = chars_of(a);
    push_chars(&mut v, b);
    string_of(v)
}

/// The directory of the images rendered from a PDF: `{stem}_images`.
pub fn images_dir_name(stem: &str) -> (r: String)
    ensures
        r@ == stem@ + "_images"@,
{
    concat(stem, "_images")
}

/// The directory of the parts of a split PDF: `{stem}_split`.
pub fn split_dir_name(stem: &str) -> (r: String)
    ensures
        r@ == stem@ + "_split"@,
{
    concat(stem, "_split")
}

/// The file of the selected pages of a PDF: `{stem}_selected.pdf`.
pub fn selected_pages_file_name(stem: &str) -> (r: String)
    ensures
        r@ == stem@ + "_selected.pdf"@,
{
    concat(stem, "_selected.pdf")
}

/// The file of one page of a split PDF: `page-{page:03}.pdf`.
pub fn page_file_name(page: usize) -> (r: String)
    ensures
        r@ == "page-"@ + crate::text::zero_padded(page as nat, 3) + ".pdf"@,
{
    let mut v = chars_of("page-");
    push_zero_padded(&mut v, page as u64, 3);
    push_chars(&mut v, ".pdf");
    string_of(v)
}

/// The file of one watermarked page: `watermarked-{index:04}.png`.
pub fn watermarked_page_name(index: usize) -> (r: String)
    ensures
        r@ == "watermarked-"@ + crate::text::zero_padded(index as nat, 4) + ".png"@,
{
    let mut v = chars_of("watermarked-");
    push_zero_padded(&mut v, index as u64, 4);
    push_chars(&mut v, ".png");
    string_of(v)
}

fn push_zero_padded(out: &mut Vec<char>, n: u64, width: usize)
    ensures
        final(out)@ == old(out)@ + crate::text::zero_padded(n as nat, width as nat),
{
    let mut digits: Vec<char> = Vec::new();
    push_decimal(&mut digits, n);
    assert(digits@ =~= crate::text::decimal(n as nat));
    let ghost start = out@;
    let len = digits.len();
    if len < width {
        let mut k: usize = 0;
        while k < width - len
            invariant
                len < width,
                len == crate::text::decimal(n as nat).len(),
                k <= width - len,
                out@ == start + Seq::new(k as nat, |_i: int| '0'),
            decreases width - len - k,
        {
            out.push('0');
            k = k + 1;
            assert(out@ =~= start + Seq::new(k as nat, |_i: int| '0'));
        }
    }
    let mut j: usize = 0;
    let ghost mid = out@;
    while j < len
        invariant
            j <= len == digits@.len(),
            out@ == mid + digits@.take(j as int),
        decreases len - j,
    {
        out.push(digits[j]);
        j = j + 1;
        assert(out@ =~= mid + digits@.take(j as int));
    }
    assert(digits@.take(len as int) =~= digits@);
    assert(out@ =~= start + crate::text::zero_padded(n as nat, width as nat));
}

/// The error for a missing input file: `{label}不存在: {path}`.
pub fn missing_file_message(label: &str, path: &str) -> (r: String)
    ensures
        r@ == label@ + "不存在: "@ + path@,
{
    let mut v = chars_of(label);
    push_chars(&mut v, "不存在: ");
    push_chars(&mut v, path);
    string_of(v)
}

/// An input must be an existing regular file: `is_file` is what the file
/// system answered for `path`; otherwise the error names the input by `label`.
pub fn ensure_file(is_file: bool, label: &str, path: &str) -> (r: Result<(), String>)
    ensures
        r is Ok <==> is_file,
        r matches Err(e) ==> e@ == label@ + "不存在: "@ + path@,
{
    if is_file {
        Ok(())
    } else {
        Err(missing_file_message(label, path))
    }
}

/// A file name has an extension when a `.` stands in it after its first
/// character (a leading `.` alone marks a hidden file, not an extension).
pub open spec fn has_extension(name: Seq<char>) -> bool {
    exists|i: int| 1 <= i < name.len() && name[i] == '.'
}

/// `name` ends at position `k` of `path`.
pub open spec fn ends_at(path: Seq<char>, name: Seq<char>, k: int) -> bool {
    name.len() <= k <= path.len() && path.subrange(k - name.len(), k) == name
}

fn has_dot_after_first(name: &Vec<char>) -> (r: bool)
    ensures
        r == has_extension(name@),
{
    let mut i: usize = 1;
    while i < name.len()
        invariant
            1 <= i,
            i <= name@.len() || name@.len() == 0,
            forall|j: int| 1 <= j < i && j < name@.len() ==> name@[j] != '.',
        decreases name.len() - i,
    {
        if name[i] == '.' {
            return true;
        }
        i = i + 1;
    }
    false
}

fn name_ends_at(path: &Vec<char>, name: &Vec<char>, k: usize) -> (r: bool)
    requires
        name@.len() <= k <= path@.len(),
    ensures
        r == ends_at(path@, name@, k as int),
{
    let start: usize = k - name.len();
    let mut j: usize = 0;
    while j < name.len()
        invariant
            start + name@.len() == k <= path@.len(),
            j <= name@.len(),
            forall|t: int| 0 <= t < j ==> path@[start + t] == name@[t],
        decreases name.len() - j,
    {
        if path[start + j] != name[j] {
            assert(path@.subrange(k - name@.len(), k as int)[j as int] != name@[j as int]);
            return false;
        }
        j = j + 1;
    }
    assert(path@.subrange(k - name@.len(), k as int) =~= name@);
    true
}

/// An output path without an extension gets `.pdf`: the path is cut just
/// after its last component `file_name` (dropping trailing separators) and
/// `.pdf` follows. `file_name` is the path's last component as the platform
/// reads it; a path without one, or whose file name has an extension, stays
/// as it is.
pub fn normalize_pdf_output_path(path: &str, file_name: Option<&str>) -> (r: String)
    ensures
        (file_name is None || has_extension(file_name.unwrap()@)) ==> r@ == path@,
        file_name is Some && !has_extension(file_name.unwrap()@) ==> {
            ||| exists|k: int| #![trigger path@.take(k)] ends_at(path@, file_name.unwrap()@, k)
                && (forall|k2: int| k < k2 ==> !ends_at(path@, file_name.unwrap()@, k2))
                && r@ == path@.take(k) + ".pdf"@
            ||| (forall|k: int| !ends_at(path@, file_name.unwrap()@, k)) && r@ == path@ + ".pdf"@
        },
{
    let name = match file_name {
        None => return String::from_str(path),
        Some(name) => name,
    };
    let n = chars_of(name);
    if has_dot_after_first(&n) {
        return String::from_str(path);
    }
    let p = chars_of(path);
    let mut k: usize = p.len();
    let mut found = false;
    let mut searching: bool = n.len() <= p.len();
    while searching
        invariant
            k <= p@.len(),
            searching ==> n@.len() <= k && !found,
            found ==> ends_at(p@, n@, k as int),
            forall|k2: int| k < k2 ==> !ends_at(p@, n@, k2),
            !searching && !found ==> forall|k2: int| !ends_at(p@, n@, k2),
        decreases k + (if searching { 1int } else { 0int }),
    {
        if name_ends_at(&p, &n, k) {
            found = true;
            searching = false;
        } else if k == n.len() {
            searching = false;
        } else {
            k = k - 1;
        }
    }
    if found {
        let mut out: Vec<char> = Vec::new();
        let mut i: usize = 0;
        while i < k
            invariant
                k <= p@.len(),
                i <= k,
                out@ == p@.take(i as int),
            decreases k - i,
        {
            out.push(p[i]);
            i = i + 1;
            assert(out@ =~= p@.take(i as int));
        }
        push_chars(&mut out, ".pdf");
        assert(p@.take(k as int) == path@.take(k as int));
        assert(out@ == path@.take(k as int) + ".pdf"@);
        assert(ends_at(path@, name@, k as int));
        let r = string_of(out);
        assert(r@ == path@.take(k as int) + ".pdf"@);
        r
    } else {
        let mut out = p;
        push_chars(&mut out, ".pdf");
        assert(forall|k2: int| !ends_at(path@, name@, k2));
        string_of(out)
    }
}

/// A rendered page converted to JPEG: its PNG decoded, then encoded at the
/// JPEG encoder's default quality 75 with the alpha channel dropped. Bytes
/// that do not decode give `读取渲染图片失败: ` and the decoder's error; a
/// page with an edge of 0 or above 65535 is refused by the encoder.
pub fn page_png_to_jpeg(png: &[u8]) -> (r: Result<Vec<u8>, String>)
    ensures
        crate::raster::png_decoding(png@) is None ==> (r matches Err(e) && e@.take(10) == "读取渲染图片失败: "@),
        crate::raster::png_decoding(png@) matches Some((w, h, d)) ==> {
            &&& (1 <= w <= 65535 && 1 <= h <= 65535) ==>
                (r matches Ok(b) && b@ == crate::raster::jpeg_encoding(w, h, d, 75))
            &&& !(1 <= w <= 65535 && 1 <= h <= 65535) ==> r is Err
        },
{
    let (width, height, pixels) = match crate::raster::png_rgba_from_bytes(png, "读取渲染图片失败: ") {
        Ok(decoded) => decoded,
        Err(e) => {
            proof {
                reveal_strlit("读取渲染图片失败: ");
            }
            return Err(e);
        },
    };
    let n: usize = pixels.len();
    proof {
        assert(n == pixels@.len());
        if width >= 1 && height >= 1 {
            assert(4 * (width as int) <= 4 * (width as int * height as int)) by (nonlinear_arith)
                requires
                    height >= 1,
            ;
        }
    }
    crate::raster::jpeg_bytes_from_rgba(width, height, pixels, 75)
}

/// Images-to-PDF needs at least one image.
pub fn check_images_to_pdf(request: &ImagesToPdfRequest) -> (r: Result<(), String>)
    ensures
        request.image_paths@.len() > 0 <==> r is Ok,
        r matches Err(e) ==> e@ == "请选择至少一张图片。"@,
{
    if request.image_paths.len() == 0 {
        return Err(text("请选择至少一张图片。"));
    }
    Ok(())
}

/// The message after bundling `count` images into one PDF.
pub fn images_to_pdf_message(count: usize) -> (r: String)
    ensures
        r@ == "已生成 1 个 PDF，包含 "@ + crate::text::decimal(count as nat) + " 张图片。"@,
{
    let mut v = chars_of("已生成 1 个 PDF，包含 ");
    push_decimal(&mut v, count as u64);
    push_chars(&mut v, " 张图片。");
    string_of(v)
}

/// The message after rendering `count` page images.
pub fn pdf_to_images_message(count: usize) -> (r: String)
    ensures
        r@ == "已导出 "@ + crate::text::decimal(count as nat) + " 张图片。"@,
{
    let mut v = chars_of("已导出 ");
    push_decimal(&mut v, count as u64);
    push_chars(&mut v, " 张图片。");
    string_of(v)
}

/// Merging needs at least two PDFs.
pub fn check_merge(request: &MergePdfsRequest) -> (r: Result<(), String>)
    ensures
        request.pdf_paths@.len() >= 2 <==> r is Ok,
        r matches Err(e) ==> e@ == "请选择至少两个 PDF。"@,
{
    if request.pdf_paths.len() < 2 {
        return Err(text("请选择至少两个 PDF。"));
    }
    Ok(())
}

/// The message after merging `count` PDFs.
pub fn merge_message(count: usize) -> (r: String)
    ensures
        r@ == "已合并 "@ + crate::text::decimal(count as nat) + " 个 PDF。"@,
{
    let mut v = chars_of("已合并 ");
    push_decimal(&mut v, count as u64);
    push_chars(&mut v, " 个 PDF。");
    string_of(v)
}

/// The page ranges of a range split, trimmed; they must not be empty.
pub fn split_ranges(request: &SplitPdfRequest) -> (r: Result<String, String>)
    ensures
        crate::text::trim(request.page_ranges@).len() > 0 ==> (r matches Ok(s) && s@ == crate::text::trim(request.page_ranges@)),
        crate::text::trim(request.page_ranges@).len() == 0 ==> (r matches Err(e) && e@ == "请输入页码范围，例如 1-3,5。"@),
{
    let ranges = trimmed_chars(request.page_ranges.as_str());
    if ranges.len() == 0 {
        return Err(text("请输入页码范围，例如 1-3,5。"));
    }
    Ok(string_of(ranges))
}

/// The message after splitting into `count` files.
pub fn split_message(count: usize) -> (r: String)
    ensures
        r@ == "已拆分输出 "@ + crate::text::decimal(count as nat) + " 个文件。"@,
{
    let mut v = chars_of("已拆分输出 ");
    push_decimal(&mut v, count as u64);
    push_chars(&mut v, " 个文件。");
    string_of(v)
}

/// A watermark needs text; returns it trimmed.
pub fn watermark_text(text_value: &str) -> (r: Result<String, String>)
    ensures
        crate::text::trim(text_value@).len() > 0 ==> (r matches Ok(s) && s@ == crate::text::trim(text_value@)),
        crate::text::trim(text_value@).len() == 0 ==> (r matches Err(e) && e@ == "请输入水印文本。"@),
{
    let t = trimmed_chars(text_value);
    if t.len() == 0 {
        return Err(text("请输入水印文本。"));
    }
    Ok(string_of(t))
}

/// The message after watermarking.
pub fn watermark_message() -> (r: String)
    ensures
        r@ == "已添加文本水印。"@,
{
    text("已添加文本水印。")
}

/// The result of a command that wrote one file.
pub fn single_output_result(output_path: String, output_dir: String, message: String) -> (r: PdfOperationResult)
    ensures
        r.output_dir == output_dir,
        string_views(r.output_paths@) == seq![output_path@],
        r.message == message,
{
    let mut paths: Vec<String> = Vec::new();
    push_string(&mut paths, output_path);
    PdfOperationResult { output_dir, output_paths: paths, message }
}


/// `str::eq_ignore_ascii_case`.
pub open spec fn eq_ignore_ascii_case(a: Seq<char>, b: Seq<char>) -> bool {
    a.map_values(|c: char| crate::svg::ascii_lower(c)) == b.map_values(|c: char| crate::svg::ascii_lower(c))
}

fn lower(c: char) -> (r: char)
    ensures
        r == crate::svg::ascii_lower(c),
{
    if 'A' <= c && c <= 'Z' {
        let b: u8 = c as u8;
        (b + 32) as char
    } else {
        c
    }
}

fn same_ignoring_case(a: &str, b: &str) -> (r: bool)
    ensures
        r == eq_ignore_ascii_case(a@, b@),
{
    let x = chars_of(a);
    let y = chars_of(b);
    let ghost lx = x@.map_values(|c: char| crate::svg::ascii_lower(c));
    let ghost ly = y@.map_values(|c: char| crate::svg::ascii_lower(c));
    if x.len() != y.len() {
        assert(lx.len() != ly.len());
        return false;
    }
    let mut i: usize = 0;
    while i < x.len()
        invariant
            i <= x@.len() == y@.len(),
            x@ == a@,
            y@ == b@,
            lx == x@.map_values(|c: char| crate::svg::ascii_lower(c)),
            ly == y@.map_values(|c: char| crate::svg::ascii_lower(c)),
            forall|k: int| 0 <= k < i ==> lx[k] == ly[k],
        decreases x@.len() - i,
    {
        if lower(x[i]) != lower(y[i]) {
            assert(lx[i as int] != ly[i as int]);
            assert(lx != ly);
            return false;
        }
        i = i + 1;
    }
    assert(lx =~= ly);
    true
}

/// A file found in an output directory: its displayed path and its
/// extension, when it has one that is valid UTF-8.
pub struct OutputFile {
    pub path: String,
    pub extension: Option<String>,
}

/// The paths, in order, of the first `k` files whose extension is `ext` in
/// any ASCII case.
pub open spec fn paths_with_extension(files: Seq<OutputFile>, ext: Seq<char>, k: int) -> Seq<Seq<char>>
    decreases k,
{
    if k <= 0 {
        Seq::empty()
    } else {
        let f = files[k - 1];
        let rest = paths_with_extension(files, ext, k - 1);
        match f.extension {
            Some(e) => if eq_ignore_ascii_case(e@, ext) { rest.push(f.path@) } else { rest },
            None => rest,
        }
    }
}

/// Ordered: no later string comes before an earlier one.
pub open spec fn sorted_strings(v: Seq<Seq<char>>) -> bool {
    forall|i: int, j: int| 0 <= i < j < v.len() ==> !crate::text::seq_lt(v[j], v[i])
}

fn insert_in_order(v: &mut Vec<String>, x: String)
    requires
        sorted_strings(string_views(old(v)@)),
    ensures
        sorted_strings(string_views(final(v)@)),
        string_views(final(v)@).to_multiset() == string_views(old(v)@).to_multiset().insert(x@),
{
    let ghost old_views = string_views(v@);
    let n = v.len();
    let mut p: usize = 0;
    while p < n && !crate::text::str_less(x.as_str(), v[p].as_str())
        invariant
            p <= n == v@.len(),
            string_views(v@) == old_views,
            forall|k: int| 0 <= k < p ==> !crate::text::seq_lt(x@, #[trigger] old_views[k]),
        decreases n - p,
    {
        assert(old_views[p as int] == v@[p as int]@);
        p = p + 1;
    }
    proof {
        if p < n {
            assert(old_views[p as int] == v@[p as int]@);
            assert forall|k: int| p <= k < n implies crate::text::seq_lt(x@, #[trigger] old_views[k]) by {
                if k > p {
                    crate::text::lemma_seq_lt_total(old_views[p as int], old_views[k]);
                    if old_views[p as int] != old_views[k] {
                        crate::text::lemma_seq_lt_transitive(x@, old_views[p as int], old_views[k]);
                    }
                }
            }
        }
    }
    v.insert(p, x);
    let ghost nv = string_views(v@);
    assert(nv =~= old_views.insert(p as int, x@));
    assert forall|i: int, j: int| 0 <= i < j < nv.len() implies !crate::text::seq_lt(nv[j], nv[i]) by {
        if j < p {
            assert(nv[i] == old_views[i] && nv[j] == old_views[j]);
        } else if j == p {
            assert(nv[i] == old_views[i]);
            crate::text::lemma_seq_lt_total(x@, old_views[i]);
            if x@ != old_views[i] {
            }
        } else if i < p {
            assert(nv[i] == old_views[i] && nv[j] == old_views[j - 1]);
            crate::text::lemma_seq_lt_total(old_views[j - 1], old_views[i]);
            if crate::text::seq_lt(old_views[j - 1], old_views[i]) {
                crate::text::lemma_seq_lt_total(x@, old_views[i]);
                if x@ == old_views[i] {
                    crate::text::lemma_seq_lt_total(x@, old_views[j - 1]);
                } else {
                    crate::text::lemma_seq_lt_transitive(old_views[j - 1], old_views[i], x@);
                    crate::text::lemma_seq_lt_total(x@, old_views[j - 1]);
                }
            }
        } else if i == p {
            assert(nv[j] == old_views[j - 1]);
            crate::text::lemma_seq_lt_total(x@, old_views[j - 1]);
        } else {
            assert(nv[i] == old_views[i - 1] && nv[j] == old_views[j - 1]);
        }
    }
    proof {
        vstd::seq_lib::to_multiset_insert(old_views, p as int, x@);
    }
}

/// The files of an output directory with the given extension (any ASCII
/// case), their paths sorted.
pub fn collect_outputs(files: Vec<OutputFile>, extension: &str) -> (r: Vec<String>)
    ensures
        sorted_strings(string_views(r@)),
        string_views(r@).to_multiset() == paths_with_extension(files@, extension@, files@.len() as int).to_multiset(),
{
    let mut out: Vec<String> = Vec::new();
    let mut i: usize = 0;
    proof {
        assert(string_views(out@) =~= Seq::<Seq<char>>::empty());
        vstd::seq_lib::to_multiset_len(paths_with_extension(files@, extension@, 0));
    }
    while i < files.len()
        invariant
            i <= files@.len(),
            sorted_strings(string_views(out@)),
            string_views(out@).to_multiset() == paths_with_extension(files@, extension@, i as int).to_multiset(),
        decreases files@.len() - i,
    {
        let file = &files[i];
        match &file.extension {
            Some(e) => {
                if same_ignoring_case(e.as_str(), extension) {
                    insert_in_order(&mut out, file.path.clone());
                    proof {
                        vstd::seq_lib::to_multiset_build(paths_with_extension(files@, extension@, i as int), file.path@);
                    }
                }
            },
            None => {},
        }
        i = i + 1;
    }
    out
}


/// The markup characters that escaping removes.
pub open spec fn is_markup_char(c: char) -> bool {
    c == '<' || c == '>' || c == '"' || c == '\''
}

/// Escaped watermark text holds none of `< > " '`, so it cannot end the
/// text element or an attribute it is placed in.
pub proof fn law_escaped_text_has_no_markup(s: Seq<char>)
    ensures
        forall|i: int| 0 <= i < xml_escaped(s).len() ==> !is_markup_char(#[trigger] xml_escaped(s)[i]),
    decreases s.len(),
{
    if s.len() > 0 {
        law_escaped_text_has_no_markup(s.drop_last());
        reveal_strlit("&amp;");
        reveal_strlit("&lt;");
        reveal_strlit("&gt;");
        reveal_strlit("&quot;");
        reveal_strlit("&apos;");
        let prev = xml_escaped(s.drop_last());
        let e = xml_escape_char(s.last());
        assert forall|i: int| 0 <= i < xml_escaped(s).len() implies !is_markup_char(#[trigger] xml_escaped(s)[i]) by {
            if i < prev.len() {
                assert(xml_escaped(s)[i] == prev[i]);
            } else {
                assert(xml_escaped(s)[i] == e[i - prev.len()]);
            }
        }
    }
}

/// `t` starts with `p`, which is `n` characters long.
pub open spec fn starts_with(t: Seq<char>, p: Seq<char>, n: int) -> bool {
    t.len() >= n && t.take(n) == p
}

/// What an XML reader makes of text: each of the entities `&amp; &lt; &gt;
/// &quot; &apos;` stands for its character, every other character for
/// itself.
pub open spec fn xml_unescaped(t: Seq<char>) -> Seq<char>
    decreases t.len(),
{
    if t.len() == 0 {
        Seq::empty()
    } else if starts_with(t, "&amp;"@, 5) {
        seq!['&'] + xml_unescaped(t.skip(5))
    } else if starts_with(t, "&lt;"@, 4) {
        seq!['<'] + xml_unescaped(t.skip(4))
    } else if starts_with(t, "&gt;"@, 4) {
        seq!['>'] + xml_unescaped(t.skip(4))
    } else if starts_with(t, "&quot;"@, 6) {
        seq!['"'] + xml_unescaped(t.skip(6))
    } else if starts_with(t, "&apos;"@, 6) {
        seq!['\''] + xml_unescaped(t.skip(6))
    } else {
        seq![t[0]] + xml_unescaped(t.skip(1))
    }
}

proof fn lemma_escaped_front(s: Seq<char>)
    requires
        s.len() > 0,
    ensures
        xml_escaped(s) == xml_escape_char(s[0]) + xml_escaped(s.drop_first()),
    decreases s.len(),
{
    if s.len() == 1 {
        assert(s.drop_last() =~= Seq::<char>::empty());
        assert(s.drop_first() =~= Seq::<char>::empty());
        assert(xml_escaped(s.drop_first()) =~= Seq::<char>::empty());
        assert(xml_escaped(s) =~= xml_escape_char(s[0]));
    } else {
        lemma_escaped_front(s.drop_last());
        assert(s.drop_last().drop_first() =~= s.drop_first().drop_last());
        assert(s.drop_last()[0] == s[0]);
        assert(s.drop_first().last() == s.last());
        assert(xml_escaped(s.drop_first()) == xml_escaped(s.drop_first().drop_last()) + xml_escape_char(s.last()));
        assert(xml_escaped(s) =~= xml_escape_char(s[0]) + xml_escaped(s.drop_first()));
    }
}

proof fn lemma_unescape_step(c: char, rest: Seq<char>)
    ensures
        xml_unescaped(xml_escape_char(c) + rest) == seq![c] + xml_unescaped(rest),
{
    reveal_strlit("&amp;");
    reveal_strlit("&lt;");
    reveal_strlit("&gt;");
    reveal_strlit("&quot;");
    reveal_strlit("&apos;");
    let e = xml_escape_char(c);
    let t = e + rest;
    assert(t.skip(e.len() as int) =~= rest);
    assert(t.take(e.len() as int) =~= e);
    assert(t[0] == e[0]);
    if c != '&' && c != '<' && c != '>' && c != '"' && c != '\'' {
        assert(e == seq![c]);
        assert(t[0] != '&');
        assert(!starts_with(t, "&amp;"@, 5));
        assert(!starts_with(t, "&lt;"@, 4));
        assert(!starts_with(t, "&gt;"@, 4));
        assert(!starts_with(t, "&quot;"@, 6));
        assert(!starts_with(t, "&apos;"@, 6));
    } else if c == '<' {
        assert(t[1] == 'l');
        assert(!starts_with(t, "&amp;"@, 5)) by {
            if starts_with(t, "&amp;"@, 5) {
                assert(t.take(5)[1] == 'a');
            }
        }
    } else if c == '>' {
        assert(t[1] == 'g');
        assert(!starts_with(t, "&amp;"@, 5)) by {
            if starts_with(t, "&amp;"@, 5) {
                assert(t.take(5)[1] == 'a');
            }
        }
        assert(!starts_with(t, "&lt;"@, 4)) by {
            if starts_with(t, "&lt;"@, 4) {
                assert(t.take(4)[1] == 'l');
            }
        }
    } else if c == '"' {
        assert(t[1] == 'q');
        assert(!starts_with(t, "&amp;"@, 5)) by {
            if starts_with(t, "&amp;"@, 5) {
                assert(t.take(5)[1] == 'a');
            }
        }
        assert(!starts_with(t, "&lt;"@, 4)) by {
            if starts_with(t, "&lt;"@, 4) {
                assert(t.take(4)[1] == 'l');
            }
        }
        assert(!starts_with(t, "&gt;"@, 4)) by {
            if starts_with(t, "&gt;"@, 4) {
                assert(t.take(4)[1] == 'g');
            }
        }
    } else if c == '\'' {
        assert(t[1] == 'a' && t[2] == 'p');
        assert(!starts_with(t, "&amp;"@, 5)) by {
            if starts_with(t, "&amp;"@, 5) {
                assert(t.take(5)[2] == 'm');
            }
        }
        assert(!starts_with(t, "&lt;"@, 4)) by {
            if starts_with(t, "&lt;"@, 4) {
                assert(t.take(4)[1] == 'l');
            }
        }
        assert(!starts_with(t, "&gt;"@, 4)) by {
            if starts_with(t, "&gt;"@, 4) {
                assert(t.take(4)[1] == 'g');
            }
        }
        assert(!starts_with(t, "&quot;"@, 6)) by {
            if starts_with(t, "&quot;"@, 6) {
                assert(t.take(6)[1] == 'q');
            }
        }
    }
}

/// Escaping loses nothing: an XML reader gets back exactly the text that
/// was escaped.
pub proof fn law_escaped_text_reads_back(s: Seq<char>)
    ensures
        xml_unescaped(xml_escaped(s)) == s,
    decreases s.len(),
{
    if s.len() == 0 {
        assert(xml_escaped(s) =~= Seq::<char>::empty());
    } else {
        lemma_escaped_front(s);
        lemma_unescape_step(s[0], xml_escaped(s.drop_first()));
        law_escaped_text_reads_back(s.drop_first());
        assert(s =~= seq![s[0]] + s.drop_first());
    }
}

/// A sanitized file stem holds only ASCII letters, digits, `-` and `_`, and
/// has as many characters as the name it came from.
pub proof fn law_sanitized_stem_is_safe(s: Seq<char>)
    ensures
        s.map_values(|c: char| stem_char(c)).len() == s.len(),
        forall|i: int| 0 <= i < s.len() ==> ({
            let c = stem_char(#[trigger] s[i]);
            crate::svg::is_ascii_alnum(c) || c == '-' || c == '_'
        }),
        forall|i: int| 0 <= i < s.len() ==> s.map_values(|c: char| stem_char(c))[i] == stem_char(#[trigger] s[i]),
{
}

} // verus!
