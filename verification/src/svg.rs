//! SVG export and icon sets: the request types, their validation, the
//! colour rules (`#rrggbb` / `#rrggbbaa`) and the naming of icon packages.

use vstd::prelude::*;
use crate::text::{string_of, trimmed_chars};

verus! {

/// Image format of a single SVG export.
#[derive(Debug, Clone, Copy, PartialEq, Eq, Structural)]
pub enum SvgExportFormat {
    Png,
    Jpg,
    Jpeg,
}

/// A request to render SVG code into one image file.
pub struct SvgExportRequest {
    pub svg_code: String,
    pub width: u32,
    pub height: u32,
    pub format: SvgExportFormat,
    pub quality: u8,
    pub keep_aspect_ratio: bool,
    pub background: String,
    pub padding_percent: u8,
    pub output_path: String,
}

/// What a single SVG export produced.
pub struct SvgExportResult {
    pub output_path: String,
    pub output_dir: String,
    pub width: u32,
    pub height: u32,
    pub format: SvgExportFormat,
    pub output_bytes: u64,
}

/// The target platforms of an icon set.
#[derive(Debug, Clone, Copy, PartialEq, Eq, Structural)]
pub enum IconPlatform {
    Android,
    Ios,
    Flutter,
    Electron,
    Tauri,
}

/// A request to generate the icon sets of several platforms from SVG code.
pub struct SvgIconSetRequest {
    pub svg_code: String,
    pub output_dir: String,
    pub app_name: String,
    pub platforms: Vec<IconPlatform>,
    pub background: String,
    pub padding_percent: u8,
}

/// One generated file of an icon set (width and height 0 for non-raster files).
pub struct IconAssetResult {
    pub platform: IconPlatform,
    pub output_path: String,
    pub width: u32,
    pub height: u32,
    pub output_bytes: u64,
}

/// What an icon-set export produced.
pub struct SvgIconSetResult {
    pub output_dir: String,
    pub generated_count: usize,
    pub total_bytes: u64,
    pub platforms: Vec<IconPlatform>,
    pub assets: Vec<IconAssetResult>,
}

/// The outcome of validating a single export request.
pub open spec fn export_request_check(r: SvgExportRequest) -> Result<(), Seq<char>> {
    if crate::text::trim(r.svg_code@).len() == 0 {
        Err("SVG 代码不能为空"@)
    } else if r.width == 0 || r.height == 0 {
        Err("导出尺寸必须大于 0"@)
    } else if r.padding_percent > 40 {
        Err("图标内边距不能超过 40%"@)
    } else if crate::text::trim(r.output_path@).len() != 0 {
        Ok(())
    } else {
        Err("缺少输出路径"@)
    }
}

/// Error strings compared by their characters.
pub open spec fn same_outcome(r: Result<(), String>, s: Result<(), Seq<char>>) -> bool {
    match (r, s) {
        (Ok(_), Ok(_)) => true,
        (Err(a), Err(b)) => a@ == b,
        _ => false,
    }
}

fn blank(s: &String) -> (r: bool)
    ensures
        r == (crate::text::trim(s@).len() == 0),
{
    crate::text::is_blank(s.as_str())
}

/// Checks an export request: SVG code present, non-zero size, padding at
/// most 40 %, output path present, in that order.
pub fn validate_request(request: &SvgExportRequest) -> (r: Result<(), String>)
    ensures
        same_outcome(r, export_request_check(*request)),
{
    if blank(&request.svg_code) {
        return Err(String::from_str("SVG 代码不能为空"));
    }
    if request.width == 0 || request.height == 0 {
        return Err(String::from_str("导出尺寸必须大于 0"));
    }
    if request.padding_percent > 40 {
        return Err(String::from_str("图标内边距不能超过 40%"));
    }
    if !blank(&request.output_path) {
        return Ok(());
    }
    Err(String::from_str("缺少输出路径"))
}

/// The outcome of validating an icon-set request.
pub open spec fn icon_set_request_check(r: SvgIconSetRequest) -> Result<(), Seq<char>> {
    if crate::text::trim(r.svg_code@).len() == 0 {
        Err("SVG 代码不能为空"@)
    } else if crate::text::trim(r.output_dir@).len() == 0 {
        Err("请选择输出目录"@)
    } else if r.platforms@.len() == 0 {
        Err("请至少选择一个目标平台"@)
    } else if r.padding_percent > 40 {
        Err("图标内边距不能超过 40%"@)
    } else {
        Ok(())
    }
}

/// Checks an icon-set request: SVG code, output directory, at least one
/// platform, padding at most 40 %, in that order.
pub fn validate_icon_set_request(request: &SvgIconSetRequest) -> (r: Result<(), String>)
    ensures
        same_outcome(r, icon_set_request_check(*request)),
{
    if blank(&request.svg_code) {
        return Err(String::from_str("SVG 代码不能为空"));
    }
    if blank(&request.output_dir) {
        return Err(String::from_str("请选择输出目录"));
    }
    if request.platforms.len() == 0 {
        return Err(String::from_str("请至少选择一个目标平台"));
    }
    if request.padding_percent > 40 {
        return Err(String::from_str("图标内边距不能超过 40%"));
    }
    Ok(())
}


/// `str::trim_start_matches('#')`: the string without its leading `#`s.
pub open spec fn strip_hashes(s: Seq<char>) -> Seq<char>
    decreases s.len(),
{
    if s.len() > 0 && s[0] == '#' {
        strip_hashes(s.drop_first())
    } else {
        s
    }
}

/// `char::is_ascii_hexdigit`.
pub open spec fn is_hex_char(c: char) -> bool {
    ('0' <= c && c <= '9') || ('a' <= c && c <= 'f') || ('A' <= c && c <= 'F')
}

/// The colour text of a background: trimmed, leading `#`s removed.
pub open spec fn color_digits(input: Seq<char>) -> Seq<char> {
    strip_hashes(crate::text::trim(input))
}

/// The colour text has a byte boundary where `normalize_rgb_hex` slices it
/// (slicing elsewhere would panic).
pub open spec fn rgb_hex_slice_ok(input: Seq<char>) -> bool {
    let b = crate::text::utf8(color_digits(input));
    b.len() >= 6 ==> vstd::utf8::is_char_boundary(b, 6)
}

/// `#rrggbb` from the first six hex digits of the colour text, else white.
pub open spec fn rgb_hex_of(input: Seq<char>) -> Seq<char> {
    let raw = color_digits(input);
    if raw.len() >= 6 && (forall|i: int| 0 <= i < 6 ==> is_hex_char(#[trigger] raw[i])) {
        "#"@ + raw.take(6)
    } else {
        "#ffffff"@
    }
}

fn color_digit_chars(input: &str) -> (r: Vec<char>)
    ensures
        r@ == color_digits(input@),
{
    let v = trimmed_chars(input);
    let n = v.len();
    let mut i: usize = 0;
    assert(v@.skip(0) =~= v@);
    while i < n && v[i] == '#'
        invariant
            i <= n == v@.len(),
            strip_hashes(v@) == strip_hashes(v@.skip(i as int)),
        decreases n - i,
    {
        assert(v@.skip(i as int).drop_first() =~= v@.skip(i + 1));
        i = i + 1;
    }
    let mut r: Vec<char> = Vec::new();
    let mut k = i;
    while k < n
        invariant
            i <= k <= n == v@.len(),
            r@ == v@.subrange(i as int, k as int),
        decreases n - k,
    {
        r.push(v[k]);
        k = k + 1;
    }
    assert(r@ =~= v@.skip(i as int));
    r
}

fn is_hex_digit(c: char) -> (r: bool)
    ensures
        r == is_hex_char(c),
{
    ('0' <= c && c <= '9') || ('a' <= c && c <= 'f') || ('A' <= c && c <= 'F')
}

/// The background colour written into Android resources: `#` and the first
/// six hex digits of the colour text, or `#ffffff` when there are not six.
pub fn normalize_rgb_hex(input: &str) -> (r: String)
    requires
        rgb_hex_slice_ok(input@),
    ensures
        r@ == rgb_hex_of(input@),
{
    let raw = color_digit_chars(input);
    if raw.len() >= 6 {
        let mut all_hex = true;
        let mut i: usize = 0;
        while i < 6
            invariant
                i <= 6 <= raw@.len(),
                all_hex == (forall|j: int| 0 <= j < i ==> is_hex_char(#[trigger] raw@[j])),
            decreases 6 - i,
        {
            all_hex = all_hex && is_hex_digit(raw[i]);
            i = i + 1;
        }
        if all_hex {
            let mut out: Vec<char> = Vec::new();
            out.push('#');
            let mut k: usize = 0;
            while k < 6
                invariant
                    k <= 6 <= raw@.len(),
                    out@ == seq!['#'] + raw@.take(k as int),
                decreases 6 - k,
            {
                out.push(raw[k]);
                k = k + 1;
                assert(out@ =~= seq!['#'] + raw@.take(k as int));
            }
            proof {
                reveal_strlit("#");
                assert("#"@ =~= seq!['#']);
            }
            return string_of(out);
        }
    }
    String::from_str("#ffffff")
}


/// An ASCII hex digit byte.
pub open spec fn is_hex_byte(b: u8) -> bool {
    (48 <= b <= 57) || (97 <= b <= 102) || (65 <= b <= 70)
}

/// The value of a hex digit byte.
pub open spec fn hex_value(b: u8) -> int {
    if 48 <= b <= 57 {
        b - 48
    } else if 97 <= b <= 102 {
        b - 87
    } else {
        b - 55
    }
}

/// `u8::from_str_radix(s, 16)` on the two bytes `b[i]`, `b[i + 1]`: two hex
/// digits, or `+` and one hex digit.
pub open spec fn hex_pair(b: Seq<u8>, i: int) -> Option<u8> {
    let x = b[i];
    let y = b[i + 1];
    if x == 43 {
        if is_hex_byte(y) {
            Some(hex_value(y) as u8)
        } else {
            None
        }
    } else if is_hex_byte(x) && is_hex_byte(y) {
        Some((16 * hex_value(x) + hex_value(y)) as u8)
    } else {
        None
    }
}

/// The colour `(red, green, blue, alpha)` written `rrggbb` (opaque) or
/// `rrggbbaa` after trimming and leading `#`s, if the text is one.
pub open spec fn color_of(input: Seq<char>) -> Option<(u8, u8, u8, u8)> {
    let b = crate::text::utf8(color_digits(input));
    if b.len() == 6 {
        match (hex_pair(b, 0), hex_pair(b, 2), hex_pair(b, 4)) {
            (Some(r), Some(g), Some(bl)) => Some((r, g, bl, 255u8)),
            _ => None,
        }
    } else if b.len() == 8 {
        match (hex_pair(b, 0), hex_pair(b, 2), hex_pair(b, 4), hex_pair(b, 6)) {
            (Some(r), Some(g), Some(bl), Some(a)) => Some((r, g, bl, a)),
            _ => None,
        }
    } else {
        None
    }
}

/// Every byte slice that `parse_color` takes, before it gives up, starts and
/// ends on a character boundary (slicing elsewhere would panic).
pub open spec fn color_slices_ok(input: Seq<char>) -> bool {
    let b = crate::text::utf8(color_digits(input));
    &&& b.len() == 6 ==> {
        &&& vstd::utf8::is_char_boundary(b, 2)
        &&& hex_pair(b, 0) is Some ==> vstd::utf8::is_char_boundary(b, 4)
    }
    &&& b.len() == 8 ==> {
        &&& vstd::utf8::is_char_boundary(b, 2)
        &&& hex_pair(b, 0) is Some ==> vstd::utf8::is_char_boundary(b, 4)
        &&& hex_pair(b, 0) is Some && hex_pair(b, 2) is Some ==> vstd::utf8::is_char_boundary(b, 6)
    }
}

fn is_hex_byte_exec(b: u8) -> (r: bool)
    ensures
        r == is_hex_byte(b),
{
    (48 <= b && b <= 57) || (97 <= b && b <= 102) || (65 <= b && b <= 70)
}

fn hex_value_exec(b: u8) -> (r: u8)
    requires
        is_hex_byte(b),
    ensures
        r == hex_value(b),
        r < 16,
{
    if 48 <= b && b <= 57 {
        b - 48
    } else if 97 <= b && b <= 102 {
        b - 87
    } else {
        b - 55
    }
}

fn parse_hex_pair(b: &[u8], i: usize) -> (r: Option<u8>)
    requires
        i + 1 < b@.len(),
    ensures
        r == hex_pair(b@, i as int),
{
    let x = b[i];
    let y = b[i + 1];
    if x == 43 {
        if is_hex_byte_exec(y) {
            Some(hex_value_exec(y))
        } else {
            None
        }
    } else if is_hex_byte_exec(x) && is_hex_byte_exec(y) {
        Some(16 * hex_value_exec(x) + hex_value_exec(y))
    } else {
        None
    }
}

/// Parses a background colour `[#…]rrggbb` or `[#…]rrggbbaa`.
pub fn parse_color(input: &str) -> (r: Option<(u8, u8, u8, u8)>)
    requires
        color_slices_ok(input@),
    ensures
        r == color_of(input@),
{
    let raw = string_of(color_digit_chars(input));
    let b = raw.as_str().as_bytes();
    let n = b.len();
    if n == 6 {
        let red = parse_hex_pair(b, 0)?;
        let green = parse_hex_pair(b, 2)?;
        let blue = parse_hex_pair(b, 4)?;
        Some((red, green, blue, 255))
    } else if n == 8 {
        let red = parse_hex_pair(b, 0)?;
        let green = parse_hex_pair(b, 2)?;
        let blue = parse_hex_pair(b, 4)?;
        let alpha = parse_hex_pair(b, 6)?;
        Some((red, green, blue, alpha))
    } else {
        None
    }
}

/// The colour an export clears its canvas with: the parsed background, or
/// transparent white for PNG and opaque white for JPEG.
pub open spec fn clear_color_of(format: SvgExportFormat, background: Seq<char>) -> (u8, u8, u8, u8) {
    match color_of(background) {
        Some(c) => c,
        None => match format {
            SvgExportFormat::Png => (255u8, 255u8, 255u8, 0u8),
            _ => (255u8, 255u8, 255u8, 255u8),
        },
    }
}

/// The canvas colour of a single export.
pub fn export_clear_color(format: SvgExportFormat, background: &str) -> (r: (u8, u8, u8, u8))
    requires
        color_slices_ok(background@),
    ensures
        r == clear_color_of(format, background@),
{
    match parse_color(background) {
        Some(c) => c,
        None => match format {
            SvgExportFormat::Png => (255, 255, 255, 0),
            SvgExportFormat::Jpg | SvgExportFormat::Jpeg => (255, 255, 255, 255),
        },
    }
}

/// A background that parses as a colour is the canvas colour, whatever the
/// export format; only an unparsable background falls back, to opaque white
/// for JPEG (which has no transparency) and to transparent white for PNG.
pub proof fn law_parsed_background_is_canvas(format: SvgExportFormat, background: Seq<char>)
    ensures
        color_of(background) matches Some(c) ==> clear_color_of(format, background) == c,
        color_of(background) is None && format != SvgExportFormat::Png
            ==> clear_color_of(format, background) == (255u8, 255u8, 255u8, 255u8),
        color_of(background) is None ==> clear_color_of(SvgExportFormat::Png, background).3 == 0,
        clear_color_of(SvgExportFormat::Jpg, background) == clear_color_of(SvgExportFormat::Jpeg, background),
{
}

/// The canvas colour of an icon: the parsed background, or transparent white.
pub fn icon_clear_color(background: &str) -> (r: (u8, u8, u8, u8))
    requires
        color_slices_ok(background@),
    ensures
        r == clear_color_of(SvgExportFormat::Png, background@),
{
    match parse_color(background) {
        Some(c) => c,
        None => (255, 255, 255, 0),
    }
}


/// `char::is_ascii_alphanumeric`.
pub open spec fn is_ascii_alnum(c: char) -> bool {
    ('0' <= c && c <= '9') || ('a' <= c && c <= 'z') || ('A' <= c && c <= 'Z')
}

/// `char::to_ascii_lowercase`.
pub open spec fn ascii_lower(c: char) -> char {
    if 'A' <= c && c <= 'Z' {
        ((c as u32) + 32) as char
    } else {
        c
    }
}

fn to_ascii_lower(c: char) -> (r: char)
    ensures
        r == ascii_lower(c),
{
    if 'A' <= c && c <= 'Z' {
        let b: u8 = c as u8;
        assert(b as u32 == c as u32);
        (b + 32) as char
    } else {
        c
    }
}


/// One character of an app name turned into a package name: letters and
/// digits lowercased, `-` and `_` kept, any other run of characters becomes
/// a single `-`.
pub open spec fn stem_step(out: Seq<char>, c: char) -> Seq<char> {
    if is_ascii_alnum(c) {
        out.push(ascii_lower(c))
    } else if c == '-' || c == '_' {
        out.push(c)
    } else if out.len() > 0 && out.last() == '-' {
        out
    } else {
        out.push('-')
    }
}

/// The characters of `s` turned into package-name characters.
pub open spec fn stem_chars(s: Seq<char>) -> Seq<char>
    decreases s.len(),
{
    if s.len() == 0 {
        Seq::empty()
    } else {
        stem_step(stem_chars(s.drop_last()), s.last())
    }
}

/// `str::trim_start_matches('-')`.
pub open spec fn trim_dashes_start(s: Seq<char>) -> Seq<char>
    decreases s.len(),
{
    if s.len() > 0 && s[0] == '-' {
        trim_dashes_start(s.drop_first())
    } else {
        s
    }
}

/// `str::trim_end_matches('-')`.
pub open spec fn trim_dashes_end(s: Seq<char>) -> Seq<char>
    decreases s.len(),
{
    if s.len() > 0 && s.last() == '-' {
        trim_dashes_end(s.drop_last())
    } else {
        s
    }
}

/// The package name of an icon set: the trimmed app name in package-name
/// characters, without leading or trailing `-`, or `app` if nothing is left.
pub open spec fn package_name(input: Seq<char>) -> Seq<char> {
    let t = trim_dashes_end(trim_dashes_start(stem_chars(crate::text::trim(input))));
    if t.len() == 0 {
        "app"@
    } else {
        t
    }
}

/// Turns an app name into the name of its icon package directory.
pub fn sanitize_file_stem(input: &str) -> (r: String)
    ensures
        r@ == package_name(input@),
{
    let chars = trimmed_chars(input);
    let mut output: Vec<char> = Vec::new();
    let mut i: usize = 0;
    while i < chars.len()
        invariant
            i <= chars@.len(),
            output@ == stem_chars(chars@.take(i as int)),
        decreases chars@.len() - i,
    {
        let c = chars[i];
        assert(chars@.take(i + 1).drop_last() =~= chars@.take(i as int));
        if ('0' <= c && c <= '9') || ('a' <= c && c <= 'z') || ('A' <= c && c <= 'Z') {
            output.push(to_ascii_lower(c));
        } else if c == '-' || c == '_' {
            output.push(c);
        } else if !(output.len() > 0 && output[output.len() - 1] == '-') {
            output.push('-');
        }
        i = i + 1;
    }
    assert(chars@.take(chars@.len() as int) =~= chars@);
    let n = output.len();
    let mut a: usize = 0;
    assert(output@.skip(0) =~= output@);
    while a < n && output[a] == '-'
        invariant
            a <= n == output@.len(),
            trim_dashes_start(output@) == trim_dashes_start(output@.skip(a as int)),
        decreases n - a,
    {
        assert(output@.skip(a as int).drop_first() =~= output@.skip(a + 1));
        a = a + 1;
    }
    let mut b: usize = n;
    assert(output@.skip(a as int) =~= output@.subrange(a as int, b as int));
    while b > a && output[b - 1] == '-'
        invariant
            a <= b <= n == output@.len(),
            trim_dashes_end(trim_dashes_start(output@)) == trim_dashes_end(output@.subrange(a as int, b as int)),
        decreases b,
    {
        assert(output@.subrange(a as int, b as int).drop_last() =~= output@.subrange(a as int, b - 1));
        b = b - 1;
    }
    if a == b {
        return String::from_str("app");
    }
    string_of(crate::text::slice_chars(&output, a, b))
}


/// The characters a package name is made of.
pub open spec fn is_name_char(c: char) -> bool {
    ('0' <= c && c <= '9') || ('a' <= c && c <= 'z') || c == '-' || c == '_'
}

pub open spec fn all_name_chars(s: Seq<char>) -> bool {
    forall|i: int| 0 <= i < s.len() ==> is_name_char(#[trigger] s[i])
}

proof fn lemma_stem_chars_are_name_chars(s: Seq<char>)
    ensures
        all_name_chars(stem_chars(s)),
    decreases s.len(),
{
    if s.len() > 0 {
        lemma_stem_chars_are_name_chars(s.drop_last());
        let prev = stem_chars(s.drop_last());
        let next = stem_chars(s);
        assert forall|i: int| 0 <= i < next.len() implies is_name_char(#[trigger] next[i]) by {
            if i < prev.len() {
                assert(next[i] == prev[i]);
            }
        }
    }
}

proof fn lemma_trim_dashes_start(s: Seq<char>)
    requires
        all_name_chars(s),
    ensures
        all_name_chars(trim_dashes_start(s)),
        trim_dashes_start(s).len() > 0 ==> trim_dashes_start(s)[0] != '-',
    decreases s.len(),
{
    if s.len() > 0 && s[0] == '-' {
        assert(all_name_chars(s.drop_first())) by {
            assert forall|i: int| 0 <= i < s.drop_first().len() implies is_name_char(#[trigger] s.drop_first()[i]) by {
                assert(s.drop_first()[i] == s[i + 1]);
            }
        }
        lemma_trim_dashes_start(s.drop_first());
    }
}

proof fn lemma_trim_dashes_end(s: Seq<char>)
    requires
        all_name_chars(s),
        s.len() > 0 ==> s[0] != '-',
    ensures
        all_name_chars(trim_dashes_end(s)),
        trim_dashes_end(s).len() > 0 ==> trim_dashes_end(s)[0] != '-' && trim_dashes_end(s).last() != '-',
    decreases s.len(),
{
    if s.len() > 0 && s.last() == '-' {
        let d = s.drop_last();
        assert(all_name_chars(d)) by {
            assert forall|i: int| 0 <= i < d.len() implies is_name_char(#[trigger] d[i]) by {
                assert(d[i] == s[i]);
            }
        }
        if d.len() > 0 {
            assert(d[0] == s[0]);
        }
        lemma_trim_dashes_end(d);
    }
}

proof fn lemma_name_fixed(t: Seq<char>)
    requires
        all_name_chars(t),
    ensures
        stem_chars(t) == t,
        crate::text::trim_start(t) == t,
        crate::text::trim_end(t) == t,
    decreases t.len(),
{
    if t.len() > 0 {
        let d = t.drop_last();
        assert(all_name_chars(d)) by {
            assert forall|i: int| 0 <= i < d.len() implies is_name_char(#[trigger] d[i]) by {
                assert(d[i] == t[i]);
            }
        }
        lemma_name_fixed(d);
        assert(is_name_char(t.last()));
        assert(d.push(t.last()) =~= t);
        assert(is_name_char(t[0]));
    }
}

proof fn lemma_trim_dashes_fixed(t: Seq<char>)
    requires
        t.len() > 0,
        t[0] != '-',
        t.last() != '-',
    ensures
        trim_dashes_end(trim_dashes_start(t)) == t,
{
}

proof fn lemma_package_name_shape(s: Seq<char>)
    ensures
        all_name_chars(package_name(s)),
        package_name(s).len() > 0,
        package_name(s)[0] != '-',
        package_name(s).last() != '-',
{
    let st = stem_chars(crate::text::trim(s));
    lemma_stem_chars_are_name_chars(crate::text::trim(s));
    lemma_trim_dashes_start(st);
    lemma_trim_dashes_end(trim_dashes_start(st));
    let t = trim_dashes_end(trim_dashes_start(st));
    if t.len() == 0 {
        reveal_strlit("app");
    }
}

/// A package name is never empty, holds only lower-case ASCII letters,
/// digits, `-` and `_`, and neither begins nor ends with `-`.
pub proof fn law_package_name_shape(s: Seq<char>)
    ensures
        package_name(s).len() > 0,
        forall|i: int| 0 <= i < package_name(s).len() ==> is_name_char(#[trigger] package_name(s)[i]),
        package_name(s)[0] != '-',
        package_name(s).last() != '-',
{
    lemma_package_name_shape(s);
}

/// Package names are stable: turning a package name into a package name
/// again gives it back unchanged.
pub proof fn law_package_name_idempotent(s: Seq<char>)
    ensures
        package_name(package_name(s)) == package_name(s),
{
    let p = package_name(s);
    lemma_package_name_shape(s);
    lemma_name_fixed(p);
    assert(crate::text::trim(p) == p);
    lemma_trim_dashes_fixed(p);
}


/// The total size of the first `k` assets.
pub open spec fn asset_bytes(assets: Seq<IconAssetResult>, k: int) -> int
    decreases k,
{
    if k <= 0 {
        0
    } else {
        asset_bytes(assets, k - 1) + assets[k - 1].output_bytes
    }
}

proof fn lemma_asset_bytes_monotone(assets: Seq<IconAssetResult>, i: int, j: int)
    requires
        0 <= i <= j,
    ensures
        0 <= asset_bytes(assets, i) <= asset_bytes(assets, j),
    decreases j,
{
    if i < j {
        lemma_asset_bytes_monotone(assets, i, j - 1);
    } else if i > 0 {
        lemma_asset_bytes_monotone(assets, i - 1, i - 1);
    }
}

/// The result of an icon-set export: its directory, how many files and how
/// many bytes it generated, the platforms and the files.
pub fn icon_set_result(output_dir: String, platforms: Vec<IconPlatform>, assets: Vec<IconAssetResult>) -> (r: SvgIconSetResult)
    requires
        asset_bytes(assets@, assets@.len() as int) <= u64::MAX,
    ensures
        r.output_dir == output_dir,
        r.generated_count == assets@.len(),
        r.total_bytes == asset_bytes(assets@, assets@.len() as int),
        r.platforms@ == platforms@,
        r.assets@ == assets@,
{
    let mut total: u64 = 0;
    let mut i: usize = 0;
    while i < assets.len()
        invariant
            i <= assets@.len(),
            asset_bytes(assets@, assets@.len() as int) <= u64::MAX,
            total == asset_bytes(assets@, i as int),
        decreases assets@.len() - i,
    {
        proof {
            lemma_asset_bytes_monotone(assets@, i as int + 1, assets@.len() as int);
        }
        total = total + assets[i].output_bytes;
        i = i + 1;
    }
    SvgIconSetResult { output_dir, generated_count: assets.len(), total_bytes: total, platforms, assets }
}

} // verus!
