//! The contents of each platform's icon set: which files are made, at which
//! path under the set's directory, from which source (a PNG rendering of a
//! given size, an `.ico`, an `.icns`, a text file or the iOS `Contents.json`).

use vstd::prelude::*;
use crate::svg::{IconPlatform, SvgIconSetRequest, normalize_rgb_hex};
use crate::text::{chars_of, push_chars, push_decimal, string_of};

verus! {

/// How a file of an icon set is produced.
pub enum AssetSource {
    /// A square PNG rendering of the SVG.
    RenderPng { size: u32, background: String, padding_percent: u8 },
    /// An `.ico` holding the renderings of `ico_sizes()`.
    Ico,
    /// An `.icns` holding the renderings of `icns_kinds()`.
    Icns,
    /// A text file with the given contents.
    Text { contents: String },
    /// The asset catalogue `Contents.json` listing `ios_contents_images()`.
    IosContents,
}

/// One file of an icon set, its path relative to the set's directory.
pub struct IconAssetPlan {
    pub platform: IconPlatform,
    pub relative_path: String,
    pub source: AssetSource,
}

/// The model of an `AssetSource`.
pub enum SourceSpec {
    RenderPng { size: u32, background: Seq<char>, padding_percent: u8 },
    Ico,
    Icns,
    Text { contents: Seq<char> },
    IosContents,
}

/// The model of an `IconAssetPlan`.
pub struct PlanSpec {
    pub platform: IconPlatform,
    pub path: Seq<char>,
    pub source: SourceSpec,
}

impl AssetSource {
    pub open spec fn spec(&self) -> SourceSpec {
        match self {
            AssetSource::RenderPng { size, background, padding_percent } => SourceSpec::RenderPng {
                size: *size,
                background: background@,
                padding_percent: *padding_percent,
            },
            AssetSource::Ico => SourceSpec::Ico,
            AssetSource::Icns => SourceSpec::Icns,
            AssetSource::Text { contents } => SourceSpec::Text { contents: contents@ },
            AssetSource::IosContents => SourceSpec::IosContents,
        }
    }
}

impl IconAssetPlan {
    pub open spec fn spec(&self) -> PlanSpec {
        PlanSpec { platform: self.platform, path: self.relative_path@, source: self.source.spec() }
    }
}

/// The models of a list of planned files.
pub open spec fn plan_specs(v: Seq<IconAssetPlan>) -> Seq<PlanSpec> {
    v.map_values(|p: IconAssetPlan| p.spec())
}

pub open spec fn png_spec(platform: IconPlatform, path: Seq<char>, size: u32, background: Seq<char>, padding_percent: u8) -> PlanSpec {
    PlanSpec {
        platform,
        path,
        source: SourceSpec::RenderPng { size, background, padding_percent },
    }
}

pub open spec fn text_spec(platform: IconPlatform, path: Seq<char>, contents: Seq<char>) -> PlanSpec {
    PlanSpec { platform, path, source: SourceSpec::Text { contents } }
}

struct Planner {
    items: Vec<IconAssetPlan>,
}

impl Planner {
    fn add(&mut self, platform: IconPlatform, path: Vec<char>, source: AssetSource)
        ensures
            plan_specs(final(self).items@) == plan_specs(old(self).items@).push(
                PlanSpec { platform, path: path@, source: source.spec() },
            ),
    {
        let item = IconAssetPlan { platform, relative_path: string_of(path), source };
        self.items.push(item);
        assert(plan_specs(self.items@) =~= plan_specs(old(self).items@).push(
            PlanSpec { platform, path: path@, source: source.spec() },
        ));
    }

    fn add_png(&mut self, platform: IconPlatform, path: Vec<char>, size: u32, background: &str, padding_percent: u8)
        ensures
            plan_specs(final(self).items@) == plan_specs(old(self).items@).push(
                png_spec(platform, path@, size, background@, padding_percent),
            ),
    {
        let source = AssetSource::RenderPng {
            size,
            background: String::from_str(background),
            padding_percent,
        };
        self.add(platform, path, source);
    }
}

fn joined(root: &str, rel: &str) -> (r: Vec<char>)
    ensures
        r@ == root@ + rel@,
{
    let mut v = chars_of(root);
    push_chars(&mut v, rel);
    v
}

fn joined3(root: &str, middle: &str, rel: &str) -> (r: Vec<char>)
    ensures
        r@ == root@ + middle@ + rel@,
{
    let mut v = chars_of(root);
    push_chars(&mut v, middle);
    push_chars(&mut v, rel);
    v
}


/// The resource file that sets the adaptive icon's background colour.
pub open spec fn background_xml(color: Seq<char>) -> Seq<char> {
    "<?xml version=\"1.0\" encoding=\"utf-8\"?>\n<resources>\n    <color name=\"ic_launcher_background\">"@ + color + "</color>\n</resources>\n"@
}

/// The adaptive icon resource (background colour, foreground mipmap).
pub open spec fn adaptive_xml() -> Seq<char> {
    "<?xml version=\"1.0\" encoding=\"utf-8\"?>\n<adaptive-icon xmlns:android=\"http://schemas.android.com/apk/res/android\">\n    <background android:drawable=\"@color/ic_launcher_background\" />\n    <foreground android:drawable=\"@mipmap/ic_launcher_foreground\" />\n</adaptive-icon>\n"@
}

fn adaptive_xml_text() -> (r: String)
    ensures
        r@ == adaptive_xml(),
{
    String::from_str("<?xml version=\"1.0\" encoding=\"utf-8\"?>\n<adaptive-icon xmlns:android=\"http://schemas.android.com/apk/res/android\">\n    <background android:drawable=\"@color/ic_launcher_background\" />\n    <foreground android:drawable=\"@mipmap/ic_launcher_foreground\" />\n</adaptive-icon>\n")
}

/// The foreground padding of Android adaptive icons: at least 17 %.
pub open spec fn foreground_padding(padding_percent: u8) -> u8 {
    if padding_percent > 17 {
        padding_percent
    } else {
        17
    }
}

/// `root/app/src/main/res/` followed by `rel`.
pub open spec fn res_path(root: Seq<char>, rel: Seq<char>) -> Seq<char> {
    root + "/app/src/main/res/"@ + rel
}

/// The three launcher images of one density.
pub open spec fn android_density(root: Seq<char>, platform: IconPlatform, background: Seq<char>, padding_percent: u8, folder: Seq<char>, legacy: u32, foreground: u32) -> Seq<PlanSpec> {
    seq![
        png_spec(platform, res_path(root, folder + "/ic_launcher.png"@), legacy, background, padding_percent),
        png_spec(platform, res_path(root, folder + "/ic_launcher_round.png"@), legacy, background, padding_percent),
        png_spec(platform, res_path(root, folder + "/ic_launcher_foreground.png"@), foreground, "#00000000"@, foreground_padding(padding_percent)),
    ]
}

/// The Android icon set under `root`: five densities, the store icon, and
/// the adaptive icon resources.
pub open spec fn android_plan(root: Seq<char>, platform: IconPlatform, background: Seq<char>, padding_percent: u8) -> Seq<PlanSpec> {
    android_density(root, platform, background, padding_percent, "mipmap-mdpi"@, 48, 108)
        + android_density(root, platform, background, padding_percent, "mipmap-hdpi"@, 72, 162)
        + android_density(root, platform, background, padding_percent, "mipmap-xhdpi"@, 96, 216)
        + android_density(root, platform, background, padding_percent, "mipmap-xxhdpi"@, 144, 324)
        + android_density(root, platform, background, padding_percent, "mipmap-xxxhdpi"@, 192, 432)
        + seq![
        png_spec(platform, root + "/play-store-icon.png"@, 512, background, padding_percent),
        text_spec(platform, res_path(root, "values/ic_launcher_background.xml"@), background_xml(crate::svg::rgb_hex_of(background))),
        text_spec(platform, res_path(root, "mipmap-anydpi-v26/ic_launcher.xml"@), adaptive_xml()),
        text_spec(platform, res_path(root, "mipmap-anydpi-v26/ic_launcher_round.xml"@), adaptive_xml()),
    ]
}

fn res_file(root: &str, folder: &str, file: &str) -> (r: Vec<char>)
    ensures
        r@ == res_path(root@, folder@ + file@),
{
    let mut v = chars_of(root);
    push_chars(&mut v, "/app/src/main/res/");
    push_chars(&mut v, folder);
    push_chars(&mut v, file);
    assert(v@ =~= res_path(root@, folder@ + file@));
    v
}

impl Planner {
    fn android_density(&mut self, root: &str, platform: IconPlatform, background: &str, padding_percent: u8, folder: &str, legacy: u32, foreground: u32)
        ensures
            plan_specs(final(self).items@) == plan_specs(old(self).items@) + android_density(root@, platform, background@, padding_percent, folder@, legacy, foreground),
    {
        self.add_png(platform, res_file(root, folder, "/ic_launcher.png"), legacy, background, padding_percent);
        self.add_png(platform, res_file(root, folder, "/ic_launcher_round.png"), legacy, background, padding_percent);
        let fg_padding = if padding_percent > 17 { padding_percent } else { 17 };
        self.add_png(platform, res_file(root, folder, "/ic_launcher_foreground.png"), foreground, "#00000000", fg_padding);
        assert(plan_specs(self.items@) =~= plan_specs(old(self).items@) + android_density(root@, platform, background@, padding_percent, folder@, legacy, foreground));
    }

    fn android(&mut self, root: &str, platform: IconPlatform, background: &str, padding_percent: u8)
        requires
            crate::svg::rgb_hex_slice_ok(background@),
        ensures
            plan_specs(final(self).items@) == plan_specs(old(self).items@) + android_plan(root@, platform, background@, padding_percent),
    {
        let ghost start = plan_specs(self.items@);
        self.android_density(root, platform, background, padding_percent, "mipmap-mdpi", 48, 108);
        self.android_density(root, platform, background, padding_percent, "mipmap-hdpi", 72, 162);
        self.android_density(root, platform, background, padding_percent, "mipmap-xhdpi", 96, 216);
        self.android_density(root, platform, background, padding_percent, "mipmap-xxhdpi", 144, 324);
        self.android_density(root, platform, background, padding_percent, "mipmap-xxxhdpi", 192, 432);
        self.add_png(platform, joined(root, "/play-store-icon.png"), 512, background, padding_percent);
        let mut xml = chars_of("<?xml version=\"1.0\" encoding=\"utf-8\"?>\n<resources>\n    <color name=\"ic_launcher_background\">");
        let color = normalize_rgb_hex(background);
        push_chars(&mut xml, color.as_str());
        push_chars(&mut xml, "</color>\n</resources>\n");
        self.add(platform, res_file(root, "", "values/ic_launcher_background.xml"), AssetSource::Text { contents: string_of(xml) });
        self.add(platform, res_file(root, "", "mipmap-anydpi-v26/ic_launcher.xml"), AssetSource::Text { contents: adaptive_xml_text() });
        self.add(platform, res_file(root, "", "mipmap-anydpi-v26/ic_launcher_round.xml"), AssetSource::Text { contents: adaptive_xml_text() });
        proof {
            reveal_strlit("");
            assert(""@ + "values/ic_launcher_background.xml"@ =~= "values/ic_launcher_background.xml"@);
            assert(""@ + "mipmap-anydpi-v26/ic_launcher.xml"@ =~= "mipmap-anydpi-v26/ic_launcher.xml"@);
            assert(""@ + "mipmap-anydpi-v26/ic_launcher_round.xml"@ =~= "mipmap-anydpi-v26/ic_launcher_round.xml"@);
        }
        assert(plan_specs(self.items@) =~= start + android_plan(root@, platform, background@, padding_percent));
    }
}


/// One image of the iOS app icon catalogue: device idiom, point size,
/// scale and edge in pixels.
#[derive(Debug, Clone, Copy)]
pub struct IosIconSpec {
    pub idiom: &'static str,
    pub size: &'static str,
    pub scale: &'static str,
    pub pixels: u32,
}

impl IosIconSpec {
    pub open spec fn spec(&self) -> (Seq<char>, Seq<char>, Seq<char>, u32) {
        (self.idiom@, self.size@, self.scale@, self.pixels)
    }
}

/// The images of the iOS app icon catalogue, in order.
pub open spec fn ios_table() -> Seq<(Seq<char>, Seq<char>, Seq<char>, u32)> {
    seq![
        ("iphone"@, "20"@, "2x"@, 40u32),
        ("iphone"@, "20"@, "3x"@, 60u32),
        ("iphone"@, "29"@, "2x"@, 58u32),
        ("iphone"@, "29"@, "3x"@, 87u32),
        ("iphone"@, "40"@, "2x"@, 80u32),
        ("iphone"@, "40"@, "3x"@, 120u32),
        ("iphone"@, "60"@, "2x"@, 120u32),
        ("iphone"@, "60"@, "3x"@, 180u32),
        ("ipad"@, "20"@, "1x"@, 20u32),
        ("ipad"@, "20"@, "2x"@, 40u32),
        ("ipad"@, "29"@, "1x"@, 29u32),
        ("ipad"@, "29"@, "2x"@, 58u32),
        ("ipad"@, "40"@, "1x"@, 40u32),
        ("ipad"@, "40"@, "2x"@, 80u32),
        ("ipad"@, "76"@, "1x"@, 76u32),
        ("ipad"@, "76"@, "2x"@, 152u32),
        ("ipad"@, "83.5"@, "2x"@, 167u32),
        ("ios-marketing"@, "1024"@, "1x"@, 1024u32)
    ]
}

/// The images of the iOS app icon catalogue.
pub fn ios_icon_specs() -> (r: Vec<IosIconSpec>)
    ensures
        r@.len() == ios_table().len(),
        forall|i: int| 0 <= i < r@.len() ==> (#[trigger] r@[i]).spec() == ios_table()[i],
{
    let r = vec![
        IosIconSpec { idiom: "iphone", size: "20", scale: "2x", pixels: 40 },
        IosIconSpec { idiom: "iphone", size: "20", scale: "3x", pixels: 60 },
        IosIconSpec { idiom: "iphone", size: "29", scale: "2x", pixels: 58 },
        IosIconSpec { idiom: "iphone", size: "29", scale: "3x", pixels: 87 },
        IosIconSpec { idiom: "iphone", size: "40", scale: "2x", pixels: 80 },
        IosIconSpec { idiom: "iphone", size: "40", scale: "3x", pixels: 120 },
        IosIconSpec { idiom: "iphone", size: "60", scale: "2x", pixels: 120 },
        IosIconSpec { idiom: "iphone", size: "60", scale: "3x", pixels: 180 },
        IosIconSpec { idiom: "ipad", size: "20", scale: "1x", pixels: 20 },
        IosIconSpec { idiom: "ipad", size: "20", scale: "2x", pixels: 40 },
        IosIconSpec { idiom: "ipad", size: "29", scale: "1x", pixels: 29 },
        IosIconSpec { idiom: "ipad", size: "29", scale: "2x", pixels: 58 },
        IosIconSpec { idiom: "ipad", size: "40", scale: "1x", pixels: 40 },
        IosIconSpec { idiom: "ipad", size: "40", scale: "2x", pixels: 80 },
        IosIconSpec { idiom: "ipad", size: "76", scale: "1x", pixels: 76 },
        IosIconSpec { idiom: "ipad", size: "76", scale: "2x", pixels: 152 },
        IosIconSpec { idiom: "ipad", size: "83.5", scale: "2x", pixels: 167 },
        IosIconSpec { idiom: "ios-marketing", size: "1024", scale: "1x", pixels: 1024 },
    ];
    assert(r@.len() == 18);
    r
}

/// The point size with `.` written `_` (as in `83_5`).
pub open spec fn dotless(size: Seq<char>) -> Seq<char> {
    size.map_values(|c: char| if c == '.' { '_' } else { c })
}

/// The file name of an iOS icon image.
pub open spec fn ios_file_name(size: Seq<char>, scale: Seq<char>) -> Seq<char> {
    "AppIcon-"@ + dotless(size) + "@"@ + scale + ".png"@
}

/// `root/Assets.xcassets/AppIcon.appiconset/` followed by `rel`.
pub open spec fn appiconset_path(root: Seq<char>, rel: Seq<char>) -> Seq<char> {
    root + "/Assets.xcassets/AppIcon.appiconset/"@ + rel
}

/// The renderings of the first `k` catalogue images.
pub open spec fn ios_pngs(root: Seq<char>, platform: IconPlatform, background: Seq<char>, padding_percent: u8, k: int) -> Seq<PlanSpec>
    decreases k,
{
    if k <= 0 {
        Seq::empty()
    } else {
        let e = ios_table()[k - 1];
        ios_pngs(root, platform, background, padding_percent, k - 1) + seq![
            png_spec(platform, appiconset_path(root, ios_file_name(e.1, e.2)), e.3, background, padding_percent),
        ]
    }
}

/// The iOS icon set under `root`: one rendering per catalogue image, then
/// the catalogue's `Contents.json`.
pub open spec fn ios_plan(root: Seq<char>, platform: IconPlatform, background: Seq<char>, padding_percent: u8) -> Seq<PlanSpec> {
    ios_pngs(root, platform, background, padding_percent, ios_table().len() as int) + seq![
        PlanSpec { platform, path: appiconset_path(root, "Contents.json"@), source: SourceSpec::IosContents },
    ]
}

fn push_dotless(out: &mut Vec<char>, size: &str)
    ensures
        final(out)@ == old(out)@ + dotless(size@),
{
    let v = chars_of(size);
    let ghost start = out@;
    let mut i: usize = 0;
    while i < v.len()
        invariant
            i <= v@.len(),
            v@ == size@,
            out@ == start + dotless(v@.take(i as int)),
        decreases v@.len() - i,
    {
        let c = v[i];
        out.push(if c == '.' { '_' } else { c });
        i = i + 1;
        assert(out@ =~= start + dotless(v@.take(i as int)));
    }
    assert(v@.take(v@.len() as int) =~= v@);
}

/// The file name of an iOS icon image.
pub fn ios_icon_file_name(spec: &IosIconSpec) -> (r: String)
    ensures
        r@ == ios_file_name(spec.size@, spec.scale@),
{
    let mut v = chars_of("AppIcon-");
    push_dotless(&mut v, spec.size);
    push_chars(&mut v, "@");
    push_chars(&mut v, spec.scale);
    push_chars(&mut v, ".png");
    string_of(v)
}

impl Planner {
    fn ios(&mut self, root: &str, platform: IconPlatform, background: &str, padding_percent: u8)
        ensures
            plan_specs(final(self).items@) == plan_specs(old(self).items@) + ios_plan(root@, platform, background@, padding_percent),
    {
        let ghost start = plan_specs(self.items@);
        let specs = ios_icon_specs();
        let mut i: usize = 0;
        while i < specs.len()
            invariant
                i <= specs@.len() == ios_table().len(),
                forall|j: int| 0 <= j < specs@.len() ==> (#[trigger] specs@[j]).spec() == ios_table()[j],
                plan_specs(self.items@) == start + ios_pngs(root@, platform, background@, padding_percent, i as int),
            decreases specs@.len() - i,
        {
            let spec = specs[i];
            assert(spec.spec() == ios_table()[i as int]);
            let name = ios_icon_file_name(&spec);
            let mut path = chars_of(root);
            push_chars(&mut path, "/Assets.xcassets/AppIcon.appiconset/");
            push_chars(&mut path, name.as_str());
            self.add_png(platform, path, spec.pixels, background, padding_percent);
            i = i + 1;
            assert(plan_specs(self.items@) =~= start + ios_pngs(root@, platform, background@, padding_percent, i as int));
        }
        let mut path = chars_of(root);
        push_chars(&mut path, "/Assets.xcassets/AppIcon.appiconset/");
        push_chars(&mut path, "Contents.json");
        self.add(platform, path, AssetSource::IosContents);
        assert(plan_specs(self.items@) =~= start + ios_plan(root@, platform, background@, padding_percent));
    }
}

/// One entry of the `images` list of the iOS `Contents.json`.
pub struct IosContentsImage {
    pub idiom: String,
    pub size: String,
    pub scale: String,
    pub filename: String,
}

/// The entry listing one catalogue image: idiom, `{size}x{size}`, scale,
/// file name.
pub open spec fn contents_entry(e: (Seq<char>, Seq<char>, Seq<char>, u32)) -> (Seq<char>, Seq<char>, Seq<char>, Seq<char>) {
    (e.0, e.1 + "x"@ + e.1, e.2, ios_file_name(e.1, e.2))
}

/// The `images` entries of the iOS `Contents.json`, one per catalogue image.
pub fn ios_contents_images() -> (r: Vec<IosContentsImage>)
    ensures
        r@.len() == ios_table().len(),
        forall|i: int| 0 <= i < r@.len() ==> ((#[trigger] r@[i]).idiom@, r@[i].size@, r@[i].scale@, r@[i].filename@) == contents_entry(ios_table()[i]),
{
    let specs = ios_icon_specs();
    let mut out: Vec<IosContentsImage> = Vec::new();
    let mut i: usize = 0;
    while i < specs.len()
        invariant
            i <= specs@.len() == ios_table().len(),
            forall|j: int| 0 <= j < specs@.len() ==> (#[trigger] specs@[j]).spec() == ios_table()[j],
            out@.len() == i,
            forall|j: int| 0 <= j < i ==> ((#[trigger] out@[j]).idiom@, out@[j].size@, out@[j].scale@, out@[j].filename@) == contents_entry(ios_table()[j]),
        decreases specs@.len() - i,
    {
        let spec = specs[i];
        assert(spec.spec() == ios_table()[i as int]);
        let mut size = chars_of(spec.size);
        push_chars(&mut size, "x");
        push_chars(&mut size, spec.size);
        out.push(IosContentsImage {
            idiom: String::from_str(spec.idiom),
            size: string_of(size),
            scale: String::from_str(spec.scale),
            filename: ios_icon_file_name(&spec),
        });
        i = i + 1;
    }
    out
}


/// The edges of the images inside a generated `.ico`.
pub open spec fn ico_size_table() -> Seq<u32> {
    seq![16u32, 24u32, 32u32, 48u32, 64u32, 128u32, 256u32]
}

/// The edges of the images inside a generated `.ico`.
pub fn ico_sizes() -> (r: Vec<u32>)
    ensures
        r@ == ico_size_table(),
{
    let r = vec![16u32, 24, 32, 48, 64, 128, 256];
    assert(r@ =~= ico_size_table());
    r
}

/// The chunk types and edges of the images inside a generated `.icns`.
pub open spec fn icns_table() -> Seq<(Seq<char>, u32)> {
    seq![("icp4"@, 16u32), ("icp5"@, 32u32), ("icp6"@, 64u32), ("ic07"@, 128u32), ("ic08"@, 256u32), ("ic09"@, 512u32), ("ic10"@, 1024u32)]
}

/// The chunk types and edges of the images inside a generated `.icns`.
pub fn icns_kinds() -> (r: Vec<(&'static str, u32)>)
    ensures
        r@.len() == icns_table().len(),
        forall|i: int| 0 <= i < r@.len() ==> ((#[trigger] r@[i]).0@, r@[i].1) == icns_table()[i],
{
    let r = vec![("icp4", 16u32), ("icp5", 32), ("icp6", 64), ("ic07", 128), ("ic08", 256), ("ic09", 512), ("ic10", 1024)];
    assert(r@.len() == 7);
    r
}

/// The Electron directory of icons under `root`.
pub open spec fn electron_root(root: Seq<char>) -> Seq<char> {
    root + "/build/icons/"@
}

/// The edges of Electron's `png/` renderings.
pub open spec fn electron_size_table() -> Seq<u32> {
    seq![16u32, 24u32, 32u32, 48u32, 64u32, 128u32, 256u32, 512u32, 1024u32]
}

/// The first `k` renderings of Electron's `png/` directory, named `{n}x{n}.png`.
pub open spec fn electron_pngs(root: Seq<char>, platform: IconPlatform, background: Seq<char>, padding_percent: u8, k: int) -> Seq<PlanSpec>
    decreases k,
{
    if k <= 0 {
        Seq::empty()
    } else {
        let n = electron_size_table()[k - 1];
        electron_pngs(root, platform, background, padding_percent, k - 1) + seq![
            png_spec(platform, electron_root(root) + "png/"@ + crate::text::decimal(n as nat) + "x"@ + crate::text::decimal(n as nat) + ".png"@, n, background, padding_percent),
        ]
    }
}

/// The Electron icon set under `root`: the `png/` renderings, `icon.png`,
/// `icon.ico` and `icon.icns`.
pub open spec fn electron_plan(root: Seq<char>, platform: IconPlatform, background: Seq<char>, padding_percent: u8) -> Seq<PlanSpec> {
    electron_pngs(root, platform, background, padding_percent, 9) + seq![
        png_spec(platform, electron_root(root) + "icon.png"@, 1024, background, padding_percent),
        PlanSpec { platform, path: electron_root(root) + "icon.ico"@, source: SourceSpec::Ico },
        PlanSpec { platform, path: electron_root(root) + "icon.icns"@, source: SourceSpec::Icns },
    ]
}

/// The Tauri directory of icons under `root`.
pub open spec fn tauri_root(root: Seq<char>) -> Seq<char> {
    root + "/src-tauri/icons/"@
}

/// The Tauri icon set under `root`: its named renderings, `icon.ico` and
/// `icon.icns`.
pub open spec fn tauri_plan(root: Seq<char>, platform: IconPlatform, background: Seq<char>, padding_percent: u8) -> Seq<PlanSpec> {
    seq![png_spec(platform, tauri_root(root) + "32x32.png"@, 32, background, padding_percent)] + seq![png_spec(platform, tauri_root(root) + "128x128.png"@, 128, background, padding_percent)] + seq![png_spec(platform, tauri_root(root) + "128x128@2x.png"@, 256, background, padding_percent)] + seq![png_spec(platform, tauri_root(root) + "icon.png"@, 1024, background, padding_percent)] + seq![png_spec(platform, tauri_root(root) + "Square30x30Logo.png"@, 30, background, padding_percent)] + seq![png_spec(platform, tauri_root(root) + "Square44x44Logo.png"@, 44, background, padding_percent)] + seq![png_spec(platform, tauri_root(root) + "Square71x71Logo.png"@, 71, background, padding_percent)] + seq![png_spec(platform, tauri_root(root) + "Square89x89Logo.png"@, 89, background, padding_percent)] + seq![png_spec(platform, tauri_root(root) + "Square107x107Logo.png"@, 107, background, padding_percent)] + seq![png_spec(platform, tauri_root(root) + "Square142x142Logo.png"@, 142, background, padding_percent)] + seq![png_spec(platform, tauri_root(root) + "Square150x150Logo.png"@, 150, background, padding_percent)] + seq![png_spec(platform, tauri_root(root) + "Square284x284Logo.png"@, 284, background, padding_percent)] + seq![png_spec(platform, tauri_root(root) + "Square310x310Logo.png"@, 310, background, padding_percent)] + seq![png_spec(platform, tauri_root(root) + "StoreLogo.png"@, 50, background, padding_percent)] + seq![
        PlanSpec { platform, path: tauri_root(root) + "icon.ico"@, source: SourceSpec::Ico },
        PlanSpec { platform, path: tauri_root(root) + "icon.icns"@, source: SourceSpec::Icns },
    ]
}

impl Planner {
    fn electron(&mut self, root: &str, platform: IconPlatform, background: &str, padding_percent: u8)
        ensures
            plan_specs(final(self).items@) == plan_specs(old(self).items@) + electron_plan(root@, platform, background@, padding_percent),
    {
        let ghost start = plan_specs(self.items@);
        let sizes: Vec<u32> = vec![16u32, 24, 32, 48, 64, 128, 256, 512, 1024];
        assert(sizes@ =~= electron_size_table());
        let mut i: usize = 0;
        while i < sizes.len()
            invariant
                i <= sizes@.len(),
                sizes@ == electron_size_table(),
                plan_specs(self.items@) == start + electron_pngs(root@, platform, background@, padding_percent, i as int),
            decreases sizes@.len() - i,
        {
            let n = sizes[i];
            let mut path = chars_of(root);
            push_chars(&mut path, "/build/icons/");
            push_chars(&mut path, "png/");
            push_decimal(&mut path, n as u64);
            push_chars(&mut path, "x");
            push_decimal(&mut path, n as u64);
            push_chars(&mut path, ".png");
            self.add_png(platform, path, n, background, padding_percent);
            i = i + 1;
            assert(plan_specs(self.items@) =~= start + electron_pngs(root@, platform, background@, padding_percent, i as int));
        }
        self.add_png(platform, joined3(root, "/build/icons/", "icon.png"), 1024, background, padding_percent);
        self.add(platform, joined3(root, "/build/icons/", "icon.ico"), AssetSource::Ico);
        self.add(platform, joined3(root, "/build/icons/", "icon.icns"), AssetSource::Icns);
        assert(plan_specs(self.items@) =~= start + electron_plan(root@, platform, background@, padding_percent));
    }

    fn tauri(&mut self, root: &str, platform: IconPlatform, background: &str, padding_percent: u8)
        ensures
            plan_specs(final(self).items@) == plan_specs(old(self).items@) + tauri_plan(root@, platform, background@, padding_percent),
    {
        let ghost start = plan_specs(self.items@);
        self.add_png(platform, joined3(root, "/src-tauri/icons/", "32x32.png"), 32, background, padding_percent);
        self.add_png(platform, joined3(root, "/src-tauri/icons/", "128x128.png"), 128, background, padding_percent);
        self.add_png(platform, joined3(root, "/src-tauri/icons/", "128x128@2x.png"), 256, background, padding_percent);
        self.add_png(platform, joined3(root, "/src-tauri/icons/", "icon.png"), 1024, background, padding_percent);
        self.add_png(platform, joined3(root, "/src-tauri/icons/", "Square30x30Logo.png"), 30, background, padding_percent);
        self.add_png(platform, joined3(root, "/src-tauri/icons/", "Square44x44Logo.png"), 44, background, padding_percent);
        self.add_png(platform, joined3(root, "/src-tauri/icons/", "Square71x71Logo.png"), 71, background, padding_percent);
        self.add_png(platform, joined3(root, "/src-tauri/icons/", "Square89x89Logo.png"), 89, background, padding_percent);
        self.add_png(platform, joined3(root, "/src-tauri/icons/", "Square107x107Logo.png"), 107, background, padding_percent);
        self.add_png(platform, joined3(root, "/src-tauri/icons/", "Square142x142Logo.png"), 142, background, padding_percent);
        self.add_png(platform, joined3(root, "/src-tauri/icons/", "Square150x150Logo.png"), 150, background, padding_percent);
        self.add_png(platform, joined3(root, "/src-tauri/icons/", "Square284x284Logo.png"), 284, background, padding_percent);
        self.add_png(platform, joined3(root, "/src-tauri/icons/", "Square310x310Logo.png"), 310, background, padding_percent);
        self.add_png(platform, joined3(root, "/src-tauri/icons/", "StoreLogo.png"), 50, background, padding_percent);
        self.add(platform, joined3(root, "/src-tauri/icons/", "icon.ico"), AssetSource::Ico);
        self.add(platform, joined3(root, "/src-tauri/icons/", "icon.icns"), AssetSource::Icns);
        assert(plan_specs(self.items@) =~= start + tauri_plan(root@, platform, background@, padding_percent));
    }
}


/// The files of one platform's icon set, under the platform's directory.
pub open spec fn platform_plan(platform: IconPlatform, background: Seq<char>, padding_percent: u8) -> Seq<PlanSpec> {
    match platform {
        IconPlatform::Android => android_plan("android"@, IconPlatform::Android, background, padding_percent),
        IconPlatform::Ios => ios_plan("ios"@, IconPlatform::Ios, background, padding_percent),
        IconPlatform::Flutter => android_plan("flutter/android"@, IconPlatform::Flutter, background, padding_percent)
            + ios_plan("flutter/ios/Runner"@, IconPlatform::Flutter, background, padding_percent),
        IconPlatform::Electron => electron_plan("electron"@, IconPlatform::Electron, background, padding_percent),
        IconPlatform::Tauri => tauri_plan("tauri"@, IconPlatform::Tauri, background, padding_percent),
    }
}

/// The files of the icon sets of the first `k` requested platforms, in order.
pub open spec fn icon_set_plan_of(platforms: Seq<IconPlatform>, background: Seq<char>, padding_percent: u8, k: int) -> Seq<PlanSpec>
    decreases k,
{
    if k <= 0 {
        Seq::empty()
    } else {
        icon_set_plan_of(platforms, background, padding_percent, k - 1) + platform_plan(platforms[k - 1], background, padding_percent)
    }
}

/// A platform whose icon set holds Android resources.
pub open spec fn has_android_resources(platforms: Seq<IconPlatform>) -> bool {
    exists|i: int| 0 <= i < platforms.len() && (platforms[i] == IconPlatform::Android || platforms[i] == IconPlatform::Flutter)
}

/// Lists every file of the requested icon sets, platform by platform, in
/// the order in which they are generated.
pub fn icon_set_plan(request: &SvgIconSetRequest) -> (r: Vec<IconAssetPlan>)
    requires
        has_android_resources(request.platforms@) ==> crate::svg::rgb_hex_slice_ok(request.background@),
    ensures
        plan_specs(r@) == icon_set_plan_of(request.platforms@, request.background@, request.padding_percent, request.platforms@.len() as int),
{
    let mut planner = Planner { items: Vec::new() };
    assert(plan_specs(planner.items@) =~= Seq::<PlanSpec>::empty());
    let background = request.background.as_str();
    let padding = request.padding_percent;
    let mut i: usize = 0;
    while i < request.platforms.len()
        invariant
            i <= request.platforms@.len(),
            background@ == request.background@,
            padding == request.padding_percent,
            has_android_resources(request.platforms@) ==> crate::svg::rgb_hex_slice_ok(request.background@),
            plan_specs(planner.items@) == icon_set_plan_of(request.platforms@, request.background@, padding, i as int),
        decreases request.platforms@.len() - i,
    {
        let ghost before = plan_specs(planner.items@);
        let platform = request.platforms[i];
        match platform {
            IconPlatform::Android => {
                assert(has_android_resources(request.platforms@));
                planner.android("android", IconPlatform::Android, background, padding);
            },
            IconPlatform::Ios => {
                planner.ios("ios", IconPlatform::Ios, background, padding);
            },
            IconPlatform::Flutter => {
                assert(has_android_resources(request.platforms@));
                planner.android("flutter/android", IconPlatform::Flutter, background, padding);
                planner.ios("flutter/ios/Runner", IconPlatform::Flutter, background, padding);
            },
            IconPlatform::Electron => {
                planner.electron("electron", IconPlatform::Electron, background, padding);
            },
            IconPlatform::Tauri => {
                planner.tauri("tauri", IconPlatform::Tauri, background, padding);
            },
        }
        i = i + 1;
        assert(plan_specs(planner.items@) =~= before + platform_plan(platform, request.background@, padding));
    }
    planner.items
}

/// The directory of an icon package: its package name and `_icons`.
pub open spec fn icon_set_dir_name(app_name: Seq<char>) -> Seq<char> {
    crate::svg::package_name(app_name) + "_icons"@
}

/// The name of the directory that receives the icon sets.
pub fn icon_set_directory_name(app_name: &str) -> (r: String)
    ensures
        r@ == icon_set_dir_name(app_name@),
{
    let name = crate::svg::sanitize_file_stem(app_name);
    let mut v = chars_of(name.as_str());
    push_chars(&mut v, "_icons");
    string_of(v)
}


proof fn lemma_ios_pngs_len(root: Seq<char>, platform: IconPlatform, background: Seq<char>, padding_percent: u8, k: int)
    requires
        0 <= k,
    ensures
        ios_pngs(root, platform, background, padding_percent, k).len() == k,
    decreases k,
{
    if k > 0 {
        lemma_ios_pngs_len(root, platform, background, padding_percent, k - 1);
    }
}

proof fn lemma_electron_pngs_len(root: Seq<char>, platform: IconPlatform, background: Seq<char>, padding_percent: u8, k: int)
    requires
        0 <= k,
    ensures
        electron_pngs(root, platform, background, padding_percent, k).len() == k,
    decreases k,
{
    if k > 0 {
        lemma_electron_pngs_len(root, platform, background, padding_percent, k - 1);
    }
}

/// How many files each platform's icon set holds: Android 19, iOS 19,
/// Flutter 38 (Android and iOS), Electron 12, Tauri 16.
pub proof fn law_platform_plan_sizes(background: Seq<char>, padding_percent: u8)
    ensures
        platform_plan(IconPlatform::Android, background, padding_percent).len() == 19,
        platform_plan(IconPlatform::Ios, background, padding_percent).len() == 19,
        platform_plan(IconPlatform::Flutter, background, padding_percent).len() == 38,
        platform_plan(IconPlatform::Electron, background, padding_percent).len() == 12,
        platform_plan(IconPlatform::Tauri, background, padding_percent).len() == 16,
{
    lemma_ios_pngs_len("ios"@, IconPlatform::Ios, background, padding_percent, 18);
    lemma_ios_pngs_len("flutter/ios/Runner"@, IconPlatform::Flutter, background, padding_percent, 18);
    lemma_electron_pngs_len("electron"@, IconPlatform::Electron, background, padding_percent, 9);
}


/// A non-empty string of decimal digits.
pub open spec fn all_digits(d: Seq<char>) -> bool {
    d.len() > 0 && forall|i: int| 0 <= i < d.len() ==> '0' <= #[trigger] d[i] <= '9'
}

/// The number a string of decimal digits denotes.
pub open spec fn digits_value(d: Seq<char>) -> int
    decreases d.len(),
{
    if d.len() == 0 {
        0
    } else {
        10 * digits_value(d.drop_last()) + (d.last() as int - '0' as int)
    }
}

/// Tauri's icon naming: `{N}x{N}.png` is `N` pixels wide, `{N}x{N}@2x.png`
/// is `2N`, `Square{N}x{N}Logo.png` is `N`, `icon.png` is 1024 and
/// `StoreLogo.png` is 50.
pub open spec fn tauri_named_edge(name: Seq<char>, edge: int) -> bool {
    ||| exists|d: Seq<char>| #[trigger] all_digits(d) && name == d + "x"@ + d + ".png"@ && edge == digits_value(d)
    ||| exists|d: Seq<char>| #[trigger] all_digits(d) && name == d + "x"@ + d + "@2x.png"@ && edge == 2 * digits_value(d)
    ||| exists|d: Seq<char>| #[trigger] all_digits(d) && name == "Square"@ + d + "x"@ + d + "Logo.png"@ && edge == digits_value(d)
    ||| name == "icon.png"@ && edge == 1024
    ||| name == "StoreLogo.png"@ && edge == 50
}

proof fn lemma_digits(d: Seq<char>, n: int)
    requires
        2 <= d.len() <= 3,
        forall|i: int| 0 <= i < d.len() ==> '0' <= #[trigger] d[i] <= '9',
        n == (if d.len() == 2 { 10 * (d[0] as int - 48) + (d[1] as int - 48) } else {
            100 * (d[0] as int - 48) + 10 * (d[1] as int - 48) + (d[2] as int - 48)
        }),
    ensures
        all_digits(d),
        digits_value(d) == n,
{
    let d1 = d.drop_last();
    let d2 = d1.drop_last();
    assert(d1.len() == d.len() - 1);
    if d.len() == 3 {
        let d3 = d2.drop_last();
        assert(d3.len() == 0);
        assert(d2.last() == d[0] && d1.last() == d[1] && d.last() == d[2]);
        assert(digits_value(d3) == 0);
        assert(digits_value(d2) == d[0] as int - 48);
        assert(digits_value(d1) == 10 * (d[0] as int - 48) + (d[1] as int - 48));
    } else {
        assert(d2.len() == 0);
        assert(d1.last() == d[0] && d.last() == d[1]);
        assert(digits_value(d2) == 0);
        assert(digits_value(d1) == d[0] as int - 48);
    }
}

proof fn lemma_edge_nxn(d: Seq<char>, name: Seq<char>, n: int)
    requires
        2 <= d.len() <= 3,
        forall|i: int| 0 <= i < d.len() ==> '0' <= #[trigger] d[i] <= '9',
        n == (if d.len() == 2 { 10 * (d[0] as int - 48) + (d[1] as int - 48) } else {
            100 * (d[0] as int - 48) + 10 * (d[1] as int - 48) + (d[2] as int - 48)
        }),
        name =~= d + "x"@ + d + ".png"@,
    ensures
        tauri_named_edge(name, n),
{
    lemma_digits(d, n);
}

proof fn lemma_edge_nxn_2x(d: Seq<char>, name: Seq<char>, n: int)
    requires
        2 <= d.len() <= 3,
        forall|i: int| 0 <= i < d.len() ==> '0' <= #[trigger] d[i] <= '9',
        n == (if d.len() == 2 { 10 * (d[0] as int - 48) + (d[1] as int - 48) } else {
            100 * (d[0] as int - 48) + 10 * (d[1] as int - 48) + (d[2] as int - 48)
        }),
        name =~= d + "x"@ + d + "@2x.png"@,
    ensures
        tauri_named_edge(name, 2 * n),
{
    lemma_digits(d, n);
}

proof fn lemma_edge_square(d: Seq<char>, name: Seq<char>, n: int)
    requires
        2 <= d.len() <= 3,
        forall|i: int| 0 <= i < d.len() ==> '0' <= #[trigger] d[i] <= '9',
        n == (if d.len() == 2 { 10 * (d[0] as int - 48) + (d[1] as int - 48) } else {
            100 * (d[0] as int - 48) + 10 * (d[1] as int - 48) + (d[2] as int - 48)
        }),
        name =~= "Square"@ + d + "x"@ + d + "Logo.png"@,
    ensures
        tauri_named_edge(name, n),
{
    lemma_digits(d, n);
}

/// An entry of a Tauri icon set rendered at the edge its file name fixes.
pub open spec fn tauri_entry_sized_by_name(e: PlanSpec) -> bool {
    match e.source {
        SourceSpec::RenderPng { size, .. } => exists|name: Seq<char>|
            e.path == tauri_root("tauri"@) + name && #[trigger] tauri_named_edge(name, size as int),
        _ => true,
    }
}

/// Every PNG of the Tauri icon set is rendered at the pixel size that
/// Tauri's icon naming fixes for its file name: `128x128@2x.png` at 256,
/// `32x32.png` at 32, `icon.png` at 1024, `SquareNxNLogo.png` at N and
/// `StoreLogo.png` at 50.
pub proof fn law_tauri_icons_sized_by_name(background: Seq<char>, padding_percent: u8)
    ensures
        forall|i: int| 0 <= i < platform_plan(IconPlatform::Tauri, background, padding_percent).len()
            ==> tauri_entry_sized_by_name(#[trigger] platform_plan(IconPlatform::Tauri, background, padding_percent)[i]),
{
    let p = platform_plan(IconPlatform::Tauri, background, padding_percent);
    let r = tauri_root("tauri"@);
    reveal_strlit("x");
    reveal_strlit(".png");
    reveal_strlit("@2x.png");
    reveal_strlit("Square");
    reveal_strlit("Logo.png");
    reveal_strlit("32x32.png");
    reveal_strlit("32");
    lemma_edge_nxn("32"@, "32x32.png"@, 32);
    reveal_strlit("128x128.png");
    reveal_strlit("128");
    lemma_edge_nxn("128"@, "128x128.png"@, 128);
    reveal_strlit("128x128@2x.png");
    reveal_strlit("128");
    lemma_edge_nxn_2x("128"@, "128x128@2x.png"@, 128);
    assert(tauri_named_edge("icon.png"@, 1024));
    reveal_strlit("Square30x30Logo.png");
    reveal_strlit("30");
    lemma_edge_square("30"@, "Square30x30Logo.png"@, 30);
    reveal_strlit("Square44x44Logo.png");
    reveal_strlit("44");
    lemma_edge_square("44"@, "Square44x44Logo.png"@, 44);
    reveal_strlit("Square71x71Logo.png");
    reveal_strlit("71");
    lemma_edge_square("71"@, "Square71x71Logo.png"@, 71);
    reveal_strlit("Square89x89Logo.png");
    reveal_strlit("89");
    lemma_edge_square("89"@, "Square89x89Logo.png"@, 89);
    reveal_strlit("Square107x107Logo.png");
    reveal_strlit("107");
    lemma_edge_square("107"@, "Square107x107Logo.png"@, 107);
    reveal_strlit("Square142x142Logo.png");
    reveal_strlit("142");
    lemma_edge_square("142"@, "Square142x142Logo.png"@, 142);
    reveal_strlit("Square150x150Logo.png");
    reveal_strlit("150");
    lemma_edge_square("150"@, "Square150x150Logo.png"@, 150);
    reveal_strlit("Square284x284Logo.png");
    reveal_strlit("284");
    lemma_edge_square("284"@, "Square284x284Logo.png"@, 284);
    reveal_strlit("Square310x310Logo.png");
    reveal_strlit("310");
    lemma_edge_square("310"@, "Square310x310Logo.png"@, 310);
    assert(tauri_named_edge("StoreLogo.png"@, 50));
    assert(p =~= seq![
        png_spec(IconPlatform::Tauri, r + "32x32.png"@, 32, background, padding_percent),
        png_spec(IconPlatform::Tauri, r + "128x128.png"@, 128, background, padding_percent),
        png_spec(IconPlatform::Tauri, r + "128x128@2x.png"@, 256, background, padding_percent),
        png_spec(IconPlatform::Tauri, r + "icon.png"@, 1024, background, padding_percent),
        png_spec(IconPlatform::Tauri, r + "Square30x30Logo.png"@, 30, background, padding_percent),
        png_spec(IconPlatform::Tauri, r + "Square44x44Logo.png"@, 44, background, padding_percent),
        png_spec(IconPlatform::Tauri, r + "Square71x71Logo.png"@, 71, background, padding_percent),
        png_spec(IconPlatform::Tauri, r + "Square89x89Logo.png"@, 89, background, padding_percent),
        png_spec(IconPlatform::Tauri, r + "Square107x107Logo.png"@, 107, background, padding_percent),
        png_spec(IconPlatform::Tauri, r + "Square142x142Logo.png"@, 142, background, padding_percent),
        png_spec(IconPlatform::Tauri, r + "Square150x150Logo.png"@, 150, background, padding_percent),
        png_spec(IconPlatform::Tauri, r + "Square284x284Logo.png"@, 284, background, padding_percent),
        png_spec(IconPlatform::Tauri, r + "Square310x310Logo.png"@, 310, background, padding_percent),
        png_spec(IconPlatform::Tauri, r + "StoreLogo.png"@, 50, background, padding_percent),
        PlanSpec { platform: IconPlatform::Tauri, path: r + "icon.ico"@, source: SourceSpec::Ico },
        PlanSpec { platform: IconPlatform::Tauri, path: r + "icon.icns"@, source: SourceSpec::Icns }
    ]);
    assert forall|i: int| 0 <= i < p.len() implies tauri_entry_sized_by_name(#[trigger] p[i]) by {
        if i == 0 {
            tauri_entry_witness(p[i], "32x32.png"@, 32);
        } else if i == 1 {
            tauri_entry_witness(p[i], "128x128.png"@, 128);
        } else if i == 2 {
            tauri_entry_witness(p[i], "128x128@2x.png"@, 256);
        } else if i == 3 {
            tauri_entry_witness(p[i], "icon.png"@, 1024);
        } else if i == 4 {
            tauri_entry_witness(p[i], "Square30x30Logo.png"@, 30);
        } else if i == 5 {
            tauri_entry_witness(p[i], "Square44x44Logo.png"@, 44);
        } else if i == 6 {
            tauri_entry_witness(p[i], "Square71x71Logo.png"@, 71);
        } else if i == 7 {
            tauri_entry_witness(p[i], "Square89x89Logo.png"@, 89);
        } else if i == 8 {
            tauri_entry_witness(p[i], "Square107x107Logo.png"@, 107);
        } else if i == 9 {
            tauri_entry_witness(p[i], "Square142x142Logo.png"@, 142);
        } else if i == 10 {
            tauri_entry_witness(p[i], "Square150x150Logo.png"@, 150);
        } else if i == 11 {
            tauri_entry_witness(p[i], "Square284x284Logo.png"@, 284);
        } else if i == 12 {
            tauri_entry_witness(p[i], "Square310x310Logo.png"@, 310);
        } else if i == 13 {
            tauri_entry_witness(p[i], "StoreLogo.png"@, 50);
        }
    }
}

proof fn tauri_entry_witness(e: PlanSpec, name: Seq<char>, size: u32)
    requires
        e.source matches SourceSpec::RenderPng { size: s, .. } && s == size,
        e.path == tauri_root("tauri"@) + name,
        tauri_named_edge(name, size as int),
    ensures
        tauri_entry_sized_by_name(e),
{
    assert(exists|n: Seq<char>| e.path == tauri_root("tauri"@) + n
        && #[trigger] tauri_named_edge(n, e.source->RenderPng_size as int));
}


proof fn lemma_decimal_digits(n: nat)
    ensures
        all_digits(crate::text::decimal(n)),
        digits_value(crate::text::decimal(n)) == n,
    decreases n,
{
    let d = crate::text::decimal(n);
    let c = crate::text::digit(n);
    assert(c as int == 48 + n % 10);
    if n >= 10 {
        lemma_decimal_digits(n / 10);
        let p = crate::text::decimal(n / 10);
        assert(d == p.push(c));
        assert(d.drop_last() =~= p);
        assert forall|i: int| 0 <= i < d.len() implies '0' <= #[trigger] d[i] <= '9' by {
            if i < p.len() {
                assert(d[i] == p[i]);
            }
        }
        assert(d.last() == c);
        assert(digits_value(d) == 10 * digits_value(p) + (c as int - 48));
        assert(10 * (n / 10) + n % 10 == n);
    } else {
        assert(d == seq![c]);
        assert(d.drop_last() =~= Seq::<char>::empty());
        assert(d.last() == c);
        assert(digits_value(d) == 10 * digits_value(Seq::<char>::empty()) + (c as int - 48));
    }
}


/// `name` is `{N}x{N}.png` for a decimal `N` equal to `edge`.
pub open spec fn square_png_edge(name: Seq<char>, edge: int) -> bool {
    exists|d: Seq<char>| #[trigger] all_digits(d) && name == d + "x"@ + d + ".png"@ && edge == digits_value(d)
}

/// An entry of an Electron icon set rendered at the edge its file name fixes.
pub open spec fn electron_entry_sized_by_name(e: PlanSpec) -> bool {
    match e.source {
        SourceSpec::RenderPng { size, .. } => {
            ||| exists|name: Seq<char>| e.path == electron_root("electron"@) + "png/"@ + name
                && #[trigger] square_png_edge(name, size as int)
            ||| e.path == electron_root("electron"@) + "icon.png"@ && size == 1024
        },
        _ => true,
    }
}

proof fn lemma_electron_pngs_index(root: Seq<char>, platform: IconPlatform, background: Seq<char>, padding_percent: u8, k: int, j: int)
    requires
        0 <= j < k <= electron_size_table().len(),
    ensures
        electron_pngs(root, platform, background, padding_percent, k)[j] == png_spec(
            platform,
            electron_root(root) + "png/"@ + crate::text::decimal(electron_size_table()[j] as nat) + "x"@
                + crate::text::decimal(electron_size_table()[j] as nat) + ".png"@,
            electron_size_table()[j],
            background,
            padding_percent,
        ),
    decreases k,
{
    lemma_electron_pngs_len(root, platform, background, padding_percent, k - 1);
    if j < k - 1 {
        lemma_electron_pngs_index(root, platform, background, padding_percent, k - 1, j);
    }
}

/// Every PNG of the Electron icon set is rendered at the edge its file name
/// fixes: `png/{N}x{N}.png` at `N`, and `icon.png` at 1024.
pub proof fn law_electron_icons_sized_by_name(background: Seq<char>, padding_percent: u8)
    ensures
        forall|i: int| 0 <= i < platform_plan(IconPlatform::Electron, background, padding_percent).len()
            ==> electron_entry_sized_by_name(#[trigger] platform_plan(IconPlatform::Electron, background, padding_percent)[i]),
{
    let p = platform_plan(IconPlatform::Electron, background, padding_percent);
    let root = "electron"@;
    lemma_electron_pngs_len(root, IconPlatform::Electron, background, padding_percent, 9);
    assert forall|i: int| 0 <= i < p.len() implies electron_entry_sized_by_name(#[trigger] p[i]) by {
        if i < 9 {
            lemma_electron_pngs_index(root, IconPlatform::Electron, background, padding_percent, 9, i);
            let n = electron_size_table()[i];
            let d = crate::text::decimal(n as nat);
            lemma_decimal_digits(n as nat);
            let name = d + "x"@ + d + ".png"@;
            assert(p[i] == electron_pngs(root, IconPlatform::Electron, background, padding_percent, 9)[i]);
            assert(p[i].path =~= electron_root(root) + "png/"@ + name);
            assert(square_png_edge(name, n as int));
            assert(p[i].source == (SourceSpec::RenderPng { size: n, background, padding_percent }));
            assert(p[i].source->RenderPng_size == n);
            assert(square_png_edge(name, p[i].source->RenderPng_size as int));
            assert(exists|nm: Seq<char>| p[i].path == electron_root(root) + "png/"@ + nm
                && #[trigger] square_png_edge(nm, p[i].source->RenderPng_size as int));
        }
    }
}


/// The iOS icon file name for `p` points (with `_5` after it for a half
/// point) at scale `f`: `AppIcon-{p}@{f}x.png`.
pub open spec fn ios_name(p: Seq<char>, half: bool, f: Seq<char>) -> Seq<char> {
    "AppIcon-"@ + p + (if half { "_5"@ } else { Seq::<char>::empty() }) + "@"@ + f + "x.png"@
}

/// `name` is an iOS icon file name whose point size times scale is `edge`
/// pixels.
pub open spec fn ios_named_edge(name: Seq<char>, edge: int) -> bool {
    exists|p: Seq<char>, half: bool, f: Seq<char>|
        all_digits(p) && all_digits(f) && name == #[trigger] ios_name(p, half, f)
            && 2 * edge == (2 * digits_value(p) + (if half { 1int } else { 0int })) * digits_value(f)
}

/// An entry of the iOS icon set rendered at its point size times its scale.
pub open spec fn ios_entry_sized_by_name(e: PlanSpec) -> bool {
    match e.source {
        SourceSpec::RenderPng { size, .. } => exists|name: Seq<char>|
            e.path == appiconset_path("ios"@, name) && #[trigger] ios_named_edge(name, size as int),
        _ => true,
    }
}

proof fn lemma_small_digits(d: Seq<char>)
    requires
        1 <= d.len() <= 4,
        forall|i: int| 0 <= i < d.len() ==> '0' <= #[trigger] d[i] <= '9',
    ensures
        all_digits(d),
        digits_value(d) == (if d.len() == 1 { d[0] as int - 48 } else if d.len() == 2 {
            10 * (d[0] as int - 48) + (d[1] as int - 48)
        } else if d.len() == 3 {
            100 * (d[0] as int - 48) + 10 * (d[1] as int - 48) + (d[2] as int - 48)
        } else {
            1000 * (d[0] as int - 48) + 100 * (d[1] as int - 48) + 10 * (d[2] as int - 48) + (d[3] as int - 48)
        }),
    decreases d.len(),
{
    let e = d.drop_last();
    if d.len() > 1 {
        assert forall|i: int| 0 <= i < e.len() implies '0' <= #[trigger] e[i] <= '9' by {
            assert(e[i] == d[i]);
        }
        lemma_small_digits(e);
        assert(forall|k: int| 0 <= k < e.len() ==> e[k] == d[k]);
        assert(d.last() == d[d.len() - 1]);
        assert(digits_value(d) == 10 * digits_value(e) + (d.last() as int - 48));
    } else {
        assert(e.len() == 0);
        assert(digits_value(e) == 0);
        assert(digits_value(d) == 10 * digits_value(e) + (d.last() as int - 48));
    }
}

proof fn lemma_ios_row(size: Seq<char>, scale: Seq<char>, p: Seq<char>, half: bool, f: Seq<char>, px: u32, pv: int, fv: int)
    requires
        1 <= p.len() <= 4,
        forall|i: int| 0 <= i < p.len() ==> '0' <= #[trigger] p[i] <= '9',
        f.len() == 1,
        '0' <= f[0] <= '9',
        dotless(size) == p + (if half { "_5"@ } else { Seq::<char>::empty() }),
        scale == f + "x"@,
        pv == (if p.len() == 1 { p[0] as int - 48 } else if p.len() == 2 {
            10 * (p[0] as int - 48) + (p[1] as int - 48)
        } else if p.len() == 3 {
            100 * (p[0] as int - 48) + 10 * (p[1] as int - 48) + (p[2] as int - 48)
        } else {
            1000 * (p[0] as int - 48) + 100 * (p[1] as int - 48) + 10 * (p[2] as int - 48) + (p[3] as int - 48)
        }),
        fv == f[0] as int - 48,
        2 * px == (2 * pv + (if half { 1int } else { 0int })) * fv,
    ensures
        ios_named_edge(ios_file_name(size, scale), px as int),
{
    lemma_small_digits(p);
    lemma_small_digits(f);
    reveal_strlit("x");
    reveal_strlit(".png");
    reveal_strlit("x.png");
    assert(ios_file_name(size, scale) =~= ios_name(p, half, f));
}

proof fn lemma_ios_pngs_index(root: Seq<char>, platform: IconPlatform, background: Seq<char>, padding_percent: u8, k: int, j: int)
    requires
        0 <= j < k <= ios_table().len(),
    ensures
        ios_pngs(root, platform, background, padding_percent, k)[j] == png_spec(
            platform,
            appiconset_path(root, ios_file_name(ios_table()[j].1, ios_table()[j].2)),
            ios_table()[j].3,
            background,
            padding_percent,
        ),
    decreases k,
{
    lemma_ios_pngs_len(root, platform, background, padding_percent, k - 1);
    if j < k - 1 {
        lemma_ios_pngs_index(root, platform, background, padding_percent, k - 1, j);
    }
}

/// Every PNG of the iOS icon set is rendered at its point size times its
/// scale, as its file name `AppIcon-{points}@{scale}x.png` gives them
/// (`AppIcon-20@3x.png` at 60, `AppIcon-83_5@2x.png` at 167).
pub proof fn law_ios_icons_sized_by_name(background: Seq<char>, padding_percent: u8)
    ensures
        forall|i: int| 0 <= i < platform_plan(IconPlatform::Ios, background, padding_percent).len()
            ==> ios_entry_sized_by_name(#[trigger] platform_plan(IconPlatform::Ios, background, padding_percent)[i]),
{
    let pl = platform_plan(IconPlatform::Ios, background, padding_percent);
    let root = "ios"@;
    lemma_ios_pngs_len(root, IconPlatform::Ios, background, padding_percent, 18);
    reveal_strlit("_5");
    reveal_strlit("x");
    assert forall|i: int| 0 <= i < pl.len() implies ios_entry_sized_by_name(#[trigger] pl[i]) by {
        if i < 18 {
            lemma_ios_pngs_index(root, IconPlatform::Ios, background, padding_percent, 18, i);
            assert(pl[i] == ios_pngs(root, IconPlatform::Ios, background, padding_percent, 18)[i]);
            let row = ios_table()[i];
            let name = ios_file_name(row.1, row.2);
            if i == 0 {
                reveal_strlit("20");
                reveal_strlit("2x");
                reveal_strlit("20");
                reveal_strlit("2");
                assert(dotless("20"@) =~= "20"@ + Seq::<char>::empty());
                assert("2x"@ =~= "2"@ + "x"@);
                lemma_ios_row(ios_table()[0].1, ios_table()[0].2, "20"@, false, "2"@, 40, 20, 2);
            } else if i == 1 {
                reveal_strlit("20");
                reveal_strlit("3x");
                reveal_strlit("20");
                reveal_strlit("3");
                assert(dotless("20"@) =~= "20"@ + Seq::<char>::empty());
                assert("3x"@ =~= "3"@ + "x"@);
                lemma_ios_row(ios_table()[1].1, ios_table()[1].2, "20"@, false, "3"@, 60, 20, 3);
            } else if i == 2 {
                reveal_strlit("29");
                reveal_strlit("2x");
                reveal_strlit("29");
                reveal_strlit("2");
                assert(dotless("29"@) =~= "29"@ + Seq::<char>::empty());
                assert("2x"@ =~= "2"@ + "x"@);
                lemma_ios_row(ios_table()[2].1, ios_table()[2].2, "29"@, false, "2"@, 58, 29, 2);
            } else if i == 3 {
                reveal_strlit("29");
                reveal_strlit("3x");
                reveal_strlit("29");
                reveal_strlit("3");
                assert(dotless("29"@) =~= "29"@ + Seq::<char>::empty());
                assert("3x"@ =~= "3"@ + "x"@);
                lemma_ios_row(ios_table()[3].1, ios_table()[3].2, "29"@, false, "3"@, 87, 29, 3);
            } else if i == 4 {
                reveal_strlit("40");
                reveal_strlit("2x");
                reveal_strlit("40");
                reveal_strlit("2");
                assert(dotless("40"@) =~= "40"@ + Seq::<char>::empty());
                assert("2x"@ =~= "2"@ + "x"@);
                lemma_ios_row(ios_table()[4].1, ios_table()[4].2, "40"@, false, "2"@, 80, 40, 2);
            } else if i == 5 {
                reveal_strlit("40");
                reveal_strlit("3x");
                reveal_strlit("40");
                reveal_strlit("3");
                assert(dotless("40"@) =~= "40"@ + Seq::<char>::empty());
                assert("3x"@ =~= "3"@ + "x"@);
                lemma_ios_row(ios_table()[5].1, ios_table()[5].2, "40"@, false, "3"@, 120, 40, 3);
            } else if i == 6 {
                reveal_strlit("60");
                reveal_strlit("2x");
                reveal_strlit("60");
                reveal_strlit("2");
                assert(dotless("60"@) =~= "60"@ + Seq::<char>::empty());
                assert("2x"@ =~= "2"@ + "x"@);
                lemma_ios_row(ios_table()[6].1, ios_table()[6].2, "60"@, false, "2"@, 120, 60, 2);
            } else if i == 7 {
                reveal_strlit("60");
                reveal_strlit("3x");
                reveal_strlit("60");
                reveal_strlit("3");
                assert(dotless("60"@) =~= "60"@ + Seq::<char>::empty());
                assert("3x"@ =~= "3"@ + "x"@);
                lemma_ios_row(ios_table()[7].1, ios_table()[7].2, "60"@, false, "3"@, 180, 60, 3);
            } else if i == 8 {
                reveal_strlit("20");
                reveal_strlit("1x");
                reveal_strlit("20");
                reveal_strlit("1");
                assert(dotless("20"@) =~= "20"@ + Seq::<char>::empty());
                assert("1x"@ =~= "1"@ + "x"@);
                lemma_ios_row(ios_table()[8].1, ios_table()[8].2, "20"@, false, "1"@, 20, 20, 1);
            } else if i == 9 {
                reveal_strlit("20");
                reveal_strlit("2x");
                reveal_strlit("20");
                reveal_strlit("2");
                assert(dotless("20"@) =~= "20"@ + Seq::<char>::empty());
                assert("2x"@ =~= "2"@ + "x"@);
                lemma_ios_row(ios_table()[9].1, ios_table()[9].2, "20"@, false, "2"@, 40, 20, 2);
            } else if i == 10 {
                reveal_strlit("29");
                reveal_strlit("1x");
                reveal_strlit("29");
                reveal_strlit("1");
                assert(dotless("29"@) =~= "29"@ + Seq::<char>::empty());
                assert("1x"@ =~= "1"@ + "x"@);
                lemma_ios_row(ios_table()[10].1, ios_table()[10].2, "29"@, false, "1"@, 29, 29, 1);
            } else if i == 11 {
                reveal_strlit("29");
                reveal_strlit("2x");
                reveal_strlit("29");
                reveal_strlit("2");
                assert(dotless("29"@) =~= "29"@ + Seq::<char>::empty());
                assert("2x"@ =~= "2"@ + "x"@);
                lemma_ios_row(ios_table()[11].1, ios_table()[11].2, "29"@, false, "2"@, 58, 29, 2);
            } else if i == 12 {
                reveal_strlit("40");
                reveal_strlit("1x");
                reveal_strlit("40");
                reveal_strlit("1");
                assert(dotless("40"@) =~= "40"@ + Seq::<char>::empty());
                assert("1x"@ =~= "1"@ + "x"@);
                lemma_ios_row(ios_table()[12].1, ios_table()[12].2, "40"@, false, "1"@, 40, 40, 1);
            } else if i == 13 {
                reveal_strlit("40");
                reveal_strlit("2x");
                reveal_strlit("40");
                reveal_strlit("2");
                assert(dotless("40"@) =~= "40"@ + Seq::<char>::empty());
                assert("2x"@ =~= "2"@ + "x"@);
                lemma_ios_row(ios_table()[13].1, ios_table()[13].2, "40"@, false, "2"@, 80, 40, 2);
            } else if i == 14 {
                reveal_strlit("76");
                reveal_strlit("1x");
                reveal_strlit("76");
                reveal_strlit("1");
                assert(dotless("76"@) =~= "76"@ + Seq::<char>::empty());
                assert("1x"@ =~= "1"@ + "x"@);
                lemma_ios_row(ios_table()[14].1, ios_table()[14].2, "76"@, false, "1"@, 76, 76, 1);
            } else if i == 15 {
                reveal_strlit("76");
                reveal_strlit("2x");
                reveal_strlit("76");
                reveal_strlit("2");
                assert(dotless("76"@) =~= "76"@ + Seq::<char>::empty());
                assert("2x"@ =~= "2"@ + "x"@);
                lemma_ios_row(ios_table()[15].1, ios_table()[15].2, "76"@, false, "2"@, 152, 76, 2);
            } else if i == 16 {
                reveal_strlit("83.5");
                reveal_strlit("2x");
                reveal_strlit("83");
                reveal_strlit("2");
                assert(dotless("83.5"@) =~= "83"@ + "_5"@);
                assert("2x"@ =~= "2"@ + "x"@);
                lemma_ios_row(ios_table()[16].1, ios_table()[16].2, "83"@, true, "2"@, 167, 83, 2);
            } else if i == 17 {
                reveal_strlit("1024");
                reveal_strlit("1x");
                reveal_strlit("1024");
                reveal_strlit("1");
                assert(dotless("1024"@) =~= "1024"@ + Seq::<char>::empty());
                assert("1x"@ =~= "1"@ + "x"@);
                lemma_ios_row(ios_table()[17].1, ios_table()[17].2, "1024"@, false, "1"@, 1024, 1024, 1);
            }
            assert(pl[i].source->RenderPng_size == row.3);
            assert(ios_named_edge(name, pl[i].source->RenderPng_size as int));
            assert(exists|nm: Seq<char>| pl[i].path == appiconset_path(root, nm)
                && #[trigger] ios_named_edge(nm, pl[i].source->RenderPng_size as int));
        }
    }
}


/// How many half-units of the baseline density (`mdpi`, 1x) an Android
/// density folder stands for: `hdpi` 1.5x, `xhdpi` 2x, `xxhdpi` 3x,
/// `xxxhdpi` 4x.
pub open spec fn density_halves(folder: Seq<char>) -> int {
    if folder == "mipmap-mdpi"@ {
        2
    } else if folder == "mipmap-hdpi"@ {
        3
    } else if folder == "mipmap-xhdpi"@ {
        4
    } else if folder == "mipmap-xxhdpi"@ {
        6
    } else if folder == "mipmap-xxxhdpi"@ {
        8
    } else {
        0
    }
}

/// A launcher image of an Android density folder at its pixel size: the
/// legacy and round icons are 48 dp and the adaptive foreground 108 dp,
/// scaled by the folder's density.
pub open spec fn android_file_sized(folder: Seq<char>, file: Seq<char>, edge: int) -> bool {
    &&& density_halves(folder) > 0
    &&& ((file == "/ic_launcher.png"@ || file == "/ic_launcher_round.png"@) && 2 * edge == 48 * density_halves(folder)
        || file == "/ic_launcher_foreground.png"@ && 2 * edge == 108 * density_halves(folder))
}

/// An entry of the Android icon set rendered at the size its folder and
/// file name fix (the Play Store icon at 512).
pub open spec fn android_entry_sized_by_name(e: PlanSpec) -> bool {
    match e.source {
        SourceSpec::RenderPng { size, .. } => {
            ||| exists|folder: Seq<char>, file: Seq<char>| e.path == res_path("android"@, folder + file)
                && #[trigger] android_file_sized(folder, file, size as int)
            ||| e.path == "android"@ + "/play-store-icon.png"@ && size == 512
        },
        _ => true,
    }
}

proof fn android_entry_witness(e: PlanSpec, folder: Seq<char>, file: Seq<char>, size: u32)
    requires
        e.source matches SourceSpec::RenderPng { size: s, .. } && s == size,
        e.path == res_path("android"@, folder + file),
        android_file_sized(folder, file, size as int),
    ensures
        android_entry_sized_by_name(e),
{
    assert(exists|fo: Seq<char>, fi: Seq<char>| e.path == res_path("android"@, fo + fi)
        && #[trigger] android_file_sized(fo, fi, e.source->RenderPng_size as int));
}

/// Every PNG of the Android icon set is rendered at the size Android's
/// density buckets fix: 48 dp launcher icons and 108 dp adaptive
/// foregrounds at 1x (`mdpi`), 1.5x, 2x, 3x and 4x (`xxxhdpi`), and the Play
/// Store icon at 512.
pub proof fn law_android_icons_sized_by_density(background: Seq<char>, padding_percent: u8)
    ensures
        forall|i: int| 0 <= i < platform_plan(IconPlatform::Android, background, padding_percent).len()
            ==> android_entry_sized_by_name(#[trigger] platform_plan(IconPlatform::Android, background, padding_percent)[i]),
{
    let pl = platform_plan(IconPlatform::Android, background, padding_percent);
    let root = "android"@;
    reveal_strlit("/ic_launcher.png");
    reveal_strlit("/ic_launcher_round.png");
    reveal_strlit("/ic_launcher_foreground.png");
    reveal_strlit("mipmap-mdpi");
    reveal_strlit("mipmap-hdpi");
    reveal_strlit("mipmap-xhdpi");
    reveal_strlit("mipmap-xxhdpi");
    reveal_strlit("mipmap-xxxhdpi");
    assert("mipmap-hdpi"@[7] != "mipmap-mdpi"@[7]);
    assert(density_halves("mipmap-hdpi"@) == 3);
    assert(pl.subrange(0, 16) =~= seq![
        png_spec(IconPlatform::Android, res_path(root, "mipmap-mdpi"@ + "/ic_launcher.png"@), 48, background, padding_percent),
        png_spec(IconPlatform::Android, res_path(root, "mipmap-mdpi"@ + "/ic_launcher_round.png"@), 48, background, padding_percent),
        png_spec(IconPlatform::Android, res_path(root, "mipmap-mdpi"@ + "/ic_launcher_foreground.png"@), 108, "#00000000"@, foreground_padding(padding_percent)),
        png_spec(IconPlatform::Android, res_path(root, "mipmap-hdpi"@ + "/ic_launcher.png"@), 72, background, padding_percent),
        png_spec(IconPlatform::Android, res_path(root, "mipmap-hdpi"@ + "/ic_launcher_round.png"@), 72, background, padding_percent),
        png_spec(IconPlatform::Android, res_path(root, "mipmap-hdpi"@ + "/ic_launcher_foreground.png"@), 162, "#00000000"@, foreground_padding(padding_percent)),
        png_spec(IconPlatform::Android, res_path(root, "mipmap-xhdpi"@ + "/ic_launcher.png"@), 96, background, padding_percent),
        png_spec(IconPlatform::Android, res_path(root, "mipmap-xhdpi"@ + "/ic_launcher_round.png"@), 96, background, padding_percent),
        png_spec(IconPlatform::Android, res_path(root, "mipmap-xhdpi"@ + "/ic_launcher_foreground.png"@), 216, "#00000000"@, foreground_padding(padding_percent)),
        png_spec(IconPlatform::Android, res_path(root, "mipmap-xxhdpi"@ + "/ic_launcher.png"@), 144, background, padding_percent),
        png_spec(IconPlatform::Android, res_path(root, "mipmap-xxhdpi"@ + "/ic_launcher_round.png"@), 144, background, padding_percent),
        png_spec(IconPlatform::Android, res_path(root, "mipmap-xxhdpi"@ + "/ic_launcher_foreground.png"@), 324, "#00000000"@, foreground_padding(padding_percent)),
        png_spec(IconPlatform::Android, res_path(root, "mipmap-xxxhdpi"@ + "/ic_launcher.png"@), 192, background, padding_percent),
        png_spec(IconPlatform::Android, res_path(root, "mipmap-xxxhdpi"@ + "/ic_launcher_round.png"@), 192, background, padding_percent),
        png_spec(IconPlatform::Android, res_path(root, "mipmap-xxxhdpi"@ + "/ic_launcher_foreground.png"@), 432, "#00000000"@, foreground_padding(padding_percent)),
        png_spec(IconPlatform::Android, root + "/play-store-icon.png"@, 512, background, padding_percent)
    ]);
    assert forall|i: int| 0 <= i < pl.len() implies android_entry_sized_by_name(#[trigger] pl[i]) by {
        if i < 16 {
            assert(pl[i] == pl.subrange(0, 16)[i]);
            if i == 0 {
                android_entry_witness(pl[i], "mipmap-mdpi"@, "/ic_launcher.png"@, 48);
            } else if i == 1 {
                android_entry_witness(pl[i], "mipmap-mdpi"@, "/ic_launcher_round.png"@, 48);
            } else if i == 2 {
                android_entry_witness(pl[i], "mipmap-mdpi"@, "/ic_launcher_foreground.png"@, 108);
            } else if i == 3 {
                android_entry_witness(pl[i], "mipmap-hdpi"@, "/ic_launcher.png"@, 72);
            } else if i == 4 {
                android_entry_witness(pl[i], "mipmap-hdpi"@, "/ic_launcher_round.png"@, 72);
            } else if i == 5 {
                android_entry_witness(pl[i], "mipmap-hdpi"@, "/ic_launcher_foreground.png"@, 162);
            } else if i == 6 {
                android_entry_witness(pl[i], "mipmap-xhdpi"@, "/ic_launcher.png"@, 96);
            } else if i == 7 {
                android_entry_witness(pl[i], "mipmap-xhdpi"@, "/ic_launcher_round.png"@, 96);
            } else if i == 8 {
                android_entry_witness(pl[i], "mipmap-xhdpi"@, "/ic_launcher_foreground.png"@, 216);
            } else if i == 9 {
                android_entry_witness(pl[i], "mipmap-xxhdpi"@, "/ic_launcher.png"@, 144);
            } else if i == 10 {
                android_entry_witness(pl[i], "mipmap-xxhdpi"@, "/ic_launcher_round.png"@, 144);
            } else if i == 11 {
                android_entry_witness(pl[i], "mipmap-xxhdpi"@, "/ic_launcher_foreground.png"@, 324);
            } else if i == 12 {
                android_entry_witness(pl[i], "mipmap-xxxhdpi"@, "/ic_launcher.png"@, 192);
            } else if i == 13 {
                android_entry_witness(pl[i], "mipmap-xxxhdpi"@, "/ic_launcher_round.png"@, 192);
            } else if i == 14 {
                android_entry_witness(pl[i], "mipmap-xxxhdpi"@, "/ic_launcher_foreground.png"@, 432);
            } else if i == 15 {
                reveal_strlit("/play-store-icon.png");
                assert(pl[i].path == root + "/play-store-icon.png"@);
            }
        }
    }
}

} // verus!
