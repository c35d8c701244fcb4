use supertools::icons::{
    icns_kinds, ico_sizes, icon_set_directory_name, icon_set_plan, ios_contents_images,
    ios_icon_file_name, ios_icon_specs, AssetSource, IconAssetPlan,
};
use supertools::svg::{IconPlatform, SvgIconSetRequest};

fn request(platforms: Vec<IconPlatform>) -> SvgIconSetRequest {
    SvgIconSetRequest {
        svg_code: "<svg/>".to_string(),
        output_dir: "/tmp/out".to_string(),
        app_name: "demo".to_string(),
        platforms,
        background: "#21bd87".to_string(),
        padding_percent: 12,
    }
}

fn has(plan: &[IconAssetPlan], path: &str) -> bool {
    plan.iter().any(|p| p.relative_path == path)
}

#[test]
fn exports_multi_platform_icon_set() {
    let plan = icon_set_plan(&request(vec![
        IconPlatform::Android,
        IconPlatform::Ios,
        IconPlatform::Flutter,
        IconPlatform::Electron,
        IconPlatform::Tauri,
    ]));
    assert_eq!(icon_set_directory_name("demo"), "demo_icons");
    assert!(plan.len() > 50);
    assert!(has(&plan, "android/app/src/main/res/mipmap-xxxhdpi/ic_launcher.png"));
    assert!(has(&plan, "ios/Assets.xcassets/AppIcon.appiconset/Contents.json"));
    assert!(has(&plan, "flutter/ios/Runner/Assets.xcassets/AppIcon.appiconset/Contents.json"));
    assert!(has(&plan, "electron/build/icons/icon.ico"));
    assert!(has(&plan, "electron/build/icons/icon.icns"));
    assert!(has(&plan, "tauri/src-tauri/icons/icon.png"));
}

#[test]
fn platform_set_sizes() {
    for (platform, count) in [
        (IconPlatform::Android, 19),
        (IconPlatform::Ios, 19),
        (IconPlatform::Flutter, 38),
        (IconPlatform::Electron, 12),
        (IconPlatform::Tauri, 16),
    ] {
        let plan = icon_set_plan(&request(vec![platform]));
        assert_eq!(plan.len(), count);
        assert!(plan.iter().all(|p| p.platform == platform));
    }
    let all = icon_set_plan(&request(vec![
        IconPlatform::Android,
        IconPlatform::Ios,
        IconPlatform::Flutter,
        IconPlatform::Electron,
        IconPlatform::Tauri,
    ]));
    assert_eq!(all.len(), 104);
}

#[test]
fn android_set_contents() {
    let plan = icon_set_plan(&request(vec![IconPlatform::Android]));
    assert_eq!(plan[0].relative_path, "android/app/src/main/res/mipmap-mdpi/ic_launcher.png");
    match &plan[0].source {
        AssetSource::RenderPng { size, background, padding_percent } => {
            assert_eq!((*size, background.as_str(), *padding_percent), (48, "#21bd87", 12));
        }
        _ => panic!("expected a rendering"),
    }
    assert_eq!(plan[2].relative_path, "android/app/src/main/res/mipmap-mdpi/ic_launcher_foreground.png");
    match &plan[2].source {
        AssetSource::RenderPng { size, background, padding_percent } => {
            assert_eq!((*size, background.as_str(), *padding_percent), (108, "#00000000", 17));
        }
        _ => panic!("expected a rendering"),
    }
    assert_eq!(plan[15].relative_path, "android/play-store-icon.png");
    assert_eq!(plan[16].relative_path, "android/app/src/main/res/values/ic_launcher_background.xml");
    match &plan[16].source {
        AssetSource::Text { contents } => {
            assert!(contents.contains("<color name=\"ic_launcher_background\">#21bd87</color>"));
        }
        _ => panic!("expected a text file"),
    }
    assert_eq!(plan[18].relative_path, "android/app/src/main/res/mipmap-anydpi-v26/ic_launcher_round.xml");
}

#[test]
fn large_padding_is_kept_for_foregrounds() {
    let mut r = request(vec![IconPlatform::Android]);
    r.padding_percent = 30;
    let plan = icon_set_plan(&r);
    match &plan[2].source {
        AssetSource::RenderPng { padding_percent, .. } => assert_eq!(*padding_percent, 30),
        _ => panic!("expected a rendering"),
    }
}

#[test]
fn ios_catalogue() {
    let specs = ios_icon_specs();
    assert_eq!(specs.len(), 18);
    assert_eq!(specs[16].size, "83.5");
    assert_eq!(specs[16].pixels, 167);
    assert_eq!(ios_icon_file_name(&specs[16]), "AppIcon-83_5@2x.png");
    assert_eq!(specs[17].idiom, "ios-marketing");
    let images = ios_contents_images();
    assert_eq!(images.len(), 18);
    assert_eq!(images[0].size, "20x20");
    assert_eq!(images[0].filename, "AppIcon-20@2x.png");
    assert_eq!(images[16].size, "83.5x83.5");
}

#[test]
fn electron_and_tauri_names() {
    let plan = icon_set_plan(&request(vec![IconPlatform::Electron, IconPlatform::Tauri]));
    assert_eq!(plan[0].relative_path, "electron/build/icons/png/16x16.png");
    assert_eq!(plan[8].relative_path, "electron/build/icons/png/1024x1024.png");
    assert!(matches!(plan[10].source, AssetSource::Ico));
    assert!(matches!(plan[11].source, AssetSource::Icns));
    assert_eq!(plan[12].relative_path, "tauri/src-tauri/icons/32x32.png");
    assert_eq!(plan[27].relative_path, "tauri/src-tauri/icons/icon.icns");
}

#[test]
fn container_tables() {
    assert_eq!(ico_sizes(), vec![16, 24, 32, 48, 64, 128, 256]);
    let kinds = icns_kinds();
    assert_eq!(kinds.len(), 7);
    assert_eq!(kinds[0], ("icp4", 16));
    assert_eq!(kinds[6], ("ic10", 1024));
}
