use doodlai::assets::file::{external_path, Path};
use doodlai::assets::id::{AssetId, AssetIdTrait, Color, DynamicTextureParams, TextureId};
use doodlai::assets::resolver::Resolver;

#[test]
fn path_keeps_its_text() {
    assert_eq!(Path::new("textures/a.png").to_string(), "textures/a.png");
    assert_eq!(Path::new_owned(String::from("x/y")).as_str(), "x/y");
}

#[test]
fn external_path_joins_and_normalises() {
    assert_eq!(external_path("/home/me", "textures/a.png"), "/home/me/resources/external/textures/a.png");
    assert_eq!(external_path("/home/me/", "/a.png"), "/home/me/resources/external/a.png");
    assert_eq!(external_path("C:\\game\\bin", "x.ron"), "C:/game/bin/resources/external/x.ron");
    assert_eq!(external_path("", "a"), "/resources/external/a");
}

#[test]
fn external_path_collapses_pairs_left_to_right() {
    assert_eq!(external_path("base", "a///b"), "base/resources/external/a//b");
    assert_eq!(external_path("base", "a////b"), "base/resources/external/a//b");
    assert_eq!(external_path("base", "a\\\\b"), "base/resources/external/a/b");
}

#[test]
fn external_path_has_no_backslash() {
    let p = external_path("\\\\srv\\share\\", "\\tex\\\\a.png");
    assert!(!p.contains('\\'));
    assert_eq!(p, "/srv/share/resources/external/tex/a.png");
}

#[test]
fn texture_defaults() {
    assert_eq!(TextureId::default(), TextureId::Missing);
    let d = DynamicTextureParams::default();
    assert_eq!(d.size, 1);
    assert_eq!(d.color, Color::from_rgba(255, 255, 255, 255));
    assert_eq!(Color::from([1u8, 2, 3, 4]), Color { r: 1, g: 2, b: 3, a: 4 });
}

#[test]
fn asset_ids_of_textures() {
    assert_eq!(AssetId::from(TextureId::Mob0), AssetId::Texture(TextureId::Mob0));
    assert_eq!(TextureId::RedPlatform.asset_id(), AssetId::Texture(TextureId::RedPlatform));
}

fn sample_resolver() -> Resolver {
    Resolver::new(
        "textures",
        Some(vec![
            (TextureId::Missing, String::from("missing.png")),
            (TextureId::GreenPlatform, String::from("platform/green.png")),
            (TextureId::Missing, String::from("missing2.png")),
        ]),
    )
}

#[test]
fn resolver_gives_base_and_entry() {
    let r = sample_resolver();
    let p = r.get(AssetId::Texture(TextureId::GreenPlatform)).unwrap();
    assert_eq!(p.to_string(), "textures/platform/green.png");
}

#[test]
fn resolver_last_entry_wins() {
    let r = sample_resolver();
    let p = r.get(AssetId::Texture(TextureId::Missing)).unwrap();
    assert_eq!(p.to_string(), "textures/missing2.png");
}

#[test]
fn resolver_unknown_asset() {
    let r = sample_resolver();
    assert!(r.get(AssetId::Texture(TextureId::Mob1)).is_none());
}

#[test]
fn resolver_without_table_resolves_nothing() {
    let r = Resolver::new::<TextureId>("textures", None);
    assert!(r.get(AssetId::Texture(TextureId::Missing)).is_none());
}
