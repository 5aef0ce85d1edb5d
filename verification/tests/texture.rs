use doodlai::assets::id::{AssetId, Color, DynamicTextureParams, TextureId};
use doodlai::assets::resolver::Resolver;
use doodlai::assets::texture::{LoadStatus, Storage};

fn resolver() -> Resolver {
    Resolver::new(
        "textures",
        Some(vec![
            (TextureId::Missing, String::from("missing.png")),
            (TextureId::GreenPlatform, String::from("green.png")),
            (TextureId::DoodleLeft, String::from("doodle_left.png")),
        ]),
    )
}

fn default_dynamic() -> TextureId {
    TextureId::Dynamic(DynamicTextureParams::default())
}

#[test]
fn new_storage_loads_the_default_texture() {
    let (_storage, req) = Storage::new(resolver());
    assert_eq!(req.id, TextureId::Missing);
    assert_eq!(req.path.to_string(), "textures/missing.png");
}

#[test]
fn lookup_before_anything_is_loaded_falls_back_to_generated_texture() {
    let (mut storage, _) = Storage::new(resolver());
    let look = storage.get(TextureId::GreenPlatform);
    assert_eq!(look.result, Err(default_dynamic()));
    assert_eq!(look.requests.len(), 1);
    assert_eq!(look.requests[0].id, TextureId::GreenPlatform);
    assert_eq!(look.requests[0].path.to_string(), "textures/green.png");
    assert_eq!(look.created, vec![default_dynamic()]);
    // a second lookup reuses both the running load and the generated texture
    let again = storage.get(TextureId::GreenPlatform);
    assert_eq!(again.result, Err(default_dynamic()));
    assert!(again.requests.is_empty());
    assert!(again.created.is_empty());
}

#[test]
fn decoded_textures_are_answered_directly() {
    let (mut storage, _) = Storage::new(resolver());
    let _ = storage.get(TextureId::GreenPlatform);
    // pending: Missing, GreenPlatform
    storage.update(&vec![LoadStatus::Decoded, LoadStatus::Decoded]);
    let look = storage.get(TextureId::GreenPlatform);
    assert_eq!(look.result, Ok(TextureId::GreenPlatform));
    assert!(look.requests.is_empty());
    assert!(look.created.is_empty());
}

#[test]
fn default_texture_is_the_first_fallback() {
    let (mut storage, _) = Storage::new(resolver());
    storage.update(&vec![LoadStatus::Decoded]);
    let look = storage.get(TextureId::DoodleLeft);
    assert_eq!(look.result, Err(TextureId::Missing));
    assert_eq!(look.requests.len(), 1);
    assert!(look.created.is_empty());
}

#[test]
fn generated_textures_are_created_on_demand() {
    let (mut storage, _) = Storage::new(resolver());
    let params = DynamicTextureParams { size: 4, color: Color::from_rgba(1, 2, 3, 4) };
    let look = storage.get(TextureId::Dynamic(params));
    assert_eq!(look.result, Ok(TextureId::Dynamic(params)));
    assert_eq!(look.created, vec![TextureId::Dynamic(params)]);
    let again = storage.get(TextureId::Dynamic(params));
    assert_eq!(again.result, Ok(TextureId::Dynamic(params)));
    assert!(again.created.is_empty());
}

#[test]
fn panicked_loads_are_missing_and_not_requested_again() {
    let (mut storage, _) = Storage::new(resolver());
    let _ = storage.get(TextureId::GreenPlatform);
    // the default texture's load panics, the platform's is still running
    storage.update(&vec![LoadStatus::Panicked, LoadStatus::Waiting]);
    // the platform's load panics too
    storage.update(&vec![LoadStatus::Panicked]);
    let look = storage.get(TextureId::GreenPlatform);
    // the platform is missing: no new load for it; the default texture is
    // missing: its load is started again
    assert_eq!(look.requests.len(), 1);
    assert_eq!(look.requests[0].id, TextureId::Missing);
    assert_eq!(look.result, Err(default_dynamic()));
}

#[test]
fn failed_decoding_drops_the_load() {
    let (mut storage, _) = Storage::new(resolver());
    storage.update(&vec![LoadStatus::DecodeFailed]);
    let look = storage.get(TextureId::Missing);
    // not loaded, not missing: its load starts again
    assert_eq!(look.requests.len(), 1);
    assert_eq!(look.requests[0].id, TextureId::Missing);
    assert_eq!(look.result, Err(default_dynamic()));
}

#[test]
fn explicit_request_reuses_running_load() {
    let (mut storage, _) = Storage::new(resolver());
    assert!(storage.request(TextureId::Missing).is_none());
    let r = storage.request(TextureId::DoodleLeft).unwrap();
    assert_eq!(r.path.to_string(), "textures/doodle_left.png");
    assert!(storage.request(TextureId::DoodleLeft).is_none());
    let _ = AssetId::Texture(r.id);
}

#[test]
fn create_dynamic_names_the_texture() {
    let (mut storage, _) = Storage::new(resolver());
    let params = DynamicTextureParams::default();
    assert_eq!(storage.create_dynamic(params), TextureId::Dynamic(params));
}
