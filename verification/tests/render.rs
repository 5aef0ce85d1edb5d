use doodlai::assets::id::TextureId;
use doodlai::render::{tally_frame, tally_layer, LayerBits, RenderBitKind};

fn layer() -> (Vec<RenderBitKind>, Vec<bool>) {
    (
        vec![
            RenderBitKind::Texture(TextureId::GreenPlatform),
            RenderBitKind::Mesh,
            RenderBitKind::Texture(TextureId::GreenPlatform),
            RenderBitKind::Text,
            RenderBitKind::Texture(TextureId::DoodleLeft),
            RenderBitKind::MeshBuilder,
            RenderBitKind::EguiWindow,
        ],
        vec![false, false, false, false, true, false, false],
    )
}

#[test]
fn layer_tally_counts_each_kind() {
    let (bits, fb) = layer();
    let t = tally_layer(&bits, &fb);
    assert_eq!(t.log.textures(), 3);
    assert_eq!(t.log.textures_not_found(), 1);
    assert_eq!(t.log.meshes(), 2);
    assert_eq!(t.log.texts(), 1);
    assert_eq!(t.log.elements(), 6);
    // 4 non-texture bits + 2 distinct textures
    assert_eq!(t.log.draw_calls(), 6);
    assert_eq!(t.used_textures, vec![TextureId::GreenPlatform, TextureId::DoodleLeft]);
}

#[test]
fn empty_layer_tally() {
    let t = tally_layer(&vec![], &vec![]);
    assert_eq!(t.log.draw_calls(), 0);
    assert!(t.used_textures.is_empty());
}

#[test]
fn frame_tally_sums_layers() {
    let (bits, fb) = layer();
    let layers = vec![
        LayerBits { bits: bits.clone(), fell_back: fb.clone() },
        LayerBits { bits: vec![RenderBitKind::Texture(TextureId::GreenPlatform)], fell_back: vec![true] },
    ];
    let log = tally_frame(&layers);
    assert_eq!(log.textures(), 4);
    assert_eq!(log.textures_not_found(), 2);
    assert_eq!(log.draw_calls(), 7);
    assert_eq!(log.elements(), 7);
}


use doodlai::assets::id::DynamicTextureParams;
use doodlai::assets::resolver::Resolver;
use doodlai::assets::texture::{LoadStatus, Storage};
use doodlai::render::{render_layer, Renderer};

fn storage() -> Storage {
    let resolver = Resolver::new(
        "textures",
        Some(vec![
            (TextureId::Missing, String::from("missing.png")),
            (TextureId::GreenPlatform, String::from("green.png")),
            (TextureId::DoodleLeft, String::from("left.png")),
        ]),
    );
    Storage::new(resolver).0
}

#[test]
fn layer_drawn_against_storage() {
    let mut st = storage();
    // the default texture gets loaded
    st.update(&vec![LoadStatus::Decoded]);
    let (bits, _) = layer();
    let run = render_layer(&mut st, &bits);
    // GreenPlatform (twice) and DoodleLeft fall back to the default texture
    assert_eq!(run.log.textures(), 3);
    assert_eq!(run.log.textures_not_found(), 3);
    assert_eq!(run.log.draw_calls(), 6);
    assert_eq!(run.log.elements(), 6);
    assert_eq!(run.used_textures, vec![TextureId::GreenPlatform, TextureId::DoodleLeft]);
    // one load per texture, started at its first lookup
    assert_eq!(run.requests.len(), 2);
    assert_eq!(run.requests[0].id, TextureId::GreenPlatform);
    assert_eq!(run.requests[0].path.to_string(), "textures/green.png");
    assert_eq!(run.requests[1].id, TextureId::DoodleLeft);
    assert!(run.created.is_empty());
}

#[test]
fn layer_with_nothing_loaded_creates_the_fallback_once() {
    let mut st = storage();
    let bits = vec![RenderBitKind::Texture(TextureId::GreenPlatform), RenderBitKind::Text];
    let run = render_layer(&mut st, &bits);
    assert_eq!(run.created, vec![TextureId::Dynamic(DynamicTextureParams::default())]);
    assert_eq!(run.log.textures_not_found(), 1);
    assert_eq!(run.log.draw_calls(), 2);
}

#[test]
fn renderer_runs_and_clears_its_layers() {
    let mut st = storage();
    st.update(&vec![LoadStatus::Decoded]);
    let mut renderer = Renderer::new();
    assert!(renderer.render_request().is_empty());
    renderer.render_request().push(vec![RenderBitKind::Texture(TextureId::Missing), RenderBitKind::Mesh]);
    renderer.render_request().push(vec![RenderBitKind::Text, RenderBitKind::Texture(TextureId::Missing)]);
    let run = renderer.run(&mut st);
    assert_eq!(run.log.textures(), 2);
    assert_eq!(run.log.textures_not_found(), 0);
    // each layer: one non-texture bit and one texture batch
    assert_eq!(run.log.draw_calls(), 4);
    assert_eq!(run.log.elements(), 4);
    assert!(run.requests.is_empty());
    assert!(renderer.render_request().is_empty());
}
