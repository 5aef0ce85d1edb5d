use vstd::prelude::*;

verus! {

/// An RGBA colour, one byte per channel.
#[derive(Clone, Copy, Debug, PartialEq, Eq, Hash, Structural)]
pub struct Color {
    pub r: u8,
    pub g: u8,
    pub b: u8,
    pub a: u8,
}

impl Color {
    pub fn from_rgba(r: u8, g: u8, b: u8, a: u8) -> (c: Color)
        ensures
            c == (Color { r, g, b, a }),
    {
        Color { r, g, b, a }
    }
}

impl From<[u8; 4]> for Color {
    fn from(v: [u8; 4]) -> (c: Color) {
        Color { r: v[0], g: v[1], b: v[2], a: v[3] }
    }
}

impl vstd::std_specs::convert::FromSpecImpl<[u8; 4]> for Color {
    open spec fn obeys_from_spec() -> bool {
        true
    }

    open spec fn from_spec(v: [u8; 4]) -> Color {
        Color { r: v@[0], g: v@[1], b: v@[2], a: v@[3] }
    }
}

/// Parameters of a texture that is generated instead of loaded: a square of
/// `size` pixels filled with `color`.
#[derive(Clone, Copy, Debug, PartialEq, Eq, Hash, Structural)]
pub struct DynamicTextureParams {
    pub size: u16,
    pub color: Color,
}

impl DynamicTextureParams {
    /// The default generated texture: one white pixel.
    pub open spec fn spec_default() -> DynamicTextureParams {
        DynamicTextureParams { size: 1, color: Color { r: 255, g: 255, b: 255, a: 255 } }
    }
}

impl Default for DynamicTextureParams {
    fn default() -> (p: DynamicTextureParams)
        ensures
            p == DynamicTextureParams::spec_default(),
    {
        DynamicTextureParams { size: 1, color: Color::from([255u8, 255u8, 255u8, 255u8]) }
    }
}

/// Every texture the game can draw.
#[derive(Clone, Copy, Debug, PartialEq, Eq, Hash, Structural)]
pub enum TextureId {
    DoodleLeft,
    DoodleRight,
    BluePlatform,
    GreenPlatform,
    RedPlatform,
    WhitePlatform,
    CrackedPlatform0,
    CrackedPlatform1,
    CrackedPlatform2,
    CrackedPlatform3,
    Mob0,
    Mob1,
    Mob2Left,
    Mob2Right,
    /// A texture generated at run time (particles and the like).
    Dynamic(DynamicTextureParams),
    Missing,
}

impl Default for TextureId {
    /// The texture shown when another one cannot be found.
    fn default() -> (id: TextureId)
        ensures
            id == TextureId::Missing,
    {
        TextureId::Missing
    }
}

/// Identifier of any asset, whatever its category.
#[derive(Clone, Copy, Debug, PartialEq, Eq, Hash, Structural)]
pub enum AssetId {
    Texture(TextureId),
}

impl From<TextureId> for AssetId {
    fn from(id: TextureId) -> (a: AssetId) {
        AssetId::Texture(id)
    }
}

impl vstd::std_specs::convert::FromSpecImpl<TextureId> for AssetId {
    open spec fn obeys_from_spec() -> bool {
        true
    }

    open spec fn from_spec(id: TextureId) -> AssetId {
        AssetId::Texture(id)
    }
}

/// A category of asset identifiers: each of them names one [`AssetId`].
pub trait AssetIdTrait: Sized + Copy + Default + Into<AssetId> {
    /// The asset that this identifier names.
    spec fn spec_asset_id(self) -> AssetId;

    fn asset_id(self) -> (id: AssetId)
        ensures
            id == self.spec_asset_id(),
    ;
}

impl AssetIdTrait for TextureId {
    open spec fn spec_asset_id(self) -> AssetId {
        AssetId::Texture(self)
    }

    fn asset_id(self) -> (id: AssetId) {
        AssetId::from(self)
    }
}

} // verus!
