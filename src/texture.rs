use vstd::prelude::*;

verus! {

/// This crate's classification of a texture's shape.
#[derive(Debug, PartialEq, Eq, Structural, Clone, Copy)]
pub enum TextureDimension {
    Texture1d,
    Texture2d,
    Texture3d,
    TextureCube,
}

/// The view dimensions that the GPU layer can report for a texture.
#[derive(Debug, PartialEq, Eq, Structural, Clone, Copy)]
pub enum ViewDimension {
    D1,
    D2,
    D2Array,
    Cube,
    CubeArray,
    D3,
}

/// The values of a texture file's footer that decide its shape and size.
#[derive(Debug, PartialEq, Eq, Structural, Clone, Copy)]
pub struct TextureFooter {
    pub width: u32,
    pub height: u32,
    pub depth: u32,
    pub layer_count: u32,
}

/// Material parameter id of the first texture slot that always holds a cube map.
pub const TEXTURE2_PARAM_ID: u64 = 94;

/// Material parameter id of the second texture slot that always holds a cube map.
pub const TEXTURE7_PARAM_ID: u64 = 99;

/// Material parameter id of the third texture slot that always holds a cube map.
pub const TEXTURE8_PARAM_ID: u64 = 100;

/// Array layers are not considered for depth or cube textures.
pub open spec fn footer_dimension(depth: u32, layer_count: u32) -> TextureDimension {
    if depth > 1 {
        TextureDimension::Texture3d
    } else if layer_count == 6 {
        TextureDimension::TextureCube
    } else {
        TextureDimension::Texture2d
    }
}

pub open spec fn is_cube_map_param(param_id: u64) -> bool {
    param_id == TEXTURE2_PARAM_ID || param_id == TEXTURE7_PARAM_ID || param_id
        == TEXTURE8_PARAM_ID
}

pub open spec fn param_dimension(param_id: u64) -> TextureDimension {
    if is_cube_map_param(param_id) {
        TextureDimension::TextureCube
    } else {
        TextureDimension::Texture2d
    }
}

/// Array views are classified like their single-layer counterparts.
pub open spec fn view_dimension(d: ViewDimension) -> TextureDimension {
    match d {
        ViewDimension::D1 => TextureDimension::Texture1d,
        ViewDimension::D2 => TextureDimension::Texture2d,
        ViewDimension::D2Array => TextureDimension::Texture2d,
        ViewDimension::Cube => TextureDimension::TextureCube,
        ViewDimension::CubeArray => TextureDimension::TextureCube,
        ViewDimension::D3 => TextureDimension::Texture3d,
    }
}

impl TextureDimension {
    /// Classifies a decoded texture file by its footer.
    pub fn from_nutexb(footer: &TextureFooter) -> (r: TextureDimension)
        ensures
            r == footer_dimension(footer.depth, footer.layer_count),
    {
        if footer.depth > 1 {
            TextureDimension::Texture3d
        } else if footer.layer_count == 6 {
            TextureDimension::TextureCube
        } else {
            TextureDimension::Texture2d
        }
    }

    /// Classifies the texture bound to a material parameter by the parameter's id.
    pub fn from_param(param_id: u64) -> (r: TextureDimension)
        ensures
            r == param_dimension(param_id),
    {
        if param_id == TEXTURE2_PARAM_ID || param_id == TEXTURE7_PARAM_ID || param_id
            == TEXTURE8_PARAM_ID {
            TextureDimension::TextureCube
        } else {
            TextureDimension::Texture2d
        }
    }
}

impl From<ViewDimension> for TextureDimension {
    fn from(d: ViewDimension) -> (r: TextureDimension) {
        match d {
            ViewDimension::D1 => TextureDimension::Texture1d,
            ViewDimension::D2 => TextureDimension::Texture2d,
            ViewDimension::D2Array => TextureDimension::Texture2d,
            ViewDimension::Cube => TextureDimension::TextureCube,
            ViewDimension::CubeArray => TextureDimension::TextureCube,
            ViewDimension::D3 => TextureDimension::Texture3d,
        }
    }
}

impl vstd::std_specs::convert::FromSpecImpl<ViewDimension> for TextureDimension {
    open spec fn obeys_from_spec() -> bool {
        true
    }

    open spec fn from_spec(d: ViewDimension) -> TextureDimension {
        view_dimension(d)
    }
}

} // verus!
