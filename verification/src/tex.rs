//! Device textures and the OpenGL format numbers that describe their channels.

use vstd::prelude::*;

verus! {

pub const GL_INT: u32 = 0x1404;
pub const GL_UNSIGNED_INT: u32 = 0x1405;
pub const GL_FLOAT: u32 = 0x1406;
pub const GL_TEXTURE_2D: u32 = 0x0DE1;
pub const GL_TEXTURE_CUBE_MAP: u32 = 0x8513;
pub const GL_DEPTH_COMPONENT: u32 = 0x1902;
pub const GL_RED: u32 = 0x1903;
pub const GL_RG: u32 = 0x8227;
pub const GL_RGB: u32 = 0x1907;
pub const GL_RGBA: u32 = 0x1908;
pub const GL_R32F: u32 = 0x822E;
pub const GL_RG32F: u32 = 0x8230;
pub const GL_RGB32F: u32 = 0x8815;
pub const GL_RGBA32F: u32 = 0x8814;

/// The texels of an image on the host: 8-bit or floating-point channels.
pub enum HostTextureData<F> {
    UINT8(Vec<u8>),
    FLOAT32(Vec<F>),
}

/// An image on the host: its name, size, channel count and texels.
pub struct HostTexture<F> {
    pub name: String,
    pub width: usize,
    pub height: usize,
    pub depth: usize,
    pub data: HostTextureData<F>,
}

/// A texture object on the device.
#[derive(Clone)]
pub struct DeviceTexture {
    pub name: String,
    pub handle: u32,
    pub target: u32,
}

impl DeviceTexture {
    /// Another description of the same device texture.
    pub fn duplicate(&self) -> (r: DeviceTexture)
        ensures
            same_texture(r, *self),
    {
        DeviceTexture { name: self.name.clone(), handle: self.handle, target: self.target }
    }
}

/// `a` and `b` describe the same device texture.
pub open spec fn same_texture(a: DeviceTexture, b: DeviceTexture) -> bool {
    &&& a.name@ == b.name@
    &&& a.handle == b.handle
    &&& a.target == b.target
}

/// The floating-point internal format for an image with `image_depth` channels.
pub open spec fn internal_format_of_depth(image_depth: nat) -> u32 {
    if image_depth == 1 {
        GL_R32F
    } else if image_depth == 2 {
        GL_RG32F
    } else if image_depth == 3 {
        GL_RGB32F
    } else {
        GL_RGBA32F
    }
}

/// The pixel format for an image with `image_depth` channels.
pub open spec fn format_of_depth(image_depth: nat) -> u32 {
    if image_depth == 1 {
        GL_RED
    } else if image_depth == 2 {
        GL_RG
    } else if image_depth == 3 {
        GL_RGB
    } else {
        GL_RGBA
    }
}

/// The pixel formats that name a channel count.
pub open spec fn is_supported_format(gl_format: u32) -> bool {
    gl_format == GL_RED || gl_format == GL_DEPTH_COMPONENT || gl_format == GL_RG
        || gl_format == GL_RGB || gl_format == GL_RGBA
}

/// The channel count of a pixel format.
pub open spec fn depth_of_format(gl_format: u32) -> nat {
    if gl_format == GL_RED || gl_format == GL_DEPTH_COMPONENT {
        1
    } else if gl_format == GL_RG {
        2
    } else if gl_format == GL_RGB {
        3
    } else {
        4
    }
}

/// Floating-point internal format for 1 to 4 channels.
pub fn convert_image_depth_to_gl_internal_format(image_depth: usize) -> (r: u32)
    requires
        1 <= image_depth <= 4,
    ensures
        r == internal_format_of_depth(image_depth as nat),
{
    if image_depth == 1 {
        GL_R32F
    } else if image_depth == 2 {
        GL_RG32F
    } else if image_depth == 3 {
        GL_RGB32F
    } else {
        GL_RGBA32F
    }
}

/// Pixel format for 1 to 4 channels.
pub fn convert_image_depth_to_gl_format(image_depth: usize) -> (r: u32)
    requires
        1 <= image_depth <= 4,
    ensures
        r == format_of_depth(image_depth as nat),
{
    if image_depth == 1 {
        GL_RED
    } else if image_depth == 2 {
        GL_RG
    } else if image_depth == 3 {
        GL_RGB
    } else {
        GL_RGBA
    }
}

/// Channel count of a pixel format; depth textures count as one channel.
pub fn convert_gl_format_to_image_depth(gl_format: u32) -> (r: usize)
    requires
        is_supported_format(gl_format),
    ensures
        r == depth_of_format(gl_format),
        1 <= r <= 4,
{
    if gl_format == GL_RED || gl_format == GL_DEPTH_COMPONENT {
        1
    } else if gl_format == GL_RG {
        2
    } else if gl_format == GL_RGB {
        3
    } else {
        4
    }
}

/// Converting a channel count to a pixel format and back gives the channel count again.
pub proof fn lemma_format_depth_round_trip(image_depth: nat)
    requires
        1 <= image_depth <= 4,
    ensures
        is_supported_format(format_of_depth(image_depth)),
        depth_of_format(format_of_depth(image_depth)) == image_depth,
{
}

/// Every supported pixel format is recovered from its channel count, except the depth
/// format, which reads as the one-channel color format: a depth texture has one channel.
/// The one-channel formats are exactly the red and the depth formats.
pub proof fn lemma_depth_format_round_trip(gl_format: u32)
    requires
        is_supported_format(gl_format),
    ensures
        1 <= depth_of_format(gl_format) <= 4,
        format_of_depth(depth_of_format(gl_format)) == (if gl_format == GL_DEPTH_COMPONENT {
            GL_RED
        } else {
            gl_format
        }),
        depth_of_format(gl_format) == 1 <==> (gl_format == GL_RED || gl_format == GL_DEPTH_COMPONENT),
{
}

} // verus!
