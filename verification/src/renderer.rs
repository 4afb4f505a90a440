//! Interface types the renderer collaborator consumes, and the packed
//! 0xAARRGGBB color helpers. The rendering machinery itself (video
//! modes, instance stacks, draw submission) lives outside this crate.
#![allow(non_snake_case)]

use vstd::prelude::*;
use crate::vector3::Vector3;

verus! {

/// Source blend functions.
pub enum SourceBlendMode {
    SourceBlendModeSrcAlpha,
    SourceBlendModeOne,
    SourceBlendModeZero,
}

/// Destination blend functions.
pub enum DestBlendMode {
    DestBlendModeInvSrcAlpha,
    DestBlendModeOne,
    DestBlendModeZero,
    DestBlendModeSrcColor,
}

/// Backface culling modes.
pub enum BackfaceMode {
    BackfaceModeCCW,
    BackfaceModeCW,
    BackfaceModeDisable,
}

/// A video mode: resolution, color depth and refresh rate.
pub struct VideoMode {
    pub x_res: i32,
    pub y_res: i32,
    pub bits_per_pixel: i32,
    pub refresh_hz: i32,
}

/// An untransformed, unlit vertex handed to the renderer.
#[derive(Clone, Copy, Debug)]
pub struct RenderVertex {
    pub p: Vector3,
    pub n: Vector3,
    pub u: i64,
    pub v: i64,
}

/// One triangle of a render mesh: three 16-bit indices, which caps a
/// single mesh at 65536 vertices.
#[derive(Clone, Copy, Debug)]
pub struct RenderTri {
    pub a: u16,
    pub b: u16,
    pub c: u16,
}

/// A texture's name and its handle within the graphics system.
#[derive(Debug)]
pub struct TextureReference {
    pub name: String,
    pub handle: i32,
}

/// Whether the model-to-clip matrix must be recomputed before the next
/// draw.
pub struct GlobalFlag {
    pub need_to_compute_model_to_clip_matrix: bool,
}

impl RenderTri {
    pub fn new(a: u16, b: u16, c: u16) -> (r: RenderTri)
        ensures
            r == (RenderTri { a, b, c }),
    {
        RenderTri { a, b, c }
    }
}

impl GlobalFlag {
    pub fn new() -> (r: GlobalFlag)
        ensures
            r.need_to_compute_model_to_clip_matrix,
    {
        GlobalFlag { need_to_compute_model_to_clip_matrix: true }
    }
}

/// Pack red, green and blue bytes into 0x00RRGGBB form.
pub fn make_rgb(r: u32, g: u32, b: u32) -> (argb: u32)
    requires
        r <= 0xFF,
        g <= 0xFF,
        b <= 0xFF,
    ensures
        argb == (r << 16u32 | g << 8u32 | b),
{
    r << 16u32 | g << 8u32 | b
}

/// Pack alpha, red, green and blue bytes into 0xAARRGGBB form.
pub fn make_argb(a: u32, r: u32, g: u32, b: u32) -> (argb: u32)
    requires
        a <= 0xFF,
        r <= 0xFF,
        g <= 0xFF,
        b <= 0xFF,
    ensures
        argb == (a << 24u32 | r << 16u32 | g << 8u32 | b),
{
    a << 24u32 | r << 16u32 | g << 8u32 | b
}

/// The alpha byte of a packed color.
pub fn get_a(argb: u32) -> (r: u32)
    ensures
        r == (argb >> 24u32 & 0xFF),
{
    argb >> 24u32 & 0xFF
}

/// The red byte of a packed color.
pub fn get_r(argb: u32) -> (r: u32)
    ensures
        r == (argb >> 16u32 & 0xFF),
{
    argb >> 16u32 & 0xFF
}

/// The green byte of a packed color.
pub fn get_g(argb: u32) -> (r: u32)
    ensures
        r == (argb >> 8u32 & 0xFF),
{
    argb >> 8u32 & 0xFF
}

/// The blue byte of a packed color.
pub fn get_b(argb: u32) -> (r: u32)
    ensures
        r == (argb & 0xFF),
{
    argb & 0xFF
}

/// Each byte put into a packed color comes back out unchanged.
pub proof fn lemma_argb_round_trip(a: u32, r: u32, g: u32, b: u32)
    requires
        a <= 0xFF,
        r <= 0xFF,
        g <= 0xFF,
        b <= 0xFF,
    ensures
        ((a << 24u32 | r << 16u32 | g << 8u32 | b) >> 24u32 & 0xFF) == a,
        ((a << 24u32 | r << 16u32 | g << 8u32 | b) >> 16u32 & 0xFF) == r,
        ((a << 24u32 | r << 16u32 | g << 8u32 | b) >> 8u32 & 0xFF) == g,
        ((a << 24u32 | r << 16u32 | g << 8u32 | b) & 0xFF) == b,
{
    assert(((a << 24u32 | r << 16u32 | g << 8u32 | b) >> 24u32 & 0xFF) == a && ((a << 24u32 | r
        << 16u32 | g << 8u32 | b) >> 16u32 & 0xFF) == r && ((a << 24u32 | r << 16u32 | g << 8u32
        | b) >> 8u32 & 0xFF) == g && ((a << 24u32 | r << 16u32 | g << 8u32 | b) & 0xFF) == b)
        by (bit_vector)
        requires
            a <= 0xFF,
            r <= 0xFF,
            g <= 0xFF,
            b <= 0xFF,
    ;
}

} // verus!
