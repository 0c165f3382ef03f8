//! The pipeline that turns the camera's image into what is shown: which shaders, images and
//! buffers it is made of.

use crate::geometry::Size;
use vstd::prelude::*;

verus! {

#[derive(Debug, Clone, Copy, PartialEq, Eq, Structural)]
pub enum PixelFormat {
    /// Four bytes for two pixels, which share their colour.
    G8B8G8R8_422Unorm,
    R8G8B8A8Unorm,
    R8G8B8A8Snorm,
}

/// How many bytes two pixels take.
pub open spec fn bytes_of_two_pixels(format: PixelFormat) -> int {
    match format {
        PixelFormat::G8B8G8R8_422Unorm => 4,
        _ => 8,
    }
}

/// What the fragment shader does.
#[derive(Debug, Clone, Copy, PartialEq, Eq, Structural)]
pub enum FragmentShader {
    /// Converts the colours and takes the distortion of the lens out.
    YuyvUndistort,
    /// Converts the colours.
    Yuyv,
    /// Takes the distortion of the lens out.
    Undistort,
    Unprocessed,
}

/// The shader that is needed. The colours have to be converted by it if the image is YUYV and
/// no sampler does it.
pub open spec fn shader_for(
    source_is_yuyv: bool,
    has_camera_config: bool,
    has_yuyv_sampler: bool,
) -> FragmentShader {
    if source_is_yuyv && !has_yuyv_sampler {
        if has_camera_config {
            FragmentShader::YuyvUndistort
        } else {
            FragmentShader::Yuyv
        }
    } else if has_camera_config {
        FragmentShader::Undistort
    } else {
        FragmentShader::Unprocessed
    }
}

/// What the device can do.
#[derive(Debug, Clone, Copy, PartialEq, Eq, Structural)]
pub struct DeviceSupport {
    pub ycbcr_extension: bool,
    pub ycbcr_feature: bool,
}

/// What the pipeline is made for.
#[derive(Debug, Clone, Copy, PartialEq, Eq, Structural)]
pub struct PipelineInput {
    pub source_is_yuyv: bool,
    pub has_camera_config: bool,
    /// The size of one eye's half of the camera's image.
    pub camera_size: Size,
    pub render_size: Size,
}

/// What the pipeline is made of.
#[derive(Debug, Clone, Copy, PartialEq, Eq, Structural)]
pub struct Pipeline {
    pub shader: FragmentShader,
    /// The image that the camera's image is copied to.
    pub input_format: PixelFormat,
    pub input_extent: Size,
    /// The buffer that the camera's image is uploaded from.
    pub buffer_size: u64,
    /// Whether the sampler converts the colours.
    pub converts_colours: bool,
    /// Whether the parameters of the lens are bound.
    pub binds_distortion: bool,
    pub render_size: Size,
}

/// The sampler can convert the colours.
pub open spec fn yuyv_sampler(support: DeviceSupport, midpoint_chroma: bool) -> bool {
    support.ycbcr_extension && support.ycbcr_feature && midpoint_chroma
}

/// The camera's image is used as it comes, two pixels of YUYV as one pixel.
pub open spec fn takes_raw(input: PipelineInput, sampler: bool) -> bool {
    input.source_is_yuyv && !sampler
}

/// The width of the image that the camera's image is copied to.
pub open spec fn input_width(input: PipelineInput, sampler: bool) -> int {
    if takes_raw(input, sampler) {
        input.camera_size.width as int
    } else {
        input.camera_size.width * 2
    }
}

/// The number of bytes of the camera's image.
pub open spec fn image_bytes(input: PipelineInput) -> int {
    input.camera_size.width * input.camera_size.height * 2 * (if input.source_is_yuyv {
        2int
    } else {
        4int
    })
}

impl Pipeline {
    /// The shader that is needed.
    pub fn load_shader(
        source_is_yuyv: bool,
        has_camera_config: bool,
        has_yuyv_sampler: bool,
    ) -> (r: FragmentShader)
        ensures
            r == shader_for(source_is_yuyv, has_camera_config, has_yuyv_sampler),
    {
        match (source_is_yuyv && !has_yuyv_sampler, has_camera_config) {
            (true, true) => FragmentShader::YuyvUndistort,
            (true, false) => FragmentShader::Yuyv,
            (false, true) => FragmentShader::Undistort,
            (false, false) => FragmentShader::Unprocessed,
        }
    }

    /// Whether the device has to be asked how it samples the camera's format.
    pub fn asks_for_format(support: &DeviceSupport) -> (r: bool)
        ensures
            r == (support.ycbcr_extension && support.ycbcr_feature),
    {
        support.ycbcr_extension && support.ycbcr_feature
    }

    /// Plans the pipeline. `midpoint_chroma` is what the device answered, if it was asked.
    pub fn new(support: &DeviceSupport, midpoint_chroma: bool, input: &PipelineInput) -> (r:
        Pipeline)
        requires
            input_width(*input, yuyv_sampler(*support, midpoint_chroma)) <= u32::MAX,
            image_bytes(*input) <= u64::MAX,
        ensures
            ({
                let sampler = yuyv_sampler(*support, midpoint_chroma);
                &&& r.shader == shader_for(input.source_is_yuyv, input.has_camera_config, sampler)
                &&& r.input_format == (if sampler && input.source_is_yuyv {
                    PixelFormat::G8B8G8R8_422Unorm
                } else {
                    PixelFormat::R8G8B8A8Unorm
                })
                &&& r.input_extent.width == input_width(*input, sampler)
                &&& r.input_extent.height == input.camera_size.height
                &&& r.buffer_size == image_bytes(*input)
                &&& r.converts_colours == sampler
                &&& r.binds_distortion == input.has_camera_config
                &&& r.render_size == input.render_size
            }),
    {
        let sampler: bool = Pipeline::asks_for_format(support) && midpoint_chroma;
        let input_format = if sampler && input.source_is_yuyv {
            PixelFormat::G8B8G8R8_422Unorm
        } else {
            PixelFormat::R8G8B8A8Unorm
        };
        let shader = Pipeline::load_shader(
            input.source_is_yuyv,
            input.has_camera_config,
            sampler,
        );
        let width: u32 = if input.source_is_yuyv && !sampler {
            input.camera_size.width
        } else {
            input.camera_size.width * 2
        };
        let bytes: u64 = if input.source_is_yuyv {
            2
        } else {
            4
        };
        let w: u64 = input.camera_size.width as u64;
        let h: u64 = input.camera_size.height as u64;
        proof {
            lemma_products_fit(w as int, h as int, bytes as int);
        }
        let buffer_size: u64 = w * h * 2 * bytes;
        Pipeline {
            shader,
            input_format,
            input_extent: Size::new(width, input.camera_size.height),
            buffer_size,
            converts_colours: sampler,
            binds_distortion: input.has_camera_config,
            render_size: input.render_size,
        }
    }

    /// The size and the format of the images that the pipeline draws to.
    pub fn allocate_image(&self) -> (r: (Size, PixelFormat))
        ensures
            r == (self.render_size, PixelFormat::R8G8B8A8Snorm),
    {
        (self.render_size, PixelFormat::R8G8B8A8Snorm)
    }

    /// How much of the buffer is filled with an image of `len` bytes; `None` if it is too small.
    pub fn upload_len(&self, len: usize) -> (r: Option<u64>)
        ensures
            r == (if len <= self.buffer_size {
                Some(len as u64)
            } else {
                None
            }),
    {
        if len as u64 <= self.buffer_size {
            Some(len as u64)
        } else {
            None
        }
    }
}

proof fn lemma_products_fit(w: int, h: int, bytes: int)
    requires
        0 <= w,
        0 <= h,
        bytes == 2 || bytes == 4,
        w * h * 2 * bytes <= u64::MAX,
    ensures
        0 <= w * h <= u64::MAX,
        0 <= w * h * 2 <= u64::MAX,
{
    assert(0 <= w * h) by (nonlinear_arith)
        requires
            0 <= w,
            0 <= h,
    ;
    let p = w * h;
    assert(p * 2 * bytes >= p * 2) by (nonlinear_arith)
        requires
            p >= 0,
            bytes >= 2,
    ;
}

/// The buffer holds exactly as many bytes as the image that it is copied to.
pub proof fn law_buffer_fits_image(input: PipelineInput, sampler: bool)
    ensures
        ({
            let format = if sampler && input.source_is_yuyv {
                PixelFormat::G8B8G8R8_422Unorm
            } else {
                PixelFormat::R8G8B8A8Unorm
            };
            2 * image_bytes(input) == input_width(input, sampler) * input.camera_size.height
                * bytes_of_two_pixels(format)
        }),
{
    let w = input.camera_size.width as int;
    let h = input.camera_size.height as int;
    let p = w * h;
    if takes_raw(input, sampler) {
        assert(2 * (w * h * 2 * 2) == w * h * 8) by (nonlinear_arith);
    } else if input.source_is_yuyv {
        assert(2 * (w * h * 2 * 2) == w * 2 * h * 4) by (nonlinear_arith);
    } else {
        assert(2 * (w * h * 2 * 4) == w * 2 * h * 8) by (nonlinear_arith);
    }
}

/// The colours are converted exactly once: by the sampler or by the shader if the image is YUYV,
/// and by no shader if it is not.
pub proof fn law_colours_converted_once(input: PipelineInput, sampler: bool)
    ensures
        ({
            let shader = shader_for(input.source_is_yuyv, input.has_camera_config, sampler);
            let by_shader = shader == FragmentShader::Yuyv || shader
                == FragmentShader::YuyvUndistort;
            &&& input.source_is_yuyv ==> (by_shader != sampler)
            &&& !input.source_is_yuyv ==> !by_shader
        }),
{
}

/// The shader converts the colours exactly if the image is YUYV and no sampler converts them, and
/// takes the distortion out exactly if the camera's lenses are known.
pub proof fn law_shader_does_what_is_needed(yuyv: bool, known: bool, sampler: bool, r: FragmentShader)
    requires
        call_ensures(Pipeline::load_shader, (yuyv, known, sampler), r),
    ensures
        (r is YuyvUndistort || r is Yuyv) <==> yuyv && !sampler,
        (r is YuyvUndistort || r is Undistort) <==> known,
{
}

/// What a pipeline is made of: the sampler converts colours exactly if the device can do all that
/// it takes. The image is that of the camera, of both eyes side by side, with two pixels of YUYV
/// in one where they are taken as they come; and the buffer has room for two or four bytes for
/// each pixel.
pub proof fn law_pipeline_is_planned(
    support: &DeviceSupport,
    midpoint: bool,
    input: &PipelineInput,
    r: Pipeline,
    asks: bool,
)
    requires
        call_ensures(Pipeline::new, (support, midpoint, input), r),
        call_ensures(Pipeline::asks_for_format, (support,), asks),
    ensures
        asks <==> support.ycbcr_extension && support.ycbcr_feature,
        r.converts_colours <==> asks && midpoint,
        (r.shader is YuyvUndistort || r.shader is Yuyv) <==> input.source_is_yuyv
            && !r.converts_colours,
        (r.shader is YuyvUndistort || r.shader is Undistort) <==> input.has_camera_config,
        r.binds_distortion <==> input.has_camera_config,
        r.input_format is G8B8G8R8_422Unorm <==> input.source_is_yuyv && r.converts_colours,
        r.input_format is R8G8B8A8Unorm <==> !(input.source_is_yuyv && r.converts_colours),
        r.input_extent.height == input.camera_size.height,
        input.source_is_yuyv && !r.converts_colours ==> r.input_extent.width
            == input.camera_size.width,
        !(input.source_is_yuyv && !r.converts_colours) ==> r.input_extent.width
            == input.camera_size.width * 2,
        input.source_is_yuyv ==> r.buffer_size == 4 * (input.camera_size.width
            * input.camera_size.height),
        !input.source_is_yuyv ==> r.buffer_size == 8 * (input.camera_size.width
            * input.camera_size.height),
        r.render_size == input.render_size,
{
    let w = input.camera_size.width as int;
    let h = input.camera_size.height as int;
    assert(w * h * 2 * 2 == 4 * (w * h)) by (nonlinear_arith);
    assert(w * h * 2 * 4 == 8 * (w * h)) by (nonlinear_arith);
}

/// Images are drawn in the size that is rendered; an image is uploaded exactly if the buffer has
/// room for it, and then whole.
pub proof fn law_images_and_uploads(p: &Pipeline, image: (Size, PixelFormat), len: usize, r: Option<u64>)
    requires
        call_ensures(Pipeline::allocate_image, (p,), image),
        call_ensures(Pipeline::upload_len, (p, len), r),
    ensures
        image.0 == p.render_size,
        image.1 is R8G8B8A8Snorm,
        r is Some <==> len <= p.buffer_size,
        r matches Some(n) ==> n == len,
        bytes_of_two_pixels(PixelFormat::G8B8G8R8_422Unorm) == 4,
        bytes_of_two_pixels(PixelFormat::R8G8B8A8Unorm) == 8,
        bytes_of_two_pixels(PixelFormat::R8G8B8A8Snorm) == 8,
{
}

} // verus!
