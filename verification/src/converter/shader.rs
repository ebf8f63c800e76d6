//! Compute shader for color format conversion.
//!
//! The shader converts RGB/BGR formats to various YUV formats; its parameters
//! come as push constants: width, height, input format, output format and color
//! space. Work groups are 8x8x1.

use crate::error::PixelForgeError;
use vstd::prelude::*;

verus! {

/// Bytes of the output buffer at which the samples of a pixel start.
pub struct SamplePlaces {
    /// Luma.
    pub luma: int,
    /// The first chroma component. With 4:2:0, four pixels share it.
    pub u: int,
    /// The second chroma component.
    pub v: int,
}

/// Where the shader writes the samples of the pixel at `x` and `y` when it is handed
/// these push constants.
///
/// Output format 2 has three planes of full size. Formats 3 and 4 have 16-bit luma
/// samples followed by pairs of 16-bit chroma samples, one pair for four pixels with
/// format 3 and one for each pixel with format 4. Format 0 has luma followed by pairs
/// of chroma samples for four pixels each, and any other number is taken for a format
/// with two chroma planes of a quarter of the size.
pub open spec fn shader_places(params: Seq<u32>, x: int, y: int) -> SamplePlaces {
    let width = params[0] as int;
    let pixels = width * params[1];
    let pixel = y * width + x;
    let quad = y / 2 * (width / 2) + x / 2;
    let output_format = params[3];
    if output_format == 2 {
        SamplePlaces { luma: pixel, u: pixels + pixel, v: 2 * pixels + pixel }
    } else if output_format == 4 {
        let pair = 4 * (pixels / 2 + pixel);
        SamplePlaces { luma: 2 * pixel, u: pair, v: pair + 2 }
    } else if output_format == 3 {
        let pair = 4 * (pixels / 2 + quad);
        SamplePlaces { luma: 2 * pixel, u: pair, v: pair + 2 }
    } else if output_format == 0 {
        SamplePlaces { luma: pixel, u: pixels + 2 * quad, v: pixels + 2 * quad + 1 }
    } else {
        SamplePlaces { luma: pixel, u: pixels + quad, v: pixels + pixels / 4 + quad }
    }
}

/// The shader takes the source for linear light and applies the PQ transfer function.
pub open spec fn shader_reads_linear_light(params: Seq<u32>) -> bool {
    params[2] == 5
}

/// The shader uses the BT.2020 matrix in place of that of BT.709.
pub open spec fn shader_uses_bt2020(params: Seq<u32>) -> bool {
    params[4] == 1
}

/// Get the SPIR-V bytecode for the color conversion shader.
///
/// `loaded` is the outcome of loading the shader, which counts only while
/// nothing is cached. Once loading has succeeded, its code stays cached.
pub fn get_spirv_code(
    cache: &mut Option<Vec<u32>>,
    loaded: Result<Vec<u32>, PixelForgeError>,
) -> (code: Result<Vec<u32>, PixelForgeError>)
    ensures
        match (*old(cache), loaded) {
            (Some(cached), _) => *final(cache) == *old(cache) && code is Ok && code->Ok_0@
                == cached@,
            (None, Ok(spirv)) => *final(cache) == Some(spirv) && code is Ok && code->Ok_0@
                == spirv@,
            (None, Err(e)) => *final(cache) is None && code == Err::<Vec<u32>, PixelForgeError>(e),
        },
{
    if let Some(cached) = cache {
        return Ok(copy_words(cached));
    }
    match loaded {
        Ok(spirv) => {
            let code = copy_words(&spirv);
            *cache = Some(spirv);
            Ok(code)
        },
        Err(e) => Err(e),
    }
}

fn copy_words(words: &Vec<u32>) -> (copy: Vec<u32>)
    ensures
        copy@ == words@,
{
    let mut copy: Vec<u32> = Vec::new();
    let mut i: usize = 0;
    while i < words.len()
        invariant
            i <= words.len(),
            copy@ =~= words@.take(i as int),
        decreases words.len() - i,
    {
        copy.push(words[i]);
        i = i + 1;
    }
    assert(words@.take(i as int) =~= words@);
    copy
}

} // verus!
