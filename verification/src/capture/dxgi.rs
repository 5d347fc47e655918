//! Desktop capture surface formats.
//!
//! On an SDR display the desktop is duplicated as 8-bit BGRA (sRGB); on an HDR
//! display as FP16 scRGB, which is tone-mapped to SDR before encoding.

use vstd::prelude::*;

verus! {

/// Pixel format of a captured desktop surface.
#[derive(Debug, Clone, Copy, PartialEq, Eq, Structural)]
pub enum CaptureFormat {
    /// 8-bit BGRA (`DXGI_FORMAT_B8G8R8A8_UNORM`).
    Bgra8Unorm,
    /// 16-bit float RGBA (`DXGI_FORMAT_R16G16B16A16_FLOAT`).
    Rgba16Float,
}

/// The format of the captured surface (for the converter's source texture).
pub fn capture_format(hdr: bool) -> (r: CaptureFormat)
    ensures
        r == (if hdr {
            CaptureFormat::Rgba16Float
        } else {
            CaptureFormat::Bgra8Unorm
        }),
{
    if hdr {
        CaptureFormat::Rgba16Float
    } else {
        CaptureFormat::Bgra8Unorm
    }
}

} // verus!
