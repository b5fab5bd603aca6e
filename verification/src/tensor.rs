//! Tensor preprocessing: turning an image into the channel-planar buffer an
//! inference engine consumes. The buffer keeps raw bytes; a stored byte `b`
//! stands for the model input value `b / 255`, so the fixed `1 / 255` scaling
//! is a change of representation done at the engine boundary.

use vstd::prelude::*;
use crate::imageio::resize_to_rgb;
use crate::imageio::rgb_resized;

verus! {

/// A dense model input of shape `(1, 3, height, width)`: three contiguous
/// planes, red first, then green, then blue. Created fresh for one inference
/// call and never mutated afterwards.
pub struct Tensor {
    pub width: u32,
    pub height: u32,
    pub data: Vec<u8>,
}

impl Tensor {
    pub open spec fn wf(self) -> bool {
        self.data@.len() == 3 * self.width * self.height
    }
}

/// The channel-planar rearrangement of `3 * w * h` interleaved RGB bytes:
/// position `c * (w * h) + i` of the result holds channel `c` of pixel `i`.
pub open spec fn planar_of(src: Seq<u8>, w: u32, h: u32) -> Seq<u8>
    recommends
        src.len() == 3 * w * h,
        w * h > 0,
{
    Seq::new((3 * w * h) as nat, |k: int| src[3 * (k % (w * h)) + k / (w * h)])
}

/// Rearranges an interleaved RGB byte buffer into three contiguous planes.
pub fn to_planar(raw: &Vec<u8>, width: u32, height: u32) -> (out: Vec<u8>)
    requires
        raw@.len() == 3 * width * height,
        3 * width * height <= usize::MAX,
        1 <= width,
        1 <= height,
    ensures
        out@ == planar_of(raw@, width, height),
{
    proof {
        assert((width as int) * (height as int) >= 1 && 3 * ((width as int) * (height as int)) == 3
            * (width as int) * (height as int)) by (nonlinear_arith)
            requires
                width >= 1,
                height >= 1,
        ;
    }
    let hw: usize = (width as usize) * (height as usize);
    let mut out: Vec<u8> = Vec::new();
    let mut c: usize = 0;
    while c < 3
        invariant
            c <= 3,
            1 <= hw,
            hw == width * height,
            raw@.len() == 3 * hw,
            3 * hw <= usize::MAX,
            out@.len() == c * hw,
            forall|k: int|
                0 <= k < c * hw ==> out@[k] == raw@[3 * (k % (hw as int)) + k / (hw as int)],
        decreases 3 - c,
    {
        let mut i: usize = 0;
        while i < hw
            invariant
                c < 3,
                i <= hw,
                1 <= hw,
                hw == width * height,
                raw@.len() == 3 * hw,
                3 * hw <= usize::MAX,
                out@.len() == c * hw + i,
                forall|k: int|
                    0 <= k < c * hw + i ==> out@[k] == raw@[3 * (k % (hw as int)) + k / (hw as
                    int)],
            decreases hw - i,
        {
            proof {
                assert(3 * i + c < 3 * hw) by (nonlinear_arith)
                    requires
                        0 <= i < hw,
                        0 <= c < 3,
                ;
                let k = (c * hw + i) as int;
                assert(k % (hw as int) == i && k / (hw as int) == c) by (nonlinear_arith)
                    requires
                        0 <= i < hw,
                        0 <= c < 3,
                        hw >= 1,
                        k == c * hw + i,
                ;
            }
            let v = raw[3 * i + c];
            out.push(v);
            i = i + 1;
        }
        proof {
            assert((c + 1) * hw == c * hw + hw) by (nonlinear_arith);
        }
        c = c + 1;
    }
    proof {
        assert(out@ =~= planar_of(raw@, width, height));
    }
    out
}

/// Resizes `image` to exactly `target_size` with a bicubic-class filter,
/// forces three-channel color, and lays the pixels out channel-planar:
/// the whole preprocessing step in front of an inference call.
pub fn preprocess_onnx_input(image: &image::DynamicImage, target_size: (u32, u32)) -> (t: Tensor)
    requires
        1 <= target_size.0,
        1 <= target_size.1,
        3 * target_size.0 * target_size.1 <= usize::MAX,
    ensures
        t.wf(),
        t.width == target_size.0,
        t.height == target_size.1,
        t.data@ == planar_of(rgb_resized(*image, target_size.0, target_size.1), target_size.0,
        target_size.1),
{
    let (w, h) = target_size;
    let raw = resize_to_rgb(image, w, h);
    let data = to_planar(&raw, w, h);
    Tensor { width: w, height: h, data }
}

} // verus!
