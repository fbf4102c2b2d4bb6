//! The latest decoded preview frame, handed from the decoder to the renderer, and the
//! renderer's decisions about when to reallocate and re-upload its texture.

use vstd::prelude::*;

verus! {

/// The latest decoded frame: raw RGBA bytes with their size, and a generation that changes on
/// every new frame so the renderer knows to re-upload.
#[derive(Debug, Clone, PartialEq, Eq)]
pub struct FrameSlot {
    width: u32,
    height: u32,
    data: Vec<u8>,
    generation: u64,
}

pub struct FrameSlotModel {
    pub width: u32,
    pub height: u32,
    pub data: Seq<u8>,
    pub generation: u64,
}

impl View for FrameSlot {
    type V = FrameSlotModel;

    closed spec fn view(&self) -> FrameSlotModel {
        FrameSlotModel { width: self.width, height: self.height, data: self.data@, generation: self.generation }
    }
}

/// The byte count a full RGBA frame of this size needs.
pub open spec fn rgba_len(width: u32, height: u32) -> int {
    width as int * height as int * 4
}

impl FrameSlot {
    /// An empty slot: no frame, generation 0.
    pub fn new() -> (r: FrameSlot)
        ensures
            r@.width == 0,
            r@.height == 0,
            r@.data.len() == 0,
            r@.generation == 0,
    {
        FrameSlot { width: 0, height: 0, data: Vec::new(), generation: 0 }
    }

    /// Store a new RGBA frame (`width * height * 4` bytes) and advance the generation
    /// (wrapping).
    pub fn store(&mut self, width: u32, height: u32, data: Vec<u8>)
        ensures
            final(self)@.width == width,
            final(self)@.height == height,
            final(self)@.data == data@,
            final(self)@.generation == (if old(self)@.generation == u64::MAX {
                0
            } else {
                old(self)@.generation + 1
            }),
    {
        self.width = width;
        self.height = height;
        self.data = data;
        self.generation = if self.generation == u64::MAX {
            0
        } else {
            self.generation + 1
        };
    }

    pub fn width(&self) -> (r: u32)
        ensures
            r == self@.width,
    {
        self.width
    }

    pub fn height(&self) -> (r: u32)
        ensures
            r == self@.height,
    {
        self.height
    }

    pub fn generation(&self) -> (r: u64)
        ensures
            r == self@.generation,
    {
        self.generation
    }

    /// The bytes to show: the first `width * height * 4`, when the size is non-zero and that
    /// many bytes are there; `None` otherwise.
    pub fn frame_bytes(&self) -> (r: Option<&[u8]>)
        ensures
            match r {
                Some(b) => self@.width > 0 && self@.height > 0 && rgba_len(self@.width, self@.height)
                    <= self@.data.len() && b@ == self@.data.take(rgba_len(self@.width, self@.height)),
                None => !(self@.width > 0 && self@.height > 0 && rgba_len(self@.width, self@.height)
                    <= self@.data.len()),
            },
    {
        let w = self.width as u128;
        let h = self.height as u128;
        assert(w * h <= 0xffff_ffff * 0xffff_ffff) by (nonlinear_arith)
            requires
                w <= 0xffff_ffff,
                h <= 0xffff_ffff,
        ;
        let expected: u128 = w * h * 4;
        if self.width > 0 && self.height > 0 && expected <= self.data.len() as u128 {
            let n = expected as usize;
            let s = self.data.as_slice();
            Some(slice_prefix(s, n))
        } else {
            None
        }
    }
}

fn slice_prefix(s: &[u8], n: usize) -> (r: &[u8])
    requires
        n <= s@.len(),
    ensures
        r@ == s@.take(n as int),
{
    let (head, _) = s.split_at(n);
    head
}

/// What the renderer does with the texture for the current frame.
#[derive(Debug, Clone, Copy, PartialEq, Eq, Structural)]
pub struct UploadPlan {
    /// (Re)create the texture at the frame's size.
    pub reallocate: bool,
    /// Write the frame's bytes into the texture.
    pub write: bool,
}

/// A texture is (re)created when there is none or the frame's size differs from it; the frame
/// is written when it is a generation not yet uploaded (every frame after a reallocation).
pub open spec fn upload_plan_spec(has_texture: bool, size: (u32, u32), uploaded: Option<u64>, generation: u64, width: u32, height: u32) -> UploadPlan {
    let realloc = !has_texture || size != (width, height);
    let last = if realloc {
        None
    } else {
        uploaded
    };
    UploadPlan { reallocate: realloc, write: last != Some(generation) }
}

pub fn plan_upload(has_texture: bool, size: (u32, u32), uploaded: Option<u64>, generation: u64, width: u32, height: u32) -> (r: UploadPlan)
    ensures
        r == upload_plan_spec(has_texture, size, uploaded, generation, width, height),
{
    let realloc = !has_texture || size.0 != width || size.1 != height;
    let write = if realloc {
        true
    } else {
        match uploaded {
            Some(g) => g != generation,
            None => true,
        }
    };
    UploadPlan { reallocate: realloc, write }
}

} // verus!
