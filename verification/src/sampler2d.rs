//! CPU-side image data of a `sampler2D` uniform, and the GPU objects made from it.
use vstd::prelude::*;

verus! {

/// Byte length of `w * h` RGBA8 pixels.
pub open spec fn rgba_len(w: u32, h: u32) -> int {
    w * h * 4
}

/// Raw RGBA8 pixel data (4 bytes per pixel) and the optional GPU texture,
/// view and sampler created from it.
pub struct Sampler2D {
    pub data: Vec<u8>,
    pub width: u32,
    pub height: u32,
    /// Texture slot; -1 while none has been assigned.
    pub n_texture: i32,
    pub texture: Option<wgpu::Texture>,
    pub texture_view: Option<wgpu::TextureView>,
    pub sampler: Option<wgpu::Sampler>,
}

impl Sampler2D {
    /// No GPU object is held.
    pub open spec fn no_gpu_objects(&self) -> bool {
        &&& self.texture is None
        &&& self.texture_view is None
        &&& self.sampler is None
    }

    /// An empty sampler: no pixels, size 0x0, no slot, no GPU objects.
    pub fn new() -> (s: Self)
        ensures
            s.data@ == Seq::<u8>::empty(),
            s.width == 0,
            s.height == 0,
            s.n_texture == -1,
            s.no_gpu_objects(),
    {
        Sampler2D {
            data: Vec::new(),
            width: 0,
            height: 0,
            n_texture: -1,
            texture: None,
            texture_view: None,
            sampler: None,
        }
    }

    /// Store `w * h` RGBA8 pixels, the first `w * h * 4` bytes of `raw_data`.
    pub fn add_rgba32(&mut self, w: u32, h: u32, raw_data: &[u8])
        requires
            rgba_len(w, h) <= u32::MAX,
            raw_data@.len() >= rgba_len(w, h),
        ensures
            final(self).width == w,
            final(self).height == h,
            final(self).data@ == raw_data@.subrange(0, rgba_len(w, h)),
            final(self).n_texture == old(self).n_texture,
            final(self).texture == old(self).texture,
            final(self).texture_view == old(self).texture_view,
            final(self).sampler == old(self).sampler,
    {
        self.width = w;
        self.height = h;
        assert(w * h <= w * h * 4) by (nonlinear_arith);
        let size: usize = (w * h * 4) as usize;
        self.data.clear();
        let mut i: usize = 0;
        while i < size
            invariant
                size == rgba_len(w, h),
                size <= raw_data@.len(),
                i <= size,
                self.data@ == raw_data@.subrange(0, i as int),
                self.width == w,
                self.height == h,
                self.n_texture == old(self).n_texture,
                self.texture == old(self).texture,
                self.texture_view == old(self).texture_view,
                self.sampler == old(self).sampler,
            decreases size - i,
        {
            self.data.push(raw_data[i]);
            assert(self.data@ =~= raw_data@.subrange(0, i + 1));
            i = i + 1;
        }
    }

    /// `raw_data` holds the `w * h * 4` bytes of a `w` x `h` image, and that
    /// length fits in a `u32`.
    pub open spec fn covers(w: u32, h: u32, raw_data: Seq<u8>) -> bool {
        rgba_len(w, h) <= u32::MAX && raw_data.len() >= rgba_len(w, h)
    }

    /// `new` is what `replace_texture(w, h, raw_data)` makes of `self`.
    pub open spec fn replaced(&self, new: Sampler2D, w: u32, h: u32, raw_data: Seq<u8>) -> bool {
        if self.n_texture == -1 || !Self::covers(w, h, raw_data) {
            new == *self
        } else {
            &&& new.width == w
            &&& new.height == h
            &&& new.data@ == raw_data.subrange(0, rgba_len(w, h))
            &&& new.n_texture == self.n_texture
            &&& new.texture == self.texture
            &&& new.texture_view == self.texture_view
            &&& new.sampler == self.sampler
        }
    }

    /// Replace the stored pixels with the first `w * h * 4` bytes of
    /// `raw_data`. Does nothing while no texture slot is assigned
    /// (`n_texture == -1`), or when the pixels are missing: `raw_data` holds
    /// fewer than `w * h * 4` bytes (or that length overflows a `u32`).
    pub fn replace_texture(&mut self, w: u32, h: u32, raw_data: &[u8])
        ensures
            old(self).replaced(*final(self), w, h, raw_data@),
    {
        if self.n_texture == -1 {
            return;
        }
        assert(w as u64 * h as u64 <= 0xffff_ffffu64 * 0xffff_ffffu64) by (nonlinear_arith)
            requires
                w <= 0xffff_ffffu32,
                h <= 0xffff_ffffu32,
        ;
        let pixels: u64 = w as u64 * h as u64;
        if pixels > 0x3fff_ffff {
            return;
        }
        let size: u64 = pixels * 4;
        if raw_data.len() < size as usize {
            return;
        }
        self.data.clear();
        self.add_rgba32(w, h, raw_data);
    }

    /// Release the GPU objects (the texture's memory is freed at once).
    pub fn destroy(&mut self)
        ensures
            final(self).no_gpu_objects(),
            final(self).data == old(self).data,
            final(self).width == old(self).width,
            final(self).height == old(self).height,
            final(self).n_texture == old(self).n_texture,
    {
        if let Some(tex) = self.texture.take() {
            tex.destroy();
        }
        self.texture_view = None;
        self.sampler = None;
    }

    /// Take over the GPU objects made from the stored pixels: any earlier ones
    /// are released and the CPU-side copy of the pixels is dropped.
    pub fn attach_gpu_objects(
        &mut self,
        texture: wgpu::Texture,
        view: wgpu::TextureView,
        sampler: wgpu::Sampler,
    )
        ensures
            final(self).texture == Some(texture),
            final(self).texture_view == Some(view),
            final(self).sampler == Some(sampler),
            final(self).data@ == Seq::<u8>::empty(),
            final(self).width == old(self).width,
            final(self).height == old(self).height,
            final(self).n_texture == old(self).n_texture,
    {
        self.destroy();
        self.texture = Some(texture);
        self.texture_view = Some(view);
        self.sampler = Some(sampler);
        self.data.clear();
    }
}

impl Default for Sampler2D {
    fn default() -> (s: Self)
        ensures
            s.data@ == Seq::<u8>::empty(),
            s.width == 0,
            s.height == 0,
            s.n_texture == -1,
            s.no_gpu_objects(),
    {
        Sampler2D::new()
    }
}

} // verus!
