use vstd::prelude::*;

verus! {

/// A pixel sink failed to write to its hardware.
#[derive(Clone, Copy, Debug, PartialEq, Eq, Structural)]
pub enum DisplayError {
    WriteFailed,
}

/// Where frames go: a strand of RGB pixels addressed by wiring index.
pub trait Display {
    /// Sets pixel `index`; only indices below the configured count are legal.
    fn set_pixel(&mut self, index: usize, r: u8, g: u8, b: u8);

    /// Flushes the pixels set so far.
    fn show(&mut self) -> Result<(), DisplayError>;

    /// Configures how many pixels are in use.
    fn set_count(&mut self, count: usize);
}

/// A sink that draws nothing, for development away from the hardware.
#[derive(Clone, Copy, Debug, PartialEq, Eq, Structural)]
pub struct FakeDisplay {
    pub pixels: usize,
    pub count: usize,
    pub frames: u64,
}

impl Display for FakeDisplay {
    fn set_pixel(&mut self, index: usize, r: u8, g: u8, b: u8) {
    }

    fn show(&mut self) -> (r: Result<(), DisplayError>)
        ensures
            r is Ok,
            final(self).frames == (if old(self).frames < u64::MAX {
                old(self).frames + 1
            } else {
                old(self).frames as int
            }),
            final(self).pixels == old(self).pixels,
            final(self).count == old(self).count,
    {
        if self.frames < u64::MAX {
            self.frames = self.frames + 1;
        }
        Ok(())
    }

    fn set_count(&mut self, count: usize)
        ensures
            final(self).count == (if count <= old(self).pixels {
                count
            } else {
                old(self).pixels
            }),
            final(self).pixels == old(self).pixels,
            final(self).frames == old(self).frames,
    {
        self.count = if count <= self.pixels { count } else { self.pixels };
    }
}

/// A sink of `pixels` pixels, all in use, that has shown no frame yet.
pub fn make_display(pixels: usize) -> (d: FakeDisplay)
    ensures
        d == (FakeDisplay { pixels, count: pixels, frames: 0 }),
{
    FakeDisplay { pixels, count: pixels, frames: 0 }
}

/// The development sink for a strand of `pixels` pixels.
pub fn new(pixels: usize) -> (d: FakeDisplay)
    ensures
        d == (FakeDisplay { pixels, count: pixels, frames: 0 }),
{
    make_display(pixels)
}

/// The sink that the render loop writes `dots` pixels to.
pub fn get_display(dots: usize) -> (d: FakeDisplay)
    ensures
        d == (FakeDisplay { pixels: dots, count: dots, frames: 0 }),
{
    new(dots)
}

} // verus!
