//! The plain-value core of a texture-backed WebView: its errors, the frame
//! metadata, the builder settings, and the bookkeeping of the capture loop
//! that copies compositor frames into the output texture.
use vstd::prelude::*;

verus! {

/// A failed Windows API call: its `HRESULT` and the system message.
#[derive(Debug, PartialEq, Eq)]
pub struct WindowsError {
    /// The `HRESULT` code.
    pub code: i32,
    /// The message that Windows gives for the code.
    pub message: String,
}

/// Errors produced while creating or updating a texture-backed WebView.
#[derive(Debug, PartialEq, Eq)]
pub enum Error {
    /// The texture size must be non-zero.
    InvalidSize,
    /// Windows Graphics Capture is unavailable in this session.
    CaptureUnsupported,
    /// Creating the Wry WebView failed; the message of Wry's error.
    Wry(String),
    /// A Windows API call failed.
    Windows(WindowsError),
    /// A Windows API returned no object for the named resource.
    MissingObject(&'static str),
}

/// Metadata for the most recently copied compositor frame.
#[derive(Clone, Copy, Debug, PartialEq, Eq, Structural)]
pub struct FrameInfo {
    /// Width of the texture in physical pixels.
    pub width: u32,
    /// Height of the texture in physical pixels.
    pub height: u32,
    /// Number of frames copied into the texture, counted modulo 2^64.
    pub generation: u64,
}

/// Rejects an empty texture: `Err(Error::InvalidSize)` exactly when a side
/// is zero.
pub fn check_texture_size(width: u32, height: u32) -> (result: Result<(), Error>)
    ensures
        result is Err <==> (width == 0 || height == 0),
        result is Err ==> result == Err::<(), Error>(Error::InvalidSize),
{
    if width == 0 || height == 0 {
        Err(Error::InvalidSize)
    } else {
        Ok(())
    }
}

/// Turns the answer of `GraphicsCaptureSession::IsSupported` into the
/// builder's error: `Err(Error::CaptureUnsupported)` exactly when capture is
/// not supported.
pub fn require_capture_support(supported: bool) -> (result: Result<(), Error>)
    ensures
        result is Err <==> !supported,
        result is Err ==> result == Err::<(), Error>(Error::CaptureUnsupported),
{
    if supported {
        Ok(())
    } else {
        Err(Error::CaptureUnsupported)
    }
}

/// The plain settings of a WebView texture builder: the texture size and
/// whether the operating-system cursor is captured.
#[derive(Clone, Copy, Debug, PartialEq, Eq, Structural)]
pub struct TextureSettings {
    /// Width of the texture in physical pixels.
    pub width: u32,
    /// Height of the texture in physical pixels.
    pub height: u32,
    /// Include the operating-system cursor in captured frames.
    pub capture_cursor: bool,
}

impl TextureSettings {
    /// Settings for a `width` x `height` texture without cursor capture.
    pub fn new(width: u32, height: u32) -> (settings: Self)
        ensures
            settings == (TextureSettings { width, height, capture_cursor: false }),
    {
        TextureSettings { width, height, capture_cursor: false }
    }

    /// The same settings with cursor capture switched to `enabled`.
    pub fn with_cursor_capture(self, enabled: bool) -> (settings: Self)
        ensures
            settings == (TextureSettings { capture_cursor: enabled, ..self }),
    {
        TextureSettings { capture_cursor: enabled, ..self }
    }

    /// The first check of `build`: the size must be non-zero.
    pub fn check_size(&self) -> (result: Result<(), Error>)
        ensures
            result is Err <==> (self.width == 0 || self.height == 0),
            result is Err ==> result == Err::<(), Error>(Error::InvalidSize),
    {
        check_texture_size(self.width, self.height)
    }
}

/// The generation that follows `generation`: one more, wrapping to 0 after
/// `u64::MAX`.
pub open spec fn next_generation(generation: u64) -> u64 {
    if generation == u64::MAX {
        0
    } else {
        (generation + 1) as u64
    }
}

/// Whether a compositor frame whose content is `content_width` x
/// `content_height` fits the output texture. The texture's size is compared as
/// Windows reports sizes, as `i32`.
pub open spec fn frame_fits(info: FrameInfo, content_width: i32, content_height: i32) -> bool {
    content_width == info.width as i32 && content_height == info.height as i32
}

/// The output texture's metadata after one compositor frame was offered: a
/// frame that fits is copied and advances the generation; another is dropped.
pub open spec fn after_frame(info: FrameInfo, content_width: i32, content_height: i32) -> FrameInfo {
    if frame_fits(info, content_width, content_height) {
        FrameInfo { generation: next_generation(info.generation), ..info }
    } else {
        info
    }
}

/// The bookkeeping of the capture loop: the size of the output texture and
/// how many frames were copied into it.
pub struct CaptureState {
    width: u32,
    height: u32,
    generation: u64,
}

impl View for CaptureState {
    type V = FrameInfo;

    closed spec fn view(&self) -> FrameInfo {
        FrameInfo { width: self.width, height: self.height, generation: self.generation }
    }
}

impl CaptureState {
    /// A capture into a fresh `width` x `height` texture; no frame copied yet.
    pub fn new(width: u32, height: u32) -> (state: Self)
        ensures
            state@ == (FrameInfo { width, height, generation: 0 }),
    {
        CaptureState { width, height, generation: 0 }
    }

    /// Whether a frame with the given content size is copied.
    pub fn accepts(&self, content_width: i32, content_height: i32) -> (fits: bool)
        ensures
            fits == frame_fits(self@, content_width, content_height),
    {
        content_width == self.width as i32 && content_height == self.height as i32
    }

    /// Takes one compositor frame off the queue: returns whether it is copied
    /// into the output texture, which advances the generation by one.
    pub fn record_frame(&mut self, content_width: i32, content_height: i32) -> (copied: bool)
        ensures
            copied == frame_fits(old(self)@, content_width, content_height),
            final(self)@ == after_frame(old(self)@, content_width, content_height),
    {
        if self.accepts(content_width, content_height) {
            self.generation = self.generation.wrapping_add(1);
            true
        } else {
            false
        }
    }

    /// What `try_render` reports once the queue is drained: the metadata when
    /// at least one frame was copied, otherwise nothing.
    pub fn completed(&self, copied: bool) -> (report: Option<FrameInfo>)
        ensures
            report == (if copied {
                Some(self@)
            } else {
                None
            }),
    {
        if copied {
            Some(self.info())
        } else {
            None
        }
    }

    /// The output texture was recreated at `width` x `height`; the count of
    /// copied frames carries on.
    pub fn resize(&mut self, width: u32, height: u32)
        ensures
            final(self)@ == (FrameInfo { width, height, generation: old(self)@.generation }),
    {
        self.width = width;
        self.height = height;
    }

    /// Dimensions and generation of the output texture.
    pub fn info(&self) -> (info: FrameInfo)
        ensures
            info == self@,
    {
        FrameInfo { width: self.width, height: self.height, generation: self.generation }
    }
}

/// The metadata after a queue of frames with the given content sizes was
/// drained, in queue order.
pub open spec fn after_frames(info: FrameInfo, sizes: Seq<(i32, i32)>) -> FrameInfo
    decreases sizes.len(),
{
    if sizes.len() == 0 {
        info
    } else {
        after_frame(after_frames(info, sizes.drop_last()), sizes.last().0, sizes.last().1)
    }
}

/// Whether draining the queue copied at least one frame: the disjunction of
/// what each `record_frame` returned.
pub open spec fn any_copied(info: FrameInfo, sizes: Seq<(i32, i32)>) -> bool
    decreases sizes.len(),
{
    if sizes.len() == 0 {
        false
    } else {
        any_copied(info, sizes.drop_last()) || frame_fits(
            after_frames(info, sizes.drop_last()),
            sizes.last().0,
            sizes.last().1,
        )
    }
}

/// Number of frames in the queue whose content fits a `width` x `height`
/// texture.
pub open spec fn fitting_count(width: u32, height: u32, sizes: Seq<(i32, i32)>) -> nat
    decreases sizes.len(),
{
    if sizes.len() == 0 {
        0
    } else {
        fitting_count(width, height, sizes.drop_last()) + if sizes.last().0 == width as i32
            && sizes.last().1 == height as i32 {
            1nat
        } else {
            0nat
        }
    }
}

/// Draining a queue of frames: the texture size does not change, the
/// generation advances by the number of frames that fit (modulo 2^64), and a
/// frame is reported exactly when at least one fit.
pub proof fn lemma_drain_counts_fitting_frames(info: FrameInfo, sizes: Seq<(i32, i32)>)
    ensures
        after_frames(info, sizes).width == info.width,
        after_frames(info, sizes).height == info.height,
        after_frames(info, sizes).generation as int == (info.generation as int + fitting_count(
            info.width,
            info.height,
            sizes,
        )) % 0x1_0000_0000_0000_0000,
        any_copied(info, sizes) <==> fitting_count(info.width, info.height, sizes) > 0,
    decreases sizes.len(),
{
    if sizes.len() == 0 {
        assert(info.generation as int % 0x1_0000_0000_0000_0000 == info.generation as int);
    } else {
        let rest = sizes.drop_last();
        lemma_drain_counts_fitting_frames(info, rest);
        let before = after_frames(info, rest);
        let n = fitting_count(info.width, info.height, rest) as int;
        let g = info.generation as int;
        assert(before.generation as int == (g + n) % 0x1_0000_0000_0000_0000);
        if frame_fits(before, sizes.last().0, sizes.last().1) {
            assert((((g + n) % 0x1_0000_0000_0000_0000) + 1) % 0x1_0000_0000_0000_0000 == (g + n
                + 1) % 0x1_0000_0000_0000_0000) by (nonlinear_arith);
        }
    }
}

/// The generation grows by one with each copied frame and never decreases,
/// short of wrapping: a frame copied at generation `u64::MAX` brings it back
/// to 0.
pub proof fn lemma_generation_increases(info: FrameInfo, content_width: i32, content_height: i32)
    ensures
        info.generation < u64::MAX ==> after_frame(info, content_width, content_height).generation
            >= info.generation,
        frame_fits(info, content_width, content_height) && info.generation < u64::MAX ==> after_frame(
            info,
            content_width,
            content_height,
        ).generation == info.generation + 1,
        frame_fits(info, content_width, content_height) && info.generation == u64::MAX ==> after_frame(
            info,
            content_width,
            content_height,
        ).generation == 0,
{
}

} // verus!
