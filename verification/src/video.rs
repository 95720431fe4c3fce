//! Video: turning decoded frames into bitmaps and deciding which frames are
//! shown.

use crate::bitmap::Bitmap;
use crate::color::Rgba;
use vstd::prelude::*;

verus! {

/// The pixel in column `x` of row `y` of a frame of packed red, green and
/// blue bytes whose rows start `stride` bytes apart. A pixel whose three
/// bytes do not all lie inside the data is black.
pub open spec fn frame_pixel(data: Seq<u8>, stride: nat, x: nat, y: nat) -> Rgba {
    let index: int = (y * stride + 3 * x) as int;
    if index + 2 < data.len() {
        Rgba { r: data[index], g: data[index + 1], b: data[index + 2], a: 255 }
    } else {
        Rgba { r: 0, g: 0, b: 0, a: 255 }
    }
}

/// Reads one pixel of a frame of packed red, green and blue bytes.
pub fn read_frame_pixel(data: &[u8], stride: usize, x: usize, y: usize) -> (c: Rgba)
    ensures
        c == frame_pixel(data@, stride as nat, x as nat, y as nat),
{
    let black: Rgba = Rgba { r: 0, g: 0, b: 0, a: 255 };
    let len: usize = data.len();
    let row: usize = match y.checked_mul(stride) {
        Some(row) => row,
        None => {
            return black;
        },
    };
    let col: usize = match x.checked_mul(3) {
        Some(col) => col,
        None => {
            return black;
        },
    };
    let index: usize = match row.checked_add(col) {
        Some(index) => index,
        None => {
            return black;
        },
    };
    if index < len && len - index > 2 {
        Rgba { r: data[index], g: data[index + 1], b: data[index + 2], a: 255 }
    } else {
        black
    }
}

/// The most pixels a frame may have: a third of `u32::MAX`, so that three
/// bytes per pixel can be counted in a `u32`.
pub const MAX_FRAME_PIXELS: u64 = 1_431_655_765;

/// A row-major position below a row boundary.
proof fn lemma_row_major(i: int, j: int, width: int, rows: int)
    requires
        0 <= i < width,
        0 <= j < rows,
    ensures
        0 <= j * width + i < rows * width,
        rows * width == width * rows,
{
    assert(0 <= j * width && j * width + width <= rows * width && rows * width == width * rows)
        by (nonlinear_arith)
        requires
            0 <= j,
            j + 1 <= rows,
            0 < width,
    ;
}

/// The bitmap of a decoded frame of packed red, green and blue bytes: the
/// pixel in column `x` of row `y` is read at `y * stride + 3 * x`. None when
/// a buffer of three bytes per pixel needs more than `u32::MAX` bytes.
pub fn frame_to_image(width: u32, height: u32, stride: usize, data: &[u8]) -> (image: Option<
    Bitmap,
>)
    ensures
        3 * (width * height) <= u32::MAX <==> image is Some,
        image matches Some(b) ==> b.wf() && b.cols() == width && b.rows() == height && forall|
            x: int,
            y: int,
        |
            0 <= x < width && 0 <= y < height ==> b.at(x, y) == #[trigger] frame_pixel(
                data@,
                stride as nat,
                x as nat,
                y as nat,
            ),
{
    assert(width * height <= 0xffff_ffff * 0xffff_ffff) by (nonlinear_arith)
        requires
            0 <= width <= 0xffff_ffff,
            0 <= height <= 0xffff_ffff,
    ;
    let count: u64 = (width as u64) * (height as u64);
    if count > MAX_FRAME_PIXELS {
        return None;
    }
    let w: usize = width as usize;
    let h: usize = height as usize;
    let mut pixels: Vec<Rgba> = Vec::new();
    let mut y: usize = 0;
    while y < h
        invariant
            w == width,
            h == height,
            w * h <= MAX_FRAME_PIXELS,
            y <= h,
            pixels@.len() == y * w,
            forall|i: int, j: int|
                0 <= i < w && 0 <= j < y ==> pixels@[j * w + i] == #[trigger] frame_pixel(
                    data@,
                    stride as nat,
                    i as nat,
                    j as nat,
                ),
        decreases h - y,
    {
        let mut x: usize = 0;
        while x < w
            invariant
                w == width,
                h == height,
                y < h,
                x <= w,
                pixels@.len() == y * w + x,
                forall|i: int, j: int|
                    0 <= i < w && 0 <= j < y ==> pixels@[j * w + i] == #[trigger] frame_pixel(
                        data@,
                        stride as nat,
                        i as nat,
                        j as nat,
                    ),
                forall|i: int|
                    0 <= i < x ==> pixels@[y * w + i] == #[trigger] frame_pixel(
                        data@,
                        stride as nat,
                        i as nat,
                        y as nat,
                    ),
            decreases w - x,
        {
            let c: Rgba = read_frame_pixel(data, stride, x, y);
            let ghost before = pixels@;
            pixels.push(c);
            proof {
                assert forall|i: int, j: int| 0 <= i < w && 0 <= j < y implies pixels@[j * w + i]
                    == #[trigger] frame_pixel(data@, stride as nat, i as nat, j as nat) by {
                    lemma_row_major(i, j, w as int, y as int);
                    assert(pixels@[j * w + i] == before[j * w + i]);
                }
            }
            x += 1;
        }
        proof {
            assert((y + 1) * w == y * w + w) by (nonlinear_arith);
        }
        y += 1;
    }
    proof {
        assert(h * w == w * h) by (nonlinear_arith);
    }
    let image: Option<Bitmap> = Bitmap::new(w, h, pixels);
    proof {
        let b = image->Some_0;
        assert forall|x: int, y: int| 0 <= x < width && 0 <= y < height implies b.at(x, y)
            == #[trigger] frame_pixel(data@, stride as nat, x as nat, y as nat) by {
            lemma_row_major(x, y, w as int, h as int);
        }
    }
    image
}

/// Which decoded frames are shown, and for how long.
#[derive(Clone, Copy, Debug)]
pub struct FramePolicy {
    stride: u64,
    delay_ms: u64,
}

impl FramePolicy {
    /// Frames are counted in steps of at least one.
    #[verifier::type_invariant]
    pub open spec fn wf(self) -> bool {
        self.every() >= 1
    }

    /// Of the decoded frames, those whose number is a multiple of this are
    /// shown.
    pub closed spec fn every(self) -> nat {
        self.stride as nat
    }

    /// The pause after a frame is shown, in milliseconds.
    pub closed spec fn pause(self) -> nat {
        self.delay_ms as nat
    }

    /// A policy that shows every `stride`-th frame and pauses `delay_ms`
    /// milliseconds after each; none for a stride of zero.
    pub fn new(stride: u64, delay_ms: u64) -> (policy: Option<FramePolicy>)
        ensures
            stride == 0 <==> policy is None,
            policy matches Some(p) ==> p.wf() && p.every() == stride && p.pause() == delay_ms,
    {
        if stride == 0 {
            None
        } else {
            Some(FramePolicy { stride, delay_ms })
        }
    }

    /// Every second frame, 33 milliseconds apart: about thirty frames a
    /// second.
    pub fn standard() -> (policy: FramePolicy)
        ensures
            policy.wf(),
            policy.every() == 2,
            policy.pause() == 33,
    {
        FramePolicy { stride: 2, delay_ms: 33 }
    }
}

/// What the decoding loop reports.
#[derive(Clone, Copy, Debug, PartialEq, Eq, Structural)]
pub enum VideoEvent {
    /// A packet of the stream with the given index was read.
    Packet { stream: usize },
    /// The decoder handed out a frame.
    Frame,
}

/// What the decoding loop is to do next.
#[derive(Clone, Copy, Debug, PartialEq, Eq, Structural)]
pub enum VideoAction {
    /// The packet belongs to another stream: drop it.
    DropPacket,
    /// The packet belongs to the video stream: send it to the decoder.
    DecodePacket,
    /// The frame is not shown.
    SkipFrame,
    /// The frame is shown and saved under its number, and the loop then
    /// pauses.
    ShowFrame { index: u64, delay_ms: u64 },
}

/// The state of a playback: the stream that is played, the policy, and the
/// number of frames decoded so far.
#[derive(Clone, Copy, Debug)]
pub struct Playback {
    video_stream: usize,
    policy: FramePolicy,
    decoded: u64,
}

impl Playback {
    /// The policy of a playback is a policy.
    #[verifier::type_invariant]
    pub open spec fn wf(self) -> bool {
        self.policy().wf()
    }

    /// The index of the stream that is played.
    pub closed spec fn stream(self) -> usize {
        self.video_stream
    }

    /// The policy that frames are shown by.
    pub closed spec fn policy(self) -> FramePolicy {
        self.policy
    }

    /// The number of frames decoded so far.
    pub closed spec fn decoded(self) -> nat {
        self.decoded as nat
    }

    /// The action on an event in a given state.
    pub open spec fn action_on(self, event: VideoEvent) -> VideoAction {
        match event {
            VideoEvent::Packet { stream } => if stream == self.stream() {
                VideoAction::DecodePacket
            } else {
                VideoAction::DropPacket
            },
            VideoEvent::Frame => if self.decoded() < u64::MAX && (self.decoded() + 1)
                % self.policy().every() == 0 {
                VideoAction::ShowFrame {
                    index: (self.decoded() + 1) as u64,
                    delay_ms: self.policy().pause() as u64,
                }
            } else {
                VideoAction::SkipFrame
            },
        }
    }

    /// The number of frames decoded after an event in a given state: a frame
    /// counts, up to the largest number there is; a packet does not.
    pub open spec fn decoded_after(self, event: VideoEvent) -> nat {
        match event {
            VideoEvent::Packet { .. } => self.decoded(),
            VideoEvent::Frame => if self.decoded() < u64::MAX {
                self.decoded() + 1
            } else {
                self.decoded()
            },
        }
    }

    /// A playback of the given stream that has decoded no frame yet.
    pub fn new(video_stream: usize, policy: FramePolicy) -> (playback: Playback)
        requires
            policy.wf(),
        ensures
            playback.wf(),
            playback.stream() == video_stream,
            playback.policy() == policy,
            playback.decoded() == 0,
    {
        Playback { video_stream, policy, decoded: 0 }
    }

    /// The number of frames decoded so far.
    pub fn frames_decoded(&self) -> (n: u64)
        ensures
            n == self.decoded(),
    {
        self.decoded
    }

    /// Takes an event of the decoding loop and says what the loop does next.
    pub fn step(&mut self, event: VideoEvent) -> (action: VideoAction)
        ensures
            action == old(self).action_on(event),
            final(self).decoded() == old(self).decoded_after(event),
            final(self).stream() == old(self).stream(),
            final(self).policy() == old(self).policy(),
    {
        proof {
            use_type_invariant(&*self);
            use_type_invariant(&self.policy);
        }
        match event {
            VideoEvent::Packet { stream } => {
                if stream == self.video_stream {
                    VideoAction::DecodePacket
                } else {
                    VideoAction::DropPacket
                }
            },
            VideoEvent::Frame => {
                if self.decoded == u64::MAX {
                    VideoAction::SkipFrame
                } else {
                    self.decoded = self.decoded + 1;
                    if self.decoded % self.policy.stride == 0 {
                        VideoAction::ShowFrame {
                            index: self.decoded,
                            delay_ms: self.policy.delay_ms,
                        }
                    } else {
                        VideoAction::SkipFrame
                    }
                }
            },
        }
    }
}

} // verus!
