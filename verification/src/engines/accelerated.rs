//! Frames that are delivered as GPU textures.
//!
//! A frame arrives in a buffer that is already GPU memory and is copied into a
//! texture of our own without leaving the device. The buffer goes back to the
//! browser as soon as the copy has run, so nothing here may hold on to it.
//!
//! This module decides; whoever holds the device imports, copies and waits. A
//! frame takes three steps: [`AcceleratedSurface::accept_frame`] says whether it can be
//! imported at all, [`AcceleratedSurface::target_for`] provides the texture it is
//! copied into, and [`AcceleratedSurface::frame_copied`] takes note of the copy.

use vstd::prelude::*;

use crate::engines::TextureFormat;

verus! {

/// "The layout of this buffer is not described by a modifier."
///
/// Importing one requires letting the driver infer the layout, which an import
/// with an explicit modifier cannot do.
pub const DRM_FORMAT_MOD_INVALID: u64 = 0x00ff_ffff_ffff_ffff;

/// Copies are reported after this many frames, again and again.
pub const REPORT_EVERY: u64 = 120;

/// The generation that a source hands out first.
pub const FIRST_GENERATION: u64 = 1;

/// Hands out texture generations that are unique across every surface that
/// draws from it.
#[derive(Debug)]
pub struct GenerationSource {
    next: u64,
}

/// The generation that is handed out after another one.
pub open spec fn following(generation: u64) -> u64 {
    vstd::wrapping::u64_specs::wrapping_add(generation, 1)
}

/// The generation that is handed out after `n` others.
pub open spec fn generation_after(first: u64, n: nat) -> u64
    decreases n,
{
    if n == 0 {
        first
    } else {
        following(generation_after(first, (n - 1) as nat))
    }
}

impl View for GenerationSource {
    type V = u64;

    /// The generation that is handed out next.
    closed spec fn view(&self) -> u64 {
        self.next
    }
}

impl Default for GenerationSource {
    fn default() -> (source: Self)
        ensures
            source@ == FIRST_GENERATION,
    {
        GenerationSource { next: FIRST_GENERATION }
    }
}

impl GenerationSource {
    /// A generation nobody has been given.
    pub fn next_generation(&mut self) -> (generation: u64)
        ensures
            generation == old(self)@,
            final(self)@ == following(old(self)@),
    {
        let generation = self.next;
        self.next = self.next.wrapping_add(1);
        generation
    }
}

proof fn lemma_generation_value(first: u64, n: nat)
    ensures
        generation_after(first, n) == (first + n) % 0x1_0000_0000_0000_0000int,
    decreases n,
{
    if n > 0 {
        lemma_generation_value(first, (n - 1) as nat);
        let m = 0x1_0000_0000_0000_0000int;
        let before = first + n - 1;
        vstd::arithmetic::div_mod::lemma_add_mod_noop(before, 1, m);
        vstd::arithmetic::div_mod::lemma_small_mod(1, m as nat);
        let p = generation_after(first, (n - 1) as nat);
        assert((first + n) % m == ((before % m) + 1) % m);
        if p == u64::MAX {
            vstd::arithmetic::div_mod::lemma_mod_self_0(m);
        } else {
            vstd::arithmetic::div_mod::lemma_small_mod((p + 1) as nat, m as nat);
        }
    } else {
        vstd::arithmetic::div_mod::lemma_small_mod(first as nat, 0x1_0000_0000_0000_0000nat);
    }
}

/// No two textures share a generation, for as long as no more than all of the
/// `u64` values were handed out.
pub proof fn law_generations_are_unique(first: u64, i: nat, j: nat)
    requires
        i < j,
        j - i < 0x1_0000_0000_0000_0000,
    ensures
        generation_after(first, i) != generation_after(first, j),
{
    lemma_generation_value(first, i);
    lemma_generation_value(first, j);
    let m = 0x1_0000_0000_0000_0000int;
    let a = first + i;
    let b = first + j;
    if a % m == b % m {
        vstd::arithmetic::div_mod::lemma_fundamental_div_mod(a, m);
        vstd::arithmetic::div_mod::lemma_fundamental_div_mod(b, m);
        assert(b - a == m * (b / m - a / m)) by (nonlinear_arith)
            requires
                a == m * (a / m) + a % m,
                b == m * (b / m) + b % m,
                a % m == b % m,
        ;
        let q = b / m - a / m;
        assert(q <= 0 || q >= 1);
        assert(b - a <= 0 || b - a >= m) by (nonlinear_arith)
            requires
                b - a == m * q,
                m > 0,
                q <= 0 || q >= 1,
        ;
    }
}

/// One frame's worth of GPU memory, as handed over by the browser engine.
///
/// Only single-plane formats are described here: that is all a page produces.
#[derive(Clone, Copy, Debug, PartialEq, Eq, Structural)]
pub struct DmabufFrame {
    /// Borrowed for the duration of the call only.
    pub fd: i32,
    pub stride: u32,
    pub offset: u32,
    /// Where the page content starts inside the buffer. Not the origin while
    /// the browser is catching up with a resize: it then letterboxes the
    /// content inside the frame.
    pub src_x: u32,
    pub src_y: u32,
    /// Size of the whole allocation. Zero when unknown.
    pub total_size: u64,
    pub modifier: u64,
    /// Dimensions of the whole buffer, which is what gets imported.
    pub buffer_width: u32,
    pub buffer_height: u32,
    /// Dimensions of the page content within it, which is what is kept.
    pub width: u32,
    pub height: u32,
    pub format: TextureFormat,
}

/// Whether a frame can be imported.
#[derive(Clone, Copy, Debug, PartialEq, Eq, Structural)]
pub enum Admission {
    /// It can.
    Admitted,
    /// No device has been attached yet.
    NoGpu,
    /// The frame holds no pixel.
    Empty,
    /// The frame does not say how its memory is laid out. Importing it would
    /// describe the memory wrongly rather than fail.
    UnknownLayout,
}

/// What is known of the copies since the last report.
#[derive(Clone, Copy, Debug, PartialEq, Eq, Structural)]
pub struct FrameReport {
    /// How many frames were taken so far.
    pub frame: u64,
    pub width: u32,
    pub height: u32,
    /// The time the copies since the last report took, and the number of
    /// frames it is spread over.
    pub total_nanos: u64,
    pub window: u64,
}

/// The device frames are imported into, and the format the renderer wants.
struct Gpu<G> {
    device: G,
    target_format: TextureFormat,
}

/// The texture frames are copied into.
struct Target<T> {
    texture: T,
    width: u32,
    height: u32,
    format: TextureFormat,
}

/// A page's rendered frames, delivered as GPU textures: `G` is a device and
/// `T` a texture on it.
pub struct AcceleratedSurface<G, T> {
    gpu: Option<Gpu<G>>,
    target: Option<Target<T>>,
    generation: u64,
    frames: u64,
    import_nanos: u64,
    last_reported: (u32, u32),
    settled: bool,
}

/// A texture frames are copied into.
#[verifier::ext_equal]
pub struct TargetView<T> {
    pub texture: T,
    pub width: u32,
    pub height: u32,
    pub format: TextureFormat,
}

/// The state of a surface.
#[verifier::ext_equal]
pub struct SurfaceView<G, T> {
    /// The device frames are imported into, once there is one, and the format
    /// the renderer wants.
    pub gpu: Option<(G, TextureFormat)>,
    /// The texture frames are copied into, once there is one.
    pub target: Option<TargetView<T>>,
    /// Changes whenever the texture does, so that a caller caching a binding
    /// knows when to rebuild it. A frame copied into the same texture does not
    /// change it.
    pub generation: u64,
    /// The number of frames taken so far.
    pub frames: u64,
    /// The time spent on copies since the last report.
    pub import_nanos: u64,
    /// The size of the last frame.
    pub last_reported: (u32, u32),
    /// Whether the page was once shown at the size it was rendered for.
    pub settled: bool,
}

impl<G, T> View for AcceleratedSurface<G, T> {
    type V = SurfaceView<G, T>;

    closed spec fn view(&self) -> SurfaceView<G, T> {
        SurfaceView {
            gpu: match self.gpu {
                Some(gpu) => Some((gpu.device, gpu.target_format)),
                None => None,
            },
            target: match self.target {
                Some(target) => Some(
                    TargetView {
                        texture: target.texture,
                        width: target.width,
                        height: target.height,
                        format: target.format,
                    },
                ),
                None => None,
            },
            generation: self.generation,
            frames: self.frames,
            import_nanos: self.import_nanos,
            last_reported: self.last_reported,
            settled: self.settled,
        }
    }
}

/// Whether a frame can be imported by a surface that has a device or not.
pub open spec fn admission(has_gpu: bool, frame: DmabufFrame) -> Admission {
    if !has_gpu {
        Admission::NoGpu
    } else if frame.width == 0 || frame.height == 0 {
        Admission::Empty
    } else if frame.modifier == DRM_FORMAT_MOD_INVALID {
        Admission::UnknownLayout
    } else {
        Admission::Admitted
    }
}

/// Whether the copies are reported after a frame: early on, then now and then,
/// and whenever the size changed.
pub open spec fn is_reported(frame: int, resized: bool) -> bool {
    resized || frame == 1 || frame == 10 || frame == 60 || frame % (REPORT_EVERY as int) == 0
}

impl<G, T> SurfaceView<G, T> {
    /// A texture is only there once there is a device, and is in the format the
    /// renderer wants.
    pub open spec fn is_valid(self) -> bool {
        self.target matches Some(target) ==> Some(target.format) == self.format()
    }

    /// Whether the texture, if there is one, has one of the first `drawn`
    /// generations of a source that started with `first`.
    pub open spec fn is_drawn(self, first: u64, drawn: nat) -> bool {
        self.target is Some ==> exists|k: nat|
            k < drawn && self.generation == #[trigger] generation_after(first, k)
    }

    /// No device, no texture, no frame.
    pub open spec fn at_start() -> SurfaceView<G, T> {
        SurfaceView {
            gpu: None,
            target: None,
            generation: 0,
            frames: 0,
            import_nanos: 0,
            last_reported: (0, 0),
            settled: false,
        }
    }

    /// A device having been offered. The first one wins; a later change of
    /// format drops the texture and so takes a new generation.
    pub open spec fn attached(self, device: G, format: TextureFormat, fresh: u64) -> SurfaceView<
        G,
        T,
    > {
        match self.gpu {
            None => SurfaceView { gpu: Some((device, format)), ..self },
            Some(gpu) => if gpu.1 != format {
                SurfaceView {
                    gpu: Some((gpu.0, format)),
                    target: None,
                    generation: fresh,
                    ..self
                }
            } else {
                self
            },
        }
    }

    /// Whether a frame needs a texture other than the one there is.
    pub open spec fn needs_target(self, frame: DmabufFrame) -> bool {
        match self.target {
            Some(target) => target.width != frame.width || target.height != frame.height
                || Some(target.format) != self.format(),
            None => true,
        }
    }

    /// There being a texture for a frame: the one there is where it fits, else
    /// `texture`, under a new generation.
    pub open spec fn with_target(self, frame: DmabufFrame, texture: T, fresh: u64) -> SurfaceView<
        G,
        T,
    > {
        if self.needs_target(frame) {
            SurfaceView {
                target: Some(
                    TargetView {
                        texture,
                        width: frame.width,
                        height: frame.height,
                        format: self.wanted_format(),
                    },
                ),
                generation: fresh,
                ..self
            }
        } else {
            self
        }
    }

    /// The device, once there is one.
    pub open spec fn attached_device(self) -> G {
        let gpu = self.gpu->0;
        gpu.0
    }

    /// The format the renderer wants, once there is a device.
    pub open spec fn wanted_format(self) -> TextureFormat {
        let gpu = self.gpu->0;
        gpu.1
    }

    /// The format the renderer wants, once it has said so.
    pub open spec fn format(self) -> Option<TextureFormat> {
        match self.gpu {
            Some(gpu) => Some(gpu.1),
            None => None,
        }
    }

    /// A frame having been copied: it counts, its time adds up, its size is
    /// remembered. A report starts the time anew.
    pub open spec fn copied(self, frame: DmabufFrame, nanos: u64) -> SurfaceView<G, T> {
        SurfaceView {
            frames: (self.frames + 1) as u64,
            import_nanos: if self.reports(frame) {
                0
            } else {
                self.spent(nanos)
            },
            last_reported: (frame.width, frame.height),
            ..self
        }
    }

    /// The time spent on copies since the last report, another one included.
    pub open spec fn spent(self, nanos: u64) -> u64 {
        vstd::wrapping::u64_specs::wrapping_add(self.import_nanos, nanos)
    }

    /// Whether a frame's copy is reported.
    pub open spec fn reports(self, frame: DmabufFrame) -> bool {
        is_reported(self.frames + 1, self.last_reported != (frame.width, frame.height))
    }
}

impl<G, T> Default for AcceleratedSurface<G, T> {
    fn default() -> (surface: Self)
        ensures
            surface@ == SurfaceView::<G, T>::at_start(),
            surface@.is_valid(),
    {
        AcceleratedSurface {
            gpu: None,
            target: None,
            generation: 0,
            frames: 0,
            import_nanos: 0,
            last_reported: (0, 0),
            settled: false,
        }
    }
}

impl<G, T> AcceleratedSurface<G, T> {
    /// A surface without a device.
    pub fn new() -> (surface: Self)
        ensures
            surface@ == SurfaceView::<G, T>::at_start(),
            surface@.is_valid(),
    {
        Self::default()
    }

    /// Give the surface the device it should import into, and the format the
    /// renderer wants to sample.
    ///
    /// The first device wins: importing onto a different one would invalidate
    /// every texture already handed out. A later change of format is honoured,
    /// since that only means dropping our own texture and having the next frame
    /// make another.
    pub fn attach_gpu(
        &mut self,
        device: G,
        target_format: TextureFormat,
        generations: &mut GenerationSource,
    )
        requires
            old(self)@.is_valid(),
        ensures
            final(self)@.is_valid(),
            final(self)@ == old(self)@.attached(device, target_format, old(generations)@),
            final(generations)@ == if old(self)@.gpu is Some && old(self)@.format() != Some(
                target_format,
            ) {
                following(old(generations)@)
            } else {
                old(generations)@
            },
    {
        match self.gpu.take() {
            None => {
                self.gpu = Some(Gpu { device, target_format });
            },
            Some(existing) => {
                if existing.target_format != target_format {
                    self.target = None;
                    self.generation = generations.next_generation();
                }
                self.gpu = Some(Gpu { device: existing.device, target_format });
            },
        }
        assert(self@ =~= old(self)@.attached(device, target_format, old(generations)@));
    }

    /// Whether a device has been attached yet.
    ///
    /// Frames that arrive before the first render are dropped, so the engine
    /// uses this to know it must ask for a repaint once the device shows up.
    pub fn has_gpu(&self) -> (has: bool)
        ensures
            has == (self@.gpu is Some),
    {
        self.gpu.is_some()
    }

    /// The device frames are imported into.
    pub fn device(&self) -> (device: Option<&G>)
        ensures
            match self@.gpu {
                Some(gpu) => device == Some(&gpu.0),
                None => device is None,
            },
    {
        match &self.gpu {
            Some(gpu) => Some(&gpu.device),
            None => None,
        }
    }

    /// Number of frames accepted so far.
    pub fn frame_count(&self) -> (count: u64)
        ensures
            count == self@.frames,
    {
        self.frames
    }

    /// The texture to sample, with the generation it belongs to.
    pub fn current(&self) -> (current: Option<(&T, u64)>)
        ensures
            match self@.target {
                Some(target) => current == Some((&target.texture, self@.generation)),
                None => current is None,
            },
    {
        match &self.target {
            Some(target) => Some((&target.texture, self.generation)),
            None => None,
        }
    }

    /// Whether a frame can be imported. One that cannot is dropped.
    pub fn accept_frame(&self, frame: &DmabufFrame) -> (answer: Admission)
        ensures
            answer == admission(self@.gpu is Some, *frame),
    {
        if !self.gpu.is_some() {
            Admission::NoGpu
        } else if frame.width == 0 || frame.height == 0 {
            Admission::Empty
        } else if frame.modifier == DRM_FORMAT_MOD_INVALID {
            Admission::UnknownLayout
        } else {
            Admission::Admitted
        }
    }

    /// See to it that there is a texture of the frame's size and the
    /// renderer's format to copy into. One that does not fit is replaced by
    /// what `create` makes, under a new generation.
    pub fn target_for<F: FnOnce(&G, u32, u32, TextureFormat) -> T>(
        &mut self,
        frame: &DmabufFrame,
        generations: &mut GenerationSource,
        create: F,
    )
        requires
            old(self)@.is_valid(),
            old(self)@.gpu is Some,
            call_requires(
                create,
                (
                    &old(self)@.attached_device(),
                    frame.width,
                    frame.height,
                    old(self)@.wanted_format(),
                ),
            ),
        ensures
            final(self)@.is_valid(),
            final(self)@.target matches Some(target) && target.width == frame.width
                && target.height == frame.height && Some(target.format) == old(self)@.format(),
            final(self)@ == old(self)@.with_target(
                *frame,
                final(self)@.target->0.texture,
                old(generations)@,
            ),
            final(generations)@ == if old(self)@.needs_target(*frame) {
                following(old(generations)@)
            } else {
                old(generations)@
            },
            old(self)@.needs_target(*frame) ==> call_ensures(
                create,
                (
                    &old(self)@.attached_device(),
                    frame.width,
                    frame.height,
                    old(self)@.wanted_format(),
                ),
                final(self)@.target->0.texture,
            ),
    {
        match &self.gpu {
            Some(gpu) => {
                let fits: bool = match &self.target {
                    Some(target) => target.width == frame.width && target.height == frame.height
                        && target.format == gpu.target_format,
                    None => false,
                };
                if !fits {
                    let texture = create(&gpu.device, frame.width, frame.height, gpu.target_format);
                    self.target = Some(
                        Target {
                            texture,
                            width: frame.width,
                            height: frame.height,
                            format: gpu.target_format,
                        },
                    );
                    self.generation = generations.next_generation();
                }
            },
            None => {},
        }
    }

    /// Take note of a frame that was copied in so many nanoseconds. What comes
    /// back is worth reporting.
    pub fn frame_copied(&mut self, frame: &DmabufFrame, nanos: u64) -> (report: Option<FrameReport>)
        requires
            old(self)@.is_valid(),
            old(self)@.frames < u64::MAX,
        ensures
            final(self)@.is_valid(),
            final(self)@ == old(self)@.copied(*frame, nanos),
            report == if old(self)@.reports(*frame) {
                Some(
                    FrameReport {
                        frame: (old(self)@.frames + 1) as u64,
                        width: frame.width,
                        height: frame.height,
                        total_nanos: old(self)@.spent(nanos),
                        window: if old(self)@.frames + 1 < REPORT_EVERY {
                            (old(self)@.frames + 1) as u64
                        } else {
                            REPORT_EVERY
                        },
                    },
                )
            } else {
                None
            },
    {
        self.frames = self.frames + 1;
        let n: u64 = self.frames;
        self.import_nanos = self.import_nanos.wrapping_add(nanos);
        let resized: bool = self.last_reported.0 != frame.width || self.last_reported.1
            != frame.height;
        self.last_reported = (frame.width, frame.height);
        let report: Option<FrameReport> = if resized || n == 1 || n == 10 || n == 60 || n
            % REPORT_EVERY == 0 {
            let total_nanos = self.import_nanos;
            self.import_nanos = 0;
            Some(
                FrameReport {
                    frame: n,
                    width: frame.width,
                    height: frame.height,
                    total_nanos,
                    window: if n < REPORT_EVERY {
                        n
                    } else {
                        REPORT_EVERY
                    },
                },
            )
        } else {
            None
        };
        assert(self@ =~= old(self)@.copied(*frame, nanos));
        report
    }

    /// Take note that the page fills the widget, or that it has had its time to.
    /// From then on it is shown.
    pub fn settle(&mut self, fits: bool, deadline_passed: bool)
        requires
            old(self)@.is_valid(),
        ensures
            final(self)@.is_valid(),
            final(self)@ == (SurfaceView {
                settled: old(self)@.settled || fits || deadline_passed,
                ..old(self)@
            }),
    {
        if fits || deadline_passed {
            self.settled = true;
        }
        assert(self@ =~= (SurfaceView {
            settled: old(self)@.settled || fits || deadline_passed,
            ..old(self)@
        }));
    }

    /// Whether the page is shown.
    pub fn is_settled(&self) -> (settled: bool)
        ensures
            settled == self@.settled,
    {
        self.settled
    }
}

/// A frame that is admitted has pixels and names its layout, and there is a
/// device to import it into; every other frame is refused.
pub proof fn law_only_sound_frames_are_imported(has_gpu: bool, frame: DmabufFrame)
    ensures
        admission(has_gpu, frame) == Admission::Admitted <==> has_gpu && frame.width > 0
            && frame.height > 0 && frame.modifier != DRM_FORMAT_MOD_INVALID,
{
}

/// The first device wins: no later one replaces it.
pub proof fn law_first_device_wins<G, T>(
    surface: SurfaceView<G, T>,
    device: G,
    format: TextureFormat,
    fresh: u64,
)
    requires
        surface.gpu is Some,
    ensures
        surface.attached(device, format, fresh).gpu == Some((surface.attached_device(), format)),
        surface.attached(device, format, fresh).format() == Some(format),
{
}

/// Attaching the device and format a surface already has changes nothing, and
/// where the format changes nothing is shown until the next frame.
pub proof fn law_attach_keeps_or_drops_target<G, T>(
    surface: SurfaceView<G, T>,
    device: G,
    format: TextureFormat,
    fresh: u64,
)
    requires
        surface.gpu is Some,
    ensures
        surface.format() == Some(format) ==> surface.attached(device, format, fresh) == surface,
        surface.format() != Some(format) ==> surface.attached(device, format, fresh).target is None,
{
}

/// A frame of the size there is a texture for keeps the texture and its
/// generation. A frame of another size gets another texture, under a generation
/// that differs from every one that was drawn before.
pub proof fn law_texture_changes_with_size<G, T>(
    surface: SurfaceView<G, T>,
    frame: DmabufFrame,
    texture: T,
    first: u64,
    drawn: nat,
)
    requires
        surface.is_valid(),
        surface.is_drawn(first, drawn),
        surface.target is Some,
        drawn < 0x1_0000_0000_0000_0000,
    ensures
        ({
            let target = surface.target->0;
            let after = surface.with_target(frame, texture, generation_after(first, drawn));
            if target.width == frame.width && target.height == frame.height {
                after == surface
            } else {
                &&& after.target->0.texture == texture
                &&& after.generation != surface.generation
                &&& forall|k: nat|
                    k < drawn ==> after.generation != #[trigger] generation_after(first, k)
            }
        }),
{
    assert forall|k: nat| k < drawn implies generation_after(first, drawn) != #[trigger]
        generation_after(first, k) by {
        law_generations_are_unique(first, k, drawn);
    }
}

/// Something that happens to one of the surfaces of a process.
pub enum SurfaceStep<G, T> {
    /// A surface was made.
    Made,
    /// A surface was offered a device and a format.
    Attached(int, G, TextureFormat),
    /// A surface was given a frame, for which this would be a new texture.
    Framed(int, DmabufFrame, T),
    /// A frame was copied in so many nanoseconds.
    Copied(int, DmabufFrame, u64),
    /// The page fills the widget or not, and its time is up or not.
    Settled(int, bool, bool),
}

/// All surfaces of a process, and how many generations were drawn for them
/// from their one source.
#[verifier::ext_equal]
pub struct Surfaces<G, T> {
    pub all: Seq<SurfaceView<G, T>>,
    pub drawn: nat,
}

impl<G, T> Surfaces<G, T> {
    /// No surface yet.
    pub open spec fn at_start() -> Surfaces<G, T> {
        Surfaces { all: Seq::empty(), drawn: 0 }
    }

    /// The generation that is drawn next.
    pub open spec fn fresh(self) -> u64 {
        generation_after(FIRST_GENERATION, self.drawn)
    }

    /// Every surface is valid, and the generation of its texture was drawn.
    pub open spec fn is_valid(self) -> bool {
        forall|i: int|
            0 <= i < self.all.len() ==> (#[trigger] self.all[i]).is_valid() && self.all[i].is_drawn(
                FIRST_GENERATION,
                self.drawn,
            )
    }

    /// Whether a step can be taken: frames go to surfaces that take them.
    pub open spec fn can_take(self, step: SurfaceStep<G, T>) -> bool {
        match step {
            SurfaceStep::Made => true,
            SurfaceStep::Attached(i, _, _) => 0 <= i < self.all.len(),
            SurfaceStep::Framed(i, frame, _) => 0 <= i < self.all.len() && admission(
                self.all[i].gpu is Some,
                frame,
            ) == Admission::Admitted,
            SurfaceStep::Copied(i, _, _) => 0 <= i < self.all.len() && self.all[i].frames
                < u64::MAX,
            SurfaceStep::Settled(i, _, _) => 0 <= i < self.all.len(),
        }
    }

    /// How many generations a step draws.
    pub open spec fn draws(self, step: SurfaceStep<G, T>) -> nat {
        match step {
            SurfaceStep::Attached(i, _, format) => if self.all[i].gpu is Some
                && self.all[i].format() != Some(format) {
                1
            } else {
                0
            },
            SurfaceStep::Framed(i, frame, _) => if self.all[i].needs_target(frame) {
                1
            } else {
                0
            },
            _ => 0,
        }
    }

    /// What a step leads to.
    pub open spec fn after_step(self, step: SurfaceStep<G, T>) -> Surfaces<G, T> {
        Surfaces {
            all: match step {
                SurfaceStep::Made => self.all.push(SurfaceView::at_start()),
                SurfaceStep::Attached(i, device, format) => self.all.update(
                    i,
                    self.all[i].attached(device, format, self.fresh()),
                ),
                SurfaceStep::Framed(i, frame, texture) => self.all.update(
                    i,
                    self.all[i].with_target(frame, texture, self.fresh()),
                ),
                SurfaceStep::Copied(i, frame, nanos) => self.all.update(
                    i,
                    self.all[i].copied(frame, nanos),
                ),
                SurfaceStep::Settled(i, fits, late) => self.all.update(
                    i,
                    SurfaceView { settled: self.all[i].settled || fits || late, ..self.all[i] },
                ),
            },
            drawn: self.drawn + self.draws(step),
        }
    }

    /// What steps lead to, one after the other.
    pub open spec fn after_steps(self, steps: Seq<SurfaceStep<G, T>>) -> Surfaces<G, T>
        decreases steps.len(),
    {
        if steps.len() == 0 {
            self
        } else {
            self.after_steps(steps.drop_last()).after_step(steps.last())
        }
    }

    /// Whether steps can be taken, one after the other.
    pub open spec fn can_take_all(self, steps: Seq<SurfaceStep<G, T>>) -> bool
        decreases steps.len(),
    {
        steps.len() > 0 ==> self.can_take_all(steps.drop_last()) && self.after_steps(
            steps.drop_last(),
        ).can_take(steps.last())
    }
}

proof fn lemma_step_keeps_surfaces_valid<G, T>(now: Surfaces<G, T>, step: SurfaceStep<G, T>)
    requires
        now.is_valid(),
        now.can_take(step),
    ensures
        now.after_step(step).is_valid(),
{
    let after = now.after_step(step);
    assert forall|i: int| 0 <= i < after.all.len() implies (#[trigger] after.all[i]).is_valid()
        && after.all[i].is_drawn(FIRST_GENERATION, after.drawn) by {
        let surface = after.all[i];
        if i < now.all.len() {
            let before = now.all[i];
            assert(before.is_valid() && before.is_drawn(FIRST_GENERATION, now.drawn));
            if surface.target is Some {
                if before.target is Some && surface.generation == before.generation {
                    let k = choose|k: nat|
                        k < now.drawn && before.generation == #[trigger] generation_after(
                            FIRST_GENERATION,
                            k,
                        );
                    assert(k < after.drawn && surface.generation == generation_after(
                        FIRST_GENERATION,
                        k,
                    ));
                } else {
                    assert(now.drawn < after.drawn && surface.generation == generation_after(
                        FIRST_GENERATION,
                        now.drawn,
                    ));
                }
            }
        }
    }
}

/// Whatever happens to the surfaces of a process, each stays valid, and the
/// generation of its texture is one that was drawn.
pub proof fn law_reached_surfaces_are_valid<G, T>(steps: Seq<SurfaceStep<G, T>>)
    requires
        Surfaces::<G, T>::at_start().can_take_all(steps),
    ensures
        Surfaces::<G, T>::at_start().after_steps(steps).is_valid(),
    decreases steps.len(),
{
    if steps.len() > 0 {
        law_reached_surfaces_are_valid(steps.drop_last());
        lemma_step_keeps_surfaces_valid(
            Surfaces::<G, T>::at_start().after_steps(steps.drop_last()),
            steps.last(),
        );
    }
}

proof fn lemma_earlier_steps<G, T>(steps: Seq<SurfaceStep<G, T>>, n: int)
    requires
        0 <= n <= steps.len(),
        Surfaces::<G, T>::at_start().can_take_all(steps),
    ensures
        Surfaces::<G, T>::at_start().can_take_all(steps.take(n)),
        Surfaces::<G, T>::at_start().after_steps(steps.take(n)).drawn
            <= Surfaces::<G, T>::at_start().after_steps(steps).drawn,
    decreases steps.len(),
{
    if n == steps.len() {
        assert(steps.take(n) =~= steps);
    } else {
        lemma_earlier_steps(steps.drop_last(), n);
        assert(steps.drop_last().take(n) =~= steps.take(n));
    }
}

/// A texture that is made for a frame has a generation that no texture of any
/// surface of the process ever had: neither this surface nor another one showed
/// it at any earlier time.
pub proof fn law_new_texture_is_new_to_all<G, T>(
    steps: Seq<SurfaceStep<G, T>>,
    i: int,
    frame: DmabufFrame,
    texture: T,
    earlier: int,
    other: int,
)
    requires
        ({
            let now = Surfaces::<G, T>::at_start().after_steps(steps);
            let then = Surfaces::<G, T>::at_start().after_steps(steps.take(earlier));
            &&& Surfaces::<G, T>::at_start().can_take_all(steps)
            &&& now.can_take(SurfaceStep::Framed(i, frame, texture))
            &&& now.all[i].needs_target(frame)
            &&& now.drawn < 0x1_0000_0000_0000_0000
            &&& 0 <= earlier <= steps.len()
            &&& 0 <= other < then.all.len()
            &&& then.all[other].target is Some
        }),
    ensures
        ({
            let now = Surfaces::<G, T>::at_start().after_steps(steps);
            let then = Surfaces::<G, T>::at_start().after_steps(steps.take(earlier));
            let after = now.after_step(SurfaceStep::Framed(i, frame, texture));
            &&& after.all[i].target->0.texture == texture
            &&& after.all[i].generation != then.all[other].generation
        }),
{
    let now = Surfaces::<G, T>::at_start().after_steps(steps);
    let then = Surfaces::<G, T>::at_start().after_steps(steps.take(earlier));
    lemma_earlier_steps(steps, earlier);
    law_reached_surfaces_are_valid(steps.take(earlier));
    assert(then.all[other].is_drawn(FIRST_GENERATION, then.drawn));
    let k = choose|k: nat|
        k < then.drawn && then.all[other].generation == #[trigger] generation_after(
            FIRST_GENERATION,
            k,
        );
    law_generations_are_unique(FIRST_GENERATION, k, now.drawn);
}

/// A frame that is refused is refused for the first of these reasons that
/// holds: there is no device, it holds no pixel, or it does not say how its
/// memory is laid out.
pub proof fn law_frames_are_refused_for_a_reason(has_gpu: bool, frame: DmabufFrame)
    ensures
        !has_gpu ==> admission(has_gpu, frame) == Admission::NoGpu,
        has_gpu && (frame.width == 0 || frame.height == 0) ==> admission(has_gpu, frame)
            == Admission::Empty,
        has_gpu && frame.width > 0 && frame.height > 0 && frame.modifier == 0x00ff_ffff_ffff_ffff
            ==> admission(has_gpu, frame) == Admission::UnknownLayout,
        has_gpu && frame.width > 0 && frame.height > 0 && frame.modifier != 0x00ff_ffff_ffff_ffff
            ==> admission(has_gpu, frame) == Admission::Admitted,
{
}

/// Generations are handed out one after the other, from one on, and begin anew
/// only once there is no larger one.
pub proof fn law_generations_count_up(generation: u64, n: nat)
    ensures
        generation < u64::MAX ==> following(generation) == generation + 1,
        following(u64::MAX) == 0,
        FIRST_GENERATION == 1,
        n < u64::MAX ==> generation_after(FIRST_GENERATION, n) == n + 1,
    decreases n,
{
    if 0 < n < u64::MAX {
        law_generations_count_up(generation, (n - 1) as nat);
    }
}

/// A first device is taken with its format and drops nothing; a later one is
/// not, but its format is, which drops the texture and takes the new
/// generation. Nothing else of a surface changes.
pub proof fn law_attaching_changes_device_and_format<G, T>(
    surface: SurfaceView<G, T>,
    device: G,
    format: TextureFormat,
    fresh: u64,
)
    ensures
        ({
            let after = surface.attached(device, format, fresh);
            &&& after == (SurfaceView {
                gpu: after.gpu,
                target: after.target,
                generation: after.generation,
                ..surface
            })
            &&& surface.gpu is None ==> after.gpu == Some((device, format)) && after.target
                == surface.target && after.generation == surface.generation
            &&& surface.gpu matches Some(gpu) ==> after.gpu == Some((gpu.0, format)) && (gpu.1
                != format ==> after.generation == fresh && after.target is None) && (gpu.1 == format
                ==> after == surface)
        }),
{
}

/// A frame needs a new texture exactly if there is none of its size in the
/// format the renderer wants. The new one has that size and format, and the new
/// generation. Nothing else of a surface changes.
pub proof fn law_texture_is_made_for_frame<G, T>(
    surface: SurfaceView<G, T>,
    frame: DmabufFrame,
    texture: T,
    fresh: u64,
)
    requires
        surface.gpu is Some,
    ensures
        ({
            let gpu = surface.gpu->0;
            let after = surface.with_target(frame, texture, fresh);
            let fits = surface.target matches Some(target) && target.width == frame.width
                && target.height == frame.height && target.format == gpu.1;
            &&& surface.needs_target(frame) <==> !fits
            &&& fits ==> after == surface
            &&& !fits ==> after.generation == fresh && after.target == Some(
                TargetView {
                    texture,
                    width: frame.width,
                    height: frame.height,
                    format: gpu.1,
                },
            )
            &&& after == (SurfaceView {
                target: after.target,
                generation: after.generation,
                ..surface
            })
        }),
        surface.attached_device() == (surface.gpu->0).0,
        surface.wanted_format() == (surface.gpu->0).1,
        surface.format() == Some((surface.gpu->0).1),
{
}

/// The copies are reported after the first, the tenth and the sixtieth frame,
/// after every hundred and twentieth, and after a frame of another size than
/// the one before; never else.
pub proof fn law_copies_are_reported_now_and_then<G, T>(
    surface: SurfaceView<G, T>,
    frame: DmabufFrame,
)
    ensures
        ({
            let n = surface.frames + 1;
            let resized = surface.last_reported.0 != frame.width || surface.last_reported.1
                != frame.height;
            surface.reports(frame) <==> resized || n == 1 || n == 10 || n == 60 || n % 120 == 0
        }),
        REPORT_EVERY == 120,
{
}

/// A copied frame counts once and its size is remembered; the time of copies
/// adds up from one report to the next. Nothing else of a surface changes.
pub proof fn law_copies_add_up<G, T>(surface: SurfaceView<G, T>, frame: DmabufFrame, nanos: u64)
    requires
        surface.frames < u64::MAX,
        surface.import_nanos + nanos <= u64::MAX,
    ensures
        ({
            let after = surface.copied(frame, nanos);
            &&& after.frames == surface.frames + 1
            &&& after.last_reported == (frame.width, frame.height)
            &&& surface.spent(nanos) == surface.import_nanos + nanos
            &&& surface.reports(frame) ==> after.import_nanos == 0
            &&& !surface.reports(frame) ==> after.import_nanos == surface.import_nanos + nanos
            &&& after == (SurfaceView {
                frames: after.frames,
                import_nanos: after.import_nanos,
                last_reported: after.last_reported,
                ..surface
            })
        }),
{
}

/// At the start a surface has no device, no texture and no frame, and its page
/// is not shown.
pub proof fn law_surface_starts_empty<G, T>()
    ensures
        ({
            let start = SurfaceView::<G, T>::at_start();
            &&& start.gpu is None && start.target is None && start.format() is None
            &&& start.generation == 0 && start.frames == 0 && start.import_nanos == 0
            &&& start.last_reported == (0u32, 0u32)
            &&& !start.settled
        }),
{
}

} // verus!
