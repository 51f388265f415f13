//! Preference order of the decoder backends and the choice among those that
//! the runtime can instantiate.
use vstd::prelude::*;

verus! {

/// Number of decoder backends in the preference order.
pub const BACKEND_COUNT: usize = 5;

/// A decode backend for H.264 elementary streams.
#[derive(Debug, Clone, Copy, PartialEq, Eq, Structural)]
pub enum DecoderBackend {
    /// VA decoder (Intel/AMD).
    Va,
    /// Legacy VA-API decoder (Intel/AMD).
    VaApi,
    /// NVIDIA NVDEC.
    Nvdec,
    /// Apple VideoToolbox.
    VideoToolbox,
    /// Software decoder, the last resort.
    Software,
}

/// Backends in the order they are tried: hardware first, software last.
pub open spec fn preference() -> Seq<DecoderBackend> {
    seq![
        DecoderBackend::Va,
        DecoderBackend::VaApi,
        DecoderBackend::Nvdec,
        DecoderBackend::VideoToolbox,
        DecoderBackend::Software,
    ]
}

impl DecoderBackend {
    /// Position of the backend in the preference order.
    pub open spec fn rank(self) -> int {
        match self {
            DecoderBackend::Va => 0,
            DecoderBackend::VaApi => 1,
            DecoderBackend::Nvdec => 2,
            DecoderBackend::VideoToolbox => 3,
            DecoderBackend::Software => 4,
        }
    }

    /// Name of the element factory that builds this backend.
    pub open spec fn factory_name(self) -> &'static str {
        match self {
            DecoderBackend::Va => "vah264dec",
            DecoderBackend::VaApi => "vaapih264dec",
            DecoderBackend::Nvdec => "nvh264dec",
            DecoderBackend::VideoToolbox => "vtdec",
            DecoderBackend::Software => "avdec_h264",
        }
    }

    /// Name of the element factory that builds this backend.
    pub fn element_name(&self) -> (r: &'static str)
        ensures
            r@ == self.factory_name()@,
    {
        match self {
            DecoderBackend::Va => "vah264dec",
            DecoderBackend::VaApi => "vaapih264dec",
            DecoderBackend::Nvdec => "nvh264dec",
            DecoderBackend::VideoToolbox => "vtdec",
            DecoderBackend::Software => "avdec_h264",
        }
    }

    /// Human-readable description of the backend.
    pub fn label(&self) -> &'static str {
        match self {
            DecoderBackend::Va => "VA H.264 (Intel/AMD)",
            DecoderBackend::VaApi => "VA-API H.264 (Intel/AMD)",
            DecoderBackend::Nvdec => "NVIDIA NVDEC H.264",
            DecoderBackend::VideoToolbox => "VideoToolbox (macOS)",
            DecoderBackend::Software => "Software H.264 (libav)",
        }
    }

    /// Whether the backend runs on dedicated hardware.
    pub fn is_hardware(&self) -> (r: bool)
        ensures
            r == (*self != DecoderBackend::Software),
    {
        !matches!(self, DecoderBackend::Software)
    }
}

/// The backends in the order they are tried.
pub fn preference_order() -> (r: Vec<DecoderBackend>)
    ensures
        r@ == preference(),
{
    let r = vec![
        DecoderBackend::Va,
        DecoderBackend::VaApi,
        DecoderBackend::Nvdec,
        DecoderBackend::VideoToolbox,
        DecoderBackend::Software,
    ];
    assert(r@ =~= preference());
    r
}

/// The backend at position `i` of the preference order is reported usable.
pub open spec fn usable(available: Seq<bool>, i: int) -> bool {
    0 <= i < BACKEND_COUNT && i < available.len() && available[i]
}

/// Picks the first backend of the preference order that `available` reports
/// usable; `available[i]` speaks of the `i`-th backend of that order, and a
/// missing entry counts as unusable. `None` only when even the software
/// fallback is unusable.
pub fn select_backend(available: &[bool]) -> (r: Option<DecoderBackend>)
    ensures
        match r {
            Some(b) => preference()[b.rank()] == b && usable(available@, b.rank()) && forall|j: int|
                0 <= j < b.rank() ==> !usable(available@, j),
            None => forall|j: int| 0 <= j < BACKEND_COUNT ==> !usable(available@, j),
        },
{
    let order = preference_order();
    let mut i: usize = 0;
    while i < BACKEND_COUNT
        invariant
            i <= BACKEND_COUNT,
            order@ == preference(),
            forall|j: int| 0 <= j < i ==> !usable(available@, j),
        decreases BACKEND_COUNT - i,
    {
        if i < available.len() && available[i] {
            let b = order[i];
            assert(b.rank() == i);
            return Some(b);
        }
        i = i + 1;
    }
    None
}

} // verus!
