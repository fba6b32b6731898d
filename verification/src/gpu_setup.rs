//! The decisions taken while opening the GPU: which backends to ask for,
//! which adapter to keep, and the messages reported when none can be used.
use vstd::prelude::*;

verus! {

/// The set of graphics backends asked for.
#[derive(Debug, Clone, Copy, PartialEq, Eq, Structural)]
pub enum BackendChoice {
    /// Vulkan and GL only (Android).
    VulkanAndGl,
    /// Every backend the platform offers.
    All,
}

/// The adapter kept after the adapter requests.
#[derive(Debug, Clone, Copy, PartialEq, Eq, Structural)]
pub enum AdapterChoice {
    /// The high-performance adapter.
    HighPerformance,
    /// The low-power adapter, asked for once no high-performance one was found.
    LowPower,
    /// Neither request found an adapter.
    NoAdapter,
}

/// Android asks for Vulkan and GL; every other platform for all backends.
pub fn backend_choice(android: bool) -> (c: BackendChoice)
    ensures
        c == (if android { BackendChoice::VulkanAndGl } else { BackendChoice::All }),
{
    if android {
        BackendChoice::VulkanAndGl
    } else {
        BackendChoice::All
    }
}

/// A high-performance adapter is preferred; the low-power one is the
/// fallback; with neither there is no adapter.
pub fn adapter_step(high_perf_found: bool, low_power_found: bool) -> (a: AdapterChoice)
    ensures
        high_perf_found ==> a == AdapterChoice::HighPerformance,
        !high_perf_found && low_power_found ==> a == AdapterChoice::LowPower,
        !high_perf_found && !low_power_found ==> a == AdapterChoice::NoAdapter,
{
    if high_perf_found {
        AdapterChoice::HighPerformance
    } else if low_power_found {
        AdapterChoice::LowPower
    } else {
        AdapterChoice::NoAdapter
    }
}

/// The error reported when no adapter was found.
pub fn adapter_error_message() -> (m: String)
    ensures
        m@ == "failed to find a suitable GPU adapter"@,
{
    String::from_str("failed to find a suitable GPU adapter")
}

/// The error reported when the adapter refuses to open a device, with the
/// device error's text.
pub fn device_error_message(detail: &str) -> (m: String)
    ensures
        m@ == "failed to open GPU device: "@ + detail@,
{
    let mut m = String::from_str("failed to open GPU device: ");
    m.append(detail);
    m
}

/// Which of the surface's formats to render to, given for each whether it is
/// sRGB: the first sRGB one, else the first one; none for an empty list.
pub fn surface_format_index(srgb: &[bool]) -> (r: Option<usize>)
    ensures
        r is None <==> srgb@.len() == 0,
        r matches Some(i) ==> i < srgb@.len(),
        r matches Some(i) ==> (exists|j: int| 0 <= j < srgb@.len() && srgb@[j]) ==> (srgb@[i as int]
            && forall|k: int| 0 <= k < i ==> !srgb@[k]),
        r matches Some(i) ==> !(exists|j: int| 0 <= j < srgb@.len() && srgb@[j]) ==> i == 0,
{
    let n = srgb.len();
    let mut i: usize = 0;
    while i < n
        invariant
            n == srgb@.len(),
            i <= n,
            forall|k: int| 0 <= k < i ==> !srgb@[k],
        decreases n - i,
    {
        if srgb[i] {
            return Some(i);
        }
        i = i + 1;
    }
    if n == 0 {
        None
    } else {
        Some(0)
    }
}

} // verus!
