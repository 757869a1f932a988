use vstd::prelude::*;

verus! {

/// Where the arena should be placed.
#[derive(Clone, Copy, Debug, PartialEq, Eq, Structural)]
pub enum PreferredBase {
    /// This address, or the load fails.
    Exact(u64),
    /// The image's preferred base if it is free, else anywhere.
    Default,
    /// The image's preferred base, or the load fails.
    DefaultExact,
    /// Anywhere.
    Any,
    /// This address if it is free, else anywhere.
    TryExact(u64),
}

/// The next allocation to ask the host for.
#[derive(Clone, Copy, Debug, PartialEq, Eq, Structural)]
pub enum AllocationRequest {
    At(u64),
    Anywhere,
    GiveUp,
}

/// The allocation to try after `failed` attempts have failed, for an image whose preferred
/// base is `image_base`.
pub open spec fn spec_allocation_request(
    policy: PreferredBase,
    image_base: u64,
    failed: u32,
) -> AllocationRequest {
    match policy {
        PreferredBase::Exact(a) => if failed == 0 {
            AllocationRequest::At(a)
        } else {
            AllocationRequest::GiveUp
        },
        PreferredBase::Default => if failed == 0 {
            AllocationRequest::At(image_base)
        } else if failed == 1 {
            AllocationRequest::Anywhere
        } else {
            AllocationRequest::GiveUp
        },
        PreferredBase::DefaultExact => if failed == 0 {
            AllocationRequest::At(image_base)
        } else {
            AllocationRequest::GiveUp
        },
        PreferredBase::Any => if failed == 0 {
            AllocationRequest::Anywhere
        } else {
            AllocationRequest::GiveUp
        },
        PreferredBase::TryExact(a) => if failed == 0 {
            AllocationRequest::At(a)
        } else if failed == 1 {
            AllocationRequest::Anywhere
        } else {
            AllocationRequest::GiveUp
        },
    }
}

impl PreferredBase {
    /// What to ask the host for next: first the address the policy names, then, where the
    /// policy allows it, any address; after that the load fails with `OutOfMemory`.
    pub fn allocation_request(&self, image_base: u64, failed: u32) -> (r: AllocationRequest)
        ensures
            r == spec_allocation_request(*self, image_base, failed),
    {
        match *self {
            PreferredBase::Exact(a) => if failed == 0 {
                AllocationRequest::At(a)
            } else {
                AllocationRequest::GiveUp
            },
            PreferredBase::Default => if failed == 0 {
                AllocationRequest::At(image_base)
            } else if failed == 1 {
                AllocationRequest::Anywhere
            } else {
                AllocationRequest::GiveUp
            },
            PreferredBase::DefaultExact => if failed == 0 {
                AllocationRequest::At(image_base)
            } else {
                AllocationRequest::GiveUp
            },
            PreferredBase::Any => if failed == 0 {
                AllocationRequest::Anywhere
            } else {
                AllocationRequest::GiveUp
            },
            PreferredBase::TryExact(a) => if failed == 0 {
                AllocationRequest::At(a)
            } else if failed == 1 {
                AllocationRequest::Anywhere
            } else {
                AllocationRequest::GiveUp
            },
        }
    }
}

} // verus!
