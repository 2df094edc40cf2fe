//! Image layout transitions and sampler addressing.

use vstd::prelude::*;

verus! {

/// The image layouts textures go through.
#[derive(Clone, Copy, Debug, PartialEq, Eq, Structural)]
pub enum ImageLayout {
    Undefined,
    TransferDstOptimal,
    ShaderReadOnlyOptimal,
    /// Any other layout.
    Other,
}

/// Memory accesses a barrier waits for or makes visible.
#[derive(Clone, Copy, Debug, PartialEq, Eq, Structural)]
pub enum Access {
    NoAccess,
    TransferWrite,
    ShaderRead,
}

/// Pipeline stages a barrier sits between.
#[derive(Clone, Copy, Debug, PartialEq, Eq, Structural)]
pub enum Stage {
    TopOfPipe,
    Transfer,
    FragmentShader,
}

/// The access masks and stages of a layout transition barrier.
#[derive(Clone, Copy, Debug, PartialEq, Eq, Structural)]
pub struct LayoutTransition {
    pub src_access: Access,
    pub dst_access: Access,
    pub src_stage: Stage,
    pub dst_stage: Stage,
}

/// How a sampler addresses texture coordinates outside the image.
#[derive(Clone, Copy, Debug, PartialEq, Eq, Structural)]
pub enum AddressMode {
    Repeat,
    ClampToEdge,
}

/// The barrier for moving an image from `old` to `new`: an undefined image
/// becomes a transfer destination once the pipeline starts; a transfer
/// destination becomes readable by fragment shaders once the transfer has
/// written it. No other transition is supported.
pub open spec fn spec_layout_transition(old: ImageLayout, new: ImageLayout) -> Option<LayoutTransition> {
    if old == ImageLayout::Undefined && new == ImageLayout::TransferDstOptimal {
        Some(LayoutTransition {
            src_access: Access::NoAccess,
            dst_access: Access::TransferWrite,
            src_stage: Stage::TopOfPipe,
            dst_stage: Stage::Transfer,
        })
    } else if old == ImageLayout::TransferDstOptimal && new == ImageLayout::ShaderReadOnlyOptimal {
        Some(LayoutTransition {
            src_access: Access::TransferWrite,
            dst_access: Access::ShaderRead,
            src_stage: Stage::Transfer,
            dst_stage: Stage::FragmentShader,
        })
    } else {
        None
    }
}

/// Whether moving an image from `old` to `new` is a supported transition.
pub fn is_supported_transition(old: ImageLayout, new: ImageLayout) -> (r: bool)
    ensures
        r == spec_layout_transition(old, new) is Some,
{
    match (old, new) {
        (ImageLayout::Undefined, ImageLayout::TransferDstOptimal) => true,
        (ImageLayout::TransferDstOptimal, ImageLayout::ShaderReadOnlyOptimal) => true,
        _ => false,
    }
}

/// The barrier for moving an image from `old` to `new`, a supported
/// transition.
pub fn layout_transition(old: ImageLayout, new: ImageLayout) -> (r: LayoutTransition)
    requires
        spec_layout_transition(old, new) is Some,
    ensures
        spec_layout_transition(old, new) == Some(r),
{
    match (old, new) {
        (ImageLayout::Undefined, ImageLayout::TransferDstOptimal) => LayoutTransition {
            src_access: Access::NoAccess,
            dst_access: Access::TransferWrite,
            src_stage: Stage::TopOfPipe,
            dst_stage: Stage::Transfer,
        },
        _ => LayoutTransition {
            src_access: Access::TransferWrite,
            dst_access: Access::ShaderRead,
            src_stage: Stage::Transfer,
            dst_stage: Stage::FragmentShader,
        },
    }
}

/// Vertical addressing of a texture sampler: a spherical texture is
/// clamped at its poles, any other repeats.
pub fn sampler_address_mode_v(is_spherical: bool) -> (r: AddressMode)
    ensures
        r == (if is_spherical { AddressMode::ClampToEdge } else { AddressMode::Repeat }),
{
    if is_spherical {
        AddressMode::ClampToEdge
    } else {
        AddressMode::Repeat
    }
}

/// The texture upload path is well formed: the two supported transitions
/// chain, the second waiting on exactly what the first makes visible.
pub proof fn lemma_upload_transitions_chain()
    ensures
        ({
            let first = spec_layout_transition(ImageLayout::Undefined, ImageLayout::TransferDstOptimal);
            let second = spec_layout_transition(ImageLayout::TransferDstOptimal, ImageLayout::ShaderReadOnlyOptimal);
            &&& first is Some && second is Some
            &&& first.unwrap().dst_access == second.unwrap().src_access
            &&& first.unwrap().dst_stage == second.unwrap().src_stage
        }),
        forall|l: ImageLayout| spec_layout_transition(l, l) is None,
{
}

} // verus!
