//! Per-frame composition: turning the ordered render-element list into the
//! drawing work of one frame.
//!
//! Render elements arrive back-to-front; list order is the compositing
//! order agreed with the scene collaborator, and the compiled command list
//! keeps it. A frame with no elements still clears to the background color:
//! it is a valid no-content frame, not a skipped frame.

use vstd::prelude::*;

use crate::buffers::BufferId;
use crate::color::ColorRgba;
use crate::color::ColorSpace;
use crate::color::TransferFunction;

verus! {

/// One thing to draw, produced by the scene collaborator and consumed
/// read-only.
#[derive(Debug)]
pub enum RenderElement {
    /// A client-produced buffer, sampled onto the output.
    ClientSurface {
        /// The imported source buffer.
        buffer: BufferId,
        /// Destination position on the output.
        position: (i32, i32),
        /// Destination size on the output.
        size: (u32, u32),
        /// Damaged sub-rectangles in source coordinates.
        damage: Vec<(i32, i32, u32, u32)>,
        /// Color space of the buffer's pixel values.
        color_space: ColorSpace,
        /// Transfer function of the buffer's pixel values.
        eotf: TransferFunction,
    },
    /// A solid fill of a destination rectangle.
    SolidColor { rect: (i32, i32, u32, u32), color: ColorRgba },
}

/// One unit of drawing work of a compiled frame.
#[derive(Debug)]
pub enum DrawCommand {
    /// Clear the whole image to the background color.
    Clear { color: ColorRgba },
    /// Sample an imported buffer into the destination rectangle, reading only
    /// the listed source regions.
    SampleSurface {
        buffer: BufferId,
        position: (i32, i32),
        size: (u32, u32),
        regions: Vec<(i32, i32, u32, u32)>,
        color_space: ColorSpace,
        eotf: TransferFunction,
    },
    /// Fill a rectangle with a solid color.
    FillRect { rect: (i32, i32, u32, u32), color: ColorRgba },
}

/// The buffer a render element samples, if any.
pub open spec fn element_buffer(e: RenderElement) -> Option<BufferId> {
    match e {
        RenderElement::ClientSurface { buffer, .. } => Some(buffer),
        RenderElement::SolidColor { .. } => None,
    }
}

/// Whether any element of the list samples buffer `b`.
pub open spec fn references_buffer(elements: Seq<RenderElement>, b: BufferId) -> bool {
    exists|j: int| 0 <= j < elements.len() && element_buffer(#[trigger] elements[j]) == Some(b)
}

/// How one element compiles: a solid color becomes a fill; a client surface
/// becomes a sampling command that reads only the declared damaged
/// sub-rectangles when the partial-update path is available and damage was
/// declared, and re-renders the full destination rectangle otherwise.
pub open spec fn element_compiles_to(
    e: RenderElement,
    partial_update: bool,
    c: DrawCommand,
) -> bool {
    match e {
        RenderElement::ClientSurface { buffer, position, size, damage, color_space, eotf } => {
            match c {
                DrawCommand::SampleSurface {
                    buffer: cb,
                    position: cp,
                    size: cs,
                    regions,
                    color_space: ccs,
                    eotf: ce,
                } => {
                    &&& cb == buffer
                    &&& cp == position
                    &&& cs == size
                    &&& ccs == color_space
                    &&& ce == eotf
                    &&& if partial_update && damage@.len() > 0 {
                        regions@ == damage@
                    } else {
                        regions@ == seq![(0i32, 0i32, size.0, size.1)]
                    }
                },
                _ => false,
            }
        },
        RenderElement::SolidColor { rect, color } => {
            c == (DrawCommand::FillRect { rect, color })
        },
    }
}

/// The whole command list of a frame: a clear to the background, then each
/// element's command, in element order.
pub open spec fn frame_compiles_to(
    elements: Seq<RenderElement>,
    background: ColorRgba,
    partial_update: bool,
    commands: Seq<DrawCommand>,
) -> bool {
    &&& commands.len() == elements.len() + 1
    &&& commands[0] == (DrawCommand::Clear { color: background })
    &&& forall|i: int|
        0 <= i < elements.len() ==> element_compiles_to(
            elements[i],
            partial_update,
            #[trigger] commands[i + 1],
        )
}

/// Copy a damage-region list.
fn copy_regions(v: &Vec<(i32, i32, u32, u32)>) -> (r: Vec<(i32, i32, u32, u32)>)
    ensures
        r@ == v@,
{
    let mut r: Vec<(i32, i32, u32, u32)> = Vec::new();
    let mut i: usize = 0;
    while i < v.len()
        invariant
            0 <= i <= v@.len(),
            r@ == v@.take(i as int),
        decreases v@.len() - i,
    {
        r.push(v[i]);
        proof {
            assert(r@ =~= v@.take(i as int + 1));
        }
        i += 1;
    }
    proof {
        assert(v@.take(v@.len() as int) =~= v@);
    }
    r
}

/// Compile one render element.
pub fn compile_element(e: &RenderElement, partial_update: bool) -> (r: DrawCommand)
    ensures
        element_compiles_to(*e, partial_update, r),
{
    match e {
        RenderElement::ClientSurface { buffer, position, size, damage, color_space, eotf } => {
            let regions: Vec<(i32, i32, u32, u32)> = if partial_update && damage.len() > 0 {
                copy_regions(damage)
            } else {
                let mut full: Vec<(i32, i32, u32, u32)> = Vec::new();
                full.push((0i32, 0i32, size.0, size.1));
                proof {
                    assert(full@ =~= seq![(0i32, 0i32, size.0, size.1)]);
                }
                full
            };
            DrawCommand::SampleSurface {
                buffer: *buffer,
                position: *position,
                size: *size,
                regions,
                color_space: *color_space,
                eotf: *eotf,
            }
        },
        RenderElement::SolidColor { rect, color } => {
            DrawCommand::FillRect { rect: *rect, color: *color }
        },
    }
}

/// Compile a whole frame: clear to the background, then every element in
/// list order — back-to-front, as handed in.
pub fn compose_frame(
    elements: &Vec<RenderElement>,
    background: ColorRgba,
    partial_update: bool,
) -> (r: Vec<DrawCommand>)
    ensures
        frame_compiles_to(elements@, background, partial_update, r@),
{
    let mut commands: Vec<DrawCommand> = Vec::new();
    commands.push(DrawCommand::Clear { color: background });
    let mut i: usize = 0;
    while i < elements.len()
        invariant
            0 <= i <= elements@.len(),
            commands@.len() == i + 1,
            commands@[0] == (DrawCommand::Clear { color: background }),
            forall|j: int|
                0 <= j < i ==> element_compiles_to(
                    elements@[j],
                    partial_update,
                    #[trigger] commands@[j + 1],
                ),
        decreases elements@.len() - i,
    {
        let c = compile_element(&elements[i], partial_update);
        commands.push(c);
        i += 1;
    }
    commands
}

} // verus!
