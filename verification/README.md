# renew_rhi

The decision layer of a Vulkan render hardware interface, written in
Verus and verified: descriptor rules for meshes, textures and render
images; memory-type and adapter selection over what the driver reports;
the frame contract (pass shapes, first-use loads, the one-way
render-then-sample walk over render images, pipeline/item agreement,
retention bounds) and the barrier table its walk feeds; the per-frame
buffer layout; the host-allocation and validation tallies; and the
bookkeeping of the offscreen target and the two-slot window frame ring.

- `src/` — the verified library. `frame.rs` states the frame contract as
  specifications, `walk.rs` and `retention.rs` execute it, and
  `contract_laws.rs` proves what every accepted frame satisfies.
- `tests/` — tests on concrete values, several cross-checking the
  library's Vulkan numbers against `ash`'s definitions.
- `app/` — the Vulkan edge (via `ash`): loading, object creation,
  recording, submission and presentation, handing the driver's answers
  back to the library.

## Checkers and the steps that act

The verified functions do not panic. A rule whose breach is a caller's
mistake is checked by a checker that names the broken rule, and the
step that acts on the checked value takes the rule as its precondition:

- `walk::check_frame_contract` (with `check_pass_shape` and
  `retention::check_retention_bound`) answers the first broken frame
  rule as a `frame::FrameRefusal`, with the pass index where the rule is
  per pass. `FrameWalk::advance_target` and `FrameWalk::advance_sampling`,
  which the record paths call pass by pass, require that the walk
  accepts the pass — `contract_laws::lemma_accepted_frame_walks` shows
  that every pass of an accepted frame, walked in order, meets them —
  and every use pair they return is a pass boundary of the barrier
  table. `app/record.rs` panics on a refusal before any GPU call.
- `OffscreenState::readback_allowed` answers whether a read-back may
  run; `OffscreenState::readback_copy_len`, the read-back step, requires
  a target that is not wedged and a buffer of exactly the read-back
  length.
- `buffer::frame_data_fits` answers whether frame data fits its buffer's
  per-frame capacity; `buffer::frame_data_offset`, the copy step,
  requires it and places the copy inside the slot's region.
- `buffer::checked_slot_layout` requires a non-zero capacity and answers
  `None` only when the regions overflow the allocation size.
- `mesh::check_desc` and `texture::check_desc` answer a broken
  descriptor rule as an error naming it, which creation returns.

## What this crate leaves out

- Uniform-block bindings are not part of this crate: bindings are
  sampled bindings only, created in `app/` from a render image or a
  texture and a sampler. There is no `BindingDesc`, no uniform arm of
  binding creation and no per-frame block writes.
- A pipeline declares its sampled slots by count
  (`PipelineDesc::sampled_bindings`); a texture is bound per draw, not
  baked into the pipeline.
- An item's per-frame data is described by `frame::FrameDataRef` (buffer
  identity, the bytes' address and length, instance count), and
  `frame::Bindings` hands its bindings out by `get` and `to_vec`.
- The SPIR-V structural check is `spirv::words_from_bytes`: a whole
  number of words, at least one, opening with the magic number in
  either byte order.
- The per-frame structures (`ItemList`, the frame walk, the retention
  tables) are `Vec`-backed, so the frame loop allocates.
