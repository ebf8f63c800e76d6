# PixelForge

Hardware-accelerated H.264, H.265 and AV1 encoding with Vulkan Video, with the
decisions of the encoder verified by [Verus](https://github.com/verus-lang/verus).

- `src/` is the verified library. It computes, from plain values, everything that an
  encode consists of: which device and formats are used, how input is laid out and
  uploaded, the frame types, references, parameter sets, barriers and rate control of
  each frame, how frames pass through the two slots of the pipeline, and the packets
  that come out. It makes no Vulkan call that reaches a device.
- `app/` creates the Vulkan objects, records and submits what the library planned, and
  hands the answers of the device back. AV1 is planned by the library but not recorded
  here, because the Vulkan bindings have no AV1 encode structures yet. The compiled
  color conversion shader (SPIR-V) is read from a file.
- `tests/` runs the library.

## How a frame is encoded

1. `start_frame` gives the frame its place in the group of pictures.
2. `upload_from_image` says how the source is copied, unless it is the input image of the
   slot already.
3. `start_picture` says whether the parameter sets must be retrieved, which `HeaderQuery`
   does.
4. `encode` gives the plan of the frame, which is recorded and submitted.
5. `finish_frame` enters the frame in the pipeline and in the references.
6. `drain_current_slot` takes what was read back from the slot that the next frame will
   overwrite, and gives the packet of the frame before.

The first frame gives no packet, each later frame that of the frame before it; `flush`
returns the last.

## What is proved

Contracts state the result of every function; the proof functions whose names start with
`law_` state what holds over several of them: that packets come out in display order
and every frame comes out once (`src/encoder/laws.rs`), that references are
recent pictures of the same sequence, that cropping restores the given dimensions, that a
picture order count survives the coding of a reference picture set
(`src/encoder/dpb/laws.rs`), and others.
