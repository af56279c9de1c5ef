# rsinfer

A small inference engine for Qwen3 models, written in Verus. The library holds
everything that can be stated and proved: the cache of keys and values, the
tensors, the loading of weights, the plan of what runs where, the work for a
GPU, the loop that generates text and the chat. A thin program around it does
the input and output and computes in floating point.

## Layout

- `src/text.rs`, `src/error.rs`: texts and errors.
- `src/runtime.rs`: the options, and the plan of what runs on which device.
- `src/tensor/`: tensors over `ndarray`, number formats, the order of single
  precision numbers, and the shapes that the kernels take.
- `src/engine/`: the cache, the sampler, the tokenizer, the generation loop and
  what it measures.
- `src/gpu/`: the work for a GPU as lists of commands, from matrices in half
  precision and in eight bits to attention.
- `src/model/`: configuration, weights, their copies in eight bits on disk, the
  order in which a model is loaded and built, and its layers and blocks.
- `src/chat.rs`: chat templates and the commands of a session.
- `tests/`: tests of the library; those of the GPU work run on a device made of
  vectors.
- `app/`: the program: arguments, files, the driver of the GPU, and the kernels
  that compute in floating point.

## Numbers

A single precision number stands in the library as its 32 bits, a half
precision number as its 16 bits. The library moves, orders, widens and narrows
such numbers; sums and products are left to the program and to the GPU.

## The GPU

`gpu::GpuContext` is a record of buffers and of operations that are still to be
done. The library writes the operations, and their contracts say which. The
driver in `app/device.rs` carries them out and hands back what was read.
