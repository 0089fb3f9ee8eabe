# rencan

A Vulkan ray tracer split in two.

* `src/` is the verified library: frame layout arithmetic (`app_info`), the
  change-tracking cache cell (`setable`), the lighting pass schedule and buffer
  sizes (`lightning`), the step-major render schedule (`schedule`), queue-family and presentation choices (`queue_families`,
  `swapchain`), pixel packing for video frames (`frame`), concatenation of model
  data for upload (`scene`), and decoding of the blue-noise texture
  (`noise_texture`, through the `png` crate).
* `app/` is the GPU and window side built on vulkano, winit, nalgebra, rapier3d
  and ffmpeg: shaders, command recording, float geometry, and the demo program.
