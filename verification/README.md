# simple_renderer

A physically based OpenGL renderer with a multi-pass pipeline (depth pre-pass,
lighting, sky box, tone mapping), image-based lighting and a small entity store, whose
bookkeeping is verified with Verus.

- `src/` is the verified library: vector and matrix arithmetic, the GLSL declaration
  scanner that finds a program's attributes, uniforms, samplers and outputs, uniforms and
  samplers bound to programs, materials, techniques and their containers, render passes
  and their validation, the pipeline (its stage descriptions, resizing, reloading and
  binding), OBJ mesh streams, input state, and the entity store. Laws such as "unbinding
  undoes binding" are proof functions beside the operations they speak of.
- `tests/` exercises the library on concrete values.
- `app/` is the program around it: the window and UI (glfw, imgui), the OpenGL calls,
  reading shaders, images (stb_image) and OBJ files (tobj), and the frame loop.
