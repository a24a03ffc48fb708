# renderinstance

The core of a small Vulkan renderer, written in Verus.

The core never talks to the device. It decides which physical device and which
queue families are used, what every object is created with, what the command
buffers hold, how a frame goes on after each reply of the device, and in which
order everything is created, rebuilt and destroyed. Its requests are plain values
(`GpuAction`, `Command`, `FrameAction`) that the caller performs; objects on the
device are known by their position.

- `device`: physical devices, queue families, instance and logical device
- `targets`, `pipeline`, `descriptors`: what the objects are created with
- `scene`: vertices, meshes, renderables, cluster trees
- `recording`: the commands of a command buffer
- `frame`: frames in flight and the course of one frame
- `actions`, `plans`: requests, and the lists that bring the renderer up, rebuild
  it and take it down
- `instance`: the renderer itself
- `lifecycle`, `fit`: what holds of the lists and of descriptions that belong
  together
- `history`, `life`, `ranges`: what holds after any history of calls: indices,
  uniform data, textures, live objects, command buffers, uploaded geometry
- `external`: the calls into `ash`, `vk_mem` and `rand`

`app/` performs the requests with `ash` and `vk_mem`. The program around it
supplies the window, file access and memory management through two traits.
