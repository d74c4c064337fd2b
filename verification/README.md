# raycaster_lib

The integer core of a block-structured volume raycaster, verified with Verus.

- `src/messages.rs`: the requests that renderer threads send.
- `src/volumetric/parse.rs`: the headers of the skull and beetle volume files,
  read from bytes.
- `src/volumetric/dims.rs`: grid sizes and row-major voxel positions.
- `src/volumetric/block_volume.rs`: a voxel grid cut into overlapping
  3 x 3 x 3 blocks, the lookup of a voxel in it, and the laws that relate the
  two.
- `app/`: the floating-point side (colours, opacities, scale factors,
  trilinear interpolation), built on the library.
