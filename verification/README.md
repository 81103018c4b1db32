# adaptivegrain

The adaptive grain mask as a VapourSynth plugin (`core.adg.Mask(clip, luma_scaling)`),
with its integer and format logic verified in Verus.

- `src/format.rs`: which clip formats a mask can be created for, the format of
  the mask clip, and the kernel that processes each format, with the laws that
  relate them.
- `src/lut.rs`: how integer samples of any depth are looked up in the 256-entry
  mask table, row by row.
- `app/`: the plugin itself: registration with VapourSynth, frame access, and
  the floating point mask curve.
