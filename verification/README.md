# mjolnir_backend

The camera and officiating backend of a throwing-event system, with its
logic verified by Verus.

- `src/` is the verified library. Its functions carry `requires` /
  `ensures` contracts that Verus proves, and the `law_*` proof functions
  state properties that span several calls:
  - `h265`, `sps_check`, `compression`, `frame_images`: finding the SPS in
    an H.265 stream, checking it and reading the frame size from it; zstd
    compression of frames; TIFF and PNG files of single frames.
  - `names`, `files`, `settings`: file-system names, recorded and
    recovered frame file names, environment settings.
  - `camera_assignment`, `camera_config`: which camera is left and which
    is right; resolutions, configuration checks, interface selection.
  - `ptp`, `barrier`, `capture`: the PTP clock offset and status waits,
    the cancelable barrier, and the decisions of a capture loop.
  - `pipeline`, `aggregation`, `trajectory`: frames, left/right pairing,
    throw windows and the input of the trajectory optimiser.
  - `recorded`, `replay`, `raw_frames`, `infraction`: recorded sessions,
    replay order, PGM and encoder frame checks, the circle sensor.
- Calls into other crates (zstd, scuffle-h265, tiff, png) and a few
  standard library calls go through small functions marked
  `#[verifier::external_body]`. Verus does not check their bodies: their
  contracts are trusted, not proved, and each one's doc comment says what
  it claims of the code it calls. The `uninterp spec fn` items name what
  such a call returns; everything the library proves about those results
  rests on these trusted contracts.
- `app/` is the command-line program around it: the camera SDK, files,
  processes, threads and the floating-point triangulation.
- `tests/` exercises the library on concrete values.
