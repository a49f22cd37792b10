# decv

Verified building blocks of a video decoder, written in Rust and proved with
Verus.

- `src/h264`: NAL units, parameter sets, slice headers, CAVLC macroblock syntax,
  intra prediction, residual transforms, motion vectors, picture order counts,
  and display reordering of H.264.
- `src/mp4`: MP4 boxes, sample tables, edit lists, fragments, sample entries, and
  a demuxer that seeks and reads packets.
- `src/network`: a block cache for remote objects, and the rules by which HTTP
  range requests are made and their answers taken.
- `src/media.rs`, `src/input.rs`: frames, packets, times, and random-access
  inputs.

Public functions state what they return in contracts, and the laws that relate
several of them stand as public proof functions whose names begin with `law_`.

`app` holds what surrounds the library: files, threads, HTTP connections, and
the profile of a process.
