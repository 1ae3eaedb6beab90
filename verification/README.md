# rekordcrate

Plans and builds what goes into Rekordbox device exports, and shows what is in them, with the logic
verified by [Verus](https://github.com/verus-lang/verus).

- `src/device`: where the files of an export live (`layout`), how waveform columns are built
  (`anlz_build`, `analysis`), how a sparse beatgrid becomes beats (`beatgrid`), and how cues are
  stored (`cues`).
- `src/pdb`: the vocabulary of the device database and its packed row counts.
- `src/cpp`: the types, conversions and handles of the C++ boundary.
- `src/cli`: what the command-line tool decides and writes: the playlist listing and playlist files,
  the names and rows of an export, dumps, and guesses of file types.
- `app`: the command-line tool around the library: arguments, files, audio decoding and everything
  that computes with floating-point numbers.
  The codecs of the PDB, ANLZ, settings and XML files come in through the `Formats` trait. This
  build has none of them: a request that needs one fails and names the format.
- `tests`: the library from outside.

Amplitudes, spectra, tempi and sample offsets are measured outside the library. It takes them as
integers and states what they become. Functions named `law_...` state what holds of several
functions together.
