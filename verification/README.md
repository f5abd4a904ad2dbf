# br41ndmg

A polyphase sinc audio resampler with a terminal front end. The library in
`src/` is written in Verus and holds the parts that are decided by integers,
bytes and text, each with a contract that Verus proves:

- `tags`: reading the first RIFF `LIST INFO` chunk of WAV bytes and inserting
  one before the `data` chunk; a tag written this way reads back.
- `io`, `audio`: decoder selection by extension, the sample layouts that are
  read, header probing, and interleaved buffers of whole frames.
- `stream`: the counters and retained input history of the streaming
  resampler, the flush/reset protocol, and history trimming that keeps every
  frame the filter can still reach.
- `polyphase`: the filter shape checks and radius.
- `args`, `naming`, `browser`, `listing`, `selection`, `tui`, `viewer`,
  `spectrogram`: argument handling, output naming, the file browser, its
  ordering and the chosen files, the
  key handling of the interactive screens, scrolling and zooming of the
  spectrogram view, and its grid.

`app/` is the program around it: file and terminal I/O, the background
batch, and the floating-point signal processing (sinc kernels, windows, the
filter bank, the offline and streaming convolution, the FFT), which the
library does not hold.

`tests/` exercises the library on concrete values.
