# fmod_bank_decoder

Extracts audio from FMOD `.bank` files: RIFF/FEV containers around FSB5 sample banks. PCM
samples become WAV files; Vorbis samples are handed to vgmstream.

The library in `src/` reads the files and decides what is done with the samples. Its
functions have contracts that Verus proves, but for the items below, which it believes.
`app/` is the programs around it: files, windows, subprocesses and floating point.

## The library

- `bytes`: little-endian numbers and tags in byte slices
- `text`: UTF-8, decimal numbers, search that does not mind case
- `riff`: the container, and where in it the sample bank lies
- `fsb5`: the sample bank: header, sample headers with extra data, names, data
- `decoder`: the PCM8, PCM16 and PCMFLOAT decoders
- `wav`: file names
- `extract`: listing the samples of a bank and writing them out
- `session`, `run`: open banks, selected samples, and the progress of decoding them
- `benchmark`: what a benchmark decodes and counts
- `encoding`: how containers and banks stand in bytes, with proofs that reading gives back
  what was written

Contracts equate what a function returns with a specification function of the bytes it
was given, errors included: `parse_riff` with `riff_of`, `parse_fsb5` with `fsb5_of`,
`decode_audio` with `audio_of`, `sample_step` with `step_of`. Proof functions named `law_*`
state what holds of these specifications.

Sums of 32-bit sizes are taken modulo 2^32. Samples are kept as the integers that the bank
holds; `app/audio.rs` turns them into amplitudes, rounded to single precision.

## What is believed

These call outside code, and their contracts are not proved:

- `bytes::read_u32`, `read_u64`, `read_i16`: `byteorder::ReadBytesExt` on a slice
- `text::from_utf8`: `std::str::from_utf8`
- `text::from_utf8_lossy`: `String::from_utf8_lossy`, whose result on bytes that are not
  UTF-8 is named `lossy_text`

These give contracts to functions of the standard library, in `text`:

- `String::push` and `String::push_str`
- `char::is_alphanumeric`, whose result beyond ASCII is named `unicode_alphanumeric`
- `str::to_lowercase`, whose result beyond ASCII is named `unicode_lowercase`

Everything above rests on these, on Verus, and on what Verus itself believes of the
standard library.

## The programs

One executable, three programs, chosen by the name it is started under: `ui` opens the
window, `benchmark` measures one bank, anything else is the command line tool.

```
fmod_bank_decoder path/to/music01.bank output_dir
fmod_bank_decoder path/to/audio/Desktop output_dir
fmod_bank_decoder path/to/bank.bank --list
ui
benchmark path/to/bank.bank
```

vgmstream is looked for in `tools/vgmstream/` beside the executable.
