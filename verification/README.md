# tunes

A terminal music player. The verified library (`src/`) holds the player's
state and how it answers keys and ticks (`app`), the tracks and the order of
the track list (`track`), lengths of time (`time`), the playback state
(`playback`), the text the interface shows (`text`, `ui`) and the integer
arithmetic of the audio buffer (`audio`). The program around it (`app/`)
draws with `tui`, reads keys with `crossterm`, walks the music directory with
`walkdir`, decodes with `symphonia` and plays through `cpal` and a `ringbuf`
ring of samples.
