# realtime_media

The rules of a small server that plays a media file in a browser in real time: video as H264
and audio as Opus, over WebRTC or WebTransport.

`src/` is a verified library. It holds the rules, that is, what is parsed, computed and
decided between one read or write and the next:

- `args`: the command line
- `text`: numbers in text, lines, words and fields
- `request`, `response`: HTTP
- `pages`, `signaling`: what the local server answers
- `peer`: the tracks, and the wait until the peer is connected
- `settings`, `transcode`, `media`: how media is encoded, and in which order
- `pump`, `clock`: in which order, and when, samples go out
- `dry_run`: how a file's samples are counted instead
- `framing`: the byte format of a WebTransport stream
- `stream`: what is written to such a stream, from its first byte to its last

`app/` is the program around it: sockets, peer connections, FFmpeg, and the loops that carry
out the library's steps and wait. It serves the browser's files from the directory `public`.
FFmpeg's development libraries are needed to build it.
