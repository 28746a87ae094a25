# ab-av1

AV1 re-encoding with ffmpeg: encode samples of a video, score them with VMAF or
XPSNR, search for the crf that delivers a score within a size, and encode with
it. A worker does the search for a Reencodarr server.

The logic is a library verified with [Verus](https://github.com/verus-lang/verus);
the program around it does the input and output.

* `src/` is the library, verified against its contracts.
  * `command/args`, `command/rules`: arguments, and which of them go together.
  * `command/sample_encode`: where samples are cut, how they are encoded and
    scored, what is predicted of the whole, and under which key it is cached.
  * `command/score`: how a score is calculated and read.
  * `command/crf_search`: which crf is tried next, and when the search is over.
  * `command/encode`, `command/auto_encode`: what is checked before an encode,
    how it goes, and what is told of it.
  * `command/worker*`: the protocol of a worker, the transfer of inputs, and
    what is reported across lost connections.
  * `ffmpeg`, `ffprobe`, `process`: command lines, probes, and the output of
    child processes.
  * `temporary`: which files are removed again, and in which order.
  * `duration`, `span`: spans of time, and texts that spell them.
  * `outside`, `text`: what other crates and the standard library are trusted
    to do.
* `tests/` are the tests of the library.
* `app/` is the program: arguments, files, processes, sockets and floating
  point. The library holds a float by its bits (`float`) and gets what only
  floating point can compute as an argument.
