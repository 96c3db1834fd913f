# speech_to_text

A server that runs on one machine: it transcribes long recordings, stores what was said as
embeddings, and answers questions about it.

Every decision of the server is in a library that is verified with Verus. The program around it
reads and writes: files, sockets, models.

## Layout

- `src/` is the verified library.
  - `config`: the settings and what makes them invalid.
  - `audio_pipeline`: jobs and their metadata, how a recording is cut into chunks, the run that
    transcribes them and its checkpoint, the embeddings of a transcript, lines of JSON.
  - `rag`: search over chunks and their neighbours, the order of what is found, answers and
    summaries.
  - `handlers`, `router`, `mcp`: what a request is answered, who is let in, which routes there are.
  - `text`, `numbers`, `paths`, `binary32`, `ids`: what the rest stands on.
- `app/` is the program: `main`, HTTP, MCP, the clients of Ollama and Qdrant, the speech model and
  the cross-encoder, and the decoding of audio (Symphonia, with `ffmpeg` for what it cannot).
- `tests/` runs the library on concrete values.

## How the two meet

Work that waits for the outside is a state machine in the library: `action()` says what is to be
done, the program does it, and `advance(event)` takes in what came of it. An upload, a
transcription, the embeddings, a search and a summary are each such a machine. Laws about whole
runs are proof functions beside them.

Numbers in single precision are held by their bits (`binary32`). Computing with them, and writing
them out, is left to the program.

What is trusted of other crates is small and stands beside its use: identifiers (`ids`, from
`uuid`), header values (`router`, from `axum`), the clock (`audio_pipeline::util`) and a few
functions of the standard library (`text`).
