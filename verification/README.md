# rattler_package_streaming

Downloads Conda packages over HTTP, or opens local ones, and hands them to an
archive extractor.  A caller may opt in to parallel range requests, which split a
large package into chunks that are fetched concurrently into a temporary file.

The library in `src/` makes every decision and is verified with Verus; it does no
I/O.  An operation is a sequence of steps.  Each step names the work that is due
and holds the state that takes the outcome and yields the next step:

| module     | what it decides                                                    |
|------------|--------------------------------------------------------------------|
| `config`   | when a configuration is valid and when it engages                  |
| `ranges`   | the byte ranges of an object                                       |
| `chunk`    | the transfer of one range                                          |
| `assembly` | what the file holds after chunks were written (proofs only)        |
| `probe`    | what the headers of a `HEAD` response say                          |
| `download` | a whole parallel download                                          |
| `location` | what a URL says about where a package lies                         |
| `archive`  | the archive type that a path stands for                            |
| `reader`   | the source that a package is read from                             |
| `progress` | progress of a body that streams in, and the kinds of its failures  |
| `extract`  | a whole extraction, with the fall back to a buffer                 |
| `text`     | numbers, hexadecimal and comparisons                               |

What relates several functions (the chunks of an object add up to it, in whatever
order they arrive; what a reporter is told adds up; an expected digest rules out
split downloads) is stated and proved in the functions whose names begin with
`law_`.

`app/` does the work: requests with `reqwest`, files with `tokio`, and calls of a
`PackageExtractor`.
