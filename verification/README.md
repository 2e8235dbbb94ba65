# dove

Send a file out of your own cloud: encrypted, expiring, one command.

`dove provision` stands up a private bucket whose objects expire (the simple
tier), or that bucket with an access gate, CloudFront and a cost breaker in front
of it (the full tier). `dove share` uploads a file and prints a link. In the full
tier the file is always encrypted, and the key, the file's name and the sender's
words ride the link's fragment, which no server sees.

## Layout

- `src/` is the library, written in Verus: every rule, parser, format and order of
  steps, with contracts that are proved.
- `tests/` runs the library together with the crates that it calls.
- `app/` is the command line around it: arguments, files, the terminal, running
  `aws`, and HTTP.

The library does no input or output. A command is a walk from stage to stage: the
facts say what to do at a stage, the app does it and hands back what happened, and
a transition function gives the next stage or the complaint. `provision`, `full`
and `share` hold these walks, and `script` the calls of `aws` that they are made of.

| modules | what they hold |
| --- | --- |
| `crypto`, `base64url` | the chunked encryption format, keys in fragments |
| `duration`, `ui`, `double`, `cli_progress` | durations, and what is shown |
| `aws`, `script`, `json` | calls of `aws`, their order, what replies mean |
| `provision`, `full`, `apigw`, `cloudfront`, `breaker`, `gate` | the tiers |
| `share`, `s3`, `ledger`, `shares`, `requests`, `gatectl` | the other commands |
| `config`, `secrets`, `place`, `toml_text` | dove's own files |
| `text`, `search`, `random` | strings, and random bytes |

## What is proved, and what is trusted

Public proof functions named `law_...` state what holds across functions: that a
nonce never repeats within a file, that a file cut short, lengthened or framed
otherwise is never accepted, nor one of which AES-GCM refuses a chunk, that
nothing is created without consent, that no run goes on behind a failed call, that
the server learns neither key nor name, that what is saved reads back.

Functions marked `#[verifier::external_body]` call an outside crate. Their doc
comments name the call and say what is taken from it unproved.
