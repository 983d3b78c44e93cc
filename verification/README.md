# blockcell

The verified core of an agent that answers chat messages with the help of language models and
tools. `src/` holds what the agent decides and computes. Verus proves the contracts of the functions
there, except those marked `external_body`, which call into other crates: their contracts are
believed. `app/` is ordinary Rust around it: the network, files, processes and tasks.

## What is where

- Text and data: `text`, `json`, `value`, `text_map`, `sorting`, `lines`, `paths`, `types`,
  `messages`, `error`, `clock`.
- Models: `openai`, `chat` and `stream` (OpenAI-style services), `gemini` and `gemini_answer`,
  `ollama`, `requests` (addresses and bodies), `stream_run` (the run of a streamed answer and its
  one end), `reply` and `asking` (a streamed answer as it is heard, and what follows a failure).
- Conversations: `history`, `compress`, `mid_loop`, `prompt`, `turn`, `replies`,
  `response_cache`.
- Tools and skills: `toolset`, `gate`, `access`, `call_run` (a tool call on its way through the
  gates), `safety`, `skills`, `scripts`, `presentation`, `subagent`, `tasks`, `media`.
- Messages in and out: `routing`, `delivery`, `events`, `config`, `accounts`, `manager`.
- WeCom: `sha1`, `seen`, `wecom_crypto`, `wecom_send`, `wecom_webhook`, `wecom_conn`.

## How contracts are written

Each data type has a view made of mathematical sequences, maps and numbers. An `ensures` equates
the view of a result with an open `spec` function of the views of the arguments. What holds across
several functions stands in a `proof` function whose name starts with `law_`.

Calls into other crates and into std where it has no contract stand behind small functions marked
`external_body`; what their contracts claim is not proved. What such a call returns is stated where a few lines can state it, and otherwise has a name of its own, such as
`json_parsed` or `regex_match`. Where the clock is read, a function takes the time as an argument,
and a second one beside it reads the clock.
