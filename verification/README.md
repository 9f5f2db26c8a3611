# chatbot

The decision core of a Discord bot that relays messages to language models:
a llama server streamed over WebSocket, and ChatGPT. The library decides, for
each event, which conversation a message belongs to, what the back end is
sent, what is answered, and how each conversation's history changes; its
contracts are proved with Verus.

- `src/handler.rs`: the per-event decisions (`Handler`), the fixed answers,
  the slash commands, and how an answer is posted.
- `src/data.rs`: messages, requests and responses, and the conversation stores.
- `src/chunks.rs`: cutting a text into pieces of a bounded number of UTF-8 bytes.
- `src/text.rs`, `src/number.rs`: prefixes, trimming, code fences, decimals.
- `src/config.rs`: the settings and how they are read from text.
- `src/stream.rs`: relaying a streamed llama answer.
- `app/`: the Discord client, HTTP and WebSocket calls, and JSON/TOML forms.
