# RouterCrabs

An OpenAI-compatible proxy in Rust that routes each chat request to the most suitable
model. The decisions are a library verified with Verus; the service around it reads files,
the environment and the network.

## How it routes

1. **Domain keywords.** Each tier scores the number of its keywords that occur in the
   conversation, whatever their case, times its weight. The highest score wins; a tie goes
   to the higher weight, then to a tier with `default: true`.
2. **Complexity.** If no keyword matches and a `fallback` section is configured, the last
   user message is scored. A score of at least the threshold (default: 3) selects the
   `complex` tier, a lower one the `simple` tier.
3. **Default.** Without a `fallback` section, the first tier with `default: true` is used.

A configuration needs a `fallback` section or a default tier. Where the file of the
service has neither, the variable `DEEPSEEK_API_KEY` provides the fallback.

| Rule | Points |
|---|---|
| Prompt longer than 300, 800 or 2000 characters | 1, 2 or 3 |
| 1 or 3 code markers (```, fn, class, import, SELECT…) | 2 or 3 |
| 1, 2 or 4 technical keywords (explain, debug, architecture, async, docker…) | 1, 2 or 3 |
| Image in the conversation | 5 |
| Question mark together with a question word | 1 |

## Layout

| Module | Contents |
|---|---|
| `text` | Substring search, joining, decimal numerals, lower case |
| `environment` | Replacement of `${NAME}` by environment variables |
| `source`, `keywords`, `config` | Configuration files and what is built from them |
| `message` | Chat messages and the texts in them |
| `scoring` | The complexity score |
| `routing` | Tier selection |
| `json`, `proxy` | JSON documents, and the exchange with the provider |
| `izi` | The iziRouter service: its configuration, its choice of tier and its answers |

## The service

`app/` is the service itself. It reads `tiers.yaml` (or the file that `TIERS_CONFIG`
names) and serves `/health`, `/v1/models` and `/v1/chat/completions`. The headers
`X-iziRouter-Tier`, `X-iziRouter-Model` and `X-iziRouter-Reason` tell the client what was
selected and why. Where the file sets a `proxy_key`, the last two endpoints are for clients
that send it in the header `X-RouterCrabs-Key`; others are answered with status 401.

| Variable | Default | Used |
|---|---|---|
| `PORT` | 8001 | where the file gives no `port`; a value that is no port number is ignored |
| `DEEPSEEK_API_KEY` | | for the fallback, where the file has neither a fallback nor a default tier |
| `DEEPSEEK_API_BASE` | `https://api.deepseek.com` | with it |
| `FLASH_MODEL` | `deepseek-v4-flash` | with it, for scores below 3 |
| `PRO_MODEL` | `deepseek-v4-pro` | with it, for scores of at least 3 |
| `RUST_LOG` | `info,izi_router=debug` | for the log level |
