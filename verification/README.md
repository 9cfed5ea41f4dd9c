# gitlab_tokens_exporter

Gitlab access tokens as prometheus metrics.

`src/` is the library. Verus proves the contracts of its functions, but for a few small
functions marked `external_body`, which call into other crates: the comment above each says what
is taken on trust. The modules:

- `text`: numbers and lists as text
- `date`: calendar dates and the days between them
- `gitlab::retry`: which failed requests are sent again, and after which delay
- `gitlab::pagination`: lists that gitlab hands out page by page
- `gitlab::group`: the full path of a group, put together from its ancestors
- `gitlab::api`: projects, users and the URLs of the API
- `gitlab::token`: access tokens and their scopes
- `prometheus_metrics`: the metric line of a token

The public proof functions named `law_...` state what holds of several functions together.

`app/` sends the requests and reads what gitlab sends.
