# basecamp

Collects the answers to the daily "Did you get to run today?" check-in of a
Basecamp project, so they can be looked at as a whole.

The program signs in with OAuth 2 (authorization code with PKCE, redirected
to `localhost:8080`), then walks the Basecamp API: the authorization
endpoint gives the account, the account's project list gives the `Family`
project, its dock gives the questionnaire, the questionnaire gives its
questions, and the run question gives its answers, which are paginated
through the `Link` response header.

## Layout

- `src/` — the verified library (Verus):
  - `collect.rs` — the walk as a state machine: each API response gives the
    next address to fetch; answer pages are gathered in order until a page
    comes without a `Link` header.
  - `json.rs` — reading response texts as JSON values, and the lookups the
    walk makes in them.
  - `link.rs` — reading the next-page address from a `Link` header.
  - `redirect.rs` — reading the authorization code and state from the
    redirect's request line.
  - `scopes.rs`, `response.rs` — splitting granted scopes, and the reply
    sent to the browser.
  - `client.rs` — the `Authorization` header value.
  - `types.rs` — the records the API returns.
  - `search.rs` — first-match search used throughout.
- `app/` — the program: credentials file, OAuth flow, HTTP requests and the
  decoding of typed records, driving the library's state machine.
- `tests/` — tests of the library.
