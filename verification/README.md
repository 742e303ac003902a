# deboa-extras

Extras for the deboa HTTP client, with their logic verified by Verus.

- `src/` is the verified library: retry strategies and the retry and
  redirect decisions (`hook`), Server-Sent Events parsing and the check of
  an event-stream response (`http::sse`), the encoding catcher that
  announces and undoes body compressions (`catcher`), gzip and brotli
  (`io`), the media types of the body formats (`serde`, `mime`), and the
  shuffling of resolved addresses (`dns`). Each public function states what
  it returns in its contract; the laws that relate several calls stand as
  public proof functions named `law_*`.
- `app/` is the part that talks to the network and to deboa: the hooks as
  links of a deboa chain, the event stream over a response body, writing a
  body to a file, the serde and Fory bodies, and the hickory resolver.
- `tests/` runs the library on concrete values.
