# stock_stream

A stock-quote pipeline whose decisions are verified with Verus.

- `src/` is the verified library:
  - `text`: whitespace trimming, decimal rendering, UTF-8 decoding;
  - `html`: the quotes page parsed by `select`, queried by node index;
  - `scraper`: quote rows from the page's first table, record keys, records;
  - `kafka`: Kafka client settings held in `rdkafka::config::ClientConfig`;
  - `consumer`: the stock feed server (subscriptions and forwarding);
  - `server`: the echo server;
  - `errors`, `schedule`, `cli`: scrape errors, the scrape loop, arguments;
  - `web`: redirects and route tables.
- `app/` holds the programs (fetching, Kafka I/O, web sockets, signals).
  Run `stock_stream <scraper|stock-server|echo-server|listing> [options]`.
- `tests/` exercises the library on concrete values.
