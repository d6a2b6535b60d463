# tributary_rs

Kafka table functions for DuckDB, with a verified core.

| Function | Result |
|---|---|
| `tributary_scan_topic(topic, ...)` | the records of a topic, as they stood when the scan started |
| `tributary_metadata(...)` | the brokers, topics and partitions of a cluster |
| `tributary_produce(topic, message, ...)` | where the message was stored |

Kafka settings are named parameters; `"bootstrap.servers"` is required.

```sql
SELECT * FROM tributary_scan_topic('events', "bootstrap.servers" := 'localhost:9092');
```

## Layout

- `src/` is the library, verified with Verus: arguments and their errors (`params`, `schema`),
  Kafka settings (`config`, `text_map`), the course of a scan (`scan_state`, `scan_laws`), the
  layout of rows as columns (`row`, `metadata_row`, `layout`), and the three table functions
  (`kafka_scan`, `kafka_metadata`, `kafka_produce`). `kafka` and `json` hold the trusted contracts
  of `rdkafka` and `serde_json`.
- `app/` is the loadable extension around it: it talks to DuckDB and Kafka.
- `tests/` runs the library on given values.
