# Zakura gRPC

Yellowstone-style gRPC streaming for Zakura: a bounded replay window, named filters with live
replacement, per-subscriber stream limits, and a client that resumes where it was cut off, without
duplicates. The rules are a Verus library; sockets, threads and runtimes stay outside it.

## Layout

```text
src/      the verified library
tests/    tests of the library, run against the real chain, protobuf and transport crates
app/      the server plugin, the client, an example client, a load test and the configuration check
```

The modules of the library, from the bottom up:

| Module | What it holds |
| --- | --- |
| `text`, `buffer`, `status`, `clock`, `metadata` | texts, byte buffers, statuses, time and request headers |
| `proto`, `equality`, `wire` | protocol messages, when two of them are the same, and their encoded lengths |
| `chain`, `node` | hashes, transparent addresses, and what the node reports |
| `transparent`, `event` | encoding of node events into updates |
| `config`, `rejection`, `matching`, `filter` | limits, request validation and filter matching |
| `replay` | the replay window with its height, event, byte and age bounds |
| `auth`, `session`, `service`, `plugin` | tokens, stream limits, one subscription, the server's answers, numbering |
| `dedup`, `reconnect`, `builder` | the client: duplicate suppression, recovery, settings |
| `latency` | measurements of a load test |

## What is proved

Every function states what it returns for every input that it takes; only the readings of the
clock are left open. Beyond that, the functions named `law_*` state what holds across calls, among
them:

- the replay window keeps all of its bounds, evicts whole buckets from the front, and evicts no
  more than it has to;
- replay and live delivery together hand a subscriber every retained update from the requested
  height on, and every later one, exactly once and in order;
- a height that the window has lost is refused, also when nothing is left in the window;
- encoding the transactions of an event on several threads gives the same updates as encoding them
  one after the other;
- sequence numbers rise and are never reused;
- names of matching filters come out sorted, whatever the order of the request;
- a TEX address in a filter selects the same updates as the public-key-hash address;
- a released stream undoes an acquired one, and subscribers do not affect each other;
- an update that was delivered is suppressed when it is replayed, as long as its height is
  remembered;
- a reconnecting client resumes at or below its checkpoint.

## What is trusted

Calls into other crates go through small wrappers next to their callers. Each of them says in its
doc comment which function it calls and what is claimed of it.
