# webprobe

webprobe crawls every route of a web application that runs on this machine, audits each page,
puts the routes under load and writes a report. Its rules, parsers and state machines are a
library that is verified with Verus; a thin program around it talks to browsers, sockets, files
and the terminal.

## Layout

- `src/` — the verified library.
  - `crawler/` — which pages a crawl visits (`frontier`, `state`), what is read and flagged on a
    page (`audit`, `script`, `element`, `collectors`), how a login goes (`login`, `cookies`), and
    which browser is used (`browser`, `config`).
  - `load` — load tests; `cdp` — the protocol of Chrome's developer tools.
  - `issues`, `report`, `results`, `console` — issues, reports and how they are shown.
  - `auth`, `profiles`, `settings`, `page` — settings of a run, saved profiles, targets.
  - `text`, `order`, `double`, `json`, `web` — texts, sorting, double precision numbers by their
    bits, JSON values and URLs.
- `tests/` — tests of the library.
- `app/` — the command line program.

## What is proved

Every public function of the library states what it returns and what it leaves unchanged; where the
clock, the terminal or the browser decides, what holds whatever they say. Public proof functions state what holds across functions, among them:

- no page is queued twice, a crawl ends exactly when each queued page was handled, no page lies
  deeper than asked for, and no path that is to be skipped is queued or reported as crawled
  (`crawler::frontier`);
- merging duplicate issues is unambiguous, does not depend on the order in which issues were found,
  and limits drop the least grave ones (`issues`, `settings`);
- each answer takes a login forward, fields and buttons are searched for in order, and a login
  succeeds only off the login page (`crawler::login`);
- users of a load test request the URLs evenly, every request is measured once, and the latencies
  that are reported come in order (`load`);
- times in whole milliseconds are graded as they compare with their limits (`crawler::audit`);
- a saved profile is found again, in any case, after it was written and read back (`profiles`).

Where the library calls another crate, a doc comment says what is taken for granted of the call.
Floating point arithmetic and its formatting are done by the program.
