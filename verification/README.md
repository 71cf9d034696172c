# pds

The decisions of a small web service that hands out queue numbers: an
administrator logs in, moves the day's counter, marks Saturdays as days without
service, and customers are added to a day's queue with numbers that pass over
the unlucky digits 4 and 0.

- `src/` is the verified library. Each request is a flow: a verified start
  function and a verified `step` that turns what the store or session cache
  answered into the next action (`exchange::Action`), ending in a reply
  (`exchange::Reply`). `flow::Flow` gathers them for a single driver.
  `calendar` holds dates as day numbers and asks chrono for week days and
  today's date; `session` covers login, the session cookie and the session
  gate; `counter`, `service_date` and `customer` hold the rest, with the laws
  (proof functions) next to the functions they speak of.
- `tests/` runs the flows on concrete values, against small in-memory stores.
- `app/` is the actix-web program: it reads requests, runs each flow against
  the moka session cache and the sea-orm database, and writes the reply.
