# Guideng

The server of a self-hosted location sharing app: devices register, report where
they are and show each other their tracks of the last week; an admin looks after
the devices in a browser.

`src/` is the verified library. It decides; it reads no socket, no file and no
environment.

- `text`, `decimal`, `hex`, `markup`, `coordinates`, `clock`, `device_id`,
  `header`: texts, numbers, moments and identifiers, and how they are written and
  read.
- `settings`, `secret`: what the server is set up with.
- `api`, `records`, `requests`: what devices send, how it is checked, and what it
  asks of the database.
- `query`, `store`, `tables`: the statements, the operations that are made of
  them one statement at a time, and what the operations do to the tables.
- `lang`, `admin`, `pages`, `console`: the admin pages, in Chinese and in English.

Real numbers are held by their bit patterns. Where an operation needs the
database it hands out a statement with its bindings and is resumed with the
reply; `app/` carries the statements out, speaks HTTP, and writes the log.

`tests/` runs the library, the statements against SQLite in memory among others.
