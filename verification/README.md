# textspace

A room of floating texts: one types them into the air, drags, turns and edits them, colors them,
and finds them where they were when one comes back. The camera flies through the room and remembers
places to look from.

`src/` is the library, with its contracts proved by Verus. It holds what the room decides: what keys
type (`keys`, `typing`, `text`), how a text is edited (`edit`), whose the keys are and where the
camera goes (`flight`), what a press asks for (`press`), how long a
ray of light bounces (`rays`), what is put into the room and what comes
back into it (`scene`), the records of all that (`records`, `color`, `space`), and what becomes of
the tables that they are kept in (`store`, `rows`, `codec`). `recall` states what comes back of what
was put in, from one end to the other. The tables are redb's; the contracts
that are believed of them stand with the functions marked `external_body` in `store` and `rows`.

Numbers with a fraction are carried as their bits. The arithmetic on them, the window, the files and
the encoding of records are in `app/`. `tests/` runs the library on an in-memory database.
