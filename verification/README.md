# Sound Lock

Keeps loud sounds below a ceiling. Sound comes in from one device, goes through a limiter
that looks ahead, and comes out at another device; a recorder can keep the unlimited sound.

- `src/` is the library: the limiter, the ring between the two sides of a session, the
  recorder, the settings and the decisions of the windows. All of it is verified with Verus.
  What is shared between threads is modelled as plain cells and machines that name their next
  access, and the laws about them hold for every order of accesses.
- `app/` is the program around it for Windows: devices, threads, files and windows. It also
  has the single precision arithmetic that the library asks for.
- `tests/` runs the library on concrete values.

The library relies on `ringbuf` for the ring and on `image` for pictures. What it takes for
granted of them is written above each call.
