# tttocea608

Converts timed text to CEA-608 closed captions, as a GStreamer element.

`src/` is the library, verified with Verus:

- `caption`: timed text, and how plain text is laid out on the screen;
- `code`: the words of a CEA-608 stream;
- `compose`: which words a text needs, and what of it is left out;
- `clock`: which video frame each word goes on;
- `element`: what the element keeps, and how it answers buffers, events and state changes;
- `laws`: what holds of all of it together.

`app/` is the element itself: pads, properties, JSON input and the CEA-608 encoder, which is
linked in as C code.

`tests/` runs the library.
