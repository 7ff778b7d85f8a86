# Lyrune

The logic of a desktop music player, verified with Verus: reading timed lyrics and
matching their translations and readings, the queue and what a listener's wish leads
to, the trail of visited pages, settings, what is kept between two runs, and the
lyrics that a Bluetooth loudspeaker shows.

- `src/` is the library. `src/lyrics/` reads and times lyrics, `src/views/` decides
  what the windows show, and the other modules hold the state of the player. Each
  public function states what it returns or changes; public proof functions state what
  holds of several of them together.
- `tests/` runs the library on concrete values.
- `app/` is the program around it: the settings file, the icon in the tray, the worker
  for loudspeakers, and the arithmetic of drawing, which is floating point.

Times are whole nanoseconds (`src/time.rs`), and a volume is the bit pattern of a
single-precision number (`src/volume.rs`).
