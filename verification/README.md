# tw_widgets

Terminal dashboard widgets (lyrics, system monitor, world map, Game of Life,
spinning donut, audio spectrum pads) whose decision logic is a library
verified with Verus, and a thin program that draws them.

- `src/` — the verified library:
  - `text` — trimming, searching, replacing and decimal rendering over characters;
  - `lyrics/` — player metadata cleaning (`metadata`), lrclib search URLs and the
    choice among results (`search`), LRC line splitting (`lrc`), and the shared
    song state with the watcher, clock and renderer decisions (`session`);
  - `system` — memory labels as the `f64` formatting prints them, core grid layout;
  - `geo` — the map marker for a UTC offset;
  - `life` — mask parsing, board seeding and Conway steps on a torus;
  - `donut` — brightness ramp and ANSI frame painting;
  - `cava` — the `cava` configuration texts.
- `app/` — `tw-widgets <widget>`: terminal I/O, threads, HTTP, and the
  floating-point animation of each widget.
- `tests/` — runtime tests of the library.
