# tuner_tools

The decisions behind the command-line tools of a piano tuner: which stages run,
which keys and layers are read, which reading is kept, when a search ends, what
is written into the per-key tables of a preset, and the lines and pages that the
tools print. (The mechanism stage of `noise` lists the fitted events and their
levels, not the measurements behind them.) The library under `src/` is verified with Verus; `app/` is the
program around it.

A measurement is a `reading::Reading`, the bits of a 64-bit floating-point
number. The library compares, orders and selects readings; it computes none.
Arithmetic on them stays in `app/`, in the functions whose comments begin with
`Floats:`. A number that is printed reaches the library as text.

| module | what it holds |
|---|---|
| `reading`, `order` | comparison of readings; stable orders, medians, extremes |
| `text`, `words`, `args`, `paths`, `keys` | text, numbers, command lines, paths, note names |
| `canvas`, `bench` | drawing, the page of three panels and its PNG file, the scoreboard |
| `fit` | the fit driver, the motion stages, the per-key tables, closing loops on the render |
| `mics`, `radiation`, `noise`, `level`, `stereo` | the stages, searches and reports of the fitting tools |
| `melody`, `chain`, `residuals`, `compass`, `brilliance` | the selections and reports of the measuring tools |
| `adapt`, `listen` | sample libraries and listening material |

Where a tool alternates renders and decisions, the decisions are a state machine
in `src/` (`fit::splits::Closing`, `fit::rows::RowSearch`, `radiation::Rounds`,
`mics::search::Compass`, `chain::Impulsive`) and `app/` renders what it asks for.

The laws that span several functions are the public proof functions beside the
definitions they speak of. Outside code is reached in `text` (`String::push`, the
`Debug` form of a text) and in `bench::page` (the PNG encoder), and nowhere else.
