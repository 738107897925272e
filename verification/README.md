# traceviewer

A terminal viewer that runs a command and shows its log lines in a
scrollable, searchable, filterable list, with the tracing values of the
selected line in a side pane.

The program keeps each line as written: no log format is recognised yet,
so lines have no level, target, spans or tracing values, the level filters
above "all" hide them, and the values pane stays empty. The library renders
and filters entries that carry these parts.

The logic lives in `src/` and is verified with Verus:

- `model` – log entries, levels, streams and tracing values, and how a value
  is displayed.
- `view` – the view state: filtering, selection, scrolling, search matches
  and the values pane.
- `keys` – what each key does in each mode.
- `render` – an entry as coloured parts: target modules, span fields,
  quoted strings, structured messages and search highlighting.
- `layout` – where things go on screen and which piece of a line fits a row.
- `status`, `values` – the texts of the status line, the search bar, the
  help page and the values pane.
- `reader` – cutting process output into lines of bounded length.
- `session` – the event loop's decisions: taking in lines under the line
  limit and which terminal events redraw.
- `clipboard` – the OSC 52 escape sequence.
- `colors`, `numbers`, `text` – colours, number literals and text helpers.

`app/` holds the program around it: command-line options, the child
process and its reader threads, the terminal, drawing and the clipboard.
