# zjtabs

The tab bar of a status line for the zellij terminal multiplexer, with a verified core.

Panes can give their tab a title. A tab is then shown under the titles of its panes, which may hold
a turning spinner and colors of their own. Titles follow their panes when tabs are closed or moved,
and are given up when their panes are closed. They are told to new instances of the bar, and are
kept in a file for instances that start later.

## Messages

- `title` gives the tab of a pane a title. Its payload is the title; an empty one takes the title
  away. Arguments: `pane_id`, and optionally `session` and `fallback`, the name of the project.
- `focus` moves the focus to the pane `pane_id`, and optionally names a `session`.

A message that names another session is left alone.

## Layout

- `src/` is the library. It decides everything and performs nothing: `plugin/` takes events and
  messages in and returns actions, and `widgets/` lays out the bar, renders it, and says what a
  click does. Every function states what it returns, and Verus proves it. What holds of several
  functions together is stated in the proof functions whose names begin with `law_`.
- `app/` is the plugin around the library: it turns the multiplexer's types into the library's,
  performs the actions, and reads and writes the file of the session.
- `tests/` runs the library on examples.

The library trusts `console` for the widths of texts, and the standard library for a few functions
on characters and strings. Each such function has a contract of its own in the source.
