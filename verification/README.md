# noti

A notification daemon for Wayland, with its logic written in Verus and proved against
its specifications.

- `src/` is the verified library: the markup of notification bodies, notifications and
  their hints, the notification server's answers, the configuration (settings, themes,
  per-application display settings, merging of imported files, the watch on the files),
  the scheduler of delayed notifications, the queue and the stack of banners, the
  timeouts and phases of a banner, the layout of text and images in a banner and of the
  widget tree that holds them, the pointer state of the window, the command-line
  client's hints and actions, and the decisions of the daemon's loop.
- `tests/` runs the library on concrete values.
- `app/` is the program around it: the command line, D-Bus (through zbus), reading the
  configuration files, and the daemon's loop, which shows banners on the terminal.
