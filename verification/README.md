# tranquil

A framework for Discord bots on top of serenity, with its logic stated and
proved in Verus.

- `src/` is the verified library: the command map and its laws, command
  paths, custom ids, buttons, select menus and modals, translations and
  locales, the doc comment syntax of commands and the checks of the
  `Command` derive, option resolution, the decisions of a running bot, and
  the settings read from the environment.
- `tests/` exercises the library on concrete values.
- `app/` holds what talks to Discord, the environment and the file system:
  serenity conversions, the framework's event loop, translation files, the
  state of custom ids, and the code that the derive emits.
