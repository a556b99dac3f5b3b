# music_bot

A Discord music bot whose decision logic is verified with Verus.

- `src/` is the verified library: the per-server play queue
  (`scheduler`), the command registry and dispatcher (`commands`), message
  parsing (`bot`), argument reading (`args`), the texts and embeds the bot
  shows (`embeds`, `replies`), the music-service line protocol
  (`microservice`), path mapping (`config`), input planning (`encoder`),
  the per-server session table (`sessions`) and string helpers (`text`).
- `app/` is the program around it: Discord and voice I/O through serenity
  and songbird, the TCP socket to the music service, FFmpeg processes, and
  reading `config.json`.
- `tests/` runs the library on concrete values.
