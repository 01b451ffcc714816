# TMWPhone core

The verified logic of TMWPhone, a SIP softphone for the GNOME desktop.

- `src/` is the library, checked by Verus: accounts and their identifiers,
  the call history and its line format, the reading of SIP stack events
  and the requests an engine hands to the stack, the main window's
  decisions (registration, calls, transfers, reconnects, keep-alive), the
  ringer's cadence, the codec choice of an audio session and the decisions
  made inside the widgets.
- `tests/` runs the library on concrete values.
- `app/` is the desktop program around it: GTK 4 and libadwaita widgets,
  GStreamer audio, the libsecret keyring, the settings store, files on disk
  and the C interface of the SIP glue layer. It carries out the actions the
  library decides on.
