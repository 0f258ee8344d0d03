# ntp_clock

The verified core of an ESP32 Wi-Fi wall clock. The clock sets itself over
SNTP, shows the time as "HH:MM:SS" on an ST7789 display five hours behind UTC,
repaints only the character cells that changed, reconnects to the access point
with a pause after every lost or failed connection, and reports each network
name heard in beacon frames once.

- `src/` holds the library, verified with Verus:
  - `ntp_stamp`: the real-time-clock reading handed to the SNTP client.
  - `civil`: the calls into `jiff` (UTC time of day, date, shifts by hours and
    seconds).
  - `clock`: the displayed wall clock, its tick, and the laws of both.
  - `face`: the "HH:MM:SS" face and the plan of which cells to repaint.
  - `ssid`: the registry of network names and the reading of beacon frames with
    `ieee80211`.
  - `link`: the decisions of the Wi-Fi station task as a state machine.
  - `net`: the choice of NTP server and the network stack's random seed.
- `tests/` runs the library on concrete values.
- `app/` is the firmware around it: hardware set-up, the network stack, the
  display and the async tasks.
