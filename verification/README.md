# kaiser

The backend logic of the Kaiser display manager, verified with Verus.

- `src/display.rs`: displays, layouts, profiles; listing remembered inactive displays.
- `src/topology.rs`: topology snapshots; active targets; whether a layout may be applied and whether it needs the topology rediscovered.
- `src/gamma.rs`: the SDR gamma-ramp cache and how a fresh capture is merged into it.
- `src/backend.rs`: `KaiserBackend`, its cached topology, colour-state signature and gamma cache.
- `src/apply.rs`: applying a layout as a sequence of steps between pieces of platform work.
- `src/audio.rs`, `src/text.rs`: the device commands a profile's audio settings amount to.
- `src/profile.rs`: profiles as shown and stored.
- `app/`: the commands of the user interface, the snapshot file, and the interfaces to the Windows display, gamma and audio services.
