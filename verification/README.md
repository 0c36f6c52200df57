# msg_value_bars

Circular and segmented value bars for Bevy, with the bars' rules verified
in Verus.

- `src/` is the verified library:
  - `time_span.rs`: `TimeSpan`, a span of time (seconds and nanoseconds, as
    `core::time::Duration` holds it) viewed as a number of nanoseconds;
  - `timer.rs`: `OnceTimer`, a one-shot timer whose ticks and remaining time
    are computed by bevy's `Timer`;
  - `blink.rs`: `SegmentBlink`, the blink of a partially-covered slot, with
    its phase logic specified as `blink_advanced` and proved frame-rate
    independent;
  - `segment.rs`: `SegmentedBar` and its slots: layout order, the split of a
    value into full and partial slots, the per-slot state pass, and the
    reconciliation of slot children;
  - `circular.rs`: the fill axis, the frame anchor and the pixel scale of
    circular bars.
- `app/` is the Bevy side: the plugin, the components with their bevy
  derives, the systems, the shader material, and everything that computes
  with floating point (geometry, bounding boxes, the follow lerp, the
  normalisation of values).
- `tests/` runs the library on concrete values.
