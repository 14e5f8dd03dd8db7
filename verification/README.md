# tmc-new-era

The logic of a firmware for the BigTreeTech SKR Pico (RP2040), and of a host
program that lets a USB joystick drive its X, Y, Z and E steppers, verified with
Verus.

| Axis | STEP | DIR  | EN (active low) | UART address |
|------|------|------|-----------------|--------------|
| X    | GP11 | GP10 | GP12            | 0            |
| Y    | GP6  | GP5  | GP7             | 2            |
| Z    | GP19 | GP28 | GP2             | 1            |
| E    | GP14 | GP13 | GP15            | 3            |

## Layout

- `src/` is the library: everything that decides or computes. It touches no
  hardware. An interpreter takes a byte or a line and returns the list of what
  is to be done, in order; the caller does it and stops at the first packet that
  cannot be delivered.
- `app/` is the rest: `main` is the joystick host, `firmware` and `bare` are the
  programs of the board, each an async `run` for the executor of the target. The
  library keeps its texts and lists on the heap, so a board needs an allocator.
- `tests/` runs the library on concrete values.

## Commands of the board

```
help                              show usage
version                           show the firmware's version
status                            show enable state and last commanded velocity
enable  <x|y|z|e|all>             drive EN low (motor energized)
disable <x|y|z|e|all>             drive EN high (motor free)
accel   <axis|all> <hz/sec>       slew limit; 0 is instant
jog     <axis> <signed_hz>        continuous motion; 0 stops; + is DIR high
move    <axis> <steps> [hz]       one-shot, duration-based (approx N steps)
fan     <0|1|2> <on|off>          fan headers
servo   <0..4> <us|off>           servo headers
tmc     <axis> <ms> <run_ma> <hold_ma> <hold_delay> <sc> <int>
```

A jog takes effect at once: a new value preempts the one under way. An axis that
moves halts when no jog has come for 200 ms. The host therefore sends the
velocity of every stick that is deflected again at every tick, and a move sends
its own jog again until it is done. However often a jog is sent, steps come at
the rate that it asks for.

## What is proved

- Every command line is read, carried out and answered as specified, and leaves
  the board's record within its bounds. No reply is cut short, as long as the
  version takes at most forty bytes.
- A ramp never overshoots, keeps to the slew limit, and reaches its target. Two
  steps are never closer than the period of the rate, whatever commands come.
  Without jogs an axis halts; freeing a motor halts it at once; the enable and
  direction pins agree with what the axis does.
- A move lasts as long as its steps take, and outlasts the deadman. On a clock
  that keeps every wait it makes the steps that it is asked for, up to one, at
  every rate of at most 1000 steps per second whose period is a whole number of
  microseconds; how far it is off at other rates is stated too. It ends when the
  host leaves.
- A stick that is held feeds the deadman of its axis. A joystick that is lost
  stops every axis that it drives, once.
- What the host sends, an idle board understands and does: jogs, nudges, the
  safe stop. The version that a board tells is the one that the host finds.

Scaling a stick to a velocity is floating point and stands in `app/`.
