# render_engine

The paint engine of an X11 display server on Vulkan. It turns fills, copies,
image uploads and readbacks, text and RENDER composites into GPU command
buffers, groups them into as few submissions as it can, and keeps what they hold
until the device is done with them.

`src/` is the engine itself, written and proved in Verus. It never talks to the
device. An operation comes in two parts: a plan says what has to be recorded, or
which open work has to go first, and a second call takes the device's answers as
plain values and changes the engine, the drawables and the submit group
accordingly. Contracts describe both over views of that state.

- `geometry`, `wire`, `pixel`, `picture`: clipping, wire formats, picture rules.
- `store`, `submit`, `frame`, `engine`: drawables, the submit group, the open
  frame, and the engine's state.
- `command`: GPU commands as values, and what lists of them do.
- `paint`, `image`, `copy`, `cow`, `composite`, `batch`, `deferred`,
  `dispatch`, `text`, `glyphs`, `traps`: the operations.
- `close`, `retire`: ending a frame, and freeing what completed.
- `memory`, `switches`, `access`: memory types, settings, accessors.
- `undo`, `replay`, `order`, `owner`, `touch`, `refuse`, `layouts`: laws that
  span operations, such as that a frame that fails leaves no trace, that work
  reaches the queue in order, and that nothing is freed twice.
- `pixels`: copies put every pixel where it was asked for.

What a command buffer holds is freed only after its ticket has signalled. A
replaced image goes to the open frame, else to the newest submitted command
buffer, else to the newest parked one. So while something is submitted, a parked
command buffer that still uses the image is newer than what keeps it alive, and
no law covers that. `app/` submits every paint at once, so that none is parked
when an image has to grow.

`app/` drives the engine on a Vulkan device. `tests/` drives it on a small
software device that checks image layouts as it runs.
