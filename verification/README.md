# f3usb

USB device firmware logic for the STM32F3DISCOVERY board (STM32F303VC), verified
with Verus.

`src/` is the library:

- `stat` – values written over the toggle-on-write STAT fields of an endpoint
  register to reach VALID, NAK or DISABLED.
- `word` – byte order of packet-memory words.
- `btable` – buffer-descriptor registers and the decoding of receive-buffer
  allocations.
- `pma` – a model of the 256-word packet memory, its buffer descriptors and
  buffer windows.
- `layout` – where the descriptor table and the endpoint buffers lie, and why
  they do not overlap.
- `descriptor` – the device and configuration descriptors and how they are
  written into the EP0 transmit buffer packet by packet.
- `enumeration` – the enumeration state machine, the endpoint handlers, the
  interrupt dispatch, and the invariants they keep.
- `regfield` – register-field arithmetic and register values of the
  dependency-free image.

`app/` holds the firmware around it. `app/main.rs` is the USB image: register
access, packet-memory transfers, interrupt bindings and the panic handler.

The board has other, independent images. One crate has one entry point and one
vector table, so `app/` builds only the USB image; `app/bare.rs`, `app/hal.rs`
and `app/pac.rs` keep the code of the dependency-free, HAL and PAC images (their
`run` entry and EXTI0 handler), which an image of its own would bind with
`#[entry]` and its interrupt attribute (and, for the dependency-free image, its
own vector table and looping panic handler). They are not linked into the USB
image: the HAL and PAC images would both define EXTI0.

The RTIC image (`init`, `idle`, `button_handler_shared`) and the Embassy image
(`main`, `buttoner`) are not here: they consist of HAL calls only, RTIC's `app`
macro and Embassy's executor each generate a whole program of their own, and
their crates are not among this project's dependencies.
