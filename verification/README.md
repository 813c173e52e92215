# aic8800_sdio

A verified driver for the AIC8800 Wi-Fi module on the SDIO bus of the CV1800/SG2002
family, from the registers of the SDHCI controller to the network device.

The library (`src/`) touches no register and owns no thread. Each of its long operations
says what it needs next - a register access, a pause, a wake-up - and is told the outcome.
`app/` performs these requests on a machine.

* `irq` - the interrupt handler: which flags a status raises, what is written back, which
  tasks are woken.
* `sdhci` - the controller. Every operation is a `task::Task`, a stack of `frame::Frame`s
  that are resumed one at a time. `host::CviSdhci` has the operations: bringing the card
  up, accessing its registers, moving data, setting block size and clock, enabling
  functions.
* `wifi::codec` - command and data frames on the bus.
* `wifi::bus`, `wifi::tx` - the queues and the transmit path: commands first, then data in
  batches.
* `wifi::device` - the network device.
* `wifi::wireless` - bringing the whole module up and shutting it down.

What holds of whole runs is proved in modules of their own, as functions whose names begin
with `law_`: `sdhci::run`, `sdhci::init_run`, `sdhci::access`, `sdhci::port`,
`sdhci::fifo_run`, `sdhci::memory`, `sdhci::bounds`, `sdhci::task_run`, `sdhci::stale` and
`wifi::tx_run`.

Values that depend on the board or on the firmware - interrupt masks, numbers of polls,
the clock where the controller reports none, the size of a batch, the buffers that the
chip has to keep free - are parameters: `sdhci::config::HostConfig` and
`wifi::tx::TxConfig`.
