use std::collections::VecDeque;

use aic8800_sdio::error::SdioError;
use aic8800_sdio::irq::{
    sdhci_irq_handler, InterruptMasks, IrqFlag, IrqStats, RegWrite, SdhciIrqState,
};
use aic8800_sdio::regs::{
    CCCR_BUS_INTERFACE, CCCR_BUS_SPEED_SELECT, CCCR_CIS_POINTER, CCCR_IO_ENABLE, CCCR_IO_READY,
    ERR_INT_CMD_CRC, ERR_INT_CMD_TIMEOUT, ERR_INT_DAT_CRC, ERR_INT_DAT_TIMEOUT,
    NORM_INT_BUF_RD_READY, NORM_INT_BUF_WR_READY, NORM_INT_CMD_COMPLETE, NORM_INT_ERROR,
    NORM_INT_XFER_COMPLETE, SDHCI_ARGUMENT, SDHCI_BLOCK_COUNT, SDHCI_BLOCK_SIZE, SDHCI_BUFFER,
    SDHCI_CAPABILITIES, SDHCI_CLOCK_CONTROL, SDHCI_COMMAND, SDHCI_ERR_INT_SIG_EN,
    SDHCI_HOST_CONTROL, SDHCI_NORM_INT_SIG_EN, SDHCI_POWER_CONTROL, SDHCI_PRESENT_STATE,
    SDHCI_RESPONSE, SDHCI_SOFTWARE_RESET, SDHCI_TRANSFER_MODE, SWRST_DAT_LINE,
};
use aic8800_sdio::sdhci::buffer::{fetch_word, store_word};
use aic8800_sdio::sdhci::clock::{base_clock, divisor};
use aic8800_sdio::sdhci::command::{check_r5_response, command_flags, SendCmd};
use aic8800_sdio::sdhci::config::HostConfig;
use aic8800_sdio::sdhci::frame::{Frame, Io};
use aic8800_sdio::sdhci::host::{CviCardIrqCtrl, CviSdhci};
use aic8800_sdio::sdhci::task::{Action, Task};
use aic8800_sdio::sdhci::transfer::{Transfer, TransferPlan};
use aic8800_sdio::sdhci::wait::{classify_error, WaitIrq, WaitPhase};

const BASE: usize = 0x0432_0000;

fn config() -> HostConfig {
    HostConfig {
        masks: InterruptMasks {
            norm_status: 0x01FF,
            err_status: 0x00FF,
            norm_signal: 0x0133,
            err_signal: 0x003F,
        },
        cmd_idle_polls: 10,
        clock_stable_polls: 10,
        reset_polls: 10,
        ocr_retries: 5,
        fallback_base_clock: 375_000_000,
    }
}

/// A controller with a card behind it.
struct Sim {
    host: CviSdhci,
    irq: SdhciIrqState,
    stats: IrqStats,
    card: Vec<u8>,
    host_control: u8,
    clock_control: u16,
    caps: u32,
    ocr: u32,
    present: u32,
    arg: u32,
    resp: u32,
    not_ready: u32,
    r5_error: u32,
    error: u16,
    silent: bool,
    stable: bool,
    stuck_reset: bool,
    rom: bool,
    noise: bool,
    from_card: VecDeque<u32>,
    to_card: Vec<u32>,
    log: Vec<Io>,
    spins: u64,
    yields: u64,
    steps: u64,
}

impl Sim {
    fn new() -> Sim {
        let mut card = vec![0u8; 0x2_0000];
        card[CCCR_IO_READY as usize] = 0xFE;
        card[CCCR_BUS_SPEED_SELECT as usize] = 0x01;
        card[CCCR_BUS_INTERFACE as usize] = 0x81;
        // Chain of function 1 at 0x1000: a null tuple, another one, the identification.
        card[0x109] = 0x00;
        card[0x10A] = 0x10;
        card[0x10B] = 0x00;
        card[0x1000..0x100B]
            .copy_from_slice(&[0x00, 0x21, 0x02, 0x0C, 0x00, 0x20, 0x04, 0x6A, 0xC8, 0x82, 0x00]);
        card[0x100B] = 0xFF;
        let mut irq = SdhciIrqState::new();
        irq.base = BASE;
        Sim {
            host: CviSdhci::new(BASE, config()),
            irq,
            stats: IrqStats::new(),
            card,
            host_control: 0,
            clock_control: 0,
            caps: 200 << 8,
            ocr: 0x20FF_8000,
            present: 0,
            arg: 0,
            resp: 0,
            not_ready: 0,
            r5_error: 0,
            error: 0,
            silent: false,
            stable: true,
            stuck_reset: false,
            rom: false,
            noise: false,
            from_card: VecDeque::new(),
            to_card: Vec::new(),
            log: Vec::new(),
            spins: 0,
            yields: 0,
            steps: 0,
        }
    }

    fn command(&mut self, word: u16) {
        match word >> 8 {
            5 => {
                self.resp = self.ocr;
                if self.arg != 0 {
                    if self.not_ready == 0 {
                        self.resp |= 0x8000_0000;
                    } else {
                        self.not_ready -= 1;
                    }
                }
            }
            3 => self.resp = 0x1234_0000,
            7 => self.resp = 0,
            52 => {
                let addr = ((self.arg >> 9) & 0x1_FFFF) as usize;
                if self.arg & 0x8000_0000 != 0 && !self.rom {
                    self.card[addr] = self.arg as u8;
                }
                self.resp = self.r5_error | self.card[addr] as u32;
            }
            _ => self.resp = 0,
        }
        if !self.silent {
            let status = if self.error != 0 {
                (self.error as u32) << 16 | NORM_INT_ERROR as u32
            } else {
                NORM_INT_CMD_COMPLETE as u32
            };
            sdhci_irq_handler(&mut self.irq, &mut self.stats, status);
        }
    }

    fn io(&mut self, io: Io) -> u32 {
        self.log.push(io);
        match io {
            Io::Read8 { off } => match off {
                SDHCI_HOST_CONTROL => self.host_control as u32 | 0xFFFF_FF00,
                SDHCI_SOFTWARE_RESET => {
                    if self.stuck_reset {
                        0x05
                    } else {
                        0
                    }
                }
                _ => 0,
            },
            Io::Read16 { off } => match off {
                SDHCI_CLOCK_CONTROL => {
                    let stable = self.stable && self.clock_control & 1 != 0;
                    (self.clock_control | if stable { 2 } else { 0 }) as u32
                }
                _ => 0,
            },
            Io::Read32 { off } => match off {
                SDHCI_PRESENT_STATE => {
                    if self.noise {
                        let late = (ERR_INT_DAT_CRC as u32) << 16 | NORM_INT_ERROR as u32;
                        sdhci_irq_handler(&mut self.irq, &mut self.stats, 0x33);
                        sdhci_irq_handler(&mut self.irq, &mut self.stats, late);
                    }
                    self.present
                }
                SDHCI_RESPONSE => self.resp,
                SDHCI_CAPABILITIES => self.caps,
                SDHCI_BUFFER => self.from_card.pop_front().unwrap_or(0),
                _ => 0,
            },
            Io::Write8 { off, value } => {
                if off == SDHCI_HOST_CONTROL {
                    self.host_control = value;
                }
                0
            }
            Io::Write16 { off, value } => {
                if off == SDHCI_CLOCK_CONTROL {
                    self.clock_control = value;
                } else if off == SDHCI_COMMAND {
                    self.command(value);
                }
                0
            }
            Io::Write32 { off, value } => {
                if off == SDHCI_ARGUMENT {
                    self.arg = value;
                } else if off == SDHCI_BUFFER {
                    self.to_card.push(value);
                }
                0
            }
            Io::Spin { times } => {
                self.spins += times as u64;
                if !self.silent {
                    let status =
                        NORM_INT_BUF_RD_READY | NORM_INT_BUF_WR_READY | NORM_INT_XFER_COMPLETE;
                    sdhci_irq_handler(&mut self.irq, &mut self.stats, status as u32);
                }
                0
            }
            Io::Yield => {
                self.yields += 1;
                0
            }
        }
    }

    fn run(&mut self, task: &mut Task) -> Result<u32, SdioError> {
        let mut reply = 0;
        loop {
            self.steps += 1;
            assert!(task.stack.len() <= 8);
            match task.step(&mut self.host, &mut self.irq, reply) {
                Action::Done(answer) => return answer,
                Action::Again => reply = 0,
                Action::Io(io) => reply = self.io(io),
            }
        }
    }

    fn writes(&self) -> Vec<Io> {
        self.log
            .iter()
            .copied()
            .filter(|io| {
                matches!(io, Io::Write8 { .. } | Io::Write16 { .. } | Io::Write32 { .. })
            })
            .collect()
    }
}

#[test]
fn reads_a_card_register() {
    let mut sim = Sim::new();
    sim.card[0x0013] = 0x5A;
    let mut task = sim.host.read_byte(1, 0x0013);
    assert_eq!(sim.run(&mut task), Ok(0x5A));
    assert_eq!(
        sim.log,
        vec![
            Io::Read32 { off: SDHCI_PRESENT_STATE },
            Io::Write32 { off: SDHCI_ARGUMENT, value: 0x1000_2600 },
            Io::Write16 { off: SDHCI_COMMAND, value: 0x341A },
            Io::Read32 { off: SDHCI_RESPONSE },
        ]
    );
    assert_eq!(sim.steps, 14);
}

#[test]
fn writes_a_card_register() {
    let mut sim = Sim::new();
    let mut task = sim.host.write_byte(2, 0x1_FFFF, 0xA5);
    assert!(sim.run(&mut task).is_ok());
    assert_eq!(sim.arg, 0xA3FF_FEA5);
    assert_eq!(sim.card[0x1_FFFF], 0xA5);
}

#[test]
fn writes_and_reads_back_with_one_command() {
    let mut sim = Sim::new();
    let mut task = sim.host.write_byte_read(1, 0x10, 0x42);
    assert_eq!(sim.run(&mut task), Ok(0x42));
    assert_eq!(sim.arg, 0x9800_2042);
}

#[test]
fn address_that_does_not_fit_is_refused() {
    let mut sim = Sim::new();
    let mut task = sim.host.read_byte(0, 0x2_0000);
    assert_eq!(sim.run(&mut task), Err(SdioError::Unsupported));
    assert!(sim.log.is_empty());
}

#[test]
fn busy_command_line_times_out() {
    let mut sim = Sim::new();
    sim.present = 1;
    let mut task = sim.host.read_byte(0, 0);
    assert_eq!(sim.run(&mut task), Err(SdioError::Timeout));
    assert_eq!(sim.spins, 10);
    let reads = sim.log.iter().filter(|io| matches!(io, Io::Read32 { .. })).count();
    assert_eq!(reads, 10);
    assert!(sim.writes().is_empty());
}

#[test]
fn stale_flags_do_not_complete_a_command() {
    let mut sim = Sim::new();
    sim.irq.cmd_complete = true;
    sim.irq.error = true;
    sim.irq.error_status = ERR_INT_DAT_CRC;
    sim.silent = true;
    let mut task = sim.host.read_byte(0, 0);
    assert_eq!(sim.run(&mut task), Err(SdioError::Timeout));
}

#[test]
fn silent_card_times_out_after_all_looks() {
    let mut sim = Sim::new();
    sim.silent = true;
    let mut task = sim.host.read_byte(0, 0);
    assert_eq!(sim.run(&mut task), Err(SdioError::Timeout));
    assert_eq!(sim.spins, 1_000);
    assert_eq!(sim.yields, 100_000);
}

#[test]
fn error_interrupt_resets_the_data_line() {
    let mut sim = Sim::new();
    sim.error = ERR_INT_CMD_CRC;
    let mut task = sim.host.read_byte(0, 0);
    assert_eq!(sim.run(&mut task), Err(SdioError::CrcError));
    let reset = Io::Write8 { off: SDHCI_SOFTWARE_RESET, value: SWRST_DAT_LINE };
    assert_eq!(sim.writes().last(), Some(&reset));
    sim.error = ERR_INT_CMD_TIMEOUT;
    let mut task = sim.host.read_byte(0, 0);
    assert_eq!(sim.run(&mut task), Err(SdioError::Timeout));
    sim.error = 0x0100;
    let mut task = sim.host.read_byte(0, 0);
    assert_eq!(sim.run(&mut task), Err(SdioError::IoError));
}

#[test]
fn reset_that_does_not_end_keeps_the_error() {
    let mut sim = Sim::new();
    sim.error = ERR_INT_DAT_CRC;
    sim.stuck_reset = true;
    let mut task = sim.host.read_byte(0, 0);
    assert_eq!(sim.run(&mut task), Err(SdioError::CrcError));
    let reads = sim.log.iter().filter(|io| matches!(io, Io::Read8 { .. })).count();
    assert_eq!(reads, 10);
}

#[test]
fn error_goes_before_flag() {
    let mut sim = Sim::new();
    sim.irq.cmd_complete = true;
    sim.irq.error = true;
    sim.irq.error_status = ERR_INT_DAT_TIMEOUT;
    let mut task = Task::new(WaitIrq::start(IrqFlag::CmdComplete), Vec::new());
    assert_eq!(sim.run(&mut task), Err(SdioError::Timeout));
    assert!(sim.irq.cmd_complete);
}

#[test]
fn error_status_is_classified() {
    assert_eq!(classify_error(ERR_INT_CMD_CRC | ERR_INT_CMD_TIMEOUT), SdioError::CrcError);
    assert_eq!(classify_error(ERR_INT_DAT_CRC), SdioError::CrcError);
    assert_eq!(classify_error(ERR_INT_DAT_TIMEOUT), SdioError::Timeout);
    assert_eq!(classify_error(0), SdioError::IoError);
    assert_eq!(classify_error(0xFF00), SdioError::IoError);
}

#[test]
fn r5_response_is_checked() {
    assert_eq!(check_r5_response(0x0000_10AB), Ok(0xAB));
    assert_eq!(check_r5_response(0x0000_C800), Err(SdioError::CrcError));
    assert_eq!(check_r5_response(0x0000_4000), Err(SdioError::IoError));
    assert_eq!(check_r5_response(0x0000_0200), Err(SdioError::IoError));
    assert_eq!(check_r5_response(0x0000_0100), Err(SdioError::IoError));
    assert_eq!(check_r5_response(0x0000_0800), Err(SdioError::IoError));
    let mut sim = Sim::new();
    sim.r5_error = 0x0000_8000;
    let mut task = sim.host.read_byte(0, 0);
    assert_eq!(sim.run(&mut task), Err(SdioError::CrcError));
}

#[test]
fn commands_have_their_flags() {
    assert_eq!(command_flags(0), Some(0x00));
    assert_eq!(command_flags(3), Some(0x1A));
    assert_eq!(command_flags(5), Some(0x02));
    assert_eq!(command_flags(7), Some(0x1B));
    assert_eq!(command_flags(52), Some(0x1A));
    assert_eq!(command_flags(53), Some(0x3A));
    assert_eq!(command_flags(8), None);
}

#[test]
fn unknown_command_is_not_issued() {
    let mut sim = Sim::new();
    let mut task = Task::new(SendCmd::start(8, 0x1AA), Vec::new());
    assert_eq!(sim.run(&mut task), Err(SdioError::Unsupported));
    assert_eq!(sim.writes(), vec![Io::Write32 { off: SDHCI_ARGUMENT, value: 0x1AA }]);
}

#[test]
fn writes_a_buffer_in_blocks() {
    let mut sim = Sim::new();
    let data: Vec<u8> = (0..1024u32).map(|i| (i * 7 + 3) as u8).collect();
    let mut task = sim.host.write_fifo(1, 0x07, data.clone());
    assert_eq!(sim.run(&mut task), Ok(0));
    assert_eq!(sim.arg, 0x9800_0E02);
    assert_eq!(sim.to_card.len(), 256);
    let bytes: Vec<u8> = sim.to_card.iter().flat_map(|w| w.to_le_bytes()).collect();
    assert_eq!(bytes, data);
    assert_eq!(
        &sim.writes()[0..5],
        &[
            Io::Write16 { off: SDHCI_BLOCK_SIZE, value: 512 },
            Io::Write16 { off: SDHCI_BLOCK_COUNT, value: 2 },
            Io::Write16 { off: SDHCI_TRANSFER_MODE, value: 0x22 },
            Io::Write32 { off: SDHCI_ARGUMENT, value: 0x9800_0E02 },
            Io::Write16 { off: SDHCI_COMMAND, value: 0x353A },
        ]
    );
}

#[test]
fn reads_a_buffer_in_blocks() {
    let mut sim = Sim::new();
    sim.from_card = (0..128u32).map(|i| i * 0x0101_0101 + 0x0302_0100).collect();
    let expected: Vec<u8> = sim.from_card.iter().flat_map(|w| w.to_le_bytes()).collect();
    let mut task = sim.host.read_fifo(1, 0x08, vec![0u8; 512]);
    assert_eq!(sim.run(&mut task), Ok(0));
    assert_eq!(task.buf, expected);
    assert_eq!(sim.arg, 0x1800_1001);
    assert!(sim.writes().contains(&Io::Write16 { off: SDHCI_TRANSFER_MODE, value: 0x32 }));
}

#[test]
fn running_addresses_are_asked_for() {
    let mut sim = Sim::new();
    let mut task = sim.host.write_fifo_inc(1, 0x100, vec![1u8; 512]);
    assert_eq!(sim.run(&mut task), Ok(0));
    assert_eq!(sim.arg, 0x9C02_0001);
    let mut task = sim.host.read_fifo_inc(1, 0x100, vec![1u8; 512]);
    assert_eq!(sim.run(&mut task), Ok(0));
    assert_eq!(sim.arg, 0x1C02_0001);
}

#[test]
fn what_is_written_is_read_back() {
    let mut sim = Sim::new();
    let data: Vec<u8> = (0..1536u32).map(|i| (i * i + 11) as u8).collect();
    let mut task = sim.host.write_fifo(1, 0, data.clone());
    assert_eq!(sim.run(&mut task), Ok(0));
    sim.from_card = sim.to_card.iter().copied().collect();
    let mut task = sim.host.read_fifo(1, 0, vec![0xEE; 1536]);
    assert_eq!(sim.run(&mut task), Ok(0));
    assert_eq!(task.buf, data);
}

#[test]
fn uneven_buffer_is_refused() {
    let mut sim = Sim::new();
    for len in [0usize, 1, 511, 513] {
        let mut task = sim.host.write_fifo(1, 0, vec![0u8; len]);
        assert_eq!(sim.run(&mut task), Err(SdioError::Unsupported));
    }
    let mut task = sim.host.write_fifo(1, 0x2_0000, vec![0u8; 512]);
    assert_eq!(sim.run(&mut task), Err(SdioError::Unsupported));
    assert!(sim.log.is_empty());
}

fn transfer(use_block: bool, block_size: u16, len: usize) -> Transfer {
    Transfer { func: 1, addr: 0x10, write: false, inc_addr: false, block_size, use_block, len }
}

#[test]
fn transfers_are_planned() {
    assert_eq!(
        transfer(false, 512, 5).plan(),
        Some(TransferPlan { arg: 0x1000_2005, block_size: 5, blocks: 1, mode: 0x10 })
    );
    assert_eq!(
        transfer(false, 512, 512).plan(),
        Some(TransferPlan { arg: 0x1000_2000, block_size: 512, blocks: 1, mode: 0x10 })
    );
    assert_eq!(transfer(false, 512, 513).plan(), None);
    assert_eq!(
        transfer(true, 0, 7).plan(),
        Some(TransferPlan { arg: 0x1000_2007, block_size: 7, blocks: 1, mode: 0x10 })
    );
    assert_eq!(
        transfer(true, 64, 640).plan(),
        Some(TransferPlan { arg: 0x1800_200A, block_size: 64, blocks: 10, mode: 0x32 })
    );
    assert_eq!(transfer(true, 64, 63).plan(), None);
    assert_eq!(transfer(true, 64, 65).plan(), None);
    // The count has nine bits, the block count register sixteen.
    let plan = transfer(true, 1, 513).plan().unwrap();
    assert_eq!(plan.arg & 0x1FF, 1);
    assert_eq!(plan.blocks, 513);
    let plan = transfer(true, 1, 65537).plan().unwrap();
    assert_eq!(plan.blocks, 1);
}

#[test]
fn words_are_little_endian_and_padded() {
    let buf = vec![1u8, 2, 3, 4, 5, 6];
    assert_eq!(fetch_word(&buf, 0), 0x0403_0201);
    assert_eq!(fetch_word(&buf, 4), 0x0000_0605);
    assert_eq!(fetch_word(&buf, 8), 0);
    let mut buf = vec![0u8; 6];
    store_word(&mut buf, 0, 0x0403_0201);
    store_word(&mut buf, 4, 0xDDCC_BBAA);
    store_word(&mut buf, 8, 0xFFFF_FFFF);
    assert_eq!(buf, vec![1, 2, 3, 4, 0xAA, 0xBB]);
}

#[test]
fn block_size_is_set_and_read_back() {
    let mut sim = Sim::new();
    let mut task = sim.host.set_block_size(1, 0x0300);
    assert_eq!(sim.run(&mut task), Ok(0));
    assert_eq!(sim.card[0x110], 0x00);
    assert_eq!(sim.card[0x111], 0x03);
    let mut task = sim.host.set_block_size(0, 2048);
    assert_eq!(sim.run(&mut task), Ok(0));
    assert_eq!(sim.card[0x11], 0x08);
}

#[test]
fn block_size_that_does_not_stick_is_an_error() {
    let mut sim = Sim::new();
    sim.rom = true;
    let mut task = sim.host.set_block_size(1, 512);
    assert_eq!(sim.run(&mut task), Err(SdioError::IoError));
}

#[test]
fn block_sizes_that_do_not_exist_are_refused() {
    let mut sim = Sim::new();
    for (func, size) in [(8u8, 512u16), (1, 0), (1, 2049)] {
        let mut task = sim.host.set_block_size(func, size);
        assert_eq!(sim.run(&mut task), Err(SdioError::Unsupported));
    }
    assert!(sim.log.is_empty());
}

#[test]
fn function_is_enabled_beside_the_others() {
    let mut sim = Sim::new();
    sim.card[CCCR_IO_ENABLE as usize] = 0x04;
    let mut task = sim.host.enable_func(1);
    assert_eq!(sim.run(&mut task), Ok(0));
    assert_eq!(sim.card[CCCR_IO_ENABLE as usize], 0x06);
}

#[test]
fn function_that_is_never_ready_times_out() {
    let mut sim = Sim::new();
    sim.card[CCCR_IO_READY as usize] = 0x00;
    let mut task = sim.host.enable_func(7);
    assert_eq!(sim.run(&mut task), Err(SdioError::Timeout));
    assert_eq!(sim.spins, 1_000 * 100_000);
    assert_eq!(sim.card[CCCR_IO_ENABLE as usize], 0x80);
}

#[test]
fn functions_that_cannot_be_enabled_are_refused() {
    let mut sim = Sim::new();
    for func in [0u8, 8, 255] {
        let mut task = sim.host.enable_func(func);
        assert_eq!(sim.run(&mut task), Err(SdioError::Unsupported));
    }
}

#[test]
fn divisors() {
    assert_eq!(divisor(200_000_000, 400_000), Some(250));
    assert_eq!(divisor(200_000_000, 50_000_000), Some(2));
    assert_eq!(divisor(200_000_000, 25_000_000), Some(4));
    assert_eq!(divisor(200_000_000, 200_000_000), Some(0));
    assert_eq!(divisor(200_000_000, 199_999_999), Some(1));
    assert_eq!(divisor(375_000_000, 400_000), Some(469));
    assert_eq!(divisor(204_600_000, 100_000), Some(1023));
    assert_eq!(divisor(204_600_001, 100_000), None);
    assert_eq!(divisor(255_000_000, 100_000), None);
    assert_eq!(divisor(u32::MAX, 1), None);
}

#[test]
fn base_clock_comes_from_the_capabilities() {
    assert_eq!(base_clock(&config(), 0x0000_C800), 200_000_000);
    assert_eq!(base_clock(&config(), 0xFFFF_00FF), 375_000_000);
    assert_eq!(base_clock(&config(), 0x0000_FF00), 255_000_000);
}

#[test]
fn clock_is_stopped_divided_and_let_out() {
    let mut sim = Sim::new();
    sim.caps = 0;
    sim.clock_control = 0x1237;
    let mut task = sim.host.set_clock(400_000);
    assert_eq!(sim.run(&mut task), Ok(0));
    // 469 = 0x1D5: low byte up, the ninth bit below it.
    assert_eq!(
        sim.writes(),
        vec![
            Io::Write16 { off: SDHCI_CLOCK_CONTROL, value: 0x1232 },
            Io::Write16 { off: SDHCI_CLOCK_CONTROL, value: 0xD573 },
            Io::Write16 { off: SDHCI_CLOCK_CONTROL, value: 0xD577 },
        ]
    );
}

#[test]
fn clock_that_cannot_be_had_is_refused() {
    let mut sim = Sim::new();
    sim.clock_control = 0x0205;
    let mut task = sim.host.set_clock(50_000);
    assert_eq!(sim.run(&mut task), Err(SdioError::Unsupported));
    assert_eq!(sim.log, vec![Io::Read32 { off: SDHCI_CAPABILITIES }]);
    assert_eq!(sim.clock_control, 0x0205);
}

#[test]
fn slowest_clock_that_can_be_had() {
    // 200 MHz / (2 * 1023) is just below 97_752 Hz.
    let mut sim = Sim::new();
    let mut task = sim.host.set_clock(97_752);
    assert_eq!(sim.run(&mut task), Ok(0));
    assert_eq!(sim.clock_control & 0xFFC0, 0xFFC0);
    let mut task = sim.host.set_clock(97_751);
    assert_eq!(sim.run(&mut task), Err(SdioError::Unsupported));
}

#[test]
fn bring_up_refuses_a_base_clock_that_is_too_fast() {
    let mut sim = Sim::new();
    sim.caps = 0;
    sim.host.cfg.fallback_base_clock = 818_400_001;
    let mut task = sim.host.init();
    assert_eq!(sim.run(&mut task), Err(SdioError::Unsupported));
    assert_eq!(sim.clock_control, 0);
    sim.host.cfg.fallback_base_clock = 818_400_000;
    let mut task = sim.host.init();
    assert_eq!(sim.run(&mut task), Ok(0));
}

#[test]
fn failed_bring_up_keeps_the_identification() {
    let mut sim = Sim::new();
    let mut task = sim.host.init();
    assert_eq!(sim.run(&mut task), Ok(0));
    assert_eq!(sim.host.vendor_device_id(), (0xC86A, 0x0082));
    sim.card[0x1000] = 0xFF;
    let cis = CCCR_CIS_POINTER as usize;
    sim.card[cis..cis + 3].copy_from_slice(&[0x00, 0x30, 0x00]);
    let mut task = sim.host.init();
    assert_eq!(sim.run(&mut task), Err(SdioError::Unsupported));
    assert_eq!(sim.host.vendor_device_id(), (0xC86A, 0x0082));
}

#[test]
fn function_that_becomes_ready_is_asked_until_then() {
    let mut sim = Sim::new();
    sim.card[CCCR_IO_READY as usize] = 0x00;
    let mut task = sim.host.enable_func(3);
    let mut reply = 0;
    let answer = loop {
        match task.step(&mut sim.host, &mut sim.irq, reply) {
            Action::Done(answer) => break answer,
            Action::Again => reply = 0,
            Action::Io(io) => {
                reply = sim.io(io);
                if sim.spins >= 400_000 {
                    sim.card[CCCR_IO_READY as usize] = 0x08;
                }
            }
        }
    };
    assert_eq!(answer, Ok(0));
    assert_eq!(sim.spins, 400_000);
}

#[test]
fn unstable_clock_is_not_let_out() {
    let mut sim = Sim::new();
    sim.stable = false;
    let mut task = sim.host.set_clock(50_000_000);
    assert_eq!(sim.run(&mut task), Err(SdioError::Timeout));
    assert_eq!(sim.clock_control, 0x0201);
}

#[test]
fn brings_the_card_up_at_high_speed() {
    let mut sim = Sim::new();
    sim.irq.base = 0;
    sim.not_ready = 2;
    let mut task = sim.host.init();
    assert_eq!(sim.run(&mut task), Ok(0));
    assert_eq!(sim.irq.base, BASE);
    assert_eq!(sim.host.rca, 0x1234);
    assert_eq!(sim.host.vendor_device_id(), (0xC86A, 0x0082));
    assert_eq!(sim.host_control, 0xC6);
    assert_eq!(sim.clock_control & 0xFFC0, 0x0200);
    assert_eq!(sim.card[CCCR_BUS_SPEED_SELECT as usize], 0x03);
    assert_eq!(sim.card[CCCR_BUS_INTERFACE as usize], 0x82);
    assert_eq!(sim.card[CCCR_IO_ENABLE as usize], 0x02);
    assert_eq!((sim.card[0x110], sim.card[0x111]), (0x00, 0x02));
    let writes = sim.writes();
    let power = Io::Write8 { off: SDHCI_POWER_CONTROL, value: 0x0F };
    let power_at = writes.iter().position(|io| *io == power).unwrap();
    let clock_at = writes
        .iter()
        .position(|io| matches!(io, Io::Write16 { off: SDHCI_CLOCK_CONTROL, .. }))
        .unwrap();
    assert!(power_at < clock_at);
    let args: Vec<u32> = writes
        .iter()
        .filter_map(|io| match io {
            Io::Write32 { off: SDHCI_ARGUMENT, value } => Some(*value),
            _ => None,
        })
        .collect();
    assert_eq!(
        &args[0..6],
        &[0, 0x0030_0000, 0x0030_0000, 0x0030_0000, 0, 0x1234_0000]
    );
}

#[test]
fn brings_the_card_up_at_default_speed() {
    let mut sim = Sim::new();
    sim.card[CCCR_BUS_SPEED_SELECT as usize] = 0x00;
    let mut task = sim.host.init();
    assert_eq!(sim.run(&mut task), Ok(0));
    assert_eq!(sim.host_control, 0xC2);
    assert_eq!(sim.clock_control & 0xFFC0, 0x0400);
    assert_eq!(sim.card[CCCR_BUS_SPEED_SELECT as usize], 0x00);
}

#[test]
fn identification_falls_back_to_the_card() {
    let mut sim = Sim::new();
    sim.card[0x1000] = 0xFF;
    let cis = CCCR_CIS_POINTER as usize;
    sim.card[cis..cis + 3].copy_from_slice(&[0x00, 0x20, 0x00]);
    sim.card[0x2000..0x2006].copy_from_slice(&[0x20, 0x04, 0x34, 0x12, 0x78, 0x56]);
    let mut task = sim.host.init();
    assert_eq!(sim.run(&mut task), Ok(0));
    assert_eq!(sim.host.vendor_device_id(), (0x1234, 0x5678));
}

#[test]
fn card_without_identification_is_refused() {
    let mut sim = Sim::new();
    sim.card[0x1000] = 0xFF;
    sim.card[0x0000] = 0x00;
    let cis = CCCR_CIS_POINTER as usize;
    sim.card[cis..cis + 3].copy_from_slice(&[0x00, 0x30, 0x00]);
    // A chain of null tuples that never ends.
    let mut task = sim.host.init();
    assert_eq!(sim.run(&mut task), Err(SdioError::Unsupported));
    assert_eq!(sim.host.vendor_device_id(), (0, 0));
}

#[test]
fn short_identification_tuple_is_passed_over() {
    let mut sim = Sim::new();
    sim.card[0x1000..0x100A]
        .copy_from_slice(&[0x20, 0x03, 0xAA, 0xBB, 0xCC, 0x20, 0x05, 0x01, 0x02, 0x03]);
    sim.card[0x100A] = 0x04;
    let mut task = sim.host.init();
    assert_eq!(sim.run(&mut task), Ok(0));
    assert_eq!(sim.host.vendor_device_id(), (0x0201, 0x0403));
}

#[test]
fn card_that_is_never_ready_times_out() {
    let mut sim = Sim::new();
    sim.not_ready = 100;
    let mut task = sim.host.init();
    assert_eq!(sim.run(&mut task), Err(SdioError::Timeout));
    assert_eq!(sim.not_ready, 95);
}

#[test]
fn controller_that_stays_in_reset_times_out() {
    let mut sim = Sim::new();
    sim.stuck_reset = true;
    let mut task = sim.host.init();
    assert_eq!(sim.run(&mut task), Err(SdioError::Timeout));
    assert_eq!(sim.writes(), vec![Io::Write8 { off: SDHCI_SOFTWARE_RESET, value: 0x01 }]);
}

#[test]
fn finished_task_stays_finished() {
    let mut sim = Sim::new();
    sim.card[5] = 9;
    let mut task = sim.host.read_byte(0, 5);
    assert_eq!(sim.run(&mut task), Ok(9));
    assert_eq!(task.step(&mut sim.host, &mut sim.irq, 77), Action::Done(Ok(9)));
}

#[test]
fn controller_says_what_to_write() {
    let sim = Sim::new();
    assert_eq!(sim.host.mmio_base(), BASE);
    assert_eq!(
        sim.host.enable_irq(&sim.irq),
        [
            RegWrite { base: BASE, off: SDHCI_NORM_INT_SIG_EN, value: 0x0133 },
            RegWrite { base: BASE, off: SDHCI_ERR_INT_SIG_EN, value: 0x003F },
        ]
    );
    assert_eq!(sim.host.disable_irq(&sim.irq)[0].value, 0);
    assert_eq!(sim.host.disable_irq(&sim.irq)[1].value, 0);
    let ctrl: CviCardIrqCtrl = sim.host.card_irq_ctrl();
    assert_eq!(ctrl, CviCardIrqCtrl::new(BASE));
    assert_eq!(ctrl.mask_card_irq(0x0133).value, 0x0033);
    assert_eq!(ctrl.unmask_card_irq(0x0033).value, 0x0133);
    assert_eq!(ctrl.unmask_card_irq(0x0033).base, BASE);
}

#[test]
fn card_without_a_common_voltage_is_refused() {
    let mut sim = Sim::new();
    sim.ocr = 0x2000_8000;
    let mut task = sim.host.init();
    assert_eq!(sim.run(&mut task), Err(SdioError::Unsupported));
    let commands = sim
        .writes()
        .iter()
        .filter(|io| matches!(io, Io::Write16 { off: SDHCI_COMMAND, .. }))
        .count();
    assert_eq!(commands, 1);
}

#[test]
fn nested_accesses_run_as_if_alone() {
    let mut whole = Sim::new();
    let mut task = whole.host.set_block_size(1, 512);
    assert_eq!(whole.run(&mut task), Ok(0));
    let mut parts = Sim::new();
    for mut task in [
        parts.host.write_byte(0, 0x110, 0x00),
        parts.host.write_byte(0, 0x111, 0x02),
        parts.host.read_byte(0, 0x110),
        parts.host.read_byte(0, 0x111),
    ] {
        assert!(parts.run(&mut task).is_ok());
    }
    assert_eq!(whole.log, parts.log);
}

#[test]
fn operations_leave_the_controller_as_it_is() {
    let mut sim = Sim::new();
    sim.irq.card_irq_callback = 0x77;
    let before = sim.host;
    let mut task = sim.host.enable_func(1);
    assert_eq!(sim.run(&mut task), Ok(0));
    let mut task = sim.host.write_fifo(1, 0, vec![3u8; 512]);
    assert_eq!(sim.run(&mut task), Ok(0));
    assert_eq!(task.buf, vec![3u8; 512]);
    assert_eq!(sim.host, before);
    assert_eq!(sim.irq.card_irq_callback, 0x77);
    let mut task = sim.host.init();
    assert_eq!(sim.run(&mut task), Ok(0));
    assert_eq!(sim.host.base, before.base);
    assert_eq!(sim.host.cfg, before.cfg);
    assert_eq!(sim.irq.card_irq_callback, 0x77);
}

#[test]
fn failed_transfer_has_sent_a_beginning_of_the_buffer() {
    let mut sim = Sim::new();
    let data: Vec<u8> = (0..512u32).map(|i| (i * 3) as u8).collect();
    let mut task = sim.host.write_fifo(1, 0, data.clone());
    let mut reply = 0;
    let answer = loop {
        match task.step(&mut sim.host, &mut sim.irq, reply) {
            Action::Done(answer) => break answer,
            Action::Again => reply = 0,
            Action::Io(io) => {
                reply = sim.io(io);
                if sim.to_card.len() == 128 && !sim.silent {
                    sim.silent = true;
                    sim.irq.xfer_complete = false;
                }
            }
        }
    };
    assert_eq!(answer, Err(SdioError::Timeout));
    let bytes: Vec<u8> = sim.to_card.iter().flat_map(|w| w.to_le_bytes()).collect();
    assert_eq!(bytes, data);
    assert_eq!(task.buf, data);
}

/// Runs an access where the command line is busy for `busy` reads and an interrupt with
/// `status` comes in before step `at`. Gives the answer, and which step asked for what.
fn access_where(busy: u32, at: usize, status: u32) -> (Result<u32, SdioError>, Vec<(usize, Io)>) {
    let mut host = CviSdhci::new(BASE, config());
    let mut irq = SdhciIrqState::new();
    let mut stats = IrqStats::new();
    let mut task = host.read_byte(1, 0x0013);
    let mut asked = Vec::new();
    let mut reads = 0;
    let mut reply = 0;
    let mut i = 0;
    loop {
        if i == at {
            sdhci_irq_handler(&mut irq, &mut stats, status);
        }
        match task.step(&mut host, &mut irq, reply) {
            Action::Done(answer) => return (answer, asked),
            Action::Again => reply = 0,
            Action::Io(io) => {
                asked.push((i, io));
                reply = 0;
                if io == (Io::Read32 { off: SDHCI_PRESENT_STATE }) {
                    reads += 1;
                    reply = if reads <= busy { 1 } else { 0 };
                }
                if io == (Io::Read32 { off: SDHCI_RESPONSE }) {
                    reply = 0x5A;
                }
            }
        }
        i += 1;
    }
}

#[test]
fn access_waits_for_the_line_and_for_a_late_completion() {
    let first_look = 2 * 3 + 8;
    let last_look = first_look + 3 * 1_002;
    let (answer, asked) = access_where(3, last_look + 1, NORM_INT_CMD_COMPLETE as u32);
    assert_eq!(answer, Ok(0x5A));
    let state = Io::Read32 { off: SDHCI_PRESENT_STATE };
    let pause = Io::Spin { times: 1 };
    let mut expected = vec![
        (2, state),
        (3, pause),
        (4, state),
        (5, pause),
        (6, state),
        (7, pause),
        (8, state),
        (11, Io::Write32 { off: SDHCI_ARGUMENT, value: 0x1000_2600 }),
        (12, Io::Write16 { off: SDHCI_COMMAND, value: 0x341A }),
    ];
    for look in 0..1_002 {
        let rest = if look < 1_000 { pause } else { Io::Yield };
        expected.push((first_look + 3 * look + 2, rest));
    }
    expected.push((last_look + 3, Io::Read32 { off: SDHCI_RESPONSE }));
    assert_eq!(asked, expected);
}

#[test]
fn access_fails_with_an_error_at_a_late_look() {
    let last_look = 2 * 1 + 8 + 3 * 7;
    let status = (ERR_INT_CMD_TIMEOUT as u32) << 16 | NORM_INT_ERROR as u32;
    let (answer, asked) = access_where(1, last_look, status);
    assert_eq!(answer, Err(SdioError::Timeout));
    let reset = Io::Write8 { off: SDHCI_SOFTWARE_RESET, value: SWRST_DAT_LINE };
    assert!(asked.contains(&(last_look + 2, reset)));
    assert!(asked.iter().all(|(_, io)| *io != Io::Read32 { off: SDHCI_RESPONSE }));
}

#[test]
fn what_is_pending_before_a_command_changes_nothing() {
    let mut quiet = Sim::new();
    let mut noisy = Sim::new();
    noisy.noise = true;
    sdhci_irq_handler(&mut noisy.irq, &mut noisy.stats, 0x33);
    sdhci_irq_handler(&mut noisy.irq, &mut noisy.stats, 0x0001_8000);
    for sim in [&mut quiet, &mut noisy] {
        let mut task = sim.host.init();
        assert_eq!(sim.run(&mut task), Ok(0));
        let mut task = sim.host.write_fifo(1, 0x07, vec![0x6Bu8; 1024]);
        assert_eq!(sim.run(&mut task), Ok(0));
        let mut task = sim.host.read_byte(0, 0x110);
        assert_eq!(sim.run(&mut task), Ok(0x00));
    }
    assert_eq!(quiet.log, noisy.log);
    assert_eq!(quiet.host, noisy.host);
    assert_eq!(quiet.to_card, noisy.to_card);
}

#[test]
fn buffer_is_waited_for_once_a_block() {
    for write in [true, false] {
        let mut sim = Sim::new();
        sim.from_card = (0..384u32).collect();
        let buf = vec![0u8; 1536];
        let mut task = if write {
            sim.host.write_fifo(1, 0x07, buf)
        } else {
            sim.host.read_fifo(1, 0x08, buf)
        };
        let flag = if write { IrqFlag::BufWrReady } else { IrqFlag::BufRdReady };
        let begun = Frame::WaitIrq(WaitIrq { flag, left: 101_000, phase: WaitPhase::Look });
        let mut waits = 0;
        let mut reply = 0;
        let answer = loop {
            match task.step(&mut sim.host, &mut sim.irq, reply) {
                Action::Done(answer) => break answer,
                Action::Again => reply = 0,
                Action::Io(io) => reply = sim.io(io),
            }
            if task.stack.last() == Some(&begun) {
                waits += 1;
            }
        };
        assert_eq!(answer, Ok(0));
        assert_eq!(waits, 3);
        assert_eq!(sim.to_card.len(), if write { 384 } else { 0 });
        assert_eq!(sim.from_card.len(), if write { 384 } else { 0 });
    }
}

#[test]
fn identification_of_the_function_goes_before_that_of_the_card() {
    let mut sim = Sim::new();
    let cis = CCCR_CIS_POINTER as usize;
    sim.card[cis..cis + 3].copy_from_slice(&[0x00, 0x20, 0x00]);
    sim.card[0x2000..0x2006].copy_from_slice(&[0x20, 0x04, 0x34, 0x12, 0x78, 0x56]);
    let mut task = sim.host.init();
    assert_eq!(sim.run(&mut task), Ok(0));
    assert_eq!(sim.host.vendor_device_id(), (0xC86A, 0x0082));
}
