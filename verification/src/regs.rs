//! Register map of the SD host controller and the field layouts of the SDIO
//! command set.

use vstd::prelude::*;

verus! {

// ---- Host controller register offsets ----

/// Block Size (16 bit).
pub const SDHCI_BLOCK_SIZE: u32 = 0x04;

/// Block Count (16 bit).
pub const SDHCI_BLOCK_COUNT: u32 = 0x06;

/// Command argument (32 bit).
pub const SDHCI_ARGUMENT: u32 = 0x08;

/// Transfer Mode (16 bit).
pub const SDHCI_TRANSFER_MODE: u32 = 0x0C;

/// Command (16 bit): writing it issues the command.
pub const SDHCI_COMMAND: u32 = 0x0E;

/// First response word (32 bit).
pub const SDHCI_RESPONSE: u32 = 0x10;

/// Buffer Data Port (32 bit).
pub const SDHCI_BUFFER: u32 = 0x20;

/// Present State (32 bit).
pub const SDHCI_PRESENT_STATE: u32 = 0x24;

/// Host Control 1 (8 bit).
pub const SDHCI_HOST_CONTROL: u32 = 0x28;

/// Power Control (8 bit).
pub const SDHCI_POWER_CONTROL: u32 = 0x29;

/// Clock Control (16 bit).
pub const SDHCI_CLOCK_CONTROL: u32 = 0x2C;

/// Software Reset (8 bit).
pub const SDHCI_SOFTWARE_RESET: u32 = 0x2F;

/// Normal Interrupt Status (16 bit); a 32 bit read also yields the error status.
pub const SDHCI_INT_STATUS_NORM: u32 = 0x30;

/// Error Interrupt Status (16 bit).
pub const SDHCI_INT_STATUS_ERR: u32 = 0x32;

/// Normal Interrupt Status Enable (16 bit).
pub const SDHCI_NORM_INT_STS_EN: u32 = 0x34;

/// Error Interrupt Status Enable (16 bit).
pub const SDHCI_ERR_INT_STS_EN: u32 = 0x36;

/// Normal Interrupt Signal Enable (16 bit).
pub const SDHCI_NORM_INT_SIG_EN: u32 = 0x38;

/// Error Interrupt Signal Enable (16 bit).
pub const SDHCI_ERR_INT_SIG_EN: u32 = 0x3A;

/// Capabilities (32 bit).
pub const SDHCI_CAPABILITIES: u32 = 0x40;

// ---- Present State ----

/// A command is in flight.
pub const SDHCI_CMD_INHIBIT: u32 = 0x0000_0001;

// ---- Host Control 1 ----

/// Four data lines.
pub const HC_BUS_WIDTH_4: u8 = 0x02;

/// High-speed timing.
pub const HC_HIGH_SPEED: u8 = 0x04;

/// Card detect test level: card inserted.
pub const HC_CARD_DET_TEST: u8 = 0x40;

/// Take the card detect level from the test bit.
pub const HC_CARD_DET_SEL: u8 = 0x80;

// ---- Power Control ----

/// Bus power on at 3.3 V.
pub const POWER_330V_ON: u8 = 0x0F;

// ---- Software Reset ----

/// Reset the whole controller.
pub const SWRST_ALL: u8 = 0x01;

/// Reset the data line.
pub const SWRST_DAT_LINE: u8 = 0x04;

// ---- Clock Control ----

/// Internal clock enable.
pub const CC_INT_CLK_EN: u16 = 0x0001;

/// Internal clock stable.
pub const CC_INT_CLK_STABLE: u16 = 0x0002;

/// SD clock output enable.
pub const CC_SD_CLK_EN: u16 = 0x0004;

/// Upper two bits of the divisor.
pub const CC_FREQ_SEL_EXT_MASK: u16 = 0x00C0;

/// Lower eight bits of the divisor.
pub const CC_FREQ_SEL_MASK: u16 = 0xFF00;

/// Position of the lower divisor bits.
pub const CC_DIV_SHIFT: u16 = 8;

/// Position of the upper divisor bits.
pub const CC_EXT_DIV_SHIFT: u16 = 6;

/// Lower eight bits of a divisor.
pub const DIVISOR_LOW_MASK: u16 = 0x00FF;

/// Upper two bits of a divisor, shifted down.
pub const DIVISOR_HIGH_MASK: u16 = 0x0003;

/// Largest divisor of the ten-bit divider.
pub const MAX_DIVISOR: u16 = 1023;

/// Fixed factor of the divider: a divisor `d` divides the base clock by `2 * d`.
pub const DIV_FACTOR: u32 = 2;

// ---- Capabilities ----

/// Position of the base clock frequency.
pub const CAPS_BASE_FREQ_SHIFT: u32 = 8;

/// Base clock frequency in MHz.
pub const CAPS_BASE_FREQ_MASK: u32 = 0xFF;

/// Hertz per megahertz.
pub const MHZ_TO_HZ: u32 = 1_000_000;

// ---- Transfer Mode ----

/// Block counter enable.
pub const TM_BLK_CNT_EN: u16 = 0x0002;

/// Card to host.
pub const TM_DATA_DIR_READ: u16 = 0x0010;

/// Multiple blocks.
pub const TM_MULTI_BLOCK: u16 = 0x0020;

// ---- Command ----

/// Position of the command index.
pub const CMD_INDEX_SHIFT: u16 = 8;

/// No response.
pub const CMD_RESP_NONE: u16 = 0x0000;

/// R4: 48 bit, neither CRC nor index checked.
pub const CMD_FLAGS_R4: u16 = 0x0002;

/// R5 and R6: 48 bit, CRC and index checked.
pub const CMD_FLAGS_R5: u16 = 0x001A;

/// R1b: 48 bit with busy, CRC and index checked.
pub const CMD_FLAGS_R1B: u16 = 0x001B;

/// R5 with data present.
pub const CMD_FLAGS_R5_DATA: u16 = 0x003A;

// ---- Normal interrupt bits ----

/// Command complete.
pub const NORM_INT_CMD_COMPLETE: u16 = 0x0001;

/// Transfer complete.
pub const NORM_INT_XFER_COMPLETE: u16 = 0x0002;

/// Buffer write ready.
pub const NORM_INT_BUF_WR_READY: u16 = 0x0010;

/// Buffer read ready.
pub const NORM_INT_BUF_RD_READY: u16 = 0x0020;

/// Card interrupt.
pub const NORM_INT_CARD_INT: u16 = 0x0100;

/// Summary of the error interrupt bits.
pub const NORM_INT_ERROR: u16 = 0x8000;

// ---- Error interrupt bits ----

/// Command timeout.
pub const ERR_INT_CMD_TIMEOUT: u16 = 0x0001;

/// Command CRC error.
pub const ERR_INT_CMD_CRC: u16 = 0x0002;

/// Data timeout.
pub const ERR_INT_DAT_TIMEOUT: u16 = 0x0010;

/// Data CRC error.
pub const ERR_INT_DAT_CRC: u16 = 0x0020;

// ---- SDIO commands ----

/// Register addresses have seventeen bits.
pub const SDIO_ADDR_MASK: u32 = 0x0001_FFFF;

/// CMD52: write.
pub const CMD52_RW_FLAG: u32 = 0x8000_0000;

/// CMD52: read back after the write.
pub const CMD52_RAW_FLAG: u32 = 0x0800_0000;

/// CMD53: write.
pub const CMD53_RW_FLAG: u32 = 0x8000_0000;

/// CMD53: block mode.
pub const CMD53_BLOCK_MODE: u32 = 0x0800_0000;

/// CMD53: incrementing address.
pub const CMD53_OP_CODE_INC: u32 = 0x0400_0000;

/// Block size of function transfers, and byte limit of a byte-mode transfer.
pub const SDIO_DEFAULT_BLOCK_SIZE: u16 = 512;

/// Card ready in an R4 response.
pub const R4_READY: u32 = 0x8000_0000;

/// Operating conditions of an R4 response.
pub const OCR_VOLTAGE_MASK: u32 = 0x00FF_FFFF;

/// The 3.2 V to 3.4 V range.
pub const OCR_3V2_3V4: u32 = 0x0030_0000;

/// R5: the CRC of the command was wrong.
pub const R5_COM_CRC_ERROR: u32 = 0x0000_8000;

/// R5: the command is not legal in this state.
pub const R5_ILLEGAL_COMMAND: u32 = 0x0000_4000;

/// R5: general error.
pub const R5_ERROR: u32 = 0x0000_0800;

/// R5: invalid function number.
pub const R5_FUNCTION_NUMBER: u32 = 0x0000_0200;

/// R5: argument out of range.
pub const R5_OUT_OF_RANGE: u32 = 0x0000_0100;

/// R5: the data byte.
pub const R5_DATA_MASK: u32 = 0x0000_00FF;

// ---- Card registers (function 0 address space) ----

/// I/O Enable.
pub const CCCR_IO_ENABLE: u32 = 0x02;

/// I/O Ready.
pub const CCCR_IO_READY: u32 = 0x03;

/// Bus Interface Control.
pub const CCCR_BUS_INTERFACE: u32 = 0x07;

/// Common CIS pointer (three bytes).
pub const CCCR_CIS_POINTER: u32 = 0x09;

/// Bus Speed Select.
pub const CCCR_BUS_SPEED_SELECT: u32 = 0x13;

/// Distance between two function basic register blocks.
pub const FBR_STRIDE: u32 = 0x100;

/// CIS pointer within a function basic register block.
pub const FBR_CIS_PTR_OFFSET: u32 = 0x09;

/// I/O block size, low byte, within a register block; the high byte follows.
pub const IO_BLOCK_SIZE_OFFSET: u32 = 0x10;

/// Largest I/O block size.
pub const IO_BLOCK_SIZE_MAX: u16 = 2048;

// ---- Card information structure ----

/// Tuple without a link byte.
pub const CISTPL_NULL: u8 = 0x00;

/// Manufacturer identification.
pub const CISTPL_MANFID: u8 = 0x20;

/// End of the chain.
pub const CISTPL_END: u8 = 0xFF;

// ---- Laws ----

/// Where the registers of the controller are.
pub proof fn law_register_offsets()
    ensures
        SDHCI_BLOCK_SIZE == 0x04,
        SDHCI_BLOCK_COUNT == 0x06,
        SDHCI_ARGUMENT == 0x08,
        SDHCI_TRANSFER_MODE == 0x0C,
        SDHCI_COMMAND == 0x0E,
        SDHCI_RESPONSE == 0x10,
        SDHCI_BUFFER == 0x20,
        SDHCI_PRESENT_STATE == 0x24,
        SDHCI_HOST_CONTROL == 0x28,
        SDHCI_POWER_CONTROL == 0x29,
        SDHCI_CLOCK_CONTROL == 0x2C,
        SDHCI_SOFTWARE_RESET == 0x2F,
        SDHCI_INT_STATUS_NORM == 0x30,
        SDHCI_INT_STATUS_ERR == 0x32,
        SDHCI_NORM_INT_STS_EN == 0x34,
        SDHCI_ERR_INT_STS_EN == 0x36,
        SDHCI_NORM_INT_SIG_EN == 0x38,
        SDHCI_ERR_INT_SIG_EN == 0x3A,
        SDHCI_CAPABILITIES == 0x40,
{
}

/// What the bits of the control registers are.
pub proof fn law_register_fields()
    ensures
        SDHCI_CMD_INHIBIT == 0x0000_0001,
        HC_BUS_WIDTH_4 == 0x02,
        HC_HIGH_SPEED == 0x04,
        HC_CARD_DET_TEST == 0x40,
        HC_CARD_DET_SEL == 0x80,
        POWER_330V_ON == 0x0F,
        SWRST_ALL == 0x01,
        SWRST_DAT_LINE == 0x04,
        CC_INT_CLK_EN == 0x0001,
        CC_INT_CLK_STABLE == 0x0002,
        CC_SD_CLK_EN == 0x0004,
        CC_FREQ_SEL_EXT_MASK == 0x00C0,
        CC_FREQ_SEL_MASK == 0xFF00,
        CC_DIV_SHIFT == 8,
        CC_EXT_DIV_SHIFT == 6,
        DIVISOR_LOW_MASK == 0x00FF,
        DIVISOR_HIGH_MASK == 0x0003,
        MAX_DIVISOR == 1023,
        DIV_FACTOR == 2,
        CAPS_BASE_FREQ_SHIFT == 8,
        CAPS_BASE_FREQ_MASK == 0xFF,
        MHZ_TO_HZ == 1_000_000,
        TM_BLK_CNT_EN == 0x0002,
        TM_DATA_DIR_READ == 0x0010,
        TM_MULTI_BLOCK == 0x0020,
{
}

/// Which bit stands for which interrupt.
pub proof fn law_interrupt_bits()
    ensures
        NORM_INT_CMD_COMPLETE == 0x0001,
        NORM_INT_XFER_COMPLETE == 0x0002,
        NORM_INT_BUF_WR_READY == 0x0010,
        NORM_INT_BUF_RD_READY == 0x0020,
        NORM_INT_CARD_INT == 0x0100,
        NORM_INT_ERROR == 0x8000,
        ERR_INT_CMD_TIMEOUT == 0x0001,
        ERR_INT_CMD_CRC == 0x0002,
        ERR_INT_DAT_TIMEOUT == 0x0010,
        ERR_INT_DAT_CRC == 0x0020,
{
}

/// Where the fields of commands and responses are.
pub proof fn law_command_fields()
    ensures
        CMD_INDEX_SHIFT == 8,
        CMD_RESP_NONE == 0x0000,
        CMD_FLAGS_R4 == 0x0002,
        CMD_FLAGS_R5 == 0x001A,
        CMD_FLAGS_R1B == 0x001B,
        CMD_FLAGS_R5_DATA == 0x003A,
        SDIO_ADDR_MASK == 0x0001_FFFF,
        CMD52_RW_FLAG == 0x8000_0000,
        CMD52_RAW_FLAG == 0x0800_0000,
        CMD53_RW_FLAG == 0x8000_0000,
        CMD53_BLOCK_MODE == 0x0800_0000,
        CMD53_OP_CODE_INC == 0x0400_0000,
        SDIO_DEFAULT_BLOCK_SIZE == 512,
        R4_READY == 0x8000_0000,
        OCR_VOLTAGE_MASK == 0x00FF_FFFF,
        OCR_3V2_3V4 == 0x0030_0000,
        R5_COM_CRC_ERROR == 0x0000_8000,
        R5_ILLEGAL_COMMAND == 0x0000_4000,
        R5_ERROR == 0x0000_0800,
        R5_FUNCTION_NUMBER == 0x0000_0200,
        R5_OUT_OF_RANGE == 0x0000_0100,
        R5_DATA_MASK == 0x0000_00FF,
{
}

/// Where the registers and tuples of a card are.
pub proof fn law_card_registers()
    ensures
        CCCR_IO_ENABLE == 0x02,
        CCCR_IO_READY == 0x03,
        CCCR_BUS_INTERFACE == 0x07,
        CCCR_CIS_POINTER == 0x09,
        CCCR_BUS_SPEED_SELECT == 0x13,
        FBR_STRIDE == 0x100,
        FBR_CIS_PTR_OFFSET == 0x09,
        IO_BLOCK_SIZE_OFFSET == 0x10,
        IO_BLOCK_SIZE_MAX == 2048,
        CISTPL_NULL == 0x00,
        CISTPL_MANFID == 0x20,
        CISTPL_END == 0xFF,
{
}

} // verus!
