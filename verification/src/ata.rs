//! Decisions of the ATA disk driver: reading the status register, the
//! drive/head select byte, and the bytes of a sector read as 16-bit words.
use vstd::prelude::*;

verus! {

/// Status register bit: the drive is busy.
pub const ATA_STATUS_BSY: u8 = 0x80;
/// Status register bits: error, and drive fault.
pub const ATA_STATUS_ERR_DF: u8 = 0x21;
/// Status reads before waiting gives up.
pub const ATA_WAIT_TRIES: u32 = 100_000;

/// What one status read says.
#[derive(Debug, Clone, Copy, PartialEq, Eq, Structural)]
pub enum AtaStatus {
    /// Busy: read the status again.
    Busy,
    /// Not busy, with an error or a drive fault.
    DriveError,
    /// Not busy and no error.
    Ready,
}

/// Reads a status byte: busy while `BSY` is set; otherwise an error when
/// `ERR` or `DF` is set, else ready.
pub fn ata_status(status: u8) -> (r: AtaStatus)
    ensures
        status & ATA_STATUS_BSY != 0 ==> r == AtaStatus::Busy,
        status & ATA_STATUS_BSY == 0 && status & ATA_STATUS_ERR_DF != 0 ==> r == AtaStatus::DriveError,
        status & ATA_STATUS_BSY == 0 && status & ATA_STATUS_ERR_DF == 0 ==> r == AtaStatus::Ready,
{
    if status & ATA_STATUS_BSY != 0 {
        AtaStatus::Busy
    } else if status & ATA_STATUS_ERR_DF != 0 {
        AtaStatus::DriveError
    } else {
        AtaStatus::Ready
    }
}

/// The drive/head register value that selects the second drive in LBA mode
/// with bits 24-27 of `lba`.
pub fn ata_device_select(lba: u32) -> (r: u8)
    ensures
        r == 0xF0u8 | (((lba >> 24u32) as u8) & 0x0Fu8),
{
    0xF0 | ((lba >> 24) as u8 & 0x0F)
}

/// The 512 bytes of a sector read as 256 words, each low byte first.
pub fn ata_sector_bytes(words: &[u16; 256]) -> (r: [u8; 512])
    ensures
        forall|i: int|
            0 <= i < 256 ==> #[trigger] r@[2 * i] == (words@[i] % 256) as u8 && r@[2 * i + 1] == (words@[i]
                / 256) as u8,
{
    let mut buf = [0u8; 512];
    let mut i: usize = 0;
    while i < 256
        invariant
            i <= 256,
            buf@.len() == 512,
            forall|j: int|
                0 <= j < i ==> #[trigger] buf@[2 * j] == (words@[j] % 256) as u8 && buf@[2 * j + 1] == (
                words@[j] / 256) as u8,
        decreases 256 - i,
    {
        let word = words[i];
        assert(word as u8 == (word % 256) as u8 && (word >> 8u16) as u8 == (word / 256) as u8) by (bit_vector);
        buf[i * 2] = word as u8;
        buf[i * 2 + 1] = (word >> 8) as u8;
        i = i + 1;
    }
    buf
}

} // verus!
