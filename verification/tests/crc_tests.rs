use onewire_core::crc::compute_crc8;
use onewire_core::onewire::{OneWireBus, OneWireBusError};
use onewire_core::sim::ScriptedLine;

type Bus = OneWireBus<ScriptedLine>;

const CRC_MAXIM: crc::Crc<u8> = crc::Crc::<u8>::new(&crc::CRC_8_MAXIM_DOW);

#[test]
fn crc8_matches_reference_implementation() {
    let samples: [&[u8]; 5] = [
        &[],
        &[0x00],
        &[0x28, 0x64, 0x0b, 0x49, 0xaa, 0x82, 0xf6],
        &[0x50, 0x05, 0x4b, 0x46, 0x7f, 0xff, 0x0c, 0x10],
        &[0xff; 16],
    ];
    for data in samples {
        assert_eq!(compute_crc8(data), CRC_MAXIM.checksum(data));
    }
}

#[test]
fn crc8_round_trip_accepts_appended_checksum() {
    let payloads: [[u8; 8]; 3] = [
        [0x50, 0x05, 0x4b, 0x46, 0x7f, 0xff, 0x0c, 0x10],
        [0x00; 8],
        [0xde, 0xad, 0xbe, 0xef, 0x01, 0x02, 0x03, 0x04],
    ];
    for payload in payloads {
        let mut framed = payload.to_vec();
        framed.push(compute_crc8(&payload));
        assert_eq!(compute_crc8(&framed), 0);
        assert!(Bus::check_crc8(&framed).is_ok());
    }
}

#[test]
fn crc8_rejects_every_single_bit_flip() {
    let payload = [0x50, 0x05, 0x4b, 0x46, 0x7f, 0xff, 0x0c, 0x10];
    let mut framed = payload.to_vec();
    framed.push(compute_crc8(&payload));
    for byte_index in 0..framed.len() {
        for bit in 0..8 {
            let mut corrupted = framed.clone();
            corrupted[byte_index] ^= 1u8 << bit;
            assert_eq!(
                Bus::check_crc8(&corrupted),
                Err(OneWireBusError::ChecksumFailed),
                "flip of bit {bit} in byte {byte_index} went undetected"
            );
        }
    }
}

#[test]
fn check_crc8_rejects_nonzero_residue() {
    assert_eq!(
        Bus::check_crc8(&[0x01]),
        Err(OneWireBusError::ChecksumFailed)
    );
    // The all-zero scratchpad has residue zero and is accepted.
    assert!(Bus::check_crc8(&[0u8; 9]).is_ok());
}
