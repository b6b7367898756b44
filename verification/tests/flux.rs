//! Flux, PLL, and MFM processing.

use fluxbridge::flux::pll::{CLOCK_MAX_NS, CLOCK_MIN_NS};
use fluxbridge::flux::{
    bits_to_unaligned_revolution, flux_to_revolution, flux_to_unaligned_revolution, mfm_to_flux,
    pack_bits, rotate_revolution, scan_revolution, FluxEvent, PllDecoder, RevolutionScan,
    MAX_TRACK_BITS,
};
use fluxbridge::{Error, ErrorKind};

const MASK: u32 = 0x5555_5555;

#[test]
fn ideal_mfm_intervals_decode() {
    let mut pll = PllDecoder::new();
    let mut bits = Vec::new();
    for interval in [4_000, 6_000, 8_000] {
        pll.submit(interval, &mut bits);
    }
    assert_eq!(
        bits,
        [false, true, false, false, true, false, false, false, true]
    );
}

#[test]
fn clock_adjustment_is_bounded() {
    let mut pll = PllDecoder::new();
    let mut bits = Vec::new();
    for _ in 0..10_000 {
        pll.submit(4_400, &mut bits);
    }
    assert!((CLOCK_MIN_NS..=CLOCK_MAX_NS).contains(&pll.clock_nanoseconds()));
}

#[test]
fn reset_restores_the_nominal_clock() {
    let mut pll = PllDecoder::new();
    let nominal = pll.clock_nanoseconds();
    let mut bits = Vec::new();
    for _ in 0..100 {
        pll.submit(4_400, &mut bits);
    }
    assert_ne!(pll.clock_nanoseconds(), nominal);
    pll.reset();
    assert_eq!(pll.clock_nanoseconds(), nominal);
}

#[test]
fn rotation_crosses_word_boundary() {
    let words = [0x8001, 0x4000];
    let rotated = rotate_revolution(&words, 32, 15).unwrap();
    assert_eq!(rotated, vec![0xa000, 0x4000]);
}

#[test]
fn full_and_added_rotations_agree() {
    let words = [0x8f31, 0x4a02, 0x7000];
    let there = rotate_revolution(&words, 37, 11).unwrap();
    let back = rotate_revolution(&there, 37, 26).unwrap();
    assert_eq!(back, rotate_revolution(&words, 37, 37).unwrap());
    assert_eq!(back, rotate_revolution(&words, 37, 0).unwrap());
}

#[test]
fn rotation_rejects_impossible_lengths() {
    for length in [0, 17] {
        let error = rotate_revolution(&[0xffff], length, 0).unwrap_err();
        assert_eq!(
            error.message(),
            "device protocol error: invalid packed revolution length"
        );
    }
}

#[test]
fn packing_is_most_significant_first_and_zero_filled() {
    assert_eq!(pack_bits(&[true, false, true]), vec![0xa000]);
    let mut bits = vec![false; 16];
    bits.push(true);
    assert_eq!(pack_bits(&bits), vec![0, 0x8000]);
    assert!(pack_bits(&[]).is_empty());
}

#[test]
fn write_conversion_honours_exact_bit_length() {
    let flux = mfm_to_flux(&[0x9000], 4, 2_000).unwrap();
    assert_eq!(flux, vec![2_000, 6_000]);
}

#[test]
fn write_conversion_keeps_trailing_cells() {
    assert_eq!(mfm_to_flux(&[0x9000], 7, 2_000).unwrap(), vec![2_000, 6_000, 6_000]);
}

#[test]
fn write_conversion_rejects_what_it_cannot_hold() {
    assert_eq!(
        mfm_to_flux(&[0x9000], 17, 2_000).unwrap_err().message(),
        "invalid bridge configuration: bit length 17 does not fit 1 MFM words"
    );
    let long = vec![0x8000_u16; MAX_TRACK_BITS / 16 + 1];
    assert_eq!(
        mfm_to_flux(&long, MAX_TRACK_BITS + 1, 2_000).unwrap_err().kind(),
        ErrorKind::TrackTooLarge
    );
    assert_eq!(
        mfm_to_flux(&[0x0001], 16, u32::MAX).unwrap_err().message(),
        "invalid bridge configuration: flux interval nanoseconds overflow"
    );
    assert_eq!(
        mfm_to_flux(&[0x0000], 16, u32::MAX).unwrap_err().message(),
        "invalid bridge configuration: trailing flux interval overflow"
    );
}

#[test]
fn indexed_flux_extracts_one_revolution() {
    let events = [
        FluxEvent {
            nanoseconds: 4_000,
            index: false,
        },
        FluxEvent {
            nanoseconds: 4_000,
            index: true,
        },
    ];
    let mut events = events.to_vec();
    events.extend((0..40).map(|_| FluxEvent {
        nanoseconds: 4_000,
        index: false,
    }));
    events.push(FluxEvent {
        nanoseconds: 4_000,
        index: true,
    });
    let (_, bits, indexed) = flux_to_revolution(&events).unwrap();
    assert!(indexed);
    assert!(bits >= 64);
    assert_eq!(bits, 82);
}

#[test]
fn short_and_endless_flux_is_refused() {
    let event = FluxEvent { nanoseconds: 4_000, index: false };
    let short = vec![event; 31];
    assert_eq!(
        flux_to_revolution(&short).unwrap_err().message(),
        "device protocol error: flux stream did not contain a complete revolution"
    );
    let (_, bits, indexed) = flux_to_revolution(&vec![event; 32]).unwrap();
    assert_eq!((bits, indexed), (64, false));
    let endless = vec![event; MAX_TRACK_BITS / 2 + 1];
    match flux_to_revolution(&endless) {
        Err(Error::TrackTooLarge { bits, limit }) => {
            assert_eq!(bits, MAX_TRACK_BITS + 2);
            assert_eq!(limit, MAX_TRACK_BITS);
        }
        other => panic!("unexpected {other:?}"),
    }
}

#[test]
fn a_written_track_reads_back() {
    let words = vec![0x9224_u16; 40];
    let flux = mfm_to_flux(&words, 640, 2_000).unwrap();
    let mut events = Vec::new();
    for nanoseconds in flux {
        events.push(FluxEvent { nanoseconds, index: false });
    }
    let mut pll = PllDecoder::new();
    let mut bits = Vec::new();
    for event in &events {
        pll.submit(event.nanoseconds, &mut bits);
    }
    let mut written = (0_usize..640)
        .map(|at| words[at / 16] & (1 << (15 - at % 16)) != 0)
        .collect::<Vec<_>>();
    // Flux ends with a transition, so the last cell comes back as one.
    assert!(!written[639]);
    written[639] = true;
    assert_eq!(bits, written);
}

fn noise(length: usize) -> Vec<bool> {
    let mut state = 0x1234_5678_u32;
    (0_usize..length)
        .map(|_| {
            state ^= state << 13;
            state ^= state >> 17;
            state ^= state << 5;
            state & 1 != 0
        })
        .collect::<Vec<_>>()
}

#[test]
fn repeated_immediate_capture_finds_its_join() {
    let mut state = 0x1234_5678_u32;
    let revolution = (0_usize..100_003)
        .map(|_| {
            state ^= state << 13;
            state ^= state >> 17;
            state ^= state << 5;
            state & 1 != 0
        })
        .collect::<Vec<_>>();
    let mut capture = revolution.clone();
    capture.extend_from_slice(&revolution[..20_000]);
    assert_eq!(
        bits_to_unaligned_revolution(&capture, false).unwrap(),
        revolution
    );
}

#[test]
fn unprovable_joins_are_refused() {
    assert_eq!(
        bits_to_unaligned_revolution(&noise(91_216), false).unwrap_err().message(),
        "device protocol error: immediate capture is too short to locate a revolution overlap"
    );
    let error = bits_to_unaligned_revolution(&noise(92_000), false).unwrap_err();
    assert!(error
        .message()
        .starts_with("device protocol error: could not locate a reliable revolution overlap"));
    assert_eq!(
        flux_to_unaligned_revolution(&[], false).unwrap_err().kind(),
        ErrorKind::Protocol
    );
}

fn push_long(bits: &mut Vec<bool>, value: u32) {
    bits.extend((0..32).rev().map(|bit| value & (1 << bit) != 0));
}

fn encode_sector(track: u8, sector: u8) -> Vec<bool> {
    let mut bits = Vec::new();
    bits.extend((0..16).rev().map(|bit| 0x2aaa & (1 << bit) != 0));
    bits.extend((0..16).rev().map(|bit| 0x4489 & (1 << bit) != 0));
    bits.extend((0..16).rev().map(|bit| 0x4489 & (1 << bit) != 0));
    let info = u32::from_be_bytes([0xff, track, sector, 1]);
    let odd = (info >> 1) & MASK;
    let even = info & MASK;
    push_long(&mut bits, odd);
    push_long(&mut bits, even);
    for _ in 0..8 {
        push_long(&mut bits, 0);
    }
    let header_checksum = odd ^ even;
    push_long(&mut bits, (header_checksum >> 1) & MASK);
    push_long(&mut bits, header_checksum & MASK);
    push_long(&mut bits, 0);
    push_long(&mut bits, 0);
    for _ in 0..256 {
        push_long(&mut bits, 0);
    }
    bits
}

fn track() -> (Vec<u16>, usize) {
    let mut bits = Vec::new();
    for sector in 0..11 {
        bits.extend(encode_sector(40, sector));
    }
    bits.extend(std::iter::repeat_n(false, 1_400));
    (pack_bits(&bits), bits.len())
}

#[test]
fn clean_and_rotated_tracks_verify() {
    let (words, bits) = track();
    assert_eq!(
        scan_revolution(&words, bits),
        RevolutionScan::CleanAmigaDos { sectors: 11 }
    );
    let rotated = rotate_revolution(&words, bits, bits / 3).unwrap();
    assert_eq!(
        scan_revolution(&rotated, bits),
        RevolutionScan::CleanAmigaDos { sectors: 11 }
    );
}

#[test]
fn one_bad_sector_damages_a_track() {
    let (mut words, bits) = track();
    words[100] ^= 0x0001;
    assert_eq!(
        scan_revolution(&words, bits),
        RevolutionScan::DamagedAmigaDos { good: 10, expected: 11 }
    );
}

#[test]
fn malformed_lengths_are_unrecognised() {
    assert_eq!(scan_revolution(&[0xffff], 32), RevolutionScan::Unrecognised);
}
