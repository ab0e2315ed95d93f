use wotold_core::wav::{keep_orphan_recording, wav_scan_request, wav_scan_start, wav_scan_step, WavLayout, WavScan};

fn wav_bytes(byte_rate: u32, data_len: usize, data_size_field: u32) -> Vec<u8> {
    let mut b: Vec<u8> = Vec::new();
    b.extend_from_slice(b"RIFF");
    b.extend_from_slice(&0u32.to_le_bytes());
    b.extend_from_slice(b"WAVE");
    b.extend_from_slice(b"fmt ");
    b.extend_from_slice(&16u32.to_le_bytes());
    b.extend_from_slice(&1u16.to_le_bytes());
    b.extend_from_slice(&1u16.to_le_bytes());
    b.extend_from_slice(&16_000u32.to_le_bytes());
    b.extend_from_slice(&byte_rate.to_le_bytes());
    b.extend_from_slice(&2u16.to_le_bytes());
    b.extend_from_slice(&16u16.to_le_bytes());
    b.extend_from_slice(b"data");
    b.extend_from_slice(&data_size_field.to_le_bytes());
    b.extend(std::iter::repeat(0u8).take(data_len));
    b
}

fn scan(file: &[u8]) -> Option<WavLayout> {
    let mut s = wav_scan_start();
    loop {
        match wav_scan_request(&s) {
            None => match s {
                WavScan::Done(r) => return r,
                _ => unreachable!(),
            },
            Some((off, len)) => {
                let off = off as usize;
                let got = if off + len <= file.len() { Some(&file[off..off + len]) } else { None };
                s = wav_scan_step(s, got);
            }
        }
    }
}

fn duration_secs(file: &[u8]) -> Option<f64> {
    let l = scan(file)?;
    let len = file.len() as u64;
    if l.byte_rate == 0 || len <= l.data_offset {
        return None;
    }
    Some((len - l.data_offset) as f64 / l.byte_rate as f64)
}

#[test]
fn duration_uses_file_size_not_header_field() {
    let d = duration_secs(&wav_bytes(32_000, 64_000, 0)).expect("duration");
    assert!((d - 2.0).abs() < 0.05, "expected ~2.0s, got {d}");
}

#[test]
fn duration_correct_with_valid_header() {
    let d = duration_secs(&wav_bytes(32_000, 16_000, 16_000)).expect("duration");
    assert!((d - 0.5).abs() < 0.05, "expected ~0.5s, got {d}");
}

#[test]
fn duration_none_for_missing_or_nonwav() {
    assert!(duration_secs(b"").is_none());
    assert!(duration_secs(b"not a wav file at all").is_none());
}

#[test]
fn layout_is_exact_and_skips_other_chunks() {
    assert_eq!(scan(&wav_bytes(32_000, 10, 10)), Some(WavLayout { byte_rate: 32_000, data_offset: 44 }));
    let mut b = wav_bytes(8_000, 4, 4);
    let list: Vec<u8> = [b"LIST".as_slice(), &3u32.to_le_bytes(), b"abc", &[0u8]].concat();
    b.splice(12..12, list);
    assert_eq!(scan(&b), Some(WavLayout { byte_rate: 8_000, data_offset: 56 }));
}

#[test]
fn absurd_fmt_size_is_rejected() {
    let mut b = wav_bytes(32_000, 10, 10);
    b[16..20].copy_from_slice(&4096u32.to_le_bytes());
    assert_eq!(scan(&b), None);
}

#[test]
fn data_before_fmt_gives_no_layout() {
    let mut b: Vec<u8> = Vec::new();
    b.extend_from_slice(b"RIFF");
    b.extend_from_slice(&0u32.to_le_bytes());
    b.extend_from_slice(b"WAVE");
    b.extend_from_slice(b"data");
    b.extend_from_slice(&4u32.to_le_bytes());
    b.extend_from_slice(&[0, 0, 0, 0]);
    assert_eq!(scan(&b), None);
}

#[test]
fn orphans_under_thirty_seconds_are_discarded() {
    let l = WavLayout { byte_rate: 1000, data_offset: 44 };
    assert!(keep_orphan_recording(Some(l), 44 + 30_000));
    assert!(!keep_orphan_recording(Some(l), 44 + 29_999));
    assert!(!keep_orphan_recording(None, 1_000_000));
    assert!(!keep_orphan_recording(Some(WavLayout { byte_rate: 0, data_offset: 44 }), 1_000_000));
}

#[test]
fn scan_ends_within_its_step_bound() {
    let files: Vec<Vec<u8>> = vec![
        Vec::new(),
        b"RIFF\0\0\0\0WAVE".to_vec(),
        wav_bytes(32_000, 100, 100),
        [b"RIFF\0\0\0\0WAVE".as_slice(), &[b'J', b'U', b'N', b'K', 0, 0, 0, 0].repeat(20)].concat(),
    ];
    for file in files {
        let mut s = wav_scan_start();
        let mut steps = 0usize;
        while let Some((off, len)) = wav_scan_request(&s) {
            let off = off as usize;
            let got = if off + len <= file.len() { Some(&file[off..off + len]) } else { None };
            s = wav_scan_step(s, got);
            steps += 1;
        }
        assert!(steps <= 2 * file.len() + 4);
        assert!(matches!(s, WavScan::Done(_)));
    }
}
