use nrsc5_studio::dsp::spectrum::{
    fft_due, iq_batch_start, natural_bin_of, Waterfall, FFT_SIZE, IQ_BATCH_BYTES, WATERFALL_CELLS,
    WATERFALL_ROWS,
};

#[test]
fn fft_shift_puts_dc_in_the_middle() {
    assert_eq!(natural_bin_of(0), 512);
    assert_eq!(natural_bin_of(511), 1023);
    assert_eq!(natural_bin_of(512), 0);
    assert_eq!(natural_bin_of(1023), 511);
    for k in 0..FFT_SIZE {
        assert_eq!(natural_bin_of(natural_bin_of(k)), k);
    }
}

#[test]
fn batch_uses_the_newest_bytes() {
    assert_eq!(IQ_BATCH_BYTES, 2048);
    assert_eq!(iq_batch_start(0), None);
    assert_eq!(iq_batch_start(2047), None);
    assert_eq!(iq_batch_start(2048), Some(0));
    assert_eq!(iq_batch_start(16384), Some(14336));
}

#[test]
fn throttle() {
    assert!(fft_due(None, 33_333_333));
    assert!(!fft_due(Some(33_333_332), 33_333_333));
    assert!(fft_due(Some(33_333_333), 33_333_333));
}

#[test]
fn waterfall_rows_scroll() {
    let mut w = Waterfall::new();
    assert_eq!(w.head_row(), 0);
    assert_eq!(w.generation_count(), 0);
    let row: Vec<u8> = (0..FFT_SIZE).map(|i| (i % 251) as u8).collect();
    w.push_row(&row);
    assert_eq!(w.head_row(), 1);
    assert_eq!(w.generation_count(), 1);
    let mut out = Vec::new();
    w.copy_cells_into(&mut out);
    assert_eq!(out.len(), WATERFALL_CELLS);
    for k in 0..FFT_SIZE {
        assert_eq!(out[k], row[natural_bin_of(k)]);
    }
    assert!(out[FFT_SIZE..].iter().all(|&c| c == 0));
    for _ in 1..WATERFALL_ROWS {
        w.push_row(&vec![7u8; FFT_SIZE]);
    }
    assert_eq!(w.head_row(), 0);
    assert_eq!(w.generation_count(), WATERFALL_ROWS as u64);
    w.push_row(&vec![9u8; FFT_SIZE]);
    let mut out2 = vec![1u8; 3];
    w.copy_cells_into(&mut out2);
    assert_eq!(out2.len(), WATERFALL_CELLS);
    assert!(out2[..FFT_SIZE].iter().all(|&c| c == 9));
    assert!(out2[FFT_SIZE..].iter().all(|&c| c == 7));
}
