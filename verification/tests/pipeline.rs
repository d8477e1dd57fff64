use spectrum_core::{extract_channel, CapturePipeline};

#[test]
fn extraction_stride_two_keeps_channel_zero() {
    // Interleaved stereo: L, R, L, R, ... — only the left channel is kept.
    let data = vec![0u32, 100, 1, 101, 2, 102, 3, 103];
    let mono = extract_channel(&data, 2);
    assert_eq!(mono, vec![0, 1, 2, 3]);
}

#[test]
fn extraction_stride_one_keeps_every_sample() {
    let data = vec![5u32, 6, 7, 8, 9];
    let mono = extract_channel(&data, 1);
    assert_eq!(mono, data);
}

#[test]
fn extraction_keeps_first_of_partial_group() {
    // Seven samples at stride three: groups (0 1 2) (3 4 5) (6).
    let data = vec![0u32, 1, 2, 3, 4, 5, 6];
    let mono = extract_channel(&data, 3);
    assert_eq!(mono, vec![0, 3, 6]);
}

#[test]
fn extraction_of_empty_buffer_is_empty() {
    let data: Vec<u32> = Vec::new();
    let mono = extract_channel(&data, 4);
    assert!(mono.is_empty());
}

#[test]
fn single_delivery_completes_several_frames() {
    let mut p = CapturePipeline::new(4, 1);
    let data: Vec<u32> = (0..10).collect();
    let frames = p.ingest(&data);
    assert_eq!(frames.len(), 2);
    assert_eq!(frames[0], vec![0, 1, 2, 3]);
    assert_eq!(frames[1], vec![4, 5, 6, 7]);
    assert_eq!(p.pending_len(), 2);
}

#[test]
fn frame_spans_two_deliveries() {
    let mut p = CapturePipeline::new(4, 1);
    let frames = p.ingest(&vec![0u32, 1, 2]);
    assert!(frames.is_empty());
    assert_eq!(p.pending_len(), 3);
    let frames = p.ingest(&vec![3u32, 4, 5]);
    assert_eq!(frames.len(), 1);
    assert_eq!(frames[0], vec![0, 1, 2, 3]);
    assert_eq!(p.pending_len(), 2);
}

#[test]
fn empty_delivery_completes_nothing() {
    let mut p = CapturePipeline::new(4, 2);
    let frames = p.ingest(&Vec::new());
    assert!(frames.is_empty());
    assert_eq!(p.pending_len(), 0);
}

#[test]
fn interleaved_delivery_frames_channel_zero() {
    // Two channels, eight interleaved samples, frames of three: channel 0 is
    // 0 1 2 3, so one frame completes and one sample stays pending.
    let data = vec![0u32, 900, 1, 901, 2, 902, 3, 903];
    let mut p = CapturePipeline::new(3, 2);
    let frames = p.ingest(&data);
    assert_eq!(frames.len(), 1);
    assert_eq!(frames[0], vec![0, 1, 2]);
    assert_eq!(p.pending_len(), 1);
}

#[test]
fn two_channel_full_buffer_completes_one_frame() {
    // 1024 frames of two channels delivered at once: channel 0 all 1.0,
    // channel 1 all -1.0 — exactly one frame, every sample 1.0.
    let one = 1.0f32.to_bits();
    let minus_one = (-1.0f32).to_bits();
    let mut data = Vec::new();
    for _ in 0..1024 {
        data.push(one);
        data.push(minus_one);
    }
    let mut p = CapturePipeline::new(1024, 2);
    let frames = p.ingest(&data);
    assert_eq!(frames.len(), 1);
    assert_eq!(frames[0].len(), 1024);
    assert!(frames[0].iter().all(|&w| w == one));
    assert_eq!(p.pending_len(), 0);
}
