use siren::audio::{padded_windows, AudioSamples, Utterance, Waveform, SAMPLE_RATE};
use siren::sse::{sse_data, LineBuffer};
use siren::vad::{EnergyVad, MAX_SILENCE_FRAMES, MIN_SPEECH_FRAMES};
use siren::wav::{pcm16_from_le, pcm16_le, wav_bytes, wav_header};

#[test]
fn line_buffer_gives_complete_lines_in_order() {
    let mut b = LineBuffer::new();
    b.extend(b"data: a\nda");
    assert_eq!(b.next_line(), Some(b"data: a\n".to_vec()));
    assert_eq!(b.next_line(), None);
    b.extend(b"ta: b\n\nrest");
    let lines = b.drain_lines();
    assert_eq!(lines, vec![b"data: b\n".to_vec(), b"\n".to_vec()]);
    assert_eq!(b.next_line(), None);
    b.extend(b"\n");
    assert_eq!(b.drain_lines(), vec![b"rest\n".to_vec()]);
}

#[test]
fn line_split_does_not_depend_on_chunking() {
    let stream: &[u8] = b"data: one\n\ndata: two\r\nda";
    let mut whole = LineBuffer::new();
    whole.extend(stream);
    let all = whole.drain_lines();
    let mut pieces = LineBuffer::new();
    let mut got = Vec::new();
    for chunk in stream.chunks(3) {
        pieces.extend(chunk);
        got.extend(pieces.drain_lines());
    }
    assert_eq!(got, all);
    assert_eq!(all.len(), 3);
    pieces.extend(b"ta: three\n");
    whole.extend(b"ta: three\n");
    assert_eq!(pieces.drain_lines(), whole.drain_lines());
}

#[test]
fn event_stream_data() {
    assert_eq!(sse_data(b"data: {\"a\":1}\r\n"), Some(String::from("{\"a\":1}")));
    assert_eq!(sse_data(b"  data:x"), Some(String::from("x")));
    assert_eq!(sse_data(b"data: [DONE]\n"), None);
    assert_eq!(sse_data(b"data:   \n"), None);
    assert_eq!(sse_data(b": keep-alive\n"), None);
    assert_eq!(sse_data(b"event: x\n"), None);
    assert_eq!(sse_data(&[b'd', b'a', b't', b'a', b':', 0xff]), Some(String::from("\u{fffd}")));
}

#[test]
fn wav_header_is_the_44_byte_riff_header() {
    let h = wav_header(3, 16_000);
    let mut expected: Vec<u8> = Vec::new();
    expected.extend_from_slice(b"RIFF");
    expected.extend_from_slice(&(36u32 + 6).to_le_bytes());
    expected.extend_from_slice(b"WAVEfmt ");
    expected.extend_from_slice(&16u32.to_le_bytes());
    expected.extend_from_slice(&1u16.to_le_bytes());
    expected.extend_from_slice(&1u16.to_le_bytes());
    expected.extend_from_slice(&16_000u32.to_le_bytes());
    expected.extend_from_slice(&32_000u32.to_le_bytes());
    expected.extend_from_slice(&2u16.to_le_bytes());
    expected.extend_from_slice(&16u16.to_le_bytes());
    expected.extend_from_slice(b"data");
    expected.extend_from_slice(&6u32.to_le_bytes());
    assert_eq!(h, expected);
    assert_eq!(h.len(), 44);
}

#[test]
fn pcm_round_trips() {
    let samples: Vec<i16> = vec![0, 1, -1, i16::MAX, i16::MIN, 12345, -12345];
    let bytes = pcm16_le(&samples);
    let expected: Vec<u8> = samples.iter().flat_map(|s| s.to_le_bytes()).collect();
    assert_eq!(bytes, expected);
    assert_eq!(pcm16_from_le(&bytes), samples);
    assert_eq!(pcm16_from_le(&[1, 0, 0xff, 0xff, 7]), vec![1, -1]);
    let wav = wav_bytes(&samples, 24_000);
    assert_eq!(wav.len(), 44 + 2 * samples.len());
    assert_eq!(&wav[44..], &bytes[..]);
}

#[test]
fn windows_are_padded() {
    let w = padded_windows(&[1, 2, 3, 4, 5], 2, 0);
    assert_eq!(w, vec![vec![1, 2], vec![3, 4], vec![5, 0]]);
    assert_eq!(padded_windows(&[1, 2], 2, 0), vec![vec![1, 2]]);
    assert!(padded_windows::<i32>(&[], 3, 0).is_empty());
}

#[test]
fn audio_values() {
    let a = AudioSamples::new(vec![1i16, 2, 3]);
    assert_eq!(a.len(), 3);
    assert!(!a.is_empty());
    assert_eq!(a.as_slice(), &[1, 2, 3]);
    let u = Utterance::new(a);
    assert_eq!(u.audio().len(), 3);
    let w = Waveform::new(vec![0i16; 4], 24_000);
    assert_eq!(w.sample_rate(), 24_000);
    assert_eq!(w.len(), 4);
    assert!(!w.is_empty());
    assert!(AudioSamples::<i16>::new(Vec::new()).is_empty());
    assert_eq!(SAMPLE_RATE, 16_000);
}

fn feed(vad: &mut EnergyVad<i16>, loud: &[bool]) -> Vec<Vec<i16>> {
    let mut out = Vec::new();
    for (i, &l) in loud.iter().enumerate() {
        let frame = vec![i as i16; vad.frame_len()];
        if let Some(u) = vad.process_frame(&frame, l) {
            out.push(u);
        }
    }
    out
}

#[test]
fn vad_frames_incoming_audio() {
    let mut vad: EnergyVad<i16> = EnergyVad::new();
    assert_eq!(vad.frame_len(), 320);
    let frames = vad.take_frames(&vec![1i16; 700]);
    assert_eq!(frames.len(), 2);
    assert!(frames.iter().all(|f| f.len() == 320));
    let frames = vad.take_frames(&vec![2i16; 260]);
    assert_eq!(frames.len(), 1);
    assert_eq!(frames[0][..60], vec![1i16; 60][..]);
    assert_eq!(frames[0][60..], vec![2i16; 260][..]);
}

#[test]
fn vad_ends_an_utterance_after_enough_silence() {
    let mut vad: EnergyVad<i16> = EnergyVad::new();
    let mut loud = vec![false; 3];
    loud.extend(vec![true; MIN_SPEECH_FRAMES]);
    loud.extend(vec![false; MAX_SILENCE_FRAMES]);
    let out = feed(&mut vad, &loud);
    assert_eq!(out.len(), 1);
    assert_eq!(out[0].len(), (MIN_SPEECH_FRAMES + MAX_SILENCE_FRAMES) * 320);
    assert_eq!(out[0][0], 3);
    assert_eq!(vad.flush(), None);
}

#[test]
fn vad_drops_short_utterances_and_flushes_long_ones() {
    let mut vad: EnergyVad<i16> = EnergyVad::new();
    let mut loud = vec![true; MIN_SPEECH_FRAMES - 1];
    loud.extend(vec![false; MAX_SILENCE_FRAMES]);
    assert!(feed(&mut vad, &loud).is_empty());
    let out = feed(&mut vad, &vec![true; MIN_SPEECH_FRAMES]);
    assert!(out.is_empty());
    let last = vad.flush().unwrap();
    assert_eq!(last.len(), MIN_SPEECH_FRAMES * 320);
    assert_eq!(vad.flush(), None);
    let mut short: EnergyVad<i16> = EnergyVad::default();
    feed(&mut short, &[true, false]);
    assert_eq!(short.flush(), None);
}

#[test]
fn vad_push_frames_matches_frame_by_frame() {
    let mut a: EnergyVad<i16> = EnergyVad::new();
    let mut b: EnergyVad<i16> = EnergyVad::new();
    let mut loud = vec![true; 12];
    loud.extend(vec![false; 40]);
    loud.extend(vec![true; 11]);
    loud.extend(vec![false; 35]);
    let frames: Vec<Vec<i16>> = (0..loud.len()).map(|i| vec![i as i16; 320]).collect();
    let out = a.push_frames(&frames, &loud);
    assert_eq!(out, feed(&mut b, &loud));
    assert_eq!(out.len(), 2);
}

fn push_block(vad: &mut EnergyVad<i16>, block: &[i16]) -> Vec<Vec<i16>> {
    let frames = vad.take_frames(block);
    let loud: Vec<bool> = frames.iter().map(|f| f.iter().any(|&x| x > 100)).collect();
    vad.push_frames(&frames, &loud)
}

#[test]
fn vad_does_not_depend_on_how_blocks_are_split() {
    let mut samples = vec![500i16; 320 * 12 + 17];
    samples.extend(vec![0i16; 320 * 36]);
    samples.extend(vec![900i16; 320 * 3]);
    let mut whole: EnergyVad<i16> = EnergyVad::new();
    let at_once = push_block(&mut whole, &samples);
    let mut pieces: EnergyVad<i16> = EnergyVad::new();
    let mut in_blocks = Vec::new();
    for block in samples.chunks(1000) {
        in_blocks.extend(push_block(&mut pieces, block));
    }
    assert_eq!(in_blocks, at_once);
    assert_eq!(at_once.len(), 1);
    assert_eq!(at_once[0].len() % 320, 0);
    assert!(at_once[0].len() >= (MIN_SPEECH_FRAMES + MAX_SILENCE_FRAMES) * 320);
    assert_eq!(pieces.flush(), whole.flush());
}
