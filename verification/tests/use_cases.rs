use siren::application::{
    Converse, StreamSpeech, SynthesizeText, TranscribeFile, TranscribeStream, VoiceEvent, VoiceLoop,
};
use siren::audio::{AudioSamples, Utterance, Waveform};
use siren::ports::{
    AudioDecoder, CodingAgent, LiveVoiceAgent, MicrophoneSource, SpeechRecognizer,
    SpeechSynthesizer, StreamingSpeaker, StreamingSynthesizer, VoiceActivityDetector,
};
use siren::{DomainError, Transcript};
use std::cell::RefCell;

struct Voice {
    fail: bool,
    heard: Vec<String>,
}

impl StreamingSynthesizer for Voice {
    type Chunks = Vec<i16>;

    fn stream(&mut self, text: &str) -> Result<Vec<i16>, DomainError> {
        self.heard.push(String::from(text));
        if self.fail {
            Err(DomainError::Model(String::from("no voice")))
        } else {
            Ok(vec![text.len() as i16, 7])
        }
    }
}

impl SpeechSynthesizer<i16> for Voice {
    fn synthesize(&mut self, text: &str) -> Result<Waveform<i16>, DomainError> {
        self.heard.push(String::from(text));
        if self.fail {
            Err(DomainError::Model(String::from("no voice")))
        } else {
            Ok(Waveform::new(vec![text.len() as i16], 24_000))
        }
    }
}

impl LiveVoiceAgent<Vec<i16>> for Voice {
    type Chunks = Vec<i16>;

    fn converse(&mut self, mic: Vec<i16>) -> Result<Vec<i16>, DomainError> {
        if self.fail {
            Err(DomainError::Inference(String::from("no session")))
        } else {
            Ok(mic.iter().map(|x| x * 2).collect())
        }
    }
}

struct Speaker {
    played: RefCell<Vec<Vec<i16>>>,
    fail: bool,
}

impl StreamingSpeaker<Vec<i16>> for Speaker {
    fn play_stream(&self, chunks: Vec<i16>) -> Result<(), DomainError> {
        self.played.borrow_mut().push(chunks);
        if self.fail {
            Err(DomainError::Audio(String::from("no device")))
        } else {
            Ok(())
        }
    }
}

struct Files;

impl AudioDecoder<i16, str> for Files {
    fn decode(&self, path: &str) -> Result<AudioSamples<i16>, DomainError> {
        if path == "speech.wav" {
            Ok(AudioSamples::new(vec![1, 2, 3]))
        } else {
            Err(DomainError::Io(String::from("no such file")))
        }
    }
}

struct Counter {
    calls: usize,
}

impl SpeechRecognizer<i16> for Counter {
    fn transcribe(&mut self, audio: &AudioSamples<i16>) -> Result<Transcript, DomainError> {
        self.calls += 1;
        Ok(Transcript::new(format!("{} samples", audio.len())))
    }
}

fn speaker(fail: bool) -> Speaker {
    Speaker { played: RefCell::new(Vec::new()), fail }
}

#[test]
fn stream_speech_hands_text_to_the_synthesizer_and_chunks_to_the_sink() {
    let mut voice = Voice { fail: false, heard: Vec::new() };
    let sink = speaker(false);
    assert_eq!(StreamSpeech::new(&mut voice).execute("hello", &sink), Ok(()));
    assert_eq!(voice.heard, vec![String::from("hello")]);
    assert_eq!(*sink.played.borrow(), vec![vec![5, 7]]);

    let failing_sink = speaker(true);
    assert_eq!(
        StreamSpeech::new(&mut voice).execute("hi", &failing_sink),
        Err(DomainError::Audio(String::from("no device")))
    );
}

#[test]
fn stream_speech_stops_at_a_synthesizer_error() {
    let mut voice = Voice { fail: true, heard: Vec::new() };
    let sink = speaker(false);
    assert_eq!(
        StreamSpeech::new(&mut voice).execute("hello", &sink),
        Err(DomainError::Model(String::from("no voice")))
    );
    assert!(sink.played.borrow().is_empty());
}

#[test]
fn synthesize_text_gives_the_synthesizer_answer() {
    let mut voice = Voice { fail: false, heard: Vec::new() };
    let wave: Waveform<i16> = SynthesizeText::new(&mut voice).execute("abc").unwrap();
    assert_eq!(wave.samples(), &[3]);
    assert_eq!(wave.sample_rate(), 24_000);
    let mut mute = Voice { fail: true, heard: Vec::new() };
    let r: Result<Waveform<i16>, DomainError> = SynthesizeText::new(&mut mute).execute("abc");
    assert_eq!(r.err(), Some(DomainError::Model(String::from("no voice"))));
}

#[test]
fn converse_plays_the_agent_answer() {
    let mut agent = Voice { fail: false, heard: Vec::new() };
    let sink = speaker(false);
    assert_eq!(Converse::new(&mut agent).execute(vec![1, 2], &sink), Ok(()));
    assert_eq!(*sink.played.borrow(), vec![vec![2, 4]]);

    let mut broken = Voice { fail: true, heard: Vec::new() };
    let quiet = speaker(false);
    assert_eq!(
        Converse::new(&mut broken).execute(vec![1], &quiet),
        Err(DomainError::Inference(String::from("no session")))
    );
    assert!(quiet.played.borrow().is_empty());
}

#[test]
fn transcribe_file_decodes_then_recognizes() {
    let mut counter = Counter { calls: 0 };
    let t = TranscribeFile::new(&Files, &mut counter).execute("speech.wav").unwrap();
    assert_eq!(t.text(), "3 samples");
    assert_eq!(
        TranscribeFile::new(&Files, &mut counter).execute("missing.wav"),
        Err(DomainError::Io(String::from("no such file")))
    );
    assert_eq!(counter.calls, 1);
}

/// Ends an utterance at every zero sample; keeps what follows the last one.
struct Splitter {
    held: Vec<i16>,
    flushes: usize,
}

impl VoiceActivityDetector<i16> for Splitter {
    fn push(&mut self, samples: &[i16]) -> Vec<Utterance<i16>> {
        let mut out = Vec::new();
        for &x in samples {
            if x == 0 {
                out.push(Utterance::new(AudioSamples::new(std::mem::take(&mut self.held))));
            } else {
                self.held.push(x);
            }
        }
        out
    }

    fn flush(&mut self) -> Option<Utterance<i16>> {
        self.flushes += 1;
        if self.held.is_empty() {
            None
        } else {
            Some(Utterance::new(AudioSamples::new(std::mem::take(&mut self.held))))
        }
    }
}

/// Hears each sample as a word: 1 is blank, 9 is a failure.
struct Words {
    calls: usize,
}

impl SpeechRecognizer<i16> for Words {
    fn transcribe(&mut self, audio: &AudioSamples<i16>) -> Result<Transcript, DomainError> {
        self.calls += 1;
        let mut text = String::new();
        for &x in audio.as_slice() {
            if x == 9 {
                return Err(DomainError::Inference(String::from("unheard")));
            }
            if x != 1 {
                text.push_str(&format!(" w{x}"));
            }
        }
        Ok(Transcript::new(text))
    }
}

struct NoMic;

impl MicrophoneSource for NoMic {
    type Blocks = Vec<AudioSamples<i16>>;

    fn open(&self) -> Result<Vec<AudioSamples<i16>>, DomainError> {
        Err(DomainError::Audio(String::from("no microphone")))
    }
}

struct Echo {
    prompts: Vec<String>,
}

impl CodingAgent for Echo {
    fn send(&mut self, prompt: &str) -> Result<String, DomainError> {
        self.prompts.push(String::from(prompt));
        if prompt.contains("w5") {
            Err(DomainError::Inference(String::from("agent failed")))
        } else {
            Ok(format!("done: {prompt}"))
        }
    }
}

fn hear_block(
    stream: &mut TranscribeStream<'_, NoMic, Splitter, Words>,
    block: &[i16],
) -> Result<Vec<String>, DomainError> {
    let mut heard = Vec::new();
    for u in stream.detect(block) {
        if let Some(t) = stream.hear(u.audio())? {
            heard.push(String::from(t.text()));
        }
    }
    Ok(heard)
}

#[test]
fn transcribe_stream_gives_the_heard_transcripts_in_order() {
    let mut vad = Splitter { held: Vec::new(), flushes: 0 };
    let mut words = Words { calls: 0 };
    let mut stream = TranscribeStream::new(&NoMic, &mut vad, &mut words);
    assert!(stream.open().is_err());
    assert_eq!(hear_block(&mut stream, &[2, 3, 0, 1, 0, 4]), Ok(vec![String::from(" w2 w3")]));
    let utterances = stream.detect(&[9, 0, 2, 0]);
    assert_eq!(utterances.len(), 2);
    assert_eq!(stream.hear(utterances[0].audio()), Err(DomainError::Inference(String::from("unheard"))));
    assert_eq!(stream.hear(utterances[1].audio()), Ok(Some(Transcript::new(String::from(" w2")))));
    assert_eq!(stream.finish(), Ok(None));
    drop(stream);
    assert_eq!(words.calls, 4);
    assert_eq!(vad.flushes, 1);
}

#[test]
fn transcribe_stream_finishes_with_the_last_utterance() {
    let mut vad = Splitter { held: Vec::new(), flushes: 0 };
    let mut words = Words { calls: 0 };
    let mut stream = TranscribeStream::new(&NoMic, &mut vad, &mut words);
    assert_eq!(hear_block(&mut stream, &[7, 8]), Ok(Vec::new()));
    assert_eq!(stream.finish(), Ok(Some(Transcript::new(String::from(" w7 w8")))));
    let mut blank = Splitter { held: vec![1], flushes: 0 };
    let mut words = Words { calls: 0 };
    assert_eq!(TranscribeStream::new(&NoMic, &mut blank, &mut words).finish(), Ok(None));
    assert_eq!(words.calls, 1);
}

#[test]
fn voice_turns_step_by_step() {
    let mut vad = Splitter { held: vec![6], flushes: 0 };
    let mut words = Words { calls: 0 };
    let mut agent = Echo { prompts: Vec::new() };
    let mut voice = Voice { fail: false, heard: Vec::new() };
    let sink = speaker(false);
    let mut conversation = VoiceLoop::new(&NoMic, &mut vad, &mut words, &mut agent, &mut voice, &sink);
    assert!(conversation.open().is_err());
    let utterances = conversation.detect(&[2, 0, 1, 0]);
    assert_eq!(utterances.len(), 2);
    let heard = conversation.hear(utterances[0].audio()).unwrap().unwrap();
    assert_eq!(heard.text(), " w6 w2");
    let reply = conversation.ask(heard.text()).unwrap();
    assert_eq!(reply, "done:  w6 w2");
    assert_eq!(conversation.speak::<i16>(&reply), Ok(()));
    assert_eq!(conversation.hear(utterances[1].audio()), Ok(None));
    assert_eq!(conversation.ask(" w5"), Err(DomainError::Inference(String::from("agent failed"))));
    assert_eq!(
        conversation.hear(&AudioSamples::new(vec![9])),
        Err(DomainError::Inference(String::from("unheard")))
    );
    drop(conversation);
    assert_eq!(agent.prompts, vec![String::from(" w6 w2"), String::from(" w5")]);
    assert_eq!(voice.heard, vec![String::from("done:  w6 w2")]);
    assert_eq!(*sink.played.borrow(), vec![vec![12, 7]]);
    assert_eq!(vad.flushes, 1);
}

#[test]
fn a_failed_reply_is_not_flushed_past() {
    let mut vad = Splitter { held: vec![3], flushes: 0 };
    let mut words = Words { calls: 0 };
    let mut agent = Echo { prompts: Vec::new() };
    let mut mute = Voice { fail: true, heard: Vec::new() };
    let sink = speaker(false);
    let mut conversation = VoiceLoop::new(&NoMic, &mut vad, &mut words, &mut agent, &mut mute, &sink);
    assert_eq!(conversation.speak::<i16>("hi"), Err(DomainError::Model(String::from("no voice"))));
    let failing = speaker(true);
    let mut voice = Voice { fail: false, heard: Vec::new() };
    let mut conversation2 = VoiceLoop::new(&NoMic, &mut vad, &mut words, &mut agent, &mut voice, &failing);
    assert_eq!(conversation2.speak::<i16>("hi"), Err(DomainError::Audio(String::from("no device"))));
    drop(conversation2);
    assert_eq!(vad.flushes, 0);
    assert!(sink.played.borrow().is_empty());
}
