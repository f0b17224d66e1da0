use vstd::prelude::*;
use crate::audio::{AudioSamples, Utterance, Waveform};
use crate::error::DomainError;
use crate::transcript::Transcript;

verus! {

/// Turns audio into text.
///
/// What a recognizer hears rests on a service or a model, so the trait says
/// no more of `transcribe` than that its result is one that the
/// implementation's own `transcribe_outcome` admits for the samples it was
/// handed.
pub trait SpeechRecognizer<S> {
    /// Whether `r` is an answer that this recognizer may give to `samples`.
    /// By default every result is admitted: an implementation that says
    /// nothing of its results promises nothing.
    open spec fn transcribe_outcome(&self, samples: Seq<S>, r: Result<Transcript, DomainError>) -> bool {
        true
    }

    fn transcribe(&mut self, audio: &AudioSamples<S>) -> (r: Result<Transcript, DomainError>)
        ensures
            old(self).transcribe_outcome(audio@, r),
    ;
}

/// Turns text into a whole waveform.
///
/// What a synthesizer answers rests on a service or a model, so the trait
/// says no more of `synthesize` than that its result is one that the
/// implementation's own `synthesize_outcome` admits for the text it was
/// handed.
pub trait SpeechSynthesizer<S> {
    /// Whether `r` is an answer that this synthesizer may give to `text`.
    /// By default every result is admitted: an implementation that says
    /// nothing of its results promises nothing.
    open spec fn synthesize_outcome(&self, text: Seq<char>, r: Result<Waveform<S>, DomainError>) -> bool {
        true
    }

    fn synthesize(&mut self, text: &str) -> (r: Result<Waveform<S>, DomainError>)
        ensures
            old(self).synthesize_outcome(text@, r),
    ;
}

/// Turns text into waveform chunks as they are produced.
///
/// What a synthesizer answers rests on a service or a model, so the trait
/// says no more of `stream` than that its result is one that the
/// implementation's own `stream_outcome` admits for the text it was handed.
pub trait StreamingSynthesizer {
    /// The chunks, in the order they are to be played.
    type Chunks;

    /// Whether `r` is an answer that this synthesizer may give to `text`.
    /// By default every result is admitted: an implementation that says
    /// nothing of its results promises nothing.
    open spec fn stream_outcome(&self, text: Seq<char>, r: Result<Self::Chunks, DomainError>) -> bool {
        true
    }

    fn stream(&mut self, text: &str) -> (r: Result<Self::Chunks, DomainError>)
        ensures
            old(self).stream_outcome(text@, r),
    ;
}

/// Holds a realtime voice conversation: microphone blocks in, voice chunks
/// out.
///
/// What the agent answers rests on a service, so the trait says no more of
/// `converse` than that its result is one that the implementation's own
/// `converse_outcome` admits for the microphone it was handed.
pub trait LiveVoiceAgent<Mic> {
    /// The voice chunks, in the order they are to be played.
    type Chunks;

    /// Whether `r` is an answer that this agent may give to `mic`.
    /// By default every result is admitted: an implementation that says
    /// nothing of its results promises nothing.
    open spec fn converse_outcome(&self, mic: Mic, r: Result<Self::Chunks, DomainError>) -> bool {
        true
    }

    fn converse(&mut self, mic: Mic) -> (r: Result<Self::Chunks, DomainError>)
        ensures
            old(self).converse_outcome(mic, r),
    ;
}

/// Answers a prompt in text.
///
/// What the agent answers rests on a program or a service, so the trait says
/// no more of `send` than that its result is one that the implementation's
/// own `send_outcome` admits for the prompt it was handed.
pub trait CodingAgent {
    /// Whether `r` is an answer that this agent may give to `prompt`.
    /// By default every result is admitted: an implementation that says
    /// nothing of its results promises nothing.
    open spec fn send_outcome(&self, prompt: Seq<char>, r: Result<String, DomainError>) -> bool {
        true
    }

    fn send(&mut self, prompt: &str) -> (r: Result<String, DomainError>)
        ensures
            old(self).send_outcome(prompt@, r),
    ;
}

/// Plays waveform chunks as they arrive.
///
/// Whether playing succeeds rests on the audio device; the trait says no
/// more than that the result is one that `play_outcome` admits for the
/// chunks handed over.
pub trait StreamingSpeaker<Chunks> {
    /// Whether `r` is an outcome of playing `chunks` on this speaker.
    /// By default every result is admitted: an implementation that says
    /// nothing of its results promises nothing.
    open spec fn play_outcome(&self, chunks: Chunks, r: Result<(), DomainError>) -> bool {
        true
    }

    fn play_stream(&self, chunks: Chunks) -> (r: Result<(), DomainError>)
        ensures
            self.play_outcome(chunks, r),
    ;
}

/// Stores a waveform at a path.
pub trait WaveformWriter<S, P: ?Sized> {
    fn write(&self, waveform: &Waveform<S>, path: &P) -> Result<(), DomainError>;
}

/// Plays a whole waveform.
pub trait SpeakerSink<S> {
    fn play(&self, waveform: &Waveform<S>) -> Result<(), DomainError>;
}

/// Reads the audio of a file at the engine's rate.
///
/// What a file holds rests on the disk, so the trait says no more of
/// `decode` than that its result is one that the implementation's own
/// `decode_outcome` admits for the path it was handed.
pub trait AudioDecoder<S, P: ?Sized> {
    /// Whether `r` is an outcome of decoding the file at `path`.
    /// By default every result is admitted: an implementation that says
    /// nothing of its results promises nothing.
    open spec fn decode_outcome(&self, path: &P, r: Result<AudioSamples<S>, DomainError>) -> bool {
        true
    }

    fn decode(&self, path: &P) -> (r: Result<AudioSamples<S>, DomainError>)
        ensures
            self.decode_outcome(path, r),
    ;
}

/// Cuts a stream of samples into utterances.
///
/// Where utterances end depends on how the implementation judges the audio,
/// so the trait says no more of `push` and `flush` than that their results
/// are ones that the implementation's own `push_outcome` and
/// `flush_outcome` admit.
pub trait VoiceActivityDetector<S> {
    /// Whether `r` are utterances that this detector may end when `samples`
    /// come in. By default every result is admitted: an implementation that
    /// says nothing of its results promises nothing.
    open spec fn push_outcome(&self, samples: Seq<S>, r: Seq<Utterance<S>>) -> bool {
        true
    }

    /// Whether `r` is what this detector may give out when the input ends.
    /// By default every result is admitted.
    open spec fn flush_outcome(&self, r: Option<Utterance<S>>) -> bool {
        true
    }

    fn push(&mut self, samples: &[S]) -> (r: Vec<Utterance<S>>)
        ensures
            old(self).push_outcome(samples@, r@),
    ;

    fn flush(&mut self) -> (r: Option<Utterance<S>>)
        ensures
            old(self).flush_outcome(r),
    ;
}

/// Gives the microphone's audio as blocks at the engine's rate.
///
/// Whether the microphone opens rests on the device, so the trait says no
/// more of `open` than that its result is one that the implementation's own
/// `open_outcome` admits.
pub trait MicrophoneSource {
    /// The blocks, in the order they were heard.
    type Blocks;

    /// Whether `r` is an outcome of opening this microphone. By default
    /// every result is admitted.
    open spec fn open_outcome(&self, r: Result<Self::Blocks, DomainError>) -> bool {
        true
    }

    fn open(&self) -> (r: Result<Self::Blocks, DomainError>)
        ensures
            self.open_outcome(r),
    ;
}

} // verus!
