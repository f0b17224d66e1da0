use vstd::prelude::*;
use crate::audio::{AudioSamples, Utterance, Waveform};
use crate::text::all_white_space;
use crate::error::DomainError;
use crate::ports::{
    AudioDecoder, CodingAgent, LiveVoiceAgent, MicrophoneSource, SpeechRecognizer,
    SpeechSynthesizer, StreamingSpeaker, StreamingSynthesizer, VoiceActivityDetector,
};
use crate::transcript::Transcript;

verus! {

/// Speaks text as it is synthesized.
pub struct StreamSpeech<'a, T: ?Sized> {
    synthesizer: &'a mut T,
}

impl<'a, T: StreamingSynthesizer + ?Sized> StreamSpeech<'a, T> {
    /// The synthesizer that the use case speaks with.
    pub closed spec fn synthesizer(&self) -> &T {
        &*self.synthesizer
    }

    pub fn new(synthesizer: &'a mut T) -> (r: Self)
        ensures
            r.synthesizer() == &*old(synthesizer),
    {
        StreamSpeech { synthesizer }
    }

    /// Streams `text` from the synthesizer into `sink`; the synthesizer's
    /// error, where it fails, is the sink's never to see.
    pub fn execute<K: StreamingSpeaker<T::Chunks>>(&mut self, text: &str, sink: &K) -> (r: Result<(), DomainError>)
        ensures
            exists|s: Result<T::Chunks, DomainError>|
                #[trigger] old(self).synthesizer().stream_outcome(text@, s) && match s {
                    Ok(chunks) => sink.play_outcome(chunks, r),
                    Err(e) => r == Err::<(), DomainError>(e),
                },
    {
        let streamed = self.synthesizer.stream(text);
        proof {
            assert(old(self).synthesizer().stream_outcome(text@, streamed));
        }
        let chunks = match streamed {
            Ok(c) => c,
            Err(e) => return Err(e),
        };
        sink.play_stream(chunks)
    }
}

/// Synthesizes text into one waveform.
pub struct SynthesizeText<'a, T: ?Sized> {
    synthesizer: &'a mut T,
}

impl<'a, T: ?Sized> SynthesizeText<'a, T> {
    /// The synthesizer that the use case speaks with.
    pub closed spec fn synthesizer(&self) -> &T {
        &*self.synthesizer
    }

    pub fn new(synthesizer: &'a mut T) -> (r: Self)
        ensures
            r.synthesizer() == &*old(synthesizer),
    {
        SynthesizeText { synthesizer }
    }

    /// The waveform of `text`, as the synthesizer gives it.
    pub fn execute<S>(&mut self, text: &str) -> (r: Result<Waveform<S>, DomainError>) where T: SpeechSynthesizer<S>
        ensures
            old(self).synthesizer().synthesize_outcome(text@, r),
    {
        self.synthesizer.synthesize(text)
    }
}

/// Holds a realtime voice conversation and plays the agent's voice.
pub struct Converse<'a, A: ?Sized> {
    agent: &'a mut A,
}

impl<'a, A: ?Sized> Converse<'a, A> {
    /// The agent that the use case converses with.
    pub closed spec fn agent(&self) -> &A {
        &*self.agent
    }

    pub fn new(agent: &'a mut A) -> (r: Self)
        ensures
            r.agent() == &*old(agent),
    {
        Converse { agent }
    }

    /// Streams the microphone to the agent and its answers to `speaker`; the
    /// agent's error, where it fails, is the speaker's never to see.
    pub fn execute<M, K>(&mut self, mic: M, speaker: &K) -> (r: Result<(), DomainError>) where
        A: LiveVoiceAgent<M>,
        K: StreamingSpeaker<A::Chunks>,
        ensures
            exists|s: Result<A::Chunks, DomainError>|
                #[trigger] old(self).agent().converse_outcome(mic, s) && match s {
                    Ok(chunks) => speaker.play_outcome(chunks, r),
                    Err(e) => r == Err::<(), DomainError>(e),
                },
     {
        let answered = self.agent.converse(mic);
        proof {
            assert(old(self).agent().converse_outcome(mic, answered));
        }
        let chunks = match answered {
            Ok(c) => c,
            Err(e) => return Err(e),
        };
        speaker.play_stream(chunks)
    }
}

/// Transcribes an audio file.
pub struct TranscribeFile<'a, D: ?Sized, R: ?Sized> {
    decoder: &'a D,
    recognizer: &'a mut R,
}

impl<'a, D: ?Sized, R: ?Sized> TranscribeFile<'a, D, R> {
    /// The decoder that reads the file.
    pub closed spec fn decoder(&self) -> &D {
        self.decoder
    }

    /// The recognizer that hears the audio.
    pub closed spec fn recognizer(&self) -> &R {
        &*self.recognizer
    }

    pub fn new(decoder: &'a D, recognizer: &'a mut R) -> (r: Self)
        ensures
            r.decoder() == decoder,
            r.recognizer() == &*old(recognizer),
    {
        TranscribeFile { decoder, recognizer }
    }

    /// The transcript of the audio in the file at `path`; the decoder's
    /// error, where it fails, is the recognizer's never to see.
    pub fn execute<S, P: ?Sized>(&mut self, path: &P) -> (r: Result<Transcript, DomainError>) where
        D: AudioDecoder<S, P>,
        R: SpeechRecognizer<S>,
        ensures
            exists|a: Result<AudioSamples<S>, DomainError>|
                #[trigger] old(self).decoder().decode_outcome(path, a) && match a {
                    Ok(audio) => old(self).recognizer().transcribe_outcome(audio@, r),
                    Err(e) => r == Err::<Transcript, DomainError>(e),
                },
     {
        let decoded = self.decoder.decode(path);
        proof {
            assert(old(self).decoder().decode_outcome(path, decoded));
        }
        let audio = match decoded {
            Ok(a) => a,
            Err(e) => return Err(e),
        };
        self.recognizer.transcribe(&audio)
    }
}

/// What hearing one utterance gives, the recognizer in state `rec`: it
/// answers `samples` with `t`; the result is that error, the transcript
/// where it is not blank, or nothing.
pub open spec fn hear_outcome<S, R: SpeechRecognizer<S> + ?Sized>(
    rec: &R,
    samples: Seq<S>,
    t: Result<Transcript, DomainError>,
    r: Result<Option<Transcript>, DomainError>,
) -> bool {
    &&& rec.transcribe_outcome(samples, t)
    &&& match t {
        Err(e) => r == Err::<Option<Transcript>, DomainError>(e),
        Ok(tr) => r == Ok::<Option<Transcript>, DomainError>(
            if all_white_space(tr@) {
                None
            } else {
                Some(tr)
            },
        ),
    }
}

/// What ending the input gives: the detector, in state `vad`, gives out `u`;
/// where that is an utterance, hearing it, the recognizer in state `rec`,
/// with answer `t`, gives the result; else there is nothing.
pub open spec fn finish_outcome<S, V: VoiceActivityDetector<S> + ?Sized, R: SpeechRecognizer<S> + ?Sized>(
    vad: &V,
    rec: &R,
    u: Option<Utterance<S>>,
    t: Result<Transcript, DomainError>,
    r: Result<Option<Transcript>, DomainError>,
) -> bool {
    &&& vad.flush_outcome(u)
    &&& match u {
        None => r == Ok::<Option<Transcript>, DomainError>(None),
        Some(x) => hear_outcome(rec, x@, t, r),
    }
}

/// Transcribes `audio` with `recognizer`: its error, the transcript where it
/// is not blank, or nothing.
fn hear_with<S, R: SpeechRecognizer<S> + ?Sized>(recognizer: &mut R, audio: &AudioSamples<S>) -> (r: Result<Option<Transcript>, DomainError>)
    ensures
        exists|t: Result<Transcript, DomainError>| #[trigger] hear_outcome(&*old(recognizer), audio@, t, r),
{
    let answer = recognizer.transcribe(audio);
    let ghost t = answer;
    let r = match answer {
        Err(e) => Err(e),
        Ok(tr) => if tr.is_empty() {
            Ok(None)
        } else {
            Ok(Some(tr))
        },
    };
    proof {
        assert(hear_outcome(&*old(recognizer), audio@, t, r));
    }
    r
}

/// Transcribes the microphone, utterance by utterance.
pub struct TranscribeStream<'a, M: ?Sized, V: ?Sized, R: ?Sized> {
    microphone: &'a M,
    vad: &'a mut V,
    recognizer: &'a mut R,
}

impl<'a, M: ?Sized, V: ?Sized, R: ?Sized> TranscribeStream<'a, M, V, R> {
    /// The microphone that is listened to.
    pub closed spec fn microphone(&self) -> &M {
        self.microphone
    }

    /// The detector that cuts the audio into utterances.
    pub closed spec fn vad(&self) -> &V {
        &*self.vad
    }

    /// The recognizer that hears the utterances.
    pub closed spec fn recognizer(&self) -> &R {
        &*self.recognizer
    }

    pub fn new(microphone: &'a M, vad: &'a mut V, recognizer: &'a mut R) -> (r: Self)
        ensures
            r.microphone() == microphone,
            r.vad() == &*old(vad),
            r.recognizer() == &*old(recognizer),
    {
        TranscribeStream { microphone, vad, recognizer }
    }

    /// Opens the microphone, whose blocks are then fed to `detect`.
    pub fn open(&self) -> (r: Result<M::Blocks, DomainError>) where M: MicrophoneSource
        ensures
            self.microphone().open_outcome(r),
    {
        self.microphone.open()
    }

    /// Feeds one block of the microphone to the detector and gives the
    /// utterances that it ends, in order, each to be taken through `hear`.
    pub fn detect<S>(&mut self, block: &[S]) -> (r: Vec<Utterance<S>>) where V: VoiceActivityDetector<S>
        ensures
            old(self).vad().push_outcome(block@, r@),
            final(self).recognizer() == old(self).recognizer(),
    {
        self.vad.push(block)
    }

    /// Transcribes one utterance: gives the transcript unless it is blank,
    /// or the recognizer's error unchanged.
    pub fn hear<S>(&mut self, audio: &AudioSamples<S>) -> (r: Result<Option<Transcript>, DomainError>) where
        R: SpeechRecognizer<S>,
        ensures
            exists|t: Result<Transcript, DomainError>|
                #[trigger] hear_outcome(old(self).recognizer(), audio@, t, r),
            final(self).vad() == old(self).vad(),
    {
        let r = hear_with(&mut *self.recognizer, audio);
        proof {
            let t = choose|t: Result<Transcript, DomainError>|
                #[trigger] hear_outcome(old(self).recognizer(), audio@, t, r);
            assert(hear_outcome(old(self).recognizer(), audio@, t, r));
        }
        r
    }

    /// Ends the input: flushes the detector once and hears the utterance
    /// that it gives out, if any.
    pub fn finish<S>(&mut self) -> (r: Result<Option<Transcript>, DomainError>) where
        V: VoiceActivityDetector<S>,
        R: SpeechRecognizer<S>,
        ensures
            exists|u: Option<Utterance<S>>, t: Result<Transcript, DomainError>|
                #[trigger] finish_outcome(old(self).vad(), old(self).recognizer(), u, t, r),
    {
        let flushed = self.vad.flush();
        match flushed {
            None => {
                proof {
                    assert(finish_outcome(
                        old(self).vad(),
                        old(self).recognizer(),
                        flushed,
                        vstd::pervasive::arbitrary(),
                        Ok(None),
                    ));
                }
                Ok(None)
            },
            Some(u) => {
                let r = hear_with(&mut *self.recognizer, u.audio());
                proof {
                    let t = choose|t: Result<Transcript, DomainError>|
                        #[trigger] hear_outcome(old(self).recognizer(), u@, t, r);
                    assert(finish_outcome(old(self).vad(), old(self).recognizer(), Some(u), t, r));
                }
                r
            },
        }
    }
}

/// What a voice conversation with a coding agent reports as it goes.
#[derive(Debug, PartialEq, Eq)]
pub enum VoiceEvent {
    /// What the user was heard saying.
    Heard(String),
    /// What the agent replied.
    Replied(String),
}

/// What speaking a reply gives, each collaborator in the state it had
/// before: the synthesizer streams `reply` into `c`, the speaker plays the
/// chunks with outcome `p`, and the detector is flushed, giving `u`, which
/// is dropped. The first error is the result.
pub open spec fn speak_outcome<
    S,
    V: VoiceActivityDetector<S> + ?Sized,
    T: StreamingSynthesizer + ?Sized,
    K: StreamingSpeaker<T::Chunks> + ?Sized,
>(
    vad: &V,
    synth: &T,
    speaker: &K,
    reply: Seq<char>,
    c: Result<T::Chunks, DomainError>,
    p: Result<(), DomainError>,
    u: Option<Utterance<S>>,
    r: Result<(), DomainError>,
) -> bool {
    &&& synth.stream_outcome(reply, c)
    &&& match c {
        Err(e) => r == Err::<(), DomainError>(e),
        Ok(chunks) => {
            &&& speaker.play_outcome(chunks, p)
            &&& match p {
                Err(e) => r == Err::<(), DomainError>(e),
                Ok(_) => vad.flush_outcome(u) && r == Ok::<(), DomainError>(()),
            }
        },
    }
}

/// Speaks with a coding agent: hears, transcribes, asks, speaks the reply.
/// A turn is `hear`, then `ask` with what was heard, then `speak` with the
/// reply, so that each can be reported as soon as it is known.
pub struct VoiceLoop<'a, M: ?Sized, V: ?Sized, R: ?Sized, A: ?Sized, T: ?Sized, K: ?Sized> {
    microphone: &'a M,
    vad: &'a mut V,
    recognizer: &'a mut R,
    agent: &'a mut A,
    synthesizer: &'a mut T,
    speaker: &'a K,
}

impl<'a, M: ?Sized, V: ?Sized, R: ?Sized, A: ?Sized, T: ?Sized, K: ?Sized> VoiceLoop<'a, M, V, R, A, T, K> {
    /// The microphone that is listened to.
    pub closed spec fn microphone(&self) -> &M {
        self.microphone
    }

    /// The detector that cuts the audio into utterances.
    pub closed spec fn vad(&self) -> &V {
        &*self.vad
    }

    /// The recognizer that hears the utterances.
    pub closed spec fn recognizer(&self) -> &R {
        &*self.recognizer
    }

    /// The coding agent that is spoken with.
    pub closed spec fn agent(&self) -> &A {
        &*self.agent
    }

    /// The synthesizer that speaks the replies.
    pub closed spec fn synthesizer(&self) -> &T {
        &*self.synthesizer
    }

    /// The speaker that plays them.
    pub closed spec fn speaker(&self) -> &K {
        self.speaker
    }

    pub fn new(
        microphone: &'a M,
        vad: &'a mut V,
        recognizer: &'a mut R,
        agent: &'a mut A,
        synthesizer: &'a mut T,
        speaker: &'a K,
    ) -> (r: Self)
        ensures
            r.microphone() == microphone,
            r.vad() == &*old(vad),
            r.recognizer() == &*old(recognizer),
            r.agent() == &*old(agent),
            r.synthesizer() == &*old(synthesizer),
            r.speaker() == speaker,
    {
        VoiceLoop { microphone, vad, recognizer, agent, synthesizer, speaker }
    }

    /// Opens the microphone, whose blocks are then fed to `detect`.
    pub fn open(&self) -> (r: Result<M::Blocks, DomainError>) where M: MicrophoneSource
        ensures
            self.microphone().open_outcome(r),
    {
        self.microphone.open()
    }

    /// Feeds one block of the microphone to the detector and gives the
    /// utterances that it ends, in order, each to be taken through a turn.
    pub fn detect<S>(&mut self, block: &[S]) -> (r: Vec<Utterance<S>>) where V: VoiceActivityDetector<S>
        ensures
            old(self).vad().push_outcome(block@, r@),
            final(self).recognizer() == old(self).recognizer(),
            final(self).agent() == old(self).agent(),
            final(self).synthesizer() == old(self).synthesizer(),
            final(self).speaker() == old(self).speaker(),
    {
        self.vad.push(block)
    }

    /// The first step of a turn: transcribes the utterance; gives what was
    /// heard unless it is blank, in which case the turn ends here, or the
    /// recognizer's error unchanged.
    pub fn hear<S>(&mut self, audio: &AudioSamples<S>) -> (r: Result<Option<Transcript>, DomainError>) where
        R: SpeechRecognizer<S>,
        ensures
            exists|t: Result<Transcript, DomainError>|
                #[trigger] hear_outcome(old(self).recognizer(), audio@, t, r),
            final(self).vad() == old(self).vad(),
            final(self).agent() == old(self).agent(),
            final(self).synthesizer() == old(self).synthesizer(),
            final(self).speaker() == old(self).speaker(),
    {
        let r = hear_with(&mut *self.recognizer, audio);
        proof {
            let t = choose|t: Result<Transcript, DomainError>|
                #[trigger] hear_outcome(old(self).recognizer(), audio@, t, r);
            assert(hear_outcome(old(self).recognizer(), audio@, t, r));
        }
        r
    }

    /// The second step: asks the agent with what was heard, and gives its
    /// reply, or its error unchanged.
    pub fn ask(&mut self, heard: &str) -> (r: Result<String, DomainError>) where A: CodingAgent
        ensures
            old(self).agent().send_outcome(heard@, r),
            final(self).vad() == old(self).vad(),
            final(self).synthesizer() == old(self).synthesizer(),
            final(self).speaker() == old(self).speaker(),
    {
        self.agent.send(heard)
    }

    /// The last step: streams the reply unchanged to the speaker and, once
    /// it has been played, flushes the detector; gives the first error
    /// unchanged.
    pub fn speak<S>(&mut self, reply: &str) -> (r: Result<(), DomainError>) where
        V: VoiceActivityDetector<S>,
        T: StreamingSynthesizer,
        K: StreamingSpeaker<T::Chunks>,
        ensures
            exists|c: Result<T::Chunks, DomainError>, p: Result<(), DomainError>, u: Option<Utterance<S>>|
                #[trigger] speak_outcome(
                    old(self).vad(),
                    old(self).synthesizer(),
                    old(self).speaker(),
                    reply@,
                    c,
                    p,
                    u,
                    r,
                ),
    {
        let ghost vad0 = old(self).vad();
        let ghost synth0 = old(self).synthesizer();
        let ghost speaker0 = old(self).speaker();
        let streamed = self.synthesizer.stream(reply);
        let ghost c = streamed;
        let chunks = match streamed {
            Ok(x) => x,
            Err(e) => {
                let r = Err(e);
                proof {
                    assert(speak_outcome::<S, V, T, K>(vad0, synth0, speaker0, reply@, c,
                        vstd::pervasive::arbitrary(), vstd::pervasive::arbitrary(), r));
                }
                return r;
            },
        };
        let played = self.speaker.play_stream(chunks);
        let ghost p = played;
        if let Err(e) = played {
            let r = Err(e);
            proof {
                assert(speak_outcome::<S, V, T, K>(vad0, synth0, speaker0, reply@, c, p,
                    vstd::pervasive::arbitrary(), r));
            }
            return r;
        }
        let flushed = self.vad.flush();
        let ghost u = flushed;
        proof {
            assert(speak_outcome(vad0, synth0, speaker0, reply@, c, p, u, Ok(())));
        }
        Ok(())
    }
}

} // verus!
