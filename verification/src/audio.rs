use vstd::prelude::*;

verus! {

/// The rate, in samples per second, of all audio that the engine takes in.
pub const SAMPLE_RATE: u32 = 16_000;

/// Mono audio at the engine's rate.
pub struct AudioSamples<S> {
    samples: Vec<S>,
}

impl<S> View for AudioSamples<S> {
    type V = Seq<S>;

    closed spec fn view(&self) -> Seq<S> {
        self.samples@
    }
}

impl<S> AudioSamples<S> {
    /// Audio holding `samples`.
    pub fn new(samples: Vec<S>) -> (r: Self)
        ensures
            r@ == samples@,
    {
        AudioSamples { samples }
    }

    /// The samples.
    pub fn as_slice(&self) -> (r: &[S])
        ensures
            r@ == self@,
    {
        self.samples.as_slice()
    }

    /// The number of samples.
    pub fn len(&self) -> (r: usize)
        ensures
            r == self@.len(),
    {
        self.samples.len()
    }

    /// Whether there are no samples.
    pub fn is_empty(&self) -> (r: bool)
        ensures
            r == (self@.len() == 0),
    {
        self.samples.len() == 0
    }

    /// The samples, giving up the audio.
    pub fn into_samples(self) -> (r: Vec<S>)
        ensures
            r@ == self@,
    {
        self.samples
    }
}

/// One stretch of speech that a voice activity detector cut out.
pub struct Utterance<S> {
    audio: AudioSamples<S>,
}

impl<S> View for Utterance<S> {
    type V = Seq<S>;

    closed spec fn view(&self) -> Seq<S> {
        self.audio@
    }
}

impl<S> Utterance<S> {
    /// An utterance of `audio`.
    pub fn new(audio: AudioSamples<S>) -> (r: Self)
        ensures
            r@ == audio@,
    {
        Utterance { audio }
    }

    /// The utterance's audio.
    pub fn audio(&self) -> (r: &AudioSamples<S>)
        ensures
            r@ == self@,
    {
        &self.audio
    }
}

/// Synthesized audio at its own rate.
pub struct Waveform<S> {
    samples: Vec<S>,
    sample_rate: u32,
}

impl<S> View for Waveform<S> {
    type V = (Seq<S>, u32);

    closed spec fn view(&self) -> (Seq<S>, u32) {
        (self.samples@, self.sample_rate)
    }
}

impl<S> Waveform<S> {
    /// A waveform of `samples` at `sample_rate` samples per second.
    pub fn new(samples: Vec<S>, sample_rate: u32) -> (r: Self)
        ensures
            r@ == (samples@, sample_rate),
    {
        Waveform { samples, sample_rate }
    }

    /// The samples.
    pub fn samples(&self) -> (r: &[S])
        ensures
            r@ == self@.0,
    {
        self.samples.as_slice()
    }

    /// The rate, in samples per second.
    pub fn sample_rate(&self) -> (r: u32)
        ensures
            r == self@.1,
    {
        self.sample_rate
    }

    /// The number of samples.
    pub fn len(&self) -> (r: usize)
        ensures
            r == self@.0.len(),
    {
        self.samples.len()
    }

    /// Whether there are no samples.
    pub fn is_empty(&self) -> (r: bool)
        ensures
            r == (self@.0.len() == 0),
    {
        self.samples.len() == 0
    }
}

/// `s` followed by copies of `fill` up to `n` samples.
pub open spec fn padded<S>(s: Seq<S>, n: nat, fill: S) -> Seq<S> {
    s + Seq::new((n - s.len()) as nat, |i: int| fill)
}

/// `samples` cut into windows of `n`, the last padded with `fill`: what a
/// recognizer with a fixed input window decodes.
pub open spec fn windows_spec<S>(samples: Seq<S>, n: nat, fill: S) -> Seq<Seq<S>>
    decreases samples.len(),
{
    if samples.len() == 0 || n == 0 {
        Seq::empty()
    } else if samples.len() <= n {
        seq![padded(samples, n, fill)]
    } else {
        seq![samples.take(n as int)] + windows_spec(samples.skip(n as int), n, fill)
    }
}

/// Every window holds `n` samples, and the windows, one after another, are
/// the samples followed by the padding of the last: no sample is lost,
/// repeated or moved.
pub proof fn lemma_windows<S>(samples: Seq<S>, n: nat, fill: S)
    requires
        n > 0,
    ensures
        forall|k: int|
            0 <= k < windows_spec(samples, n, fill).len() ==> (#[trigger] windows_spec(
                samples,
                n,
                fill,
            )[k]).len() == n,
        crate::vad::concat_frames(windows_spec(samples, n, fill)) == padded(
            samples,
            n * windows_spec(samples, n, fill).len(),
            fill,
        ),
    decreases samples.len(),
{
    let w = windows_spec(samples, n, fill);
    if samples.len() == 0 {
        assert(w.len() == 0);
        assert(n * w.len() == 0) by (nonlinear_arith) requires w.len() == 0;
        assert(crate::vad::concat_frames(w) =~= padded(samples, 0, fill));
    } else if samples.len() <= n {
        assert(w.drop_last() =~= Seq::<Seq<S>>::empty());
        assert(crate::vad::concat_frames(w.drop_last()) == Seq::<S>::empty());
        assert(crate::vad::concat_frames(w) == crate::vad::concat_frames(w.drop_last()) + w.last());
        assert(crate::vad::concat_frames(w) =~= padded(samples, n, fill));
        assert(w.len() == 1);
        assert(n * w.len() == n) by (nonlinear_arith) requires w.len() == 1;
    } else {
        let rest = samples.skip(n as int);
        lemma_windows(rest, n, fill);
        let wr = windows_spec(rest, n, fill);
        assert(w =~= seq![samples.take(n as int)] + wr);
        lemma_concat_front(samples.take(n as int), wr);
        assert(n * w.len() == n + n * wr.len()) by (nonlinear_arith)
            requires
                w.len() == 1 + wr.len(),
        ;
        assert(padded(samples, n * w.len(), fill) =~= samples.take(n as int) + padded(
            rest,
            n * wr.len(),
            fill,
        ));
    }
}

proof fn lemma_concat_front<S>(first: Seq<S>, rest: Seq<Seq<S>>)
    ensures
        crate::vad::concat_frames(seq![first] + rest) == first + crate::vad::concat_frames(rest),
    decreases rest.len(),
{
    if rest.len() == 0 {
        let w = seq![first] + rest;
        assert(w =~= seq![first]);
        assert(w.drop_last() =~= Seq::<Seq<S>>::empty());
        assert(crate::vad::concat_frames(w.drop_last()) == Seq::<S>::empty());
        assert(crate::vad::concat_frames(w) == crate::vad::concat_frames(w.drop_last()) + w.last());
        assert(crate::vad::concat_frames(rest) == Seq::<S>::empty());
        assert(crate::vad::concat_frames(w) =~= first + crate::vad::concat_frames(rest));
    } else {
        lemma_concat_front(first, rest.drop_last());
        let w = seq![first] + rest;
        assert(w.drop_last() =~= seq![first] + rest.drop_last());
        assert(w.last() == rest.last());
        assert(first + crate::vad::concat_frames(rest.drop_last()) + rest.last() =~= first + (
        crate::vad::concat_frames(rest.drop_last()) + rest.last()));
    }
}

/// The sample views of `windows`.
pub open spec fn window_views<S>(windows: Seq<Vec<S>>) -> Seq<Seq<S>> {
    windows.map_values(|w: Vec<S>| w@)
}

/// `samples` cut into windows of `n`, in order, the last one padded with
/// `fill`; `chunks(n)` with each chunk resized to `n`.
pub fn padded_windows<S: Copy>(samples: &[S], n: usize, fill: S) -> (r: Vec<Vec<S>>)
    requires
        n > 0,
    ensures
        window_views(r@) == windows_spec(samples@, n as nat, fill),
{
    let mut out: Vec<Vec<S>> = Vec::new();
    let len = samples.len();
    let mut start: usize = 0;
    assert(samples@.skip(0) =~= samples@);
    while start < len
        invariant
            len == samples@.len(),
            start <= len,
            n > 0,
            windows_spec(samples@, n as nat, fill) == window_views(out@) + windows_spec(
                samples@.skip(start as int),
                n as nat,
                fill,
            ),
        decreases len - start,
    {
        let ghost rest = samples@.skip(start as int);
        let end = if len - start <= n {
            len
        } else {
            start + n
        };
        let mut w: Vec<S> = Vec::new();
        let mut i = start;
        while i < end
            invariant
                start <= i <= end <= len,
                len == samples@.len(),
                w@ == samples@.subrange(start as int, i as int),
            decreases end - i,
        {
            w.push(samples[i]);
            i += 1;
            assert(samples@.subrange(start as int, i as int) =~= samples@.subrange(
                start as int,
                i - 1,
            ).push(samples@[i - 1]));
        }
        let taken = w.len();
        let mut k = taken;
        while k < n
            invariant
                taken <= k <= n,
                taken == end - start,
                w@ == samples@.subrange(start as int, end as int) + Seq::new(
                    (k - taken) as nat,
                    |j: int| fill,
                ),
            decreases n - k,
        {
            w.push(fill);
            k += 1;
            assert(w@ =~= samples@.subrange(start as int, end as int) + Seq::new(
                (k - taken) as nat,
                |j: int| fill,
            ));
        }
        let ghost prev = window_views(out@);
        out.push(w);
        assert(window_views(out@) =~= prev.push(w@));
        if len - start <= n {
            assert(samples@.subrange(start as int, end as int) =~= rest);
            assert(w@ =~= padded(rest, n as nat, fill));
            assert(rest.skip(rest.len() as int) =~= Seq::<S>::empty());
            assert(samples@.skip(end as int) =~= Seq::<S>::empty());
            assert(windows_spec(rest, n as nat, fill) =~= seq![w@]);
        } else {
            assert(w@ =~= rest.take(n as int));
            assert(rest.skip(n as int) =~= samples@.skip(end as int));
        }
        assert(window_views(out@) + windows_spec(samples@.skip(end as int), n as nat, fill)
            =~= prev + windows_spec(rest, n as nat, fill));
        start = end;
    }
    assert(samples@.skip(len as int) =~= Seq::<S>::empty());
    assert(window_views(out@) + Seq::<Seq<S>>::empty() =~= window_views(out@));
    out
}

} // verus!
