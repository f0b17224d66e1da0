use vstd::prelude::*;
use crate::audio::SAMPLE_RATE;

verus! {

/// The length of the detector's frames: 20 ms of audio at the engine's rate.
pub open spec fn spec_frame_len() -> nat {
    if SAMPLE_RATE / 50 >= 1 {
        (SAMPLE_RATE / 50) as nat
    } else {
        1
    }
}

/// The quiet frames in a row that end an utterance.
pub const MAX_SILENCE_FRAMES: usize = 35;

/// The loud frames that an utterance needs to be kept.
pub const MIN_SPEECH_FRAMES: usize = 10;

/// What the detector knows of the audio so far.
#[verifier::ext_equal]
pub struct VadState<S> {
    /// Whether an utterance is under way.
    pub active: bool,
    /// The loud frames of the utterance under way.
    pub speech_frames: nat,
    /// The quiet frames in a row at its end.
    pub silence_frames: nat,
    /// The audio of the utterance under way.
    pub speech: Seq<S>,
}

/// A detector between utterances.
pub open spec fn idle<S>() -> VadState<S> {
    VadState { active: false, speech_frames: 0, silence_frames: 0, speech: Seq::empty() }
}

/// One frame's effect: a loud frame starts or continues an utterance and
/// resets the silence count; a quiet frame continues one that is under way,
/// and the `MAX_SILENCE_FRAMES`-th quiet frame in a row ends it, giving its
/// audio where it held at least `MIN_SPEECH_FRAMES` loud frames; a quiet
/// frame between utterances changes nothing.
pub open spec fn frame_step<S>(st: VadState<S>, frame: Seq<S>, loud: bool) -> (VadState<S>, Option<Seq<S>>) {
    if loud {
        (
            VadState {
                active: true,
                speech_frames: st.speech_frames + 1,
                silence_frames: 0,
                speech: st.speech + frame,
            },
            None,
        )
    } else if st.active {
        let speech = st.speech + frame;
        let silence = st.silence_frames + 1;
        if silence >= MAX_SILENCE_FRAMES {
            (idle(), if st.speech_frames >= MIN_SPEECH_FRAMES { Some(speech) } else { None })
        } else {
            (
                VadState {
                    active: true,
                    speech_frames: st.speech_frames,
                    silence_frames: silence,
                    speech,
                },
                None,
            )
        }
    } else {
        (st, None)
    }
}

/// The end of the input: an utterance under way with enough loud frames is
/// given out and the detector goes idle; otherwise nothing changes.
pub open spec fn flush_step<S>(st: VadState<S>) -> (VadState<S>, Option<Seq<S>>) {
    if st.active && st.speech_frames >= MIN_SPEECH_FRAMES {
        (idle(), Some(st.speech))
    } else {
        (st, None)
    }
}

/// The samples of an utterance that may have been given out.
pub open spec fn opt_view<S>(r: Option<Vec<S>>) -> Option<Seq<S>> {
    match r {
        Some(u) => Some(u@),
        None => None,
    }
}

/// Many frames' effect, in order: the state after the last of them, and the
/// utterances that they end.
pub open spec fn run_frames<S>(st: VadState<S>, frames: Seq<Seq<S>>, loud: Seq<bool>) -> (VadState<S>, Seq<Seq<S>>)
    decreases frames.len(),
{
    if frames.len() == 0 {
        (st, Seq::empty())
    } else {
        let n = frames.len() - 1;
        let before = run_frames(st, frames.take(n), loud.take(n));
        let after = frame_step(before.0, frames[n], loud[n]);
        (
            after.0,
            match after.1 {
                Some(u) => before.1.push(u),
                None => before.1,
            },
        )
    }
}

/// What holds of every state that the detector reaches from idle with
/// frames of `frame_len` samples: the audio under way is a whole number of
/// frames, at least as many as its loud frames and its trailing quiet ones.
pub open spec fn state_ok<S>(st: VadState<S>, frame_len: nat) -> bool {
    &&& frame_len > 0
    &&& !st.active ==> st.speech.len() == 0 && st.speech_frames == 0 && st.silence_frames == 0
    &&& st.active ==> st.speech_frames >= 1 && st.silence_frames < MAX_SILENCE_FRAMES
    &&& (st.speech_frames + st.silence_frames) * frame_len <= st.speech.len()
    &&& st.speech.len() % frame_len == 0
}

/// The idle state is sound, whatever the frame length.
pub(crate) proof fn lemma_idle_ok<S>(n: nat)
    requires
        n > 0,
    ensures
        state_ok(idle::<S>(), n),
        0nat % n == 0,
{
    assert(0nat % n == 0) by (nonlinear_arith)
        requires
            n > 0,
    ;
    assert((0nat + 0nat) * n == 0) by (nonlinear_arith);
}

/// Adding one frame of `n` samples to audio of `len` samples that holds
/// `a + b` whole frames keeps it whole and room for one more frame.
pub(crate) proof fn lemma_one_more_frame<S>(a: nat, b: nat, n: nat, len: nat)
    requires
        n > 0,
        (a + b) * n <= len,
        len % n == 0,
    ensures
        (a + 1) * n <= len + n,
        (a + b + 1) * n <= len + n,
        (len + n) % n == 0,
        state_ok(idle::<S>(), n),
{
    lemma_idle_ok::<S>(n);
    assert((a + 1) * n == a * n + n) by (nonlinear_arith);
    assert((a + b + 1) * n == (a + b) * n + n) by (nonlinear_arith);
    assert(a * n <= (a + b) * n) by (nonlinear_arith);
    vstd::arithmetic::div_mod::lemma_mod_add_multiples_vanish(len as int, n as int);
}

/// Every frame keeps the detector's state sound; an utterance that a frame
/// ends is a whole number of frames, at least `MIN_SPEECH_FRAMES` loud ones
/// and the `MAX_SILENCE_FRAMES` quiet ones that ended it, and leaves the
/// detector idle; a quiet frame between utterances changes nothing; and a
/// loud frame always leaves an utterance under way.
pub proof fn lemma_frame_step<S>(st: VadState<S>, frame: Seq<S>, loud: bool, frame_len: nat)
    requires
        state_ok(st, frame_len),
        frame.len() == frame_len,
    ensures
        state_ok(frame_step(st, frame, loud).0, frame_len),
        frame_step(st, frame, loud).1 matches Some(u) ==> {
            &&& u.len() >= (MIN_SPEECH_FRAMES + MAX_SILENCE_FRAMES) * frame_len
            &&& u.len() % frame_len == 0
            &&& frame_step(st, frame, loud).0 == idle::<S>()
        },
        !loud && !st.active ==> frame_step(st, frame, loud) == (st, None::<Seq<S>>),
        loud ==> frame_step(st, frame, loud).0.active && frame_step(st, frame, loud).1 is None,
{
    lemma_one_more_frame::<S>(st.speech_frames, st.silence_frames, frame_len, st.speech.len());
    if !loud && st.active && st.silence_frames + 1 >= MAX_SILENCE_FRAMES && st.speech_frames
        >= MIN_SPEECH_FRAMES {
        assert((MIN_SPEECH_FRAMES + MAX_SILENCE_FRAMES) * frame_len <= (st.speech_frames
            + st.silence_frames + 1) * frame_len) by (nonlinear_arith)
            requires
                st.speech_frames >= MIN_SPEECH_FRAMES,
                st.silence_frames + 1 >= MAX_SILENCE_FRAMES,
        ;
    }
}

/// Ending the input keeps the state sound, and an utterance that it gives
/// out is a whole number of frames, at least `MIN_SPEECH_FRAMES` of them,
/// and leaves the detector idle.
pub proof fn lemma_flush_step<S>(st: VadState<S>, frame_len: nat)
    requires
        state_ok(st, frame_len),
    ensures
        state_ok(flush_step(st).0, frame_len),
        flush_step(st).1 matches Some(u) ==> {
            &&& u.len() >= MIN_SPEECH_FRAMES * frame_len
            &&& u.len() % frame_len == 0
            &&& flush_step(st).0 == idle::<S>()
        },
        flush_step(st).1 is None ==> flush_step(st).0 == st,
{
    lemma_one_more_frame::<S>(st.speech_frames, st.silence_frames, frame_len, st.speech.len());
    if st.active && st.speech_frames >= MIN_SPEECH_FRAMES {
        assert(MIN_SPEECH_FRAMES * frame_len <= (st.speech_frames + st.silence_frames) * frame_len)
            by (nonlinear_arith)
            requires
                st.speech_frames >= MIN_SPEECH_FRAMES,
        ;
    }
}

/// However many frames the detector is fed, its state stays sound, and
/// every utterance it gives out is a whole number of frames, at least
/// `MIN_SPEECH_FRAMES` loud ones and the `MAX_SILENCE_FRAMES` quiet ones
/// that ended it.
pub proof fn lemma_run_frames<S>(st: VadState<S>, frames: Seq<Seq<S>>, loud: Seq<bool>, frame_len: nat)
    requires
        state_ok(st, frame_len),
        loud.len() == frames.len(),
        forall|i: int| 0 <= i < frames.len() ==> (#[trigger] frames[i]).len() == frame_len,
    ensures
        state_ok(run_frames(st, frames, loud).0, frame_len),
        forall|k: int|
            0 <= k < run_frames(st, frames, loud).1.len() ==> {
                &&& (#[trigger] run_frames(st, frames, loud).1[k]).len() >= (MIN_SPEECH_FRAMES
                    + MAX_SILENCE_FRAMES) * frame_len
                &&& run_frames(st, frames, loud).1[k].len() % frame_len == 0
            },
    decreases frames.len(),
{
    if frames.len() > 0 {
        let n = frames.len() - 1;
        assert forall|i: int| 0 <= i < frames.take(n).len() implies (#[trigger] frames.take(n)[i]).len()
            == frame_len by {
            assert(frames.take(n)[i] == frames[i]);
        }
        lemma_run_frames(st, frames.take(n), loud.take(n), frame_len);
        let before = run_frames(st, frames.take(n), loud.take(n));
        lemma_frame_step(before.0, frames[n], loud[n], frame_len);
    }
}

/// All of `frames`, one after another.
pub open spec fn concat_frames<S>(frames: Seq<Seq<S>>) -> Seq<S>
    decreases frames.len(),
{
    if frames.len() == 0 {
        Seq::empty()
    } else {
        concat_frames(frames.drop_last()) + frames.last()
    }
}

/// The sample views of `frames`.
pub open spec fn frame_views<S>(frames: Seq<Vec<S>>) -> Seq<Seq<S>> {
    frames.map_values(|f: Vec<S>| f@)
}

/// Quiet frames are counted in a row: after a loud frame at `k`, followed
/// only by quiet ones, the detector has an utterance under way whose count
/// of trailing quiet frames is the number of frames since `k`; while that
/// is below `MAX_SILENCE_FRAMES`, the frames from `k` on end no utterance,
/// however many quiet frames came before `k`.
pub proof fn lemma_silence_counted_in_a_row<S>(st: VadState<S>, frames: Seq<Seq<S>>, loud: Seq<bool>, k: int)
    requires
        loud.len() == frames.len(),
        0 <= k < frames.len(),
        loud[k],
        forall|j: int| k < j < loud.len() ==> !loud[j],
        frames.len() - 1 - k < MAX_SILENCE_FRAMES,
    ensures
        run_frames(st, frames, loud).0.active,
        run_frames(st, frames, loud).0.silence_frames == frames.len() - 1 - k,
        run_frames(st, frames, loud).1 == run_frames(st, frames.take(k), loud.take(k)).1,
    decreases frames.len(),
{
    let n = frames.len() - 1;
    if n > k {
        let f = frames.take(n);
        let l = loud.take(n);
        assert forall|j: int| k < j < l.len() implies !l[j] by {
            assert(l[j] == loud[j]);
        }
        assert(l[k] == loud[k]);
        lemma_silence_counted_in_a_row(st, f, l, k);
        assert(f.take(k) =~= frames.take(k));
        assert(l.take(k) =~= loud.take(k));
        assert(!loud[n]);
    } else {
        assert(frames.take(n) =~= frames.take(k));
        assert(loud.take(n) =~= loud.take(k));
    }
}

/// Whether every frame of `frames` holds `n` samples.
pub open spec fn frames_of_len<S>(frames: Seq<Seq<S>>, n: nat) -> bool {
    forall|i: int| 0 <= i < frames.len() ==> (#[trigger] frames[i]).len() == n
}

proof fn lemma_concat_len<S>(frames: Seq<Seq<S>>, n: nat)
    requires
        frames_of_len(frames, n),
    ensures
        concat_frames(frames).len() == frames.len() * n,
    decreases frames.len(),
{
    if frames.len() > 0 {
        let init = frames.drop_last();
        assert forall|i: int| 0 <= i < init.len() implies (#[trigger] init[i]).len() == n by {
            assert(init[i] == frames[i]);
        }
        lemma_concat_len(init, n);
        assert(frames[frames.len() - 1].len() == n);
        assert(frames.len() * n == init.len() * n + n) by (nonlinear_arith)
            requires
                frames.len() == init.len() + 1,
        ;
    }
}

proof fn lemma_concat_append<S>(f1: Seq<Seq<S>>, f2: Seq<Seq<S>>)
    ensures
        concat_frames(f1 + f2) == concat_frames(f1) + concat_frames(f2),
    decreases f2.len(),
{
    if f2.len() == 0 {
        assert(f1 + f2 =~= f1);
        assert(concat_frames(f1) + concat_frames(f2) =~= concat_frames(f1));
    } else {
        lemma_concat_append(f1, f2.drop_last());
        assert((f1 + f2).drop_last() =~= f1 + f2.drop_last());
        assert((f1 + f2).last() == f2.last());
        assert(concat_frames(f1) + concat_frames(f2.drop_last()) + f2.last() =~= concat_frames(f1)
            + (concat_frames(f2.drop_last()) + f2.last()));
    }
}

proof fn lemma_concat_inj<S>(f1: Seq<Seq<S>>, f2: Seq<Seq<S>>, n: nat)
    requires
        frames_of_len(f1, n),
        frames_of_len(f2, n),
        f1.len() == f2.len(),
        concat_frames(f1) == concat_frames(f2),
    ensures
        f1 == f2,
    decreases f1.len(),
{
    if f1.len() > 0 {
        let i1 = f1.drop_last();
        let i2 = f2.drop_last();
        assert forall|i: int| 0 <= i < i1.len() implies (#[trigger] i1[i]).len() == n by {
            assert(i1[i] == f1[i]);
        }
        assert forall|i: int| 0 <= i < i2.len() implies (#[trigger] i2[i]).len() == n by {
            assert(i2[i] == f2[i]);
        }
        lemma_concat_len(i1, n);
        lemma_concat_len(i2, n);
        let c = concat_frames(f1);
        let k = concat_frames(i1).len();
        assert(f1.last().len() == n && f2.last().len() == n);
        assert(concat_frames(i1) =~= c.take(k as int));
        assert(concat_frames(i2) =~= c.take(k as int));
        assert(f1.last() =~= c.skip(k as int));
        assert(f2.last() =~= c.skip(k as int));
        lemma_concat_inj(i1, i2, n);
        assert(f1 =~= i1.push(f1.last()));
        assert(f2 =~= i2.push(f2.last()));
    }
}

/// Cutting samples into frames of `n` and a tail shorter than a frame can
/// be done one way only.
pub proof fn lemma_frames_unique<S>(f1: Seq<Seq<S>>, p1: Seq<S>, f2: Seq<Seq<S>>, p2: Seq<S>, n: nat)
    requires
        frames_of_len(f1, n),
        frames_of_len(f2, n),
        p1.len() < n,
        p2.len() < n,
        concat_frames(f1) + p1 == concat_frames(f2) + p2,
    ensures
        f1 == f2,
        p1 == p2,
{
    lemma_concat_len(f1, n);
    lemma_concat_len(f2, n);
    let t = concat_frames(f1) + p1;
    assert(t.len() == f1.len() * n + p1.len());
    assert(t.len() == f2.len() * n + p2.len());
    assert(f1.len() == f2.len()) by (nonlinear_arith)
        requires
            f1.len() * n + p1.len() == f2.len() * n + p2.len(),
            p1.len() < n,
            p2.len() < n,
    {
        if f1.len() < f2.len() {
            assert(f1.len() * n + n <= f2.len() * n);
        }
        if f2.len() < f1.len() {
            assert(f2.len() * n + n <= f1.len() * n);
        }
    }
    let k = concat_frames(f1).len();
    assert(concat_frames(f1) =~= t.take(k as int));
    assert(concat_frames(f2) =~= (concat_frames(f2) + p2).take(k as int));
    assert(p1 =~= t.skip(k as int));
    assert(p2 =~= (concat_frames(f2) + p2).skip(k as int));
    lemma_concat_inj(f1, f2, n);
}

/// Feeding frames in two runs, the second from where the first left the
/// detector, is feeding them all in one run: the same end state, and the
/// utterances of the first run followed by those of the second.
pub proof fn lemma_run_frames_append<S>(
    st: VadState<S>,
    f1: Seq<Seq<S>>,
    l1: Seq<bool>,
    f2: Seq<Seq<S>>,
    l2: Seq<bool>,
)
    requires
        f1.len() == l1.len(),
        f2.len() == l2.len(),
    ensures
        run_frames(st, f1 + f2, l1 + l2) == (
            run_frames(run_frames(st, f1, l1).0, f2, l2).0,
            run_frames(st, f1, l1).1 + run_frames(run_frames(st, f1, l1).0, f2, l2).1,
        ),
    decreases f2.len(),
{
    let first = run_frames(st, f1, l1);
    if f2.len() == 0 {
        assert(f1 + f2 =~= f1);
        assert(l1 + l2 =~= l1);
        assert(first.1 + Seq::<Seq<S>>::empty() =~= first.1);
    } else {
        let m = (f2.len() - 1) as int;
        let n = (f1.len() + m) as int;
        lemma_run_frames_append(st, f1, l1, f2.take(m), l2.take(m));
        assert((f1 + f2).take(n) =~= f1 + f2.take(m));
        assert((l1 + l2).take(n) =~= l1 + l2.take(m));
        assert((f1 + f2)[n] == f2[m]);
        assert((l1 + l2)[n] == l2[m]);
        let before = run_frames(first.0, f2.take(m), l2.take(m));
        let step = frame_step(before.0, f2[m], l2[m]);
        if let Some(u) = step.1 {
            assert((first.1 + before.1).push(u) =~= first.1 + before.1.push(u));
        }
    }
}

/// The loudness of each of `frames`, as `loud` judges a frame.
pub open spec fn loudness<S>(frames: Seq<Seq<S>>, loud: spec_fn(Seq<S>) -> bool) -> Seq<bool> {
    frames.map_values(loud)
}

/// How incoming samples are split into blocks does not matter: with the
/// samples `a` and then `b` fed block by block (`take_frames`, then
/// `push_frames` with each frame's loudness), the frames, the pending tail,
/// the end state and the utterances are those of feeding `a + b` at once.
pub proof fn lemma_blocks_independent<S>(
    st: VadState<S>,
    pending: Seq<S>,
    a: Seq<S>,
    b: Seq<S>,
    fa: Seq<Seq<S>>,
    pa: Seq<S>,
    fb: Seq<Seq<S>>,
    pb: Seq<S>,
    fab: Seq<Seq<S>>,
    pab: Seq<S>,
    loud: spec_fn(Seq<S>) -> bool,
    n: nat,
)
    requires
        frames_of_len(fa, n),
        frames_of_len(fb, n),
        frames_of_len(fab, n),
        pa.len() < n,
        pb.len() < n,
        pab.len() < n,
        concat_frames(fa) + pa == pending + a,
        concat_frames(fb) + pb == pa + b,
        concat_frames(fab) + pab == pending + (a + b),
    ensures
        fab == fa + fb,
        pab == pb,
        run_frames(st, fab, loudness(fab, loud)) == (
            run_frames(run_frames(st, fa, loudness(fa, loud)).0, fb, loudness(fb, loud)).0,
            run_frames(st, fa, loudness(fa, loud)).1 + run_frames(
                run_frames(st, fa, loudness(fa, loud)).0,
                fb,
                loudness(fb, loud),
            ).1,
        ),
{
    lemma_concat_append(fa, fb);
    let ca = concat_frames(fa);
    let cb = concat_frames(fb);
    assert(ca + cb + pb =~= ca + (cb + pb));
    assert(ca + (pa + b) =~= (ca + pa) + b);
    assert((pending + a) + b =~= pending + (a + b));
    assert(concat_frames(fa + fb) + pb == pending + (a + b));
    assert forall|i: int| 0 <= i < (fa + fb).len() implies (#[trigger] (fa + fb)[i]).len() == n by {
        if i < fa.len() {
            assert((fa + fb)[i] == fa[i]);
        } else {
            assert((fa + fb)[i] == fb[i - fa.len()]);
        }
    }
    lemma_frames_unique(fab, pab, fa + fb, pb, n);
    assert(loudness(fa + fb, loud) =~= loudness(fa, loud) + loudness(fb, loud));
    lemma_run_frames_append(st, fa, loudness(fa, loud), fb, loudness(fb, loud));
}

/// An energy-gated voice activity detector: it cuts incoming audio into
/// fixed frames and groups the frames that the caller finds loud, with the
/// quiet ones between them, into utterances.
pub struct EnergyVad<S> {
    max_silence_frames: usize,
    min_speech_frames: usize,
    frame_len: usize,
    speech: Vec<S>,
    speech_frames: usize,
    silence_frames: usize,
    active: bool,
    pending: Vec<S>,
}

impl<S: Copy> EnergyVad<S> {
    /// The length of the detector's frames.
    pub closed spec fn spec_frame_length(&self) -> nat {
        self.frame_len as nat
    }

    /// The samples that wait for their frame to be complete.
    pub closed spec fn pending(&self) -> Seq<S> {
        self.pending@
    }

    /// What the detector knows of the audio so far.
    pub closed spec fn state(&self) -> VadState<S> {
        VadState {
            active: self.active,
            speech_frames: self.speech_frames as nat,
            silence_frames: self.silence_frames as nat,
            speech: self.speech@,
        }
    }

    /// The detector's own invariant: its settings are the engine's, fewer
    /// samples than a frame wait, an idle detector holds no audio, and an
    /// utterance under way holds every frame since its first loud one.
    pub closed spec fn wf(&self) -> bool {
        &&& self.frame_len == spec_frame_len()
        &&& self.max_silence_frames == MAX_SILENCE_FRAMES
        &&& self.min_speech_frames == MIN_SPEECH_FRAMES
        &&& self.pending@.len() < self.frame_len
        &&& !self.active ==> self.speech@.len() == 0 && self.speech_frames == 0
            && self.silence_frames == 0
        &&& self.active ==> self.speech_frames >= 1 && self.silence_frames < self.max_silence_frames
        &&& self.speech_frames + self.silence_frames <= self.speech@.len()
        &&& (self.speech_frames + self.silence_frames) * self.frame_len <= self.speech@.len()
        &&& self.speech@.len() % (self.frame_len as nat) == 0
    }

    /// Every detector reaches only sound states.
    pub proof fn lemma_wf_state_ok(&self)
        requires
            self.wf(),
        ensures
            state_ok(self.state(), self.spec_frame_length()),
    {
    }

    /// A detector between utterances, with nothing pending.
    pub fn new() -> (r: Self)
        ensures
            r.wf(),
            r.state() == idle::<S>(),
            r.pending() == Seq::<S>::empty(),
            r.spec_frame_length() == spec_frame_len(),
    {
        proof {
            lemma_idle_ok::<S>(spec_frame_len());
        }
        let per_frame = (SAMPLE_RATE / 50) as usize;
        let frame_len = if per_frame >= 1 {
            per_frame
        } else {
            1
        };
        EnergyVad {
            max_silence_frames: MAX_SILENCE_FRAMES,
            min_speech_frames: MIN_SPEECH_FRAMES,
            frame_len,
            speech: Vec::new(),
            speech_frames: 0,
            silence_frames: 0,
            active: false,
            pending: Vec::new(),
        }
    }

    /// The length of the detector's frames.
    pub fn frame_len(&self) -> (r: usize)
        ensures
            r == self.spec_frame_length(),
    {
        self.frame_len
    }

    /// Adds incoming samples after those pending and takes off every
    /// complete frame, in order; fewer samples than a frame stay pending.
    pub fn take_frames(&mut self, samples: &[S]) -> (r: Vec<Vec<S>>)
        requires
            old(self).wf(),
        ensures
            final(self).wf(),
            final(self).state() == old(self).state(),
            concat_frames(frame_views(r@)) + final(self).pending() == old(self).pending() + samples@,
            forall|i: int| 0 <= i < r@.len() ==> (#[trigger] r@[i])@.len() == spec_frame_len(),
    {
        let mut i: usize = 0;
        while i < samples.len()
            invariant
                i <= samples@.len(),
                self.pending@ == old(self).pending@ + samples@.take(i as int),
                self.frame_len == old(self).frame_len,
                self.speech == old(self).speech,
                self.active == old(self).active,
                self.speech_frames == old(self).speech_frames,
                self.silence_frames == old(self).silence_frames,
                self.max_silence_frames == old(self).max_silence_frames,
                self.min_speech_frames == old(self).min_speech_frames,
            decreases samples@.len() - i,
        {
            self.pending.push(samples[i]);
            i += 1;
            assert(samples@.take(i as int) =~= samples@.take(i - 1).push(samples@[i - 1]));
        }
        assert(samples@.take(samples@.len() as int) =~= samples@);
        let ghost all = self.pending@;
        let mut frames: Vec<Vec<S>> = Vec::new();
        while self.pending.len() >= self.frame_len
            invariant
                self.frame_len == old(self).frame_len,
                self.frame_len >= 1,
                self.speech == old(self).speech,
                self.active == old(self).active,
                self.speech_frames == old(self).speech_frames,
                self.silence_frames == old(self).silence_frames,
                self.max_silence_frames == old(self).max_silence_frames,
                self.min_speech_frames == old(self).min_speech_frames,
                concat_frames(frame_views(frames@)) + self.pending@ == all,
                forall|k: int| 0 <= k < frames@.len() ==> (#[trigger] frames@[k])@.len() == self.frame_len,
            decreases self.pending@.len(),
        {
            let rest = self.pending.split_off(self.frame_len);
            let mut frame = rest;
            std::mem::swap(&mut frame, &mut self.pending);
            let ghost prev = frame_views(frames@);
            frames.push(frame);
            assert(frame_views(frames@).drop_last() =~= prev);
            assert(concat_frames(frame_views(frames@)) == concat_frames(prev) + frame@);
            assert(concat_frames(frame_views(frames@)) + self.pending@ =~= concat_frames(prev) + (
            frame@ + self.pending@));
        }
        frames
    }

    /// Feeds one frame, which the caller found `loud` or not, and gives out
    /// the utterance that it ends, if any; `frame_step` says which.
    pub fn process_frame(&mut self, frame: &[S], loud: bool) -> (r: Option<Vec<S>>)
        requires
            old(self).wf(),
            frame@.len() == old(self).spec_frame_length(),
        ensures
            final(self).wf(),
            final(self).pending() == old(self).pending(),
            (final(self).state(), opt_view(r)) == frame_step(old(self).state(), frame@, loud),
    {
        proof {
            lemma_one_more_frame::<S>(
                self.speech_frames as nat,
                self.silence_frames as nat,
                self.frame_len as nat,
                self.speech@.len(),
            );
        }
        if loud {
            self.active = true;
            self.append_frame(frame);
            self.speech_frames = self.speech_frames + 1;
            self.silence_frames = 0;
            assert((self.speech_frames - 1) * self.frame_len + self.frame_len == self.speech_frames
                * self.frame_len) by (nonlinear_arith);
            None
        } else if self.active {
            self.append_frame(frame);
            self.silence_frames = self.silence_frames + 1;
            if self.silence_frames >= self.max_silence_frames {
                let r = self.finish();
                assert(self.state() =~= idle::<S>());
                r
            } else {
                None
            }
        } else {
            None
        }
    }

    /// Feeds frames, each with whether the caller found it loud, in order,
    /// and gives out the utterances that they end; `run_frames` says which.
    pub fn push_frames(&mut self, frames: &Vec<Vec<S>>, loud: &[bool]) -> (r: Vec<Vec<S>>)
        requires
            old(self).wf(),
            loud@.len() == frames@.len(),
            forall|i: int| 0 <= i < frames@.len() ==> (#[trigger] frames@[i])@.len() == old(self).spec_frame_length(),
        ensures
            final(self).wf(),
            final(self).pending() == old(self).pending(),
            (final(self).state(), frame_views(r@)) == run_frames(old(self).state(), frame_views(frames@), loud@),
    {
        let mut out: Vec<Vec<S>> = Vec::new();
        let mut i: usize = 0;
        while i < frames.len()
            invariant
                i <= frames@.len(),
                loud@.len() == frames@.len(),
                self.wf(),
                self.pending() == old(self).pending(),
                self.frame_len == old(self).frame_len,
                forall|k: int| 0 <= k < frames@.len() ==> (#[trigger] frames@[k])@.len() == self.frame_len,
                (self.state(), frame_views(out@)) == run_frames(
                    old(self).state(),
                    frame_views(frames@).take(i as int),
                    loud@.take(i as int),
                ),
            decreases frames@.len() - i,
        {
            let ghost fv = frame_views(frames@).take(i + 1);
            assert(fv.take(i as int) =~= frame_views(frames@).take(i as int));
            assert(loud@.take(i + 1).take(i as int) =~= loud@.take(i as int));
            assert(fv[i as int] == frames@[i as int]@);
            let ghost prev = frame_views(out@);
            let u = self.process_frame(frames[i].as_slice(), loud[i]);
            match u {
                Some(u) => {
                    out.push(u);
                    assert(frame_views(out@) =~= prev.push(u@));
                },
                None => {},
            }
            i += 1;
        }
        assert(frame_views(frames@).take(frames@.len() as int) =~= frame_views(frames@));
        assert(loud@.take(loud@.len() as int) =~= loud@);
        out
    }

    fn append_frame(&mut self, frame: &[S])
        requires
            old(self).frame_len == frame@.len(),
            old(self).frame_len >= 1,
        ensures
            final(self).speech@ == old(self).speech@ + frame@,
            final(self).speech@.len() <= usize::MAX,
            final(self).frame_len == old(self).frame_len,
            final(self).max_silence_frames == old(self).max_silence_frames,
            final(self).min_speech_frames == old(self).min_speech_frames,
            final(self).pending == old(self).pending,
            final(self).active == old(self).active,
            final(self).speech_frames == old(self).speech_frames,
            final(self).silence_frames == old(self).silence_frames,
    {
        let mut i: usize = 0;
        while i < frame.len()
            invariant
                i <= frame@.len(),
                self.speech@ == old(self).speech@ + frame@.take(i as int),
                self.frame_len == old(self).frame_len,
                self.max_silence_frames == old(self).max_silence_frames,
                self.min_speech_frames == old(self).min_speech_frames,
                self.pending == old(self).pending,
                self.active == old(self).active,
                self.speech_frames == old(self).speech_frames,
                self.silence_frames == old(self).silence_frames,
            decreases frame@.len() - i,
        {
            self.speech.push(frame[i]);
            i += 1;
            assert(frame@.take(i as int) =~= frame@.take(i - 1).push(frame@[i - 1]));
        }
        assert(frame@.take(frame@.len() as int) =~= frame@);
        let _ = self.speech.len();
    }

    fn finish(&mut self) -> (r: Option<Vec<S>>)
        ensures
            final(self).speech@.len() == 0,
            !final(self).active,
            final(self).speech_frames == 0,
            final(self).silence_frames == 0,
            final(self).frame_len == old(self).frame_len,
            final(self).max_silence_frames == old(self).max_silence_frames,
            final(self).min_speech_frames == old(self).min_speech_frames,
            final(self).pending == old(self).pending,
            r matches Some(u) ==> old(self).speech_frames >= old(self).min_speech_frames && u@
                == old(self).speech@,
            r is None ==> old(self).speech_frames < old(self).min_speech_frames,
    {
        let mut taken: Vec<S> = Vec::new();
        std::mem::swap(&mut taken, &mut self.speech);
        let r = if self.speech_frames >= self.min_speech_frames {
            Some(taken)
        } else {
            None
        };
        self.active = false;
        self.speech_frames = 0;
        self.silence_frames = 0;
        r
    }

    /// Ends the input: where the utterance under way has enough loud frames,
    /// gives it out and goes idle; otherwise changes nothing. `flush_step`
    /// says which.
    pub fn flush(&mut self) -> (r: Option<Vec<S>>)
        requires
            old(self).wf(),
        ensures
            final(self).wf(),
            final(self).pending() == old(self).pending(),
            (final(self).state(), opt_view(r)) == flush_step(old(self).state()),
    {
        if self.active && self.speech_frames >= self.min_speech_frames {
            let r = self.finish();
            assert(self.state() =~= idle::<S>());
            r
        } else {
            None
        }
    }
}

impl<S: Copy> Default for EnergyVad<S> {
    fn default() -> (r: Self)
        ensures
            r.wf(),
            r.state() == idle::<S>(),
            r.pending() == Seq::<S>::empty(),
    {
        Self::new()
    }
}

} // verus!
