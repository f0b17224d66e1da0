use vstd::prelude::*;
use vstd::string::*;
use crate::text::{trim, trimmed, is_trimmed, lemma_trimmed, lemma_trimmed_fixed, all_white_space, is_white_space};

verus! {

/// The text that a recognizer heard, built up segment by segment.
#[derive(Debug, PartialEq, Eq)]
pub struct Transcript(String);

impl View for Transcript {
    type V = Seq<char>;

    closed spec fn view(&self) -> Seq<char> {
        self.0@
    }
}

/// The text after `segment` is added to `text`: the segment's trimmed text,
/// after a single space where `text` already holds something; nothing at all
/// where the segment is blank.
pub open spec fn appended(text: Seq<char>, segment: Seq<char>) -> Seq<char> {
    let seg = trimmed(segment);
    if seg.len() == 0 {
        text
    } else if text.len() == 0 {
        seg
    } else {
        text + seq![' '] + seg
    }
}

impl Transcript {
    /// A transcript holding `text` as it is.
    pub fn new(text: String) -> (r: Self)
        ensures
            r@ == text@,
    {
        Transcript(text)
    }

    /// The transcript's text.
    pub fn text(&self) -> (r: &str)
        ensures
            r@ == self@,
    {
        self.0.as_str()
    }

    /// Whether the transcript holds nothing but white space.
    pub fn is_empty(&self) -> (r: bool)
        ensures
            r == (trimmed(self@).len() == 0),
            r == all_white_space(self@),
    {
        proof {
            lemma_trimmed(self@);
        }
        trim(self.0.as_str()).is_empty()
    }

    /// Adds a recognized segment: trimmed, separated by one space, and
    /// skipped when it is blank.
    pub fn push_segment(&mut self, segment: &str)
        ensures
            final(self)@ == appended(old(self)@, segment@),
    {
        let segment = trim(segment);
        if segment.is_empty() {
            return ;
        }
        if !self.0.as_str().is_empty() {
            proof {
                reveal_strlit(" ");
            }
            self.0.append(" ");
        }
        self.0.append(segment);
    }
}

impl Default for Transcript {
    fn default() -> (r: Self)
        ensures
            r@ == Seq::<char>::empty(),
    {
        Transcript(String::new())
    }
}

/// Adding a segment to a transcript that neither starts nor ends with white
/// space gives one that neither starts nor ends with white space: a
/// transcript built from nothing by `push_segment` is always trimmed.
pub proof fn lemma_appended_stays_trimmed(text: Seq<char>, segment: Seq<char>)
    requires
        is_trimmed(text),
    ensures
        is_trimmed(appended(text, segment)),
        trimmed(appended(text, segment)) == appended(text, segment),
{
    lemma_trimmed(segment);
    let r = appended(text, segment);
    if trimmed(segment).len() > 0 && text.len() > 0 {
        assert(r[0] == text[0]);
        assert(r.last() == trimmed(segment).last());
    }
    lemma_trimmed_fixed(r);
}

/// Adding a blank segment changes nothing, and adding any other segment
/// leaves a transcript that is not empty.
pub proof fn lemma_appended_blank(text: Seq<char>, segment: Seq<char>)
    ensures
        all_white_space(segment) ==> appended(text, segment) == text,
        !all_white_space(segment) ==> !all_white_space(appended(text, segment)),
{
    lemma_trimmed(segment);
    let seg = trimmed(segment);
    let r = appended(text, segment);
    if !all_white_space(segment) {
        assert(r[r.len() - 1] == seg.last());
        assert(!is_white_space(r[r.len() - 1]));
    }
}

/// Adding a segment keeps what the transcript held, in front, and puts the
/// trimmed segment at the end, after exactly one space where both hold
/// something; a blank segment adds nothing.
pub proof fn lemma_appended_keeps_text(text: Seq<char>, segment: Seq<char>)
    ensures
        text.is_prefix_of(appended(text, segment)),
        ({
            let seg = trimmed(segment);
            let r = appended(text, segment);
            let gap: int = if text.len() > 0 && seg.len() > 0 { 1 } else { 0 };
            &&& r.len() == text.len() + gap + seg.len()
            &&& r.skip(text.len() + gap) == seg
            &&& gap == 1 ==> r[text.len() as int] == ' '
        }),
{
    let seg = trimmed(segment);
    let r = appended(text, segment);
    if seg.len() == 0 {
        assert(r.skip(text.len() as int) =~= seg);
    } else if text.len() == 0 {
        assert(r.skip(0) =~= seg);
    } else {
        assert(r.skip(text.len() + 1int) =~= seg);
    }
}

} // verus!
