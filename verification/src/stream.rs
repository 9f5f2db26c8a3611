//! Relaying a reply that the llama back end streams in text frames: the
//! frames are gathered, and the posted reply is edited every third frame.
use vstd::prelude::*;
use vstd::string::*;

verus! {

/// How many frames pass between two edits of the posted reply.
pub const EDIT_RATE: u32 = 3;

/// A reply being streamed: the text gathered so far, and how many frames
/// have come after the first one, which opened the posted reply.
pub struct LlamaStream {
    buffer: String,
    count: u32,
    frames: Ghost<nat>,
}

impl LlamaStream {
    /// The text gathered so far.
    pub closed spec fn text_so_far(&self) -> Seq<char> {
        self.buffer@
    }

    /// How many frames have come after the first one.
    pub closed spec fn frames_after_first(&self) -> nat {
        self.frames@
    }

    /// The frame counter tracks the frames: it runs 1, 2, 3, 1, 2, 3, ...
    pub closed spec fn wf(&self) -> bool {
        &&& self.frames@ == 0 ==> self.count == 0
        &&& self.frames@ > 0 ==> self.count == ((self.frames@ - 1) as int) % 3 + 1
    }

    /// Opens the stream with its first frame, which the posted reply shows.
    pub fn start(first: &str) -> (s: Self)
        ensures
            s.wf(),
            s.text_so_far() == first@,
            s.frames_after_first() == 0,
    {
        LlamaStream { buffer: String::from_str(first), count: 0, frames: Ghost(0) }
    }

    /// Adds a text frame; says whether the posted reply is to be edited now
    /// to show all the text gathered so far.
    ///
    /// Law: the posted reply is edited on the 4th, 7th, 10th, ... frame after
    /// the first one, and on no other.
    pub fn push_text(&mut self, text: &str) -> (edit: bool)
        requires
            old(self).wf(),
        ensures
            final(self).wf(),
            final(self).text_so_far() == old(self).text_so_far() + text@,
            final(self).frames_after_first() == old(self).frames_after_first() + 1,
            edit == (final(self).frames_after_first() > 1 && final(self).frames_after_first() % 3
                == 1),
    {
        self.buffer.append(text);
        let edit = self.count == EDIT_RATE;
        if edit {
            self.count = 0;
        }
        self.count = self.count + 1;
        self.frames = Ghost(self.frames@ + 1);
        edit
    }

    /// The text gathered so far.
    pub fn text(&self) -> (s: String)
        ensures
            s@ == self.text_so_far(),
    {
        self.buffer.clone()
    }
}

} // verus!
