use vstd::prelude::*;

verus! {

/// Bytes in a machine word, the unit in which stack memory is read.
pub open spec fn word_bytes() -> int {
    (usize::BITS / 8) as int
}

/// A copy of a stretch of stack memory: `words[i]` is the machine word that
/// was stored at byte address `base + i * word_bytes()`.
pub struct StackImage {
    pub base: int,
    pub words: Seq<usize>,
}

impl StackImage {
    /// Position in `words` of the word stored at `addr`.
    pub open spec fn slot(self, addr: int) -> int {
        (addr - self.base) / word_bytes()
    }

    /// Whether the two-word frame record `[saved_bp][return_address]` at
    /// `frame` lies wholly inside the copy.
    pub open spec fn holds_record(self, frame: int) -> bool {
        &&& self.base <= frame
        &&& (frame - self.base) % word_bytes() == 0
        &&& self.slot(frame) + 1 < self.words.len()
    }

    /// The frame pointer of the caller, saved at offset 0 of the record.
    pub open spec fn saved_bp(self, frame: int) -> usize {
        self.words[self.slot(frame)]
    }

    /// The return address, stored one word above the saved frame pointer.
    pub open spec fn return_address(self, frame: int) -> usize {
        self.words[self.slot(frame) + 1]
    }
}

/// Machine words copied from the stack of the thread being unwound, starting
/// at byte address `base`.
pub struct StackSnapshot {
    base: usize,
    words: Vec<usize>,
}

impl View for StackSnapshot {
    type V = StackImage;

    closed spec fn view(&self) -> StackImage {
        StackImage { base: self.base as int, words: self.words@ }
    }
}

/// The word size as an executable value.
pub fn word_size() -> (r: usize)
    ensures
        r as int == word_bytes(),
        r == 4 || r == 8,
{
    (usize::BITS / 8) as usize
}

impl StackSnapshot {
    /// A snapshot of `words`, the first of which was stored at `base`.
    pub fn new(base: usize, words: Vec<usize>) -> (r: StackSnapshot)
        ensures
            r@ == (StackImage { base: base as int, words: words@ }),
    {
        StackSnapshot { base, words }
    }

    /// A snapshot that holds no memory: no frame record can be read from it.
    pub fn empty() -> (r: StackSnapshot)
        ensures
            r@ == (StackImage { base: 0, words: Seq::<usize>::empty() }),
    {
        StackSnapshot { base: 0, words: Vec::new() }
    }

    /// The address of the first word.
    pub fn base(&self) -> (r: usize)
        ensures
            r as int == self@.base,
    {
        self.base
    }

    /// The number of words held.
    pub fn len(&self) -> (r: usize)
        ensures
            r as int == self@.words.len(),
    {
        self.words.len()
    }

    /// Whether the frame record at `frame` can be read from this snapshot.
    pub fn has_record(&self, frame: usize) -> (r: bool)
        ensures
            r == self@.holds_record(frame as int),
    {
        let w = word_size();
        if frame < self.base {
            return false;
        }
        let offset = frame - self.base;
        if offset % w != 0 {
            return false;
        }
        let slot = offset / w;
        slot < self.words.len() && self.words.len() - slot > 1
    }

    /// Reads the frame record at `frame`: the saved frame pointer and the
    /// return address. This is the only place where the walk reads memory,
    /// and it does so only where `has_record` has answered yes.
    pub fn read_record(&self, frame: usize) -> (r: (usize, usize))
        requires
            self@.holds_record(frame as int),
        ensures
            r.0 == self@.saved_bp(frame as int),
            r.1 == self@.return_address(frame as int),
    {
        let w = word_size();
        let slot = (frame - self.base) / w;
        (self.words[slot], self.words[slot + 1])
    }
}

} // verus!
