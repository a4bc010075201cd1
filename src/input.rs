use vstd::prelude::*;

verus! {

/// The whitespace-separated words of a text, in order.
pub uninterp spec fn words_of(s: Seq<char>) -> Seq<Seq<char>>;

/// Relies on `str::split_whitespace`: the words of `s`, each turned into an
/// owned string; an empty text has no words.
#[verifier::external_body]
pub(crate) fn split_words(s: &str) -> (r: Vec<String>)
    ensures
        r@.map_values(|w: String| w@) == words_of(s@),
        s@.len() == 0 ==> r@.len() == 0,
{
    s.split_whitespace().map(|w| w.to_string()).collect()
}

/// Relies on `FromIterator<&char>` for `String`: the characters in order.
#[verifier::external_body]
fn chars_to_string(v: &Vec<char>) -> (r: String)
    ensures
        r@ == v@,
{
    v.iter().collect()
}

/// The line being typed, with a cursor between its characters.
pub struct Buffer {
    text: Vec<char>,
    pos: usize,
}

impl Buffer {
    /// The characters of the line.
    pub closed spec fn chars(&self) -> Seq<char> {
        self.text@
    }

    /// The cursor: how many characters stand before it.
    pub closed spec fn cursor(&self) -> int {
        self.pos as int
    }

    /// The cursor stands within the line.
    pub open spec fn wf(&self) -> bool {
        0 <= self.cursor() <= self.chars().len()
    }

    /// An empty line.
    pub fn new() -> (r: Buffer)
        ensures
            r.wf(),
            r.chars() == Seq::<char>::empty(),
            r.cursor() == 0,
    {
        Buffer { text: Vec::new(), pos: 0 }
    }

    /// Empties the line.
    pub fn clear(&mut self)
        ensures
            final(self).wf(),
            final(self).chars() == Seq::<char>::empty(),
            final(self).cursor() == 0,
    {
        self.text.clear();
        self.pos = 0;
    }

    /// Inserts `c` at the cursor and moves the cursor past it.
    pub fn add(&mut self, c: char)
        requires
            old(self).wf(),
            old(self).chars().len() < usize::MAX,
        ensures
            final(self).wf(),
            final(self).chars() == old(self).chars().insert(old(self).cursor(), c),
            final(self).cursor() == old(self).cursor() + 1,
    {
        self.text.insert(self.pos, c);
        self.pos = self.pos + 1;
    }

    /// Moves the cursor one character right, unless it is at the end.
    pub fn next(&mut self)
        requires
            old(self).wf(),
        ensures
            final(self).wf(),
            final(self).chars() == old(self).chars(),
            final(self).cursor() == if old(self).cursor() < old(self).chars().len() {
                old(self).cursor() + 1
            } else {
                old(self).cursor()
            },
    {
        if self.pos < self.text.len() {
            self.pos = self.pos + 1;
        }
    }

    /// Moves the cursor one character left, unless it is at the start.
    pub fn prev(&mut self)
        requires
            old(self).wf(),
        ensures
            final(self).wf(),
            final(self).chars() == old(self).chars(),
            final(self).cursor() == if old(self).cursor() > 0 {
                old(self).cursor() - 1
            } else {
                0
            },
    {
        if self.pos > 0 {
            self.pos = self.pos - 1;
        }
    }

    /// Removes the character before the cursor, if there is one.
    pub fn backspace(&mut self)
        requires
            old(self).wf(),
        ensures
            final(self).wf(),
            old(self).cursor() > 0 ==> final(self).chars() == old(self).chars().remove(
                old(self).cursor() - 1,
            ) && final(self).cursor() == old(self).cursor() - 1,
            old(self).cursor() == 0 ==> final(self).chars() == old(self).chars()
                && final(self).cursor() == 0,
    {
        if self.pos > 0 {
            self.pos = self.pos - 1;
            self.text.remove(self.pos);
        }
    }

    /// The line as a string.
    pub fn text(&self) -> (r: String)
        ensures
            r@ == self.chars(),
    {
        chars_to_string(&self.text)
    }

    /// The cursor position.
    pub fn pos(&self) -> (r: usize)
        ensures
            r == self.cursor(),
    {
        self.pos
    }

    /// Number of characters in the line.
    pub fn len(&self) -> (r: usize)
        ensures
            r == self.chars().len(),
    {
        self.text.len()
    }
}

} // verus!
