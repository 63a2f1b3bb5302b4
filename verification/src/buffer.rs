//! The edit buffer: the current uncommitted line and a cursor.
use vstd::prelude::*;
use vstd::string::StrSliceExecFns;
use vstd::string::StringExecFns;

verus! {

/// Cursor-addressable mutable text. The cursor is a character index
/// and always stays within `[0, len()]`.
pub struct Buffer {
    text: String,
    cursor: usize,
}

impl Buffer {
    /// The buffer's text, as a sequence of characters.
    pub closed spec fn text_spec(&self) -> Seq<char> {
        self.text@
    }

    /// The cursor, as a character index into the text.
    pub closed spec fn cursor_spec(&self) -> int {
        self.cursor as int
    }

    /// The cursor never leaves the text.
    pub open spec fn wf(&self) -> bool {
        0 <= self.cursor_spec() <= self.text_spec().len()
    }

    /// An empty buffer with the cursor at the start.
    pub fn new() -> (b: Buffer)
        ensures
            b.text_spec() == Seq::<char>::empty(),
            b.cursor_spec() == 0,
            b.wf(),
    {
        Buffer { text: String::new(), cursor: 0 }
    }

    /// Whether the buffer holds no text.
    pub fn is_empty(&self) -> (r: bool)
        ensures
            r == (self.text_spec().len() == 0),
    {
        self.text.as_str().is_empty()
    }

    /// The number of characters in the buffer.
    pub fn len(&self) -> (l: usize)
        ensures
            l == self.text_spec().len(),
    {
        self.text.as_str().unicode_len()
    }

    /// Move the cursor one step left; a no-op at the start.
    pub fn move_left(&mut self)
        ensures
            final(self).text_spec() == old(self).text_spec(),
            final(self).cursor_spec() == if old(self).cursor_spec() > 0 {
                old(self).cursor_spec() - 1
            } else {
                old(self).cursor_spec()
            },
            old(self).wf() ==> final(self).wf(),
    {
        if self.cursor > 0 {
            self.cursor = self.cursor - 1;
        }
    }

    /// Move the cursor one step right; a no-op at the end.
    pub fn move_right(&mut self)
        requires
            old(self).wf(),
        ensures
            final(self).text_spec() == old(self).text_spec(),
            final(self).cursor_spec() == if old(self).cursor_spec() < old(
                self,
            ).text_spec().len() {
                old(self).cursor_spec() + 1
            } else {
                old(self).cursor_spec()
            },
            final(self).wf(),
    {
        if self.cursor < self.len() {
            self.cursor = self.cursor + 1;
        }
    }

    /// Move the cursor to the start of the line.
    pub fn move_to_start(&mut self)
        ensures
            final(self).text_spec() == old(self).text_spec(),
            final(self).cursor_spec() == 0,
            old(self).wf() ==> final(self).wf(),
    {
        self.cursor = 0;
    }

    /// Move the cursor to the end of the line.
    pub fn move_to_end(&mut self)
        ensures
            final(self).text_spec() == old(self).text_spec(),
            final(self).cursor_spec() == old(self).text_spec().len(),
            final(self).wf(),
    {
        self.cursor = self.len();
    }

    /// Insert `data` at the cursor and advance the cursor past it.
    pub fn insert(&mut self, data: &str)
        requires
            old(self).wf(),
            old(self).text_spec().len() + data@.len() <= usize::MAX,
        ensures
            final(self).text_spec() == old(self).text_spec().take(old(self).cursor_spec())
                + data@ + old(self).text_spec().skip(old(self).cursor_spec()),
            final(self).cursor_spec() == old(self).cursor_spec() + data@.len(),
            final(self).wf(),
    {
        self.insert_without_moving(data);
        self.cursor = self.cursor + data.unicode_len();
    }

    /// Insert `data` at the cursor and leave the cursor where it was
    /// (used to place matching paired quotes).
    pub fn insert_without_moving(&mut self, data: &str)
        requires
            old(self).wf(),
            old(self).text_spec().len() + data@.len() <= usize::MAX,
        ensures
            final(self).text_spec() == old(self).text_spec().take(old(self).cursor_spec())
                + data@ + old(self).text_spec().skip(old(self).cursor_spec()),
            final(self).cursor_spec() == old(self).cursor_spec(),
            final(self).wf(),
    {
        let n = self.len();
        let pre = self.text.as_str().substring_char(0, self.cursor).to_owned();
        let post = self.text.as_str().substring_char(self.cursor, n).to_owned();
        let joined = pre.concat(data).concat(post.as_str());
        proof {
            assert(joined@ =~= self.text@.take(self.cursor as int) + data@ + self.text@.skip(
                self.cursor as int,
            ));
        }
        self.text = joined;
    }

    /// Empty the buffer and put the cursor at the start.
    pub fn clear(&mut self)
        ensures
            final(self).text_spec() == Seq::<char>::empty(),
            final(self).cursor_spec() == 0,
            final(self).wf(),
    {
        self.text = String::new();
        self.cursor = 0;
    }

    /// Remove the character before the cursor; a no-op at the start.
    pub fn delete_left(&mut self)
        requires
            old(self).wf(),
        ensures
            final(self).text_spec() == if old(self).cursor_spec() > 0 {
                old(self).text_spec().take(old(self).cursor_spec() - 1) + old(
                    self,
                ).text_spec().skip(old(self).cursor_spec())
            } else {
                old(self).text_spec()
            },
            final(self).cursor_spec() == if old(self).cursor_spec() > 0 {
                old(self).cursor_spec() - 1
            } else {
                0
            },
            final(self).wf(),
    {
        if self.cursor > 0 {
            let n = self.len();
            let pre = self.text.as_str().substring_char(0, self.cursor - 1).to_owned();
            let post = self.text.as_str().substring_char(self.cursor, n).to_owned();
            let joined = pre.concat(post.as_str());
            proof {
                assert(joined@ =~= self.text@.take(self.cursor - 1) + self.text@.skip(
                    self.cursor as int,
                ));
            }
            self.text = joined;
            self.cursor = self.cursor - 1;
        }
    }

    /// Remove the character at the cursor; a no-op at the end.
    pub fn delete_right(&mut self)
        requires
            old(self).wf(),
        ensures
            final(self).text_spec() == if old(self).cursor_spec() < old(
                self,
            ).text_spec().len() {
                old(self).text_spec().take(old(self).cursor_spec()) + old(self).text_spec().skip(
                    old(self).cursor_spec() + 1,
                )
            } else {
                old(self).text_spec()
            },
            final(self).cursor_spec() == old(self).cursor_spec(),
            final(self).wf(),
    {
        let n = self.len();
        if self.cursor < n {
            let pre = self.text.as_str().substring_char(0, self.cursor).to_owned();
            let post = self.text.as_str().substring_char(self.cursor + 1, n).to_owned();
            let joined = pre.concat(post.as_str());
            proof {
                assert(joined@ =~= self.text@.take(self.cursor as int) + self.text@.skip(
                    self.cursor + 1,
                ));
            }
            self.text = joined;
        }
    }

    /// The buffer's text.
    pub fn get(&self) -> (r: &str)
        ensures
            r@ == self.text_spec(),
    {
        self.text.as_str()
    }

    /// Replace the whole content; the cursor moves to the end (used
    /// when recalling history).
    pub fn set(&mut self, data: String)
        ensures
            final(self).text_spec() == data@,
            final(self).cursor_spec() == data@.len(),
            final(self).wf(),
    {
        self.cursor = data.as_str().unicode_len();
        self.text = data;
    }

    /// The cursor's character index.
    pub fn get_cursor(&self) -> (c: usize)
        ensures
            c == self.cursor_spec(),
    {
        self.cursor
    }
}

} // verus!
