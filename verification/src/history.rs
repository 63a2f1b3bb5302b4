//! The append-only log of committed command lines, with a navigation
//! cursor and prefix search.
use vstd::prelude::*;
use vstd::seq_lib::*;
use vstd::string::StrSliceExecFns;

verus! {

/// Where the navigation cursor lands after one step up.
pub open spec fn nav_up(cursor: int) -> int {
    if cursor > 0 {
        cursor - 1
    } else {
        cursor
    }
}

/// Where the navigation cursor lands after one step down.
pub open spec fn nav_down(cursor: int, len: int) -> int {
    if cursor < len {
        cursor + 1
    } else {
        cursor
    }
}

/// The cursor after `n` steps up.
pub open spec fn nav_up_n(cursor: int, n: nat) -> int
    decreases n,
{
    if n == 0 {
        cursor
    } else {
        nav_up_n(nav_up(cursor), (n - 1) as nat)
    }
}

/// The cursor after `n` steps down.
pub open spec fn nav_down_n(cursor: int, len: int, n: nat) -> int
    decreases n,
{
    if n == 0 {
        cursor
    } else {
        nav_down_n(nav_down(cursor, len), len, (n - 1) as nat)
    }
}

/// The most recently committed entry that starts with `prefix`, by
/// index, scanning newest-first.
pub open spec fn latest_with_prefix(cmds: Seq<Seq<char>>, prefix: Seq<char>) -> Option<int>
    decreases cmds.len(),
{
    if cmds.len() == 0 {
        None
    } else if prefix.is_prefix_of(cmds.last()) {
        Some(cmds.len() - 1)
    } else {
        latest_with_prefix(cmds.drop_last(), prefix)
    }
}

/// A found index lies inside the log.
pub proof fn lemma_latest_in_range(cmds: Seq<Seq<char>>, prefix: Seq<char>)
    requires
        latest_with_prefix(cmds, prefix) is Some,
    ensures
        0 <= latest_with_prefix(cmds, prefix)->0 < cmds.len(),
    decreases cmds.len(),
{
    if cmds.len() > 0 && !prefix.is_prefix_of(cmds.last()) {
        lemma_latest_in_range(cmds.drop_last(), prefix);
    }
}

/// Whether `p` starts `s`.
pub fn str_starts_with(s: &str, p: &str) -> (r: bool)
    ensures
        r == p@.is_prefix_of(s@),
{
    let np = p.unicode_len();
    if np > s.unicode_len() {
        return false;
    }
    let mut k: usize = 0;
    loop
        invariant
            k <= np <= s@.len(),
            np == p@.len(),
            forall|t: int| 0 <= t < k ==> s@[t] == p@[t],
        ensures
            if k == np {
                p@.is_prefix_of(s@)
            } else {
                !p@.is_prefix_of(s@)
            },
        decreases np - k,
    {
        if k == np {
            proof {
                assert(p@ =~= s@.subrange(0, np as int));
            }
            break ;
        }
        if s.get_char(k) != p.get_char(k) {
            proof {
                assert(p@.is_prefix_of(s@) ==> p@[k as int] == s@.subrange(0, np as int)[k as int]);
            }
            break ;
        }
        k = k + 1;
    }
    k == np
}

/// The ordered log of committed lines plus the navigation cursor,
/// which stays in `[0, len]`; `len` means "not browsing".
pub struct History {
    cursor: usize,
    commands: Vec<String>,
}

impl History {
    /// The committed lines, oldest first.
    pub closed spec fn commands_spec(&self) -> Seq<Seq<char>> {
        self.commands.deep_view()
    }

    /// The navigation cursor.
    pub closed spec fn cursor_spec(&self) -> int {
        self.cursor as int
    }

    /// The cursor never passes the end of the log.
    pub open spec fn wf(&self) -> bool {
        0 <= self.cursor_spec() <= self.commands_spec().len()
    }

    /// An empty history.
    pub fn new() -> (h: History)
        ensures
            h.commands_spec() == Seq::<Seq<char>>::empty(),
            h.cursor_spec() == 0,
            h.wf(),
    {
        let h = History { cursor: 0, commands: Vec::new() };
        proof {
            assert(h.commands_spec() =~= Seq::<Seq<char>>::empty());
        }
        h
    }

    /// The entry at the cursor, if the cursor is on one.
    fn current(&self) -> (r: Option<String>)
        ensures
            match r {
                Some(line) => self.cursor_spec() < self.commands_spec().len() && line@
                    == self.commands_spec()[self.cursor_spec()],
                None => self.cursor_spec() >= self.commands_spec().len(),
            },
    {
        if self.cursor < self.commands.len() {
            Some(self.commands[self.cursor].clone())
        } else {
            None
        }
    }

    /// Step the cursor up (toward older entries) and return the entry
    /// it lands on, or `None` on an empty history.
    pub fn up(&mut self) -> (r: Option<String>)
        ensures
            final(self).commands_spec() == old(self).commands_spec(),
            final(self).cursor_spec() == nav_up(old(self).cursor_spec()),
            match r {
                Some(line) => final(self).cursor_spec() < final(self).commands_spec().len()
                    && line@ == final(self).commands_spec()[final(self).cursor_spec()],
                None => final(self).cursor_spec() >= final(self).commands_spec().len(),
            },
            old(self).wf() ==> final(self).wf(),
    {
        if self.cursor > 0 {
            self.cursor = self.cursor - 1;
        }
        self.current()
    }

    /// Step the cursor down (toward newer entries) and return the
    /// entry it lands on, or `None` once it reaches the blank line
    /// past the newest entry.
    pub fn down(&mut self) -> (r: Option<String>)
        requires
            old(self).wf(),
        ensures
            final(self).commands_spec() == old(self).commands_spec(),
            final(self).cursor_spec() == nav_down(
                old(self).cursor_spec(),
                old(self).commands_spec().len() as int,
            ),
            match r {
                Some(line) => final(self).cursor_spec() < final(self).commands_spec().len()
                    && line@ == final(self).commands_spec()[final(self).cursor_spec()],
                None => final(self).cursor_spec() >= final(self).commands_spec().len(),
            },
            final(self).wf(),
    {
        if self.cursor < self.commands.len() {
            self.cursor = self.cursor + 1;
        }
        self.current()
    }

    /// Append a committed line and reset the cursor to "not
    /// browsing".
    pub fn commit(&mut self, command: String)
        ensures
            final(self).commands_spec() == old(self).commands_spec().push(command@),
            final(self).cursor_spec() == final(self).commands_spec().len(),
            final(self).wf(),
    {
        self.commands.push(command);
        self.cursor = self.commands.len();
        proof {
            assert(self.commands_spec() =~= old(self).commands_spec().push(command@));
        }
    }

    /// The most recently committed entry whose text starts with
    /// `command`, or `None`.
    pub fn find(&self, command: &str) -> (r: Option<String>)
        ensures
            match r {
                Some(line) => {
                    &&& latest_with_prefix(self.commands_spec(), command@) is Some
                    &&& line@ == self.commands_spec()[latest_with_prefix(
                        self.commands_spec(),
                        command@,
                    )->0]
                    &&& command@.is_prefix_of(line@)
                },
                None => latest_with_prefix(self.commands_spec(), command@) is None,
            },
    {
        let ghost all = self.commands_spec();
        let mut k = self.commands.len();
        proof {
            assert(all.take(k as int) =~= all);
        }
        loop
            invariant
                k <= self.commands_spec().len(),
                all == self.commands_spec(),
                latest_with_prefix(all, command@) == latest_with_prefix(
                    all.take(k as int),
                    command@,
                ),
            ensures
                match latest_with_prefix(all, command@) {
                    Some(idx) => k as int == idx + 1 && command@.is_prefix_of(all[idx]),
                    None => k == 0,
                },
            decreases k,
        {
            if k == 0 {
                proof {
                    assert(all.take(0) =~= Seq::<Seq<char>>::empty());
                }
                break ;
            }
            let found = str_starts_with(self.commands[k - 1].as_str(), command);
            proof {
                assert(all.take(k as int).last() == all[k - 1]);
                assert(all.take(k as int).drop_last() =~= all.take(k - 1));
            }
            if found {
                break ;
            }
            k = k - 1;
        }
        if k > 0 {
            Some(self.commands[k - 1].clone())
        } else {
            None
        }
    }
}

/// Browsing all the way up and then all the way back down returns the
/// cursor to the blank line: from the "not browsing" position `len`,
/// `n` steps up followed by `n` steps down land on `len` again, for
/// any log length and any `n`.
pub proof fn lemma_history_round_trip(len: int, n: nat)
    requires
        len >= 0,
    ensures
        nav_down_n(nav_up_n(len, n), len, n) == len,
{
    lemma_nav_up_floor(len, n);
    lemma_nav_down_ceiling(nav_up_n(len, n), len, n);
}

/// `n` steps up from `c` land on `max(c - n, 0)`.
proof fn lemma_nav_up_floor(c: int, n: nat)
    requires
        c >= 0,
    ensures
        nav_up_n(c, n) == if c - n >= 0 {
            c - n
        } else {
            0
        },
    decreases n,
{
    if n > 0 {
        lemma_nav_up_floor(nav_up(c), (n - 1) as nat);
    }
}

/// `n` steps down from `c` land on `min(c + n, len)`.
proof fn lemma_nav_down_ceiling(c: int, len: int, n: nat)
    requires
        0 <= c <= len,
    ensures
        nav_down_n(c, len, n) == if c + n <= len {
            c + n
        } else {
            len
        },
    decreases n,
{
    if n > 0 {
        lemma_nav_down_ceiling(nav_down(c, len), len, (n - 1) as nat);
    }
}

} // verus!
