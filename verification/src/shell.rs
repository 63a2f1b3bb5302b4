//! The top-level orchestrator: owns the edit buffer, history,
//! variable store, program registry and runner, consumes input
//! events, and re-renders after every keystroke. All output goes
//! through returned sink requests; asynchronous work is handed to
//! the host as a dispatch request and finished through
//! [`Shell::finish_command`].
use crate::ast::Command;
use crate::buffer::Buffer;
use crate::executable::{builtin_ops, builtin_vars, opt_args, InternalProgram, Program, Runner};
use crate::grammar::{command_name, interactive_at, interactive_end, interactive_ok,
    lemma_interactive_name, ws_end};
use crate::history::{latest_with_prefix, nav_down, nav_up, History};
use crate::paint::{dec_chars, dec_of, fixed_params, paint_fixed, paint_purple, painted,
    purple_params};
use crate::parser::{parse_interactive, parse_strict, ParseError};
use crate::pos::pos_at_spec;
use crate::render;
use crate::sink::{lemma_ops_view_concat, ops_view, SinkOp, SinkOpV};
use crate::store::{Executables, Vars};
use crate::transform::{args_view, ArgV, Argument};
use vstd::prelude::*;
use vstd::string::StrSliceExecFns;
use vstd::string::StringExecFns;

verus! {

broadcast use vstd::string::group_string_axioms;

/// Asynchronous work the host must perform: run an internal program
/// with structured arguments, or call an external program with flat
/// text arguments. The host signals completion through
/// [`Shell::finish_command`].
pub enum Request {
    Internal { program: InternalProgram, arguments: Vec<Argument> },
    External { name: String, arguments: Vec<String> },
}

/// Lines, history entries and suggestions stay below this many
/// characters, so that positions and additions always fit the
/// machine's integers.
pub open spec fn max_line() -> int {
    0x8000_0000
}

/// The most recently committed line that starts with `p`, with that
/// prefix (repeatedly) removed.
pub open spec fn trim_rep(s: Seq<char>, p: Seq<char>) -> Seq<char>
    decreases s.len(),
{
    if p.len() > 0 && p.is_prefix_of(s) {
        trim_rep(s.skip(p.len() as int), p)
    } else {
        s
    }
}

/// Trimming a non-empty prefix shortens the text by at least the
/// prefix once.
pub proof fn lemma_trim_bound(s: Seq<char>, p: Seq<char>)
    requires
        p.len() > 0,
        p.is_prefix_of(s),
    ensures
        trim_rep(s, p).len() + p.len() <= s.len(),
    decreases s.len(),
{
    let rest = s.skip(p.len() as int);
    assert(trim_rep(s, p) == trim_rep(rest, p));
    if p.is_prefix_of(rest) {
        lemma_trim_bound(rest, p);
    } else {
        assert(trim_rep(rest, p) == rest);
    }
}

/// Remove the prefix `p` from the start of `s` as often as it
/// stands there.
fn trim_prefix(s: &str, p: &str) -> (r: String)
    requires
        p@.len() > 0,
    ensures
        r@ == trim_rep(s@, p@),
{
    let np = p.unicode_len();
    let mut cur = s.to_owned();
    loop
        invariant
            np == p@.len(),
            np > 0,
            trim_rep(s@, p@) == trim_rep(cur@, p@),
        ensures
            cur@ == trim_rep(s@, p@),
        decreases cur@.len(),
    {
        if !crate::history::str_starts_with(cur.as_str(), p) {
            proof {
                assert(trim_rep(cur@, p@) == cur@);
            }
            break ;
        }
        let n = cur.as_str().unicode_len();
        let next = cur.as_str().substring_char(np, n).to_owned();
        proof {
            assert(next@ =~= cur@.skip(np as int));
        }
        cur = next;
    }
    cur
}

/// What the suggestion becomes after a re-render: cleared on an
/// empty buffer, the newest matching history entry minus the typed
/// prefix on a hit, and left alone otherwise.
pub open spec fn sugg_of(
    pre: Option<Seq<char>>,
    cmds: Seq<Seq<char>>,
    buf: Seq<char>,
) -> Option<Seq<char>> {
    if buf.len() == 0 {
        None
    } else {
        match latest_with_prefix(cmds, buf) {
            Some(idx) => Some(trim_rep(cmds[idx], buf)),
            None => pre,
        }
    }
}

/// The interactive shell.
pub struct Shell {
    buffer: Buffer,
    executables: Executables,
    globals: Vars,
    history: History,
    suggestion: Option<String>,
    runner: Runner,
}

impl Shell {
    /// The edit buffer's text.
    pub closed spec fn buffer_text(&self) -> Seq<char> {
        self.buffer.text_spec()
    }

    /// The edit buffer's cursor.
    pub closed spec fn buffer_cursor(&self) -> int {
        self.buffer.cursor_spec()
    }

    /// The committed history lines.
    pub closed spec fn history_lines(&self) -> Seq<Seq<char>> {
        self.history.commands_spec()
    }

    /// The history navigation cursor.
    pub closed spec fn history_cursor(&self) -> int {
        self.history.cursor_spec()
    }

    /// The variable store.
    pub closed spec fn vars(&self) -> Map<Seq<char>, Seq<char>> {
        self.globals@
    }

    /// The program registry.
    pub closed spec fn execs(&self) -> Map<Seq<char>, Program> {
        self.executables@
    }

    /// The current completion suggestion.
    pub closed spec fn suggestion_spec(&self) -> Option<Seq<char>> {
        match self.suggestion {
            Some(s) => Some(s@),
            None => None,
        }
    }

    /// How long the current suggestion is.
    pub open spec fn sugg_len(&self) -> int {
        match self.suggestion_spec() {
            Some(s) => s.len() as int,
            None => 0,
        }
    }

    /// Whether a command is in flight.
    pub closed spec fn running(&self) -> bool {
        self.runner.running_spec()
    }

    /// The buffer's and history's own invariants.
    pub closed spec fn parts_wf(&self) -> bool {
        self.buffer.wf() && self.history.wf()
    }

    /// The shell's invariant: cursors stay in range and all lines
    /// stay short enough for positions to fit the machine's
    /// integers.
    pub open spec fn wf(&self) -> bool {
        &&& self.parts_wf()
        &&& self.buffer_text().len() + 2 < u32::MAX
        &&& forall|k: int|
            0 <= k < self.history_lines().len() ==> (#[trigger] self.history_lines()[k]).len()
                + 2 < max_line()
        &&& self.sugg_len() + 2 < max_line()
    }

    /// A fresh shell with the stock registry (clear, echo, export,
    /// curl), plus the greeting and the first prompt.
    pub fn new() -> (r: (Shell, Vec<SinkOp>))
        ensures
            r.0.wf(),
            !r.0.running(),
            r.0.buffer_text().len() == 0,
            r.0.buffer_cursor() == 0,
            r.0.history_lines().len() == 0,
            r.0.vars() == Map::<Seq<char>, Seq<char>>::empty(),
            r.0.suggestion_spec() is None,
            r.0.execs() == Map::<Seq<char>, Program>::empty().insert(
                "clear"@,
                Program::Builtin(crate::executable::BuiltinProgram::Clear),
            ).insert("echo"@, Program::Builtin(crate::executable::BuiltinProgram::Echo)).insert(
                "export"@,
                Program::Builtin(crate::executable::BuiltinProgram::Export),
            ).insert("curl"@, Program::Internal(InternalProgram::Curl)),
            ops_view(r.1@) =~= seq![
                SinkOpV::Write(
                    painted(fixed_params(127), "Welcome to Blessing Skin Shell!\r\n"@),
                ),
                SinkOpV::Write("\r\n"@),
                SinkOpV::Write(prompt_text()),
            ],
    {
        let mut executables = Executables::new();
        executables.insert(
            String::from_str("clear"),
            Program::Builtin(crate::executable::BuiltinProgram::Clear),
        );
        executables.insert(
            String::from_str("echo"),
            Program::Builtin(crate::executable::BuiltinProgram::Echo),
        );
        executables.insert(
            String::from_str("export"),
            Program::Builtin(crate::executable::BuiltinProgram::Export),
        );
        executables.insert(String::from_str("curl"), Program::Internal(InternalProgram::Curl));
        let shell = Shell {
            buffer: Buffer::new(),
            executables,
            globals: Vars::new(),
            history: History::new(),
            suggestion: None,
            runner: Runner::new(),
        };
        let mut ops: Vec<SinkOp> = Vec::new();
        let greet = paint_fixed(127, "Welcome to Blessing Skin Shell!\r\n");
        ops.push(SinkOp::Write(greet));
        ops.push(SinkOp::Write(String::from_str("\r\n")));
        push_prompt(&mut ops);
        (shell, ops)
    }

    /// Register a host-supplied external program under `name`. The
    /// host keeps the callable; the shell only dispatches by name.
    pub fn add_external(&mut self, name: String)
        ensures
            final(self).execs() == old(self).execs().insert(name@, Program::External),
            final(self).buffer_text() == old(self).buffer_text(),
            final(self).buffer_cursor() == old(self).buffer_cursor(),
            final(self).history_lines() == old(self).history_lines(),
            final(self).history_cursor() == old(self).history_cursor(),
            final(self).vars() == old(self).vars(),
            final(self).suggestion_spec() == old(self).suggestion_spec(),
            final(self).running() == old(self).running(),
            old(self).wf() ==> final(self).wf(),
    {
        self.executables.insert(name, Program::External);
        proof {
            assert(self.buffer == old(self).buffer);
            assert(self.history == old(self).history);
            assert(self.suggestion == old(self).suggestion);
            if old(self).wf() {
                assert forall|k: int| 0 <= k < self.history_lines().len() implies (
                #[trigger] self.history_lines()[k]).len() + 2 < max_line() by {
                    assert(old(self).history_lines()[k].len() + 2 < max_line());
                }
            }
        }
    }

    /// How many characters the edit buffer holds right now; hosts
    /// use it to keep input under the line-length ceiling.
    pub fn buffer_len(&self) -> (r: usize)
        ensures
            r == self.buffer_text().len(),
    {
        self.buffer.len()
    }

    /// Whether a command is in flight right now.
    pub fn is_running(&self) -> (r: bool)
        ensures
            r == self.running(),
    {
        self.runner.is_running()
    }

    /// The completion signal of an internal or external program
    /// arrived: return to idle and show a fresh prompt.
    pub fn finish_command(&mut self) -> (ops: Vec<SinkOp>)
        ensures
            ops_view(ops@) =~= seq![SinkOpV::Write(prompt_text())],
            !final(self).running(),
            final(self).buffer_text() == old(self).buffer_text(),
            final(self).buffer_cursor() == old(self).buffer_cursor(),
            final(self).history_lines() == old(self).history_lines(),
            final(self).history_cursor() == old(self).history_cursor(),
            final(self).vars() == old(self).vars(),
            final(self).execs() == old(self).execs(),
            final(self).suggestion_spec() == old(self).suggestion_spec(),
            old(self).wf() ==> final(self).wf(),
    {
        self.runner.finish();
        proof {
            if old(self).wf() {
                assert forall|k: int| 0 <= k < self.history_lines().len() implies (
                #[trigger] self.history_lines()[k]).len() + 2 < max_line() by {
                    assert(old(self).history_lines()[k].len() + 2 < max_line());
                }
            }
        }
        let mut ops: Vec<SinkOp> = Vec::new();
        push_prompt(&mut ops);
        ops
    }

    /// Send input data to the shell. While a command is in flight
    /// every event is ignored, so a second command can never start:
    /// at most one program is ever dispatched per call, and only
    /// from the idle state. The returned sink requests are pinned in
    /// every case: nothing while busy, the re-render for editing
    /// keys, and for a submission the echoed line, the commit's own
    /// output (a program's writes, the unknown-command report, or
    /// the syntax-error line) and the blank-line re-render.
    #[verifier::rlimit(100)]
    pub fn input(&mut self, data: &str) -> (r: (Vec<SinkOp>, Option<Request>))
        requires
            old(self).wf(),
            !old(self).running() ==> old(self).buffer_text().len() + data@.len() + 4
                < max_line(),
        ensures
            final(self).wf(),
            final(self).execs() == old(self).execs(),
            old(self).running() ==> *final(self) == *old(self) && r.0@.len() == 0 && r.1 is None,
            !old(self).running() ==> input_rel(
                *old(self),
                *final(self),
                data@,
                ops_view(r.0@),
                r.1,
            ),
    {
        proof {
            // The key patterns are opaque literals; revealing them, and
            // seeding their lengths and telling characters, lets the
            // verifier tell them apart across the branches below.
            reveal_strlit("\n");
            reveal_strlit("\r");
            reveal_strlit("\u{1b}");
            reveal_strlit("\u{7f}");
            reveal_strlit("\u{1b}[D");
            reveal_strlit("\u{1b}[C");
            reveal_strlit("\u{1b}[A");
            reveal_strlit("\u{1b}[B");
            reveal_strlit("\u{1b}[3~");
            reveal_strlit("\u{1b}[H");
            reveal_strlit("\u{1b}[F");
            reveal_strlit("\"");
            reveal_strlit("'");
            assert("\n"@.len() == 1 && "\r"@.len() == 1 && "\u{1b}"@.len() == 1 && "\u{7f}"@.len()
                == 1 && "\""@.len() == 1 && "'"@.len() == 1);
            assert("\u{1b}[D"@.len() == 3 && "\u{1b}[C"@.len() == 3 && "\u{1b}[A"@.len() == 3
                && "\u{1b}[B"@.len() == 3 && "\u{1b}[H"@.len() == 3 && "\u{1b}[F"@.len() == 3);
            assert("\u{1b}[3~"@.len() == 4);
            assert("\u{1b}[D"@[2] == 'D' && "\u{1b}[C"@[2] == 'C' && "\u{1b}[A"@[2] == 'A'
                && "\u{1b}[B"@[2] == 'B' && "\u{1b}[H"@[2] == 'H' && "\u{1b}[F"@[2] == 'F');
            assert("\n"@[0] == '\n' && "\r"@[0] == '\r' && "\u{1b}"@[0] == '\u{1b}' && "\u{7f}"@[0]
                == '\u{7f}' && "\""@[0] == '"' && "'"@[0] == '\'');
        }
        if self.runner.is_running() {
            return (Vec::new(), None);
        }
        let mut ops: Vec<SinkOp> = Vec::new();
        let mut req: Option<Request> = None;
        let ghost mut witness: Option<Command> = None;
        let ghost mut echoed_v: Seq<SinkOpV> = Seq::empty();
        let ghost mut body_v: Seq<SinkOpV> = Seq::empty();
        if str_is(data, "\n") || str_is(data, "\r") {
            push_reset(&mut ops);
            push_prompt(&mut ops);
            let mut echoed = self.echo_parsed();
            proof {
                echoed_v = ops_view(echoed@);
                lemma_ops_view_concat(ops@, echoed@);
            }
            ops.append(&mut echoed);
            let committed = self.commit();
            req = committed.0;
            let mut body = committed.1;
            proof {
                witness = committed.2@;
                body_v = ops_view(body@);
                lemma_ops_view_concat(ops@, body@);
            }
            ops.append(&mut body);
        } else if str_is(data, "\u{1b}") {
        } else if str_is(data, "\u{7f}") {
            self.buffer.delete_left();
        } else if str_is(data, "\u{1b}[D") {
            self.buffer.move_left();
        } else if str_is(data, "\u{1b}[C") {
            if !self.buffer.is_empty() && self.buffer.get_cursor() < self.buffer.len() {
                self.buffer.move_right();
            } else {
                let sugg = self.suggestion.take();
                match sugg {
                    Some(s) => {
                        self.buffer.insert(s.as_str());
                    },
                    None => {},
                }
            }
        } else if str_is(data, "\u{1b}[A") {
            match self.history.up() {
                Some(line) => {
                    self.buffer.set(line);
                },
                None => {},
            }
        } else if str_is(data, "\u{1b}[B") {
            match self.history.down() {
                Some(line) => {
                    self.buffer.set(line);
                },
                None => {
                    self.buffer.clear();
                },
            }
        } else if str_is(data, "\u{1b}[3~") {
            self.buffer.delete_right();
        } else if str_is(data, "\u{1b}[H") {
            self.buffer.move_to_start();
        } else if str_is(data, "\u{1b}[F") {
            self.buffer.move_to_end();
        } else if str_is(data, "\"") {
            proof {
                reveal_strlit("\"\"");
            }
            self.buffer.insert_without_moving("\"\"");
            self.buffer.move_right();
        } else if str_is(data, "'") {
            proof {
                reveal_strlit("''");
            }
            self.buffer.insert_without_moving("''");
            self.buffer.move_right();
        } else {
            self.buffer.insert(data);
        }
        let ghost before_render = ops_view(ops@);
        let ghost mut tail_v: Seq<SinkOpV> = Seq::empty();
        if !self.runner.is_running() {
            proof {
                assert forall|k: int| 0 <= k < self.history_lines().len() implies (
                #[trigger] self.history_lines()[k]).len() + 2 < max_line() by {
                    if self.history_lines() == old(self).history_lines() {
                        assert(old(self).history_lines()[k].len() + 2 < max_line());
                    }
                }
            }
            let mut rendered = self.output();
            proof {
                tail_v = ops_view(rendered@);
                lemma_ops_view_concat(ops@, rendered@);
            }
            ops.append(&mut rendered);
        }
        proof {
            if !old(self).running() {
                if data@ == "\n"@ || data@ == "\r"@ {
                    match witness {
                        Some(c) => {
                            assert(dispatch_rel(*old(self), *self, req, c));
                            assert(submit_rel(*old(self), *self, req));
                        },
                        None => {
                            assert(submit_rel(*old(self), *self, req));
                        },
                    }
                    assert(before_render =~= reset_ops_v() + prompt_ops_v() + echoed_v + body_v);
                    if !self.running() {
                        // The buffer is blank after a commit, so the
                        // trailing re-render is the fixed blank line.
                        assert(self.buffer_text() =~= Seq::<char>::empty());
                        let e2 = choose|e2: Seq<SinkOpV>|
                            (#[trigger] echoed_rel(self.buffer_text(), self.execs(), e2))
                                && tail_v =~= reset_ops_v() + prompt_ops_v() + e2 + sugg_ops_v(
                                self.history_lines(),
                                self.buffer_text(),
                            ) + cursor_ops_v(self.buffer_cursor());
                        assert(e2 =~= seq![SinkOpV::Write(Seq::<char>::empty())]);
                        assert(tail_v =~= blank_line_ops());
                    }
                    assert(ops_view(ops@) =~= reset_ops_v() + prompt_ops_v() + echoed_v + body_v
                        + if self.running() {
                        Seq::<SinkOpV>::empty()
                    } else {
                        blank_line_ops()
                    });
                }
                assert(input_rel(*old(self), *self, data@, ops_view(ops@), req));
            }
        }
        (ops, req)
    }

    /// Re-render the current line: reset it, print the prompt and
    /// the highlighted buffer, refresh the suggestion, and put the
    /// cursor back.
    fn output(&mut self) -> (r: Vec<SinkOp>)
        requires
            old(self).buffer.wf(),
            old(self).history.wf(),
            old(self).buffer_text().len() + 2 < u32::MAX,
            old(self).sugg_len() + 2 < max_line(),
            forall|k: int|
                0 <= k < old(self).history_lines().len()
                    ==> (#[trigger] old(self).history_lines()[k]).len() + 2 < max_line(),
        ensures
            final(self).buffer_text() == old(self).buffer_text(),
            final(self).buffer_cursor() == old(self).buffer_cursor(),
            final(self).history_lines() == old(self).history_lines(),
            final(self).history_cursor() == old(self).history_cursor(),
            final(self).vars() == old(self).vars(),
            final(self).execs() == old(self).execs(),
            final(self).running() == old(self).running(),
            final(self).suggestion_spec() == sugg_of(
                old(self).suggestion_spec(),
                old(self).history_lines(),
                old(self).buffer_text(),
            ),
            final(self).sugg_len() + 2 < max_line(),
            final(self).buffer.wf(),
            final(self).history.wf(),
            output_ops_rel(
                old(self).buffer_text(),
                old(self).buffer_cursor(),
                old(self).history_lines(),
                old(self).execs(),
                ops_view(r@),
            ),
    {
        let mut ops: Vec<SinkOp> = Vec::new();
        push_reset(&mut ops);
        push_prompt(&mut ops);
        let mut echoed = self.echo_parsed();
        let ghost echoed_v = ops_view(echoed@);
        proof {
            lemma_ops_view_concat(ops@, echoed@);
        }
        ops.append(&mut echoed);
        proof {
            assert(ops_view(ops@) =~= reset_ops_v() + prompt_ops_v() + echoed_v);
        }
        let ghost line_v = ops_view(ops@);
        let ghost hist0 = old(self).history_lines();
        let ghost buf0 = old(self).buffer_text();
        if self.buffer.is_empty() {
            self.suggestion = None;
            proof {
                assert(ops_view(ops@) =~= line_v + sugg_ops_v(hist0, buf0));
            }
        } else {
            let hit = self.history.find(self.buffer.get());
            match hit {
                Some(entry) => {
                    proof {
                        crate::history::lemma_latest_in_range(
                            self.history.commands_spec(),
                            self.buffer.text_spec(),
                        );
                        lemma_trim_bound(entry@, self.buffer.text_spec());
                    }
                    let rest = trim_prefix(entry.as_str(), self.buffer.get());
                    ops.push(SinkOp::Write(paint_fixed(8, rest.as_str())));
                    self.suggestion = Some(rest);
                    proof {
                        assert(ops_view(ops@) =~= line_v + sugg_ops_v(hist0, buf0));
                    }
                },
                None => {
                    proof {
                        assert(ops_view(ops@) =~= line_v + sugg_ops_v(hist0, buf0));
                    }
                },
            }
        }
        ops.push(SinkOp::Write(String::from_str("\u{1b}[1000D")));
        let esc = String::from_str("\u{1b}[").concat(
            dec_of(self.buffer.get_cursor() + 2).as_str(),
        ).concat("C");
        ops.push(SinkOp::Write(esc));
        proof {
            assert(ops_view(ops@) =~= line_v + sugg_ops_v(hist0, buf0) + cursor_ops_v(
                old(self).buffer_cursor(),
            ));
            assert(ops_view(ops@) =~= reset_ops_v() + prompt_ops_v() + echoed_v + sugg_ops_v(
                hist0,
                buf0,
            ) + cursor_ops_v(old(self).buffer_cursor()));
        }
        ops
    }

    /// Print the buffer with highlighting when it parses, raw when
    /// it does not.
    fn echo_parsed(&self) -> (r: Vec<SinkOp>)
        requires
            self.buffer.wf(),
            self.buffer_text().len() + 2 < u32::MAX,
        ensures
            echoed_rel(self.buffer_text(), self.execs(), ops_view(r@)),
    {
        let mut ops: Vec<SinkOp> = Vec::new();
        let text = self.buffer.get();
        match parse_interactive(text) {
            Ok((cmd, rest)) => {
                proof {
                    let s = text@;
                    let w0 = ws_end(s, 0);
                    crate::grammar::lemma_run(
                        s,
                        0,
                        crate::grammar::class_pred(crate::grammar::CharClass::Space),
                    );
                    crate::grammar::lemma_run(s, w0, crate::grammar::ident_pred(false));
                    crate::grammar::lemma_run(
                        s,
                        crate::grammar::ident_end(s, w0, false),
                        crate::grammar::class_pred(crate::grammar::CharClass::Space),
                    );
                    match &cmd.parameters {
                        Some(ps) => {
                            crate::grammar::lemma_params_seq_end(
                                s,
                                ws_end(s, crate::grammar::ident_end(s, w0, false)),
                                crate::grammar::params_end(
                                    s,
                                    ws_end(s, crate::grammar::ident_end(s, w0, false)),
                                ),
                                ps.params@,
                            );
                            render::lemma_parsed_spans_ordered(
                                s,
                                ws_end(s, crate::grammar::ident_end(s, w0, false)),
                                crate::grammar::params_end(
                                    s,
                                    ws_end(s, crate::grammar::ident_end(s, w0, false)),
                                ),
                                ps.params@,
                                cmd.program.span.end.index as int,
                            );
                        },
                        None => {},
                    }
                }
                ops.push(SinkOp::Write(render::command(&cmd, &self.executables)));
                if cmd.parameters.is_none() {
                    let gap = self.buffer.len() - cmd.program.span.end.index;
                    ops.push(SinkOp::Write(render::white_space(gap)));
                }
                ops.push(SinkOp::Write(rest.to_owned()));
                proof {
                    assert(ops_view(ops@) =~= echo_out(cmd, self.buffer_text(), self.execs()));
                }
            },
            Err(_) => {
                ops.push(SinkOp::Write(self.buffer.get().to_owned()));
                proof {
                    assert(ops_view(ops@) =~= seq![SinkOpV::Write(self.buffer_text())]);
                }
            },
        }
        ops
    }

    /// Commit the current line: echo a line break (unless the
    /// screen is about to be cleared), append a non-empty line to
    /// the history, parse it strictly, and dispatch. The buffer is
    /// cleared afterwards.
    fn commit(&mut self) -> (r: (Option<Request>, Vec<SinkOp>, Ghost<Option<Command>>))
        requires
            old(self).wf(),
            !old(self).running(),
            old(self).buffer_text().len() + 2 < max_line(),
        ensures
            final(self).buffer.wf(),
            final(self).history.wf(),
            final(self).suggestion_spec() == old(self).suggestion_spec(),
            final(self).execs() == old(self).execs(),
            submit_rel(*old(self), *final(self), r.0),
            submit_out_rel(*old(self), r.0, ops_view(r.1@)),
            match r.2@ {
                Some(c) => {
                    &&& old(self).buffer_text().len() > 0
                    &&& interactive_ok(old(self).buffer_text(), c)
                    &&& dispatch_rel(*old(self), *final(self), r.0, c)
                },
                None => {
                    &&& r.0 is None
                    &&& final(self).running() == old(self).running()
                    &&& final(self).vars() == old(self).vars()
                },
            },
            forall|k: int|
                0 <= k < final(self).history_lines().len()
                    ==> (#[trigger] final(self).history_lines()[k]).len() + 2 < max_line(),
            final(self).buffer_text().len() + 2 < max_line(),
    {
        let mut ops: Vec<SinkOp> = Vec::new();
        if !crate::history::str_starts_with(self.buffer.get(), "clear") {
            ops.push(SinkOp::Write(String::from_str("\r\n")));
        }
        let ghost newline_v = ops_view(ops@);
        let mut req: Option<Request> = None;
        let ghost mut witness: Option<Command> = None;
        if !self.buffer.is_empty() {
            self.history.commit(self.buffer.get().to_owned());
            match parse_strict(self.buffer.get()) {
                Ok(cmd) => {
                    proof {
                        witness = Some(cmd);
                    }
                    let dispatched = self.run_command(cmd);
                    req = dispatched.0;
                    let mut dops = dispatched.1;
                    proof {
                        lemma_ops_view_concat(ops@, dops@);
                    }
                    ops.append(&mut dops);
                },
                Err(e) => {
                    push_syntax_error(&mut ops, &e);
                    proof {
                        assert(syntax_error_text(e) =~= strict_error_text(
                            old(self).buffer_text(),
                        ));
                    }
                },
            }
        }
        self.buffer.clear();
        proof {
            assert forall|k: int| 0 <= k < self.history_lines().len() implies (
            #[trigger] self.history_lines()[k]).len() + 2 < max_line() by {
                if k < old(self).history_lines().len() {
                    assert(old(self).history_lines()[k].len() + 2 < max_line());
                    assert(self.history_lines()[k] == old(self).history_lines()[k]);
                }
            }
            match witness {
                Some(c) => {
                    assert(ops_view(ops@) =~= newline_v + dispatch_out(*old(self), c));
                },
                None => {},
            }
        }
        (req, ops, Ghost(witness))
    }

    /// Look the command's name up and dispatch: builtins run here
    /// and now; internal and external programs flip the runner to
    /// busy and are handed to the host.
    fn run_command(&mut self, cmd: Command) -> (r: (Option<Request>, Vec<SinkOp>))
        requires
            !old(self).running(),
        ensures
            final(self).buffer == old(self).buffer,
            final(self).history == old(self).history,
            final(self).suggestion_spec() == old(self).suggestion_spec(),
            final(self).execs() == old(self).execs(),
            dispatch_rel(*old(self), *final(self), r.0, cmd),
            ops_view(r.1@) =~= dispatch_out(*old(self), cmd),
    {
        let name = cmd.program.id.name.clone();
        match self.executables.get(name.as_str()) {
            Some(Program::Builtin(b)) => {
                let (code, bops) = self.runner.run_builtin(
                    b,
                    cmd.parameters,
                    &mut self.executables,
                    &mut self.globals,
                );
                (None, bops)
            },
            Some(Program::Internal(k)) => {
                let arguments = self.runner.run_internal(k, cmd.parameters, &self.globals);
                (Some(Request::Internal { program: k, arguments }), Vec::new())
            },
            Some(Program::External) => {
                let arguments = self.runner.run_external(cmd.parameters, &self.globals);
                (Some(Request::External { name, arguments }), Vec::new())
            },
            None => {
                let line = String::from_str("bsh: command not found: ").concat(
                    name.as_str(),
                ).concat("\r\n");
                let mut ops: Vec<SinkOp> = Vec::new();
                ops.push(SinkOp::Write(line));
                proof {
                    assert(ops_view(ops@) =~= seq![
                        SinkOpV::Write(not_found_text(cmd.program.id.name@)),
                    ]);
                }
                (None, ops)
            },
        }
    }
}

/// The two line-reset escapes, as sink values.
pub open spec fn reset_ops_v() -> Seq<SinkOpV> {
    seq![SinkOpV::Write("\u{1b}[1000D"@), SinkOpV::Write("\u{1b}[0K"@)]
}

/// The prompt, as a sink value.
pub open spec fn prompt_ops_v() -> Seq<SinkOpV> {
    seq![SinkOpV::Write(prompt_text())]
}

/// The report printed for a name the registry does not know.
pub open spec fn not_found_text(name: Seq<char>) -> Seq<char> {
    "bsh: command not found: "@ + name + "\r\n"@
}

/// The syntax-error line a failed submission prints, at the position
/// and with the message the strict parser guarantees.
pub open spec fn strict_error_text(buf: Seq<char>) -> Seq<char> {
    let p = if interactive_at(buf) {
        pos_at_spec(buf, interactive_end(buf))
    } else {
        pos_at_spec(buf, ws_end(buf, 0))
    };
    let msg: Seq<char> = if interactive_at(buf) {
        "unexpected character"@
    } else {
        "expected a command name"@
    };
    "bsh: syntax error at line "@ + dec_chars(p.line as int) + ", column "@ + dec_chars(
        p.column as int,
    ) + ", "@ + msg + "\r\n"@
}

/// What the line echo prints for a command the buffer parses to: the
/// highlighted command, trailing spaces when it has no parameters,
/// and the unconsumed rest of the buffer verbatim.
pub open spec fn echo_out(cmd: Command, buf: Seq<char>, execs: Map<Seq<char>, Program>) -> Seq<
    SinkOpV,
> {
    let rest = buf.subrange(interactive_end(buf), buf.len() as int);
    match cmd.parameters {
        Some(_) => seq![
            SinkOpV::Write(render::command_spec(cmd, execs)),
            SinkOpV::Write(rest),
        ],
        None => seq![
            SinkOpV::Write(render::command_spec(cmd, execs)),
            SinkOpV::Write(render::sp(buf.len() - cmd.program.span.end.index)),
            SinkOpV::Write(rest),
        ],
    }
}

/// The line echo: the rendered command when the buffer parses, the
/// raw buffer text when it does not.
pub open spec fn echoed_rel(
    buf: Seq<char>,
    execs: Map<Seq<char>, Program>,
    out: Seq<SinkOpV>,
) -> bool {
    if interactive_at(buf) {
        exists|cmd: Command| (#[trigger] interactive_ok(buf, cmd)) && out =~= echo_out(
            cmd,
            buf,
            execs,
        )
    } else {
        out =~= seq![SinkOpV::Write(buf)]
    }
}

/// The suggestion a re-render prints: the newest matching history
/// entry minus the typed prefix, dimmed, when there is one.
pub open spec fn sugg_ops_v(cmds: Seq<Seq<char>>, buf: Seq<char>) -> Seq<SinkOpV> {
    if buf.len() == 0 {
        Seq::empty()
    } else {
        match latest_with_prefix(cmds, buf) {
            Some(idx) => seq![
                SinkOpV::Write(painted(fixed_params(8), trim_rep(cmds[idx], buf))),
            ],
            None => Seq::empty(),
        }
    }
}

/// The cursor-replacing escapes that end a re-render.
pub open spec fn cursor_ops_v(cursor: int) -> Seq<SinkOpV> {
    seq![
        SinkOpV::Write("\u{1b}[1000D"@),
        SinkOpV::Write("\u{1b}["@ + dec_chars(cursor + 2) + "C"@),
    ]
}

/// Everything one re-render prints, in order: reset, prompt, the
/// echoed line, the suggestion if one is offered, and the cursor
/// escapes.
pub open spec fn output_ops_rel(
    buf: Seq<char>,
    cursor: int,
    cmds: Seq<Seq<char>>,
    execs: Map<Seq<char>, Program>,
    out: Seq<SinkOpV>,
) -> bool {
    exists|echoed: Seq<SinkOpV>|
        (#[trigger] echoed_rel(buf, execs, echoed)) && out =~= reset_ops_v() + prompt_ops_v()
            + echoed + sugg_ops_v(cmds, buf) + cursor_ops_v(cursor)
}

/// The re-render of the blank line that follows a completed
/// synchronous submission.
pub open spec fn blank_line_ops() -> Seq<SinkOpV> {
    reset_ops_v() + prompt_ops_v() + seq![SinkOpV::Write(Seq::<char>::empty())] + cursor_ops_v(0)
}

/// What dispatching prints: the builtin's own output, one unknown-
/// command line, or nothing for a program handed to the host.
pub open spec fn dispatch_out(pre: Shell, cmd: Command) -> Seq<SinkOpV> {
    let name = cmd.program.id.name@;
    if !pre.execs().contains_key(name) {
        seq![SinkOpV::Write(not_found_text(name))]
    } else {
        match pre.execs()[name] {
            Program::Builtin(b) => builtin_ops(
                b,
                pre.vars(),
                opt_args(cmd.parameters, pre.vars(), false),
            ),
            Program::Internal(_) => Seq::empty(),
            Program::External => Seq::empty(),
        }
    }
}

/// What the commit path prints: a line break unless the screen is
/// about to be cleared, then the dispatched program's output, or the
/// syntax-error line.
pub open spec fn submit_out_rel(pre: Shell, req: Option<Request>, out: Seq<SinkOpV>) -> bool {
    let buf = pre.buffer_text();
    let newline: Seq<SinkOpV> = if "clear"@.is_prefix_of(buf) {
        Seq::empty()
    } else {
        seq![SinkOpV::Write("\r\n"@)]
    };
    if buf.len() == 0 {
        out =~= newline
    } else if interactive_at(buf) && interactive_end(buf) == buf.len() {
        exists|cmd: Command| (#[trigger] interactive_ok(buf, cmd)) && out =~= newline
            + dispatch_out(pre, cmd)
    } else {
        out =~= newline + seq![SinkOpV::Write(strict_error_text(buf))]
    }
}

/// What dispatching a parsed command does to the shell: an unknown
/// name only reports; a builtin finishes synchronously; internal and
/// external programs leave the shell running with exactly one
/// request handed out.
pub open spec fn dispatch_rel(
    pre: Shell,
    post: Shell,
    req: Option<Request>,
    cmd: Command,
) -> bool {
    let name = cmd.program.id.name@;
    &&& post.execs() == pre.execs()
    &&& if !pre.execs().contains_key(name) {
        &&& post.vars() == pre.vars()
        &&& req is None
        &&& post.running() == pre.running()
    } else {
        match pre.execs()[name] {
            Program::Builtin(b) => {
                &&& post.vars() == builtin_vars(
                    b,
                    pre.vars(),
                    opt_args(cmd.parameters, pre.vars(), false),
                )
                &&& req is None
                &&& post.running() == pre.running()
            },
            Program::Internal(k) => {
                &&& post.vars() == pre.vars()
                &&& post.running()
                &&& match req {
                    Some(Request::Internal { program, arguments }) => program == k && args_view(
                        arguments@,
                    ) == opt_args(cmd.parameters, pre.vars(), false),
                    _ => false,
                }
            },
            Program::External => {
                &&& post.vars() == pre.vars()
                &&& post.running()
                &&& match req {
                    Some(Request::External { name: rname, arguments }) => {
                        &&& rname@ == name
                        &&& arguments@.len() == opt_args(cmd.parameters, pre.vars(), true).len()
                        &&& forall|k: int|
                            0 <= k < arguments@.len() ==> ArgV::Text(
                                (#[trigger] arguments@[k])@,
                            ) == opt_args(cmd.parameters, pre.vars(), true)[k]
                    },
                    _ => false,
                }
            },
        }
    }
}

/// What submitting the current line does: an empty line changes
/// nothing; a non-empty line is committed to history and the buffer
/// is cleared; the line is then parsed strictly and dispatched, and
/// a syntax error or unknown name leaves every store untouched.
pub open spec fn submit_rel(pre: Shell, post: Shell, req: Option<Request>) -> bool {
    let buf = pre.buffer_text();
    &&& post.buffer_text().len() == 0
    &&& post.buffer_cursor() == 0
    &&& post.execs() == pre.execs()
    &&& if buf.len() == 0 {
        &&& post.history_lines() == pre.history_lines()
        &&& post.history_cursor() == pre.history_cursor()
        &&& post.vars() == pre.vars()
        &&& req is None
        &&& post.running() == pre.running()
    } else {
        &&& post.history_lines() == pre.history_lines().push(buf)
        &&& post.history_cursor() == post.history_lines().len()
        &&& if interactive_at(buf) && interactive_end(buf) == buf.len() {
            exists|cmd: Command| (#[trigger] interactive_ok(buf, cmd)) && dispatch_rel(
                pre,
                post,
                req,
                cmd,
            )
        } else {
            &&& post.vars() == pre.vars()
            &&& req is None
            &&& post.running() == pre.running()
        }
    }
}

/// What one input event does when the shell is idle. Submission
/// keys re-echo the line, commit and re-render the blank line;
/// editing keys act on the buffer and the history cursor, never
/// touch the stores, and end in a re-render; the returned sink
/// requests are pinned in every case.
pub open spec fn input_rel(
    pre: Shell,
    post: Shell,
    data: Seq<char>,
    out: Seq<SinkOpV>,
    req: Option<Request>,
) -> bool {
    if data == "\n"@ || data == "\r"@ {
        &&& submit_rel(pre, post, req)
        &&& post.suggestion_spec() == if post.running() {
            pre.suggestion_spec()
        } else {
            sugg_of(pre.suggestion_spec(), post.history_lines(), post.buffer_text())
        }
        &&& exists|echoed: Seq<SinkOpV>, body: Seq<SinkOpV>|
            {
                &&& #[trigger] echoed_rel(pre.buffer_text(), pre.execs(), echoed)
                &&& #[trigger] submit_out_rel(pre, req, body)
                &&& out =~= reset_ops_v() + prompt_ops_v() + echoed + body + if post.running() {
                    Seq::<SinkOpV>::empty()
                } else {
                    blank_line_ops()
                }
            }
    } else {
        &&& req is None
        &&& post.running() == pre.running()
        &&& post.vars() == pre.vars()
        &&& edit_rel(pre, post, data)
        &&& post.suggestion_spec() == sugg_of(
            if data == "\u{1b}[C"@ && !(pre.buffer_text().len() != 0 && pre.buffer_cursor()
                < pre.buffer_text().len()) && pre.suggestion_spec() is Some {
                None
            } else {
                pre.suggestion_spec()
            },
            post.history_lines(),
            post.buffer_text(),
        )
        &&& output_ops_rel(
            post.buffer_text(),
            post.buffer_cursor(),
            post.history_lines(),
            post.execs(),
            out,
        )
    }
}

/// The buffer and history-cursor effect of each editing key.
pub open spec fn edit_rel(pre: Shell, post: Shell, data: Seq<char>) -> bool {
    let buf = pre.buffer_text();
    let cur = pre.buffer_cursor();
    if data == "\u{1b}"@ {
        post.buffer_text() == buf && post.buffer_cursor() == cur && history_still(pre, post)
    } else if data == "\u{7f}"@ {
        &&& post.buffer_text() == if cur > 0 {
            buf.take(cur - 1) + buf.skip(cur)
        } else {
            buf
        }
        &&& post.buffer_cursor() == if cur > 0 {
            cur - 1
        } else {
            0
        }
        &&& history_still(pre, post)
    } else if data == "\u{1b}[D"@ {
        &&& post.buffer_text() == buf
        &&& post.buffer_cursor() == if cur > 0 {
            cur - 1
        } else {
            cur
        }
        &&& history_still(pre, post)
    } else if data == "\u{1b}[C"@ {
        &&& history_still(pre, post)
        &&& if buf.len() != 0 && cur < buf.len() {
            post.buffer_text() == buf && post.buffer_cursor() == cur + 1
        } else {
            match pre.suggestion_spec() {
                Some(s) => post.buffer_text() == buf.take(cur) + s + buf.skip(cur)
                    && post.buffer_cursor() == cur + s.len(),
                None => post.buffer_text() == buf && post.buffer_cursor() == cur,
            }
        }
    } else if data == "\u{1b}[A"@ {
        &&& post.history_lines() == pre.history_lines()
        &&& post.history_cursor() == nav_up(pre.history_cursor())
        &&& if pre.history_lines().len() > 0 {
            post.buffer_text() == pre.history_lines()[post.history_cursor()]
                && post.buffer_cursor() == post.buffer_text().len()
        } else {
            post.buffer_text() == buf && post.buffer_cursor() == cur
        }
    } else if data == "\u{1b}[B"@ {
        &&& post.history_lines() == pre.history_lines()
        &&& post.history_cursor() == nav_down(
            pre.history_cursor(),
            pre.history_lines().len() as int,
        )
        &&& if post.history_cursor() < pre.history_lines().len() {
            post.buffer_text() == pre.history_lines()[post.history_cursor()]
                && post.buffer_cursor() == post.buffer_text().len()
        } else {
            post.buffer_text().len() == 0 && post.buffer_cursor() == 0
        }
    } else if data == "\u{1b}[3~"@ {
        &&& post.buffer_text() == if cur < buf.len() {
            buf.take(cur) + buf.skip(cur + 1)
        } else {
            buf
        }
        &&& post.buffer_cursor() == cur
        &&& history_still(pre, post)
    } else if data == "\u{1b}[H"@ {
        post.buffer_text() == buf && post.buffer_cursor() == 0 && history_still(pre, post)
    } else if data == "\u{1b}[F"@ {
        post.buffer_text() == buf && post.buffer_cursor() == buf.len() && history_still(
            pre,
            post,
        )
    } else if data == "\""@ {
        &&& post.buffer_text() == buf.take(cur) + "\"\""@ + buf.skip(cur)
        &&& post.buffer_cursor() == cur + 1
        &&& history_still(pre, post)
    } else if data == "'"@ {
        &&& post.buffer_text() == buf.take(cur) + "''"@ + buf.skip(cur)
        &&& post.buffer_cursor() == cur + 1
        &&& history_still(pre, post)
    } else {
        &&& post.buffer_text() == buf.take(cur) + data + buf.skip(cur)
        &&& post.buffer_cursor() == cur + data.len()
        &&& history_still(pre, post)
    }
}

/// An unknown command starts nothing and is reported: from any idle
/// shell, submitting a line that parses strictly but whose program
/// name the registry does not know hands out no request, leaves the
/// shell idle with its stores untouched, and the returned output
/// contains the one report line naming the command.
pub proof fn lemma_unknown_command(
    pre: Shell,
    post: Shell,
    data: Seq<char>,
    out: Seq<SinkOpV>,
    req: Option<Request>,
)
    requires
        !pre.running(),
        data == "\n"@ || data == "\r"@,
        input_rel(pre, post, data, out, req),
        pre.buffer_text().len() > 0,
        interactive_at(pre.buffer_text()),
        interactive_end(pre.buffer_text()) == pre.buffer_text().len(),
        !pre.execs().contains_key(command_name(pre.buffer_text())),
    ensures
        req is None,
        !post.running(),
        post.vars() == pre.vars(),
        post.execs() == pre.execs(),
        out.contains(SinkOpV::Write(not_found_text(command_name(pre.buffer_text())))),
{
    let buf = pre.buffer_text();
    let name = command_name(buf);
    let target = SinkOpV::Write(not_found_text(name));
    let c = choose|c: Command|
        (#[trigger] interactive_ok(buf, c)) && dispatch_rel(pre, post, req, c);
    lemma_interactive_name(buf, c);
    let (e, b) = choose|e: Seq<SinkOpV>, b: Seq<SinkOpV>|
        {
            &&& #[trigger] echoed_rel(buf, pre.execs(), e)
            &&& #[trigger] submit_out_rel(pre, req, b)
            &&& out =~= reset_ops_v() + prompt_ops_v() + e + b + if post.running() {
                Seq::<SinkOpV>::empty()
            } else {
                blank_line_ops()
            }
        };
    let newline: Seq<SinkOpV> = if "clear"@.is_prefix_of(buf) {
        Seq::empty()
    } else {
        seq![SinkOpV::Write("\r\n"@)]
    };
    let c2 = choose|c2: Command|
        (#[trigger] interactive_ok(buf, c2)) && b =~= newline + dispatch_out(pre, c2);
    lemma_interactive_name(buf, c2);
    assert(dispatch_out(pre, c2) =~= seq![target]);
    let nl = newline.len() as int;
    assert(b[nl] == target);
    let idx = 3 + e.len() + nl;
    assert(out[idx] == target);
    assert(out.contains(target)) by {
        assert(0 <= idx < out.len() && out[idx] == target);
    }
}

/// The history does not move.
pub open spec fn history_still(pre: Shell, post: Shell) -> bool {
    post.history_lines() == pre.history_lines() && post.history_cursor() == pre.history_cursor()
}

/// Whether `data` is exactly the text `pat`.
fn str_is(data: &str, pat: &str) -> (r: bool)
    ensures
        r == (data@ == pat@),
{
    crate::store::str_eq(data, pat)
}

/// The prompt glyph and its trailing space, in purple.
pub open spec fn prompt_text() -> Seq<char> {
    painted(purple_params(), "\u{276f} "@)
}

/// The prompt, in purple.
fn push_prompt(ops: &mut Vec<SinkOp>)
    ensures
        ops_view(final(ops)@) =~= ops_view(old(ops)@).push(SinkOpV::Write(prompt_text())),
{
    ops.push(SinkOp::Write(paint_purple("\u{276f} ")));
}

/// Reset the current line: cursor to the left edge, clear the line.
fn push_reset(ops: &mut Vec<SinkOp>)
    ensures
        ops_view(final(ops)@) =~= ops_view(old(ops)@).push(
            SinkOpV::Write("\u{1b}[1000D"@),
        ).push(SinkOpV::Write("\u{1b}[0K"@)),
{
    ops.push(SinkOp::Write(String::from_str("\u{1b}[1000D")));
    ops.push(SinkOp::Write(String::from_str("\u{1b}[0K")));
}

/// The diagnostic line for a strict-parse failure.
pub open spec fn syntax_error_text(e: ParseError) -> Seq<char> {
    "bsh: syntax error at line "@ + dec_chars(e.position.line as int) + ", column "@ + dec_chars(
        e.position.column as int,
    ) + ", "@ + e.message@ + "\r\n"@
}

/// Report a strict-parse failure as the shell prints it.
fn push_syntax_error(ops: &mut Vec<SinkOp>, e: &ParseError)
    ensures
        ops_view(final(ops)@) =~= ops_view(old(ops)@).push(SinkOpV::Write(syntax_error_text(*e))),
{
    let line = String::from_str("bsh: syntax error at line ").concat(
        dec_of(e.position.line as usize).as_str(),
    ).concat(", column ").concat(dec_of(e.position.column as usize).as_str()).concat(
        ", ",
    ).concat(e.message.as_str()).concat("\r\n");
    ops.push(SinkOp::Write(line));
}

/// What is printed when an external program's result settles: a
/// line break when its promise was rejected, then the escape that
/// shows the cursor again.
pub fn external_exit_ops(rejected: bool) -> (r: Vec<SinkOp>)
    ensures
        ops_view(r@) =~= if rejected {
            seq![SinkOpV::Write("\r\n"@), SinkOpV::Write("\u{1b}[?25h"@)]
        } else {
            seq![SinkOpV::Write("\u{1b}[?25h"@)]
        },
{
    let mut ops: Vec<SinkOp> = Vec::new();
    if rejected {
        ops.push(SinkOp::Write(String::from_str("\r\n")));
    }
    ops.push(SinkOp::Write(String::from_str("\u{1b}[?25h")));
    ops
}

/// What is printed when a completion signal is lost instead of
/// delivered: the failure is surfaced, never swallowed.
pub fn hangup_ops() -> (r: Vec<SinkOp>)
    ensures
        crate::sink::ops_view(r@) =~= seq![
            crate::sink::SinkOpV::Write(
                "Program is hang up...Please refresh the page."@ + "\r\n"@,
            ),
        ],
{
    let mut ops: Vec<SinkOp> = Vec::new();
    ops.push(
        SinkOp::Write(String::from_str("Program is hang up...Please refresh the page.").concat("\r\n")),
    );
    ops
}

} // verus!
