//! The built-in programs and the decision logic of the internal
//! fetch program. Builtins run synchronously; instead of writing to a
//! terminal they return the sink requests they would make.
use crate::grammar::{class_pred, lemma_run, run_end, run_len, scan_run, CharClass};
use crate::paint::{painted, paint_yellow, yellow_params};
use crate::sink::{ops_view, SinkOp, SinkOpV};
use crate::store::{Executables, Vars};
use crate::transform::{args_view, ArgV, Argument};
use vstd::prelude::*;
use vstd::string::StrSliceExecFns;
use vstd::string::StringExecFns;

verus! {

/// The text one argument contributes to an echo line.
pub open spec fn arg_text(a: ArgV) -> Seq<char> {
    match a {
        ArgV::Text(t) => t,
        ArgV::Switch(k, v) => k + match v {
            Some(value) => "="@ + value,
            None => Seq::empty(),
        },
    }
}

/// Every argument followed by one space.
pub open spec fn echo_items(args: Seq<ArgV>) -> Seq<char>
    decreases args.len(),
{
    if args.len() == 0 {
        Seq::empty()
    } else {
        arg_text(args[0]) + " "@ + echo_items(args.drop_first())
    }
}

/// The whole echo output: the arguments, then a line break.
pub open spec fn echo_text(args: Seq<ArgV>) -> Seq<char> {
    echo_items(args) + "\r\n"@
}

/// A warning line: the message in yellow, then a line break.
pub open spec fn warn_op(msg: Seq<char>) -> SinkOpV {
    SinkOpV::Write(painted(yellow_params(), msg) + "\r\n"@)
}

/// The index of the first `=` in `t` (or `t.len()` when none).
pub open spec fn eq_idx(t: Seq<char>) -> int {
    run_end(t, 0, class_pred(CharClass::NonEquals))
}

/// What one export argument does: the new variable store, the exit
/// code it contributes, and the warnings it prints. A `name=value`
/// text binds the variable; a missing name or value, or a switch, is
/// refused.
pub open spec fn export_arg(vars: Map<Seq<char>, Seq<char>>, a: ArgV) -> (
    Map<Seq<char>, Seq<char>>,
    int,
    Seq<SinkOpV>,
) {
    match a {
        ArgV::Switch(k, _) => (vars, 1, seq![warn_op("Invalid argument: "@ + k)]),
        ArgV::Text(t) => {
            let e = eq_idx(t);
            if e == 0 {
                (vars, 1, seq![warn_op("Missing variable name."@)])
            } else if e == t.len() {
                (vars, 1, seq![warn_op("Missing variable value."@)])
            } else {
                (vars.insert(t.take(e), t.skip(e + 1)), 0, Seq::empty())
            }
        },
    }
}

/// What a whole export run does, argument by argument.
pub open spec fn export_fold(vars: Map<Seq<char>, Seq<char>>, args: Seq<ArgV>) -> (
    Map<Seq<char>, Seq<char>>,
    int,
    Seq<SinkOpV>,
)
    decreases args.len(),
{
    if args.len() == 0 {
        (vars, 0, Seq::empty())
    } else {
        let first = export_arg(vars, args[0]);
        let rest = export_fold(first.0, args.drop_first());
        (rest.0, first.1 + rest.1, first.2 + rest.2)
    }
}

/// Clears the display.
pub struct Clear;

impl Default for Clear {
    fn default() -> (c: Clear) {
        Clear {  }
    }
}

impl Clear {
    /// Ask the sink to wipe the display; always succeeds.
    pub fn run(&self, executables: &mut Executables, globals: &mut Vars, arguments: Vec<
        Argument,
    >) -> (r: (u8, Vec<SinkOp>))
        ensures
            final(executables)@ == old(executables)@,
            final(globals)@ == old(globals)@,
            r.0 == 0,
            ops_view(r.1@) =~= seq![SinkOpV::Clear],
    {
        let mut ops: Vec<SinkOp> = Vec::new();
        ops.push(SinkOp::Clear);
        (0, ops)
    }
}

/// Prints its arguments, separated by spaces.
pub struct Echo;

impl Default for Echo {
    fn default() -> (e: Echo) {
        Echo {  }
    }
}

impl Echo {
    /// Write every argument followed by one space, then a line
    /// break; always succeeds.
    pub fn run(&self, executables: &mut Executables, globals: &mut Vars, arguments: Vec<
        Argument,
    >) -> (r: (u8, Vec<SinkOp>))
        ensures
            final(executables)@ == old(executables)@,
            final(globals)@ == old(globals)@,
            r.0 == 0,
            ops_view(r.1@) =~= seq![SinkOpV::Write(echo_text(args_view(arguments@)))],
    {
        let ghost all = args_view(arguments@);
        let mut text = String::new();
        let mut k: usize = 0;
        proof {
            assert(all.skip(0) =~= all);
        }
        while k < arguments.len()
            invariant
                k <= arguments@.len(),
                all == args_view(arguments@),
                echo_items(all) =~= text@ + echo_items(all.skip(k as int)),
            decreases arguments@.len() - k,
        {
            let piece = match &arguments[k] {
                Argument::Text(value) => value.clone(),
                Argument::Switch(key, value) => {
                    match value {
                        Some(v) => {
                            let joined = key.clone().concat("=").concat(v.as_str());
                            joined
                        },
                        None => key.clone(),
                    }
                },
            };
            proof {
                assert(all.skip(k as int)[0] == all[k as int]);
                assert(all.skip(k as int).drop_first() =~= all.skip(k + 1));
                assert(echo_items(all.skip(k as int)) == arg_text(all[k as int]) + " "@
                    + echo_items(all.skip(k + 1)));
                assert(piece@ + Seq::<char>::empty() =~= piece@);
            }
            text = text.concat(piece.as_str()).concat(" ");
            k = k + 1;
        }
        proof {
            assert(all.skip(all.len() as int) =~= Seq::<ArgV>::empty());
        }
        let line = text.concat("\r\n");
        proof {
            assert(line@ =~= echo_text(all));
        }
        let mut ops: Vec<SinkOp> = Vec::new();
        ops.push(SinkOp::Write(line));
        (0, ops)
    }
}

/// Binds `name=value` arguments in the variable store.
pub struct Export;

impl Default for Export {
    fn default() -> (e: Export) {
        Export {  }
    }
}

impl Export {
    /// Bind each `name=value` argument; warn about and count every
    /// malformed one. The exit code is the number of refused
    /// arguments (wrapping as a byte).
    pub fn run(&self, executables: &mut Executables, globals: &mut Vars, arguments: Vec<
        Argument,
    >) -> (r: (u8, Vec<SinkOp>))
        ensures
            final(executables)@ == old(executables)@,
            final(globals)@ == export_fold(old(globals)@, args_view(arguments@)).0,
            r.0 as int == export_fold(old(globals)@, args_view(arguments@)).1 % 256,
            ops_view(r.1@) =~= export_fold(old(globals)@, args_view(arguments@)).2,
    {
        let ghost all = args_view(arguments@);
        let ghost vars0 = globals@;
        let mut ops: Vec<SinkOp> = Vec::new();
        let mut code: u8 = 0;
        let ghost mut total: int = 0;
        let mut k: usize = 0;
        proof {
            assert(all.skip(0) =~= all);
        }
        while k < arguments.len()
            invariant
                k <= arguments@.len(),
                all == args_view(arguments@),
                export_fold(vars0, all).0 == export_fold(globals@, all.skip(k as int)).0,
                export_fold(vars0, all).1 == total + export_fold(globals@, all.skip(k as int)).1,
                export_fold(vars0, all).2 =~= ops_view(ops@) + export_fold(
                    globals@,
                    all.skip(k as int),
                ).2,
                0 <= total,
                code as int == total % 256,
            decreases arguments@.len() - k,
        {
            proof {
                assert(all.skip(k as int)[0] == all[k as int]);
                assert(all.skip(k as int).drop_first() =~= all.skip(k + 1));
            }
            let ghost pre_vars = globals@;
            let e: u8 = match &arguments[k] {
                Argument::Text(text) => {
                    let n = text.as_str().unicode_len();
                    let eq = scan_run(text.as_str(), 0, CharClass::NonEquals);
                    if eq == 0 {
                        self.print_warning(&mut ops, String::from_str("Missing variable name."));
                        1
                    } else if eq == n {
                        self.print_warning(
                            &mut ops,
                            String::from_str("Missing variable value."),
                        );
                        1
                    } else {
                        let name = text.as_str().substring_char(0, eq).to_owned();
                        let value = text.as_str().substring_char(eq + 1, n).to_owned();
                        globals.insert(name, value);
                        0
                    }
                },
                Argument::Switch(key, _) => {
                    let msg = String::from_str("Invalid argument: ").concat(key.as_str());
                    self.print_warning(&mut ops, msg);
                    1
                },
            };
            proof {
                let step = export_arg(pre_vars, all[k as int]);
                assert(globals@ == step.0);
                assert(e as int == step.1);
                assert(export_fold(pre_vars, all.skip(k as int)).2 == step.2 + export_fold(
                    globals@,
                    all.skip(k + 1),
                ).2);
                total = total + e as int;
            }
            code = if e == 1 && code == 255 {
                0
            } else {
                code + e
            };
            k = k + 1;
            proof {
                assert(export_fold(vars0, all).2 =~= ops_view(ops@) + export_fold(
                    globals@,
                    all.skip(k as int),
                ).2);
            }
        }
        proof {
            assert(all.skip(all.len() as int) =~= Seq::<ArgV>::empty());
            assert(ops_view(ops@) + Seq::<SinkOpV>::empty() =~= ops_view(ops@));
        }
        (code, ops)
    }

    /// Append one yellow warning line to the requests.
    fn print_warning(&self, ops: &mut Vec<SinkOp>, message: String)
        ensures
            final(ops)@.len() == old(ops)@.len() + 1,
            ops_view(final(ops)@) =~= ops_view(old(ops)@).push(warn_op(message@)),
    {
        let line = paint_yellow(message.as_str()).concat("\r\n");
        ops.push(SinkOp::Write(line));
        proof {
            assert(ops_view(ops@) =~= ops_view(old(ops)@).push(warn_op(message@)));
        }
    }
}

/// Succeeds and does nothing.
pub struct True;

impl Default for True {
    fn default() -> (t: True) {
        True {  }
    }
}

impl True {
    /// Report success, touch nothing.
    pub fn run(&self, executables: &mut Executables, globals: &mut Vars, arguments: Vec<
        Argument,
    >) -> (r: (u8, Vec<SinkOp>))
        ensures
            final(executables)@ == old(executables)@,
            final(globals)@ == old(globals)@,
            r.0 == 0,
            ops_view(r.1@) =~= Seq::<SinkOpV>::empty(),
    {
        (0, Vec::new())
    }
}

/// Fails and does nothing.
pub struct False;

impl Default for False {
    fn default() -> (f: False) {
        False {  }
    }
}

impl False {
    /// Report failure, touch nothing.
    pub fn run(&self, executables: &mut Executables, globals: &mut Vars, arguments: Vec<
        Argument,
    >) -> (r: (u8, Vec<SinkOp>))
        ensures
            final(executables)@ == old(executables)@,
            final(globals)@ == old(globals)@,
            r.0 == 1,
            ops_view(r.1@) =~= Seq::<SinkOpV>::empty(),
    {
        (1, Vec::new())
    }
}

/// `text` with every line feed turned into a CRLF pair.
pub open spec fn crlf_of(s: Seq<char>) -> Seq<char>
    decreases s.len(),
{
    if s.len() == 0 {
        Seq::empty()
    } else if s[0] == '\n' {
        "\r\n"@ + crlf_of(s.drop_first())
    } else {
        seq![s[0]] + crlf_of(s.drop_first())
    }
}

/// A chunk without line feeds passes through `crlf_of` unchanged.
proof fn lemma_crlf_chunk(s: Seq<char>, k: int, j: int)
    requires
        0 <= k <= j <= s.len(),
        forall|t: int| k <= t < j ==> s[t] != '\n',
    ensures
        crlf_of(s.skip(k)) == s.subrange(k, j) + crlf_of(s.skip(j)),
    decreases j - k,
{
    if k == j {
        assert(s.subrange(k, j) + crlf_of(s.skip(j)) =~= crlf_of(s.skip(k)));
    } else {
        assert(s.skip(k)[0] == s[k]);
        assert(s.skip(k).drop_first() =~= s.skip(k + 1));
        lemma_crlf_chunk(s, k + 1, j);
        assert(seq![s[k]] + (s.subrange(k + 1, j) + crlf_of(s.skip(j))) =~= s.subrange(k, j)
            + crlf_of(s.skip(j)));
    }
}

/// Copy `s`, turning every line feed into a CRLF pair.
pub fn crlf_string(s: &str) -> (r: String)
    ensures
        r@ == crlf_of(s@),
{
    let n = s.unicode_len();
    let mut out = String::new();
    let mut k: usize = 0;
    proof {
        assert(s@.skip(0) =~= s@);
    }
    while k < n
        invariant
            k <= n == s@.len(),
            crlf_of(s@) =~= out@ + crlf_of(s@.skip(k as int)),
        decreases n - k,
    {
        let j = scan_run(s, k, CharClass::NonNewline);
        proof {
            lemma_run(s@, k as int, class_pred(CharClass::NonNewline));
            lemma_crlf_chunk(s@, k as int, j as int);
        }
        let chunk = s.substring_char(k, j);
        out = out.concat(chunk);
        if j < n {
            proof {
                assert(s@.skip(j as int)[0] == s@[j as int]);
                assert(s@.skip(j as int).drop_first() =~= s@.skip(j + 1));
            }
            out = out.concat("\r\n");
            k = j + 1;
        } else {
            k = j;
        }
    }
    proof {
        assert(s@.skip(s@.len() as int) =~= Seq::<char>::empty());
        assert(out@ + Seq::<char>::empty() =~= out@);
    }
    out
}

/// The escape that resets the current line: cursor to the left edge,
/// then clear to the end of the line.
pub open spec fn reset_seq() -> Seq<char> {
    "\u{1b}[1000D"@ + "\u{1b}[0K"@
}

/// Fetches a URL; the host performs the request, the decisions stand
/// here.
pub struct Curl;

impl Default for Curl {
    fn default() -> (c: Curl) {
        Curl {  }
    }
}

impl Curl {
    /// The URL to fetch: the first argument, which must be plain
    /// text.
    pub fn url_of(arguments: &Vec<Argument>) -> (r: Option<String>)
        ensures
            match r {
                Some(url) => arguments@.len() > 0 && args_view(arguments@)[0] == ArgV::Text(url@),
                None => arguments@.len() == 0 || !(args_view(arguments@)[0] is Text),
            },
    {
        if arguments.len() > 0 {
            match &arguments[0] {
                Argument::Text(t) => Some(t.clone()),
                Argument::Switch(_, _) => None,
            }
        } else {
            None
        }
    }

    /// What is printed when no URL was given.
    pub fn no_url_ops() -> (r: Vec<SinkOp>)
        ensures
            ops_view(r@) =~= seq![SinkOpV::Write("No URL is provided."@ + "\r\n"@)],
    {
        let mut ops: Vec<SinkOp> = Vec::new();
        ops.push(SinkOp::Write(String::from_str("No URL is provided.").concat("\r\n")));
        ops
    }

    /// What is printed for a fetched body: reset the line, then the
    /// text with line feeds widened to CRLF, then a line break.
    pub fn response_ops(text: &str) -> (r: Vec<SinkOp>)
        ensures
            ops_view(r@) =~= seq![SinkOpV::Write(reset_seq() + crlf_of(text@) + "\r\n"@)],
    {
        let body = crlf_string(text);
        let line = String::from_str("\u{1b}[1000D").concat("\u{1b}[0K").concat(
            body.as_str(),
        ).concat("\r\n");
        let mut ops: Vec<SinkOp> = Vec::new();
        ops.push(SinkOp::Write(line));
        proof {
            assert(ops_view(ops@) =~= seq![SinkOpV::Write(reset_seq() + crlf_of(text@) + "\r\n"@)]);
        }
        ops
    }

    /// What is printed when the fetch failed with a message.
    pub fn failure_ops(message: &str) -> (r: Vec<SinkOp>)
        ensures
            ops_view(r@) =~= seq![SinkOpV::Write(message@ + "\r\n"@)],
    {
        let mut ops: Vec<SinkOp> = Vec::new();
        ops.push(SinkOp::Write(message.to_owned().concat("\r\n")));
        ops
    }
}

} // verus!
