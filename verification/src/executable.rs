//! The closed set of program kinds and the runner that guarantees at
//! most one in-flight command.
use crate::ast::Parameters;
use crate::programs::{echo_text, export_fold, Clear, Echo, Export, False, True};
use crate::sink::{ops_view, SinkOp, SinkOpV};
use crate::store::{Executables, Vars};
use crate::transform::{args_view, params_args, ArgV, Argument, Transformer};
use vstd::prelude::*;

verus! {

/// The built-in programs: synchronous, with access to the registry
/// and the variable store.
#[derive(Clone, Copy, Debug, PartialEq, Eq, Structural)]
pub enum BuiltinProgram {
    Clear,
    Echo,
    Export,
    True,
    False,
}

/// The internal programs: asynchronous, given only arguments and an
/// output sink, finishing through a completion signal.
#[derive(Clone, Copy, Debug, PartialEq, Eq, Structural)]
pub enum InternalProgram {
    Curl,
}

/// A program descriptor in the registry: a builtin, an internal
/// program, or an external one supplied by the host.
#[derive(Clone, Copy, Debug, PartialEq, Eq, Structural)]
pub enum Program {
    Builtin(BuiltinProgram),
    Internal(InternalProgram),
    External,
}

/// The arguments an optional parameter list materializes to.
pub open spec fn opt_args(
    parameters: Option<Parameters>,
    vars: Map<Seq<char>, Seq<char>>,
    text_only: bool,
) -> Seq<ArgV> {
    match parameters {
        Some(ps) => params_args(ps.params@, vars, text_only),
        None => Seq::empty(),
    }
}

/// The variable store a builtin leaves behind: only export writes.
pub open spec fn builtin_vars(
    b: BuiltinProgram,
    vars: Map<Seq<char>, Seq<char>>,
    args: Seq<ArgV>,
) -> Map<Seq<char>, Seq<char>> {
    match b {
        BuiltinProgram::Export => export_fold(vars, args).0,
        _ => vars,
    }
}

/// A builtin's exit status.
pub open spec fn builtin_code(
    b: BuiltinProgram,
    vars: Map<Seq<char>, Seq<char>>,
    args: Seq<ArgV>,
) -> int {
    match b {
        BuiltinProgram::Clear => 0,
        BuiltinProgram::Echo => 0,
        BuiltinProgram::Export => export_fold(vars, args).1 % 256,
        BuiltinProgram::True => 0,
        BuiltinProgram::False => 1,
    }
}

/// What a builtin asks of the output sink.
pub open spec fn builtin_ops(
    b: BuiltinProgram,
    vars: Map<Seq<char>, Seq<char>>,
    args: Seq<ArgV>,
) -> Seq<SinkOpV> {
    match b {
        BuiltinProgram::Clear => seq![SinkOpV::Clear],
        BuiltinProgram::Echo => seq![SinkOpV::Write(echo_text(args))],
        BuiltinProgram::Export => export_fold(vars, args).2,
        BuiltinProgram::True => Seq::empty(),
        BuiltinProgram::False => Seq::empty(),
    }
}

/// The dispatcher's state: whether a command is in flight. It moves
/// to running when an asynchronous program starts and back to idle
/// only when the completion signal arrives.
pub struct Runner {
    running: bool,
}

impl Runner {
    /// Whether a command is in flight.
    pub closed spec fn running_spec(&self) -> bool {
        self.running
    }

    /// A fresh, idle runner.
    pub fn new() -> (r: Runner)
        ensures
            !r.running_spec(),
    {
        Runner { running: false }
    }

    pub fn is_running(&self) -> (r: bool)
        ensures
            r == self.running_spec(),
    {
        self.running
    }

    /// Run a builtin synchronously: materialize structured arguments
    /// against the current variables, then dispatch on the kind. The
    /// runner stays idle; the registry is untouched.
    pub fn run_builtin(&self, program: BuiltinProgram, parameters: Option<Parameters>,
        executables: &mut Executables, globals: &mut Vars) -> (r: (u8, Vec<SinkOp>))
        ensures
            final(executables)@ == old(executables)@,
            final(globals)@ == builtin_vars(
                program,
                old(globals)@,
                opt_args(parameters, old(globals)@, false),
            ),
            r.0 as int == builtin_code(
                program,
                old(globals)@,
                opt_args(parameters, old(globals)@, false),
            ),
            ops_view(r.1@) == builtin_ops(
                program,
                old(globals)@,
                opt_args(parameters, old(globals)@, false),
            ),
    {
        let arguments = match parameters {
            Some(ps) => {
                let transformer = Transformer::new(globals, false);
                transformer.transform(ps)
            },
            None => Vec::new(),
        };
        proof {
            assert(args_view(Seq::<Argument>::empty()) =~= Seq::<ArgV>::empty());
        }
        match program {
            BuiltinProgram::Clear => (Clear {  }).run(executables, globals, arguments),
            BuiltinProgram::Echo => (Echo {  }).run(executables, globals, arguments),
            BuiltinProgram::Export => (Export {  }).run(executables, globals, arguments),
            BuiltinProgram::True => (True {  }).run(executables, globals, arguments),
            BuiltinProgram::False => (False {  }).run(executables, globals, arguments),
        }
    }

    /// Start an internal program: the runner is now busy, and the
    /// structured arguments are handed back for the host to run the
    /// program with.
    pub fn run_internal(&mut self, program: InternalProgram, parameters: Option<Parameters>,
        globals: &Vars) -> (r: Vec<Argument>)
        ensures
            final(self).running_spec(),
            args_view(r@) == opt_args(parameters, globals@, false),
    {
        self.running = true;
        match parameters {
            Some(ps) => {
                let transformer = Transformer::new(globals, false);
                transformer.transform(ps)
            },
            None => {
                proof {
                    assert(args_view(Seq::<Argument>::empty()) =~= Seq::<ArgV>::empty());
                }
                Vec::new()
            },
        }
    }

    /// Start an external program: the runner is now busy, and the
    /// arguments are flattened to the plain strings the host
    /// callable accepts.
    pub fn run_external(&mut self, parameters: Option<Parameters>, globals: &Vars) -> (r: Vec<
        String,
    >)
        ensures
            final(self).running_spec(),
            r@.len() == opt_args(parameters, globals@, true).len(),
            forall|k: int|
                0 <= k < r@.len() ==> ArgV::Text(r@[k]@) == opt_args(parameters, globals@, true)[k],
    {
        self.running = true;
        match parameters {
            Some(ps) => {
                let ghost argsv = params_args(ps.params@, globals@, true);
                let transformer = Transformer::new(globals, true);
                let arguments = transformer.transform(ps);
                proof {
                    assert(args_view(arguments@).len() == arguments@.len());
                    assert(argsv.len() == ps.params@.len());
                    assert(arguments@.len() == ps.params@.len());
                    assert forall|k: int| 0 <= k < arguments@.len() implies arguments@[k] is Text by {
                        assert(args_view(arguments@)[k] == arguments@[k]@);
                        match argsv[k] {
                            ArgV::Text(_) => {
                                if !(arguments@[k] is Text) {
                                    assert(arguments@[k]@ is Switch);
                                }
                            },
                            ArgV::Switch(_, _) => {
                                let pp = ps.params@[k];
                                assert(argsv[k] == crate::transform::param_arg(
                                    pp.param,
                                    globals@,
                                    true,
                                ));
                                match pp.param {
                                    crate::ast::Param::Literal(_) => {},
                                    crate::ast::Param::LongSwitch(_) => {},
                                    crate::ast::Param::ShortSwitch(_) => {},
                                }
                                assert(argsv[k] is Text);
                            },
                        }
                    }
                }
                transformer.to_texts(arguments)
            },
            None => Vec::new(),
        }
    }

    /// The completion signal arrived: back to idle.
    pub fn finish(&mut self)
        ensures
            !final(self).running_spec(),
    {
        self.running = false;
    }
}

} // verus!
