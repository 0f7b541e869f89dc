//! A tree-walking interpreter core for the Knight programming language.
//!
//! Source code is parsed into a [`Value`], which a [`Machine`] evaluates step
//! by step within an [`Environment`]. Input, output and shell commands are
//! left to the host, which the machine asks for them.

pub mod decimal;
pub mod environment;
pub mod error;
pub mod function;
pub mod machine;
pub mod message;
pub mod number;
pub mod rcstring;
pub mod scan;
pub mod stream;
mod support;
pub mod value;

pub use crate::environment::builder::Builder;
pub use crate::environment::variable::Variable;
pub use crate::environment::Environment;
pub use crate::environment::Ids;
pub use crate::error::ParseError;
pub use crate::error::RuntimeError;
pub use crate::function::Action;
pub use crate::function::Function;
pub use crate::machine::Event;
pub use crate::machine::Machine;
pub use crate::machine::Request;
pub use crate::machine::Status;
pub use crate::number::Number;
pub use crate::rcstring::InvalidChar;
pub use crate::rcstring::RcString;
pub use crate::stream::Stream;
pub use crate::value::Kind;
pub use crate::value::Value;

use crate::machine::loaded;
use crate::machine::spec_run;
use crate::stream::chars_of;
use crate::stream::spec_parse;
use vstd::prelude::*;

verus! {

/// Runs the given string as Knight code: parses its first expression and
/// evaluates it in `env` for at most `budget` steps. What comes back is the
/// machine as that leaves it: see [`Machine::status`] for how far it came.
/// An error of the parser is the error that the machine has failed with.
pub fn run_str(input: &str, env: &mut Environment, budget: u64) -> (res: Machine)
    ensures
        exists|draws: Seq<int>| #[trigger]
            spec_run(
                loaded(spec_parse(input@, 0, old(env)@).result),
                spec_parse(input@, 0, old(env)@).env,
                budget as nat,
                draws,
            ) == (res@, final(env)@),
{
    run(chars_of(input), env, budget)
}

/// Parses a [`Value`] from the given characters and then runs the value; see
/// [`run_str`].
pub fn run(input: Vec<char>, env: &mut Environment, budget: u64) -> (res: Machine)
    ensures
        exists|draws: Seq<int>| #[trigger]
            spec_run(
                loaded(spec_parse(input@, 0, old(env)@).result),
                spec_parse(input@, 0, old(env)@).env,
                budget as nat,
                draws,
            ) == (res@, final(env)@),
{
    let ghost expected = spec_parse(input@, 0, env@);
    let parsed = Value::parse(input, env);
    proof {
        assert(crate::stream::parsed(parsed, expected.pos, env@) == expected);
        assert(env@ == expected.env);
    }
    let loaded = Machine::load(parsed);
    proof {
        assert(loaded@ == crate::machine::loaded(expected.result));
    }
    loaded.run(env, budget)
}

} // verus!
