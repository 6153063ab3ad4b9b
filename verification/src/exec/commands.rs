//! The checks that an operator command passes before it is carried out.

use crate::config::config::{holds, Config};
use crate::errors::ExecError;
use vstd::prelude::*;

verus! {

/// Checks the arguments of a command that names programs: there is at least
/// one, and the configuration holds a program of each name.
pub fn add(args: &Vec<String>, config: &Config) -> (r: Result<(), ExecError>)
    ensures
        r == if args@.len() == 0 {
            Err::<(), ExecError>(ExecError::InvalidArgs)
        } else if exists|i: int| 0 <= i < args@.len() && !holds(config@.programs, #[trigger] args@[i]@) {
            Err(ExecError::ProcessNameNotFound)
        } else {
            Ok(())
        },
{
    if args.len() == 0 {
        return Err(ExecError::InvalidArgs);
    }
    let mut i: usize = 0;
    while i < args.len()
        invariant
            i <= args@.len(),
            forall|k: int| 0 <= k < i ==> holds(config@.programs, #[trigger] args@[k]@),
        decreases args@.len() - i,
    {
        if config.find_program(&args[i]).is_none() {
            return Err(ExecError::ProcessNameNotFound);
        }
        i += 1;
    }
    Ok(())
}

} // verus!
