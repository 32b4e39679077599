use vstd::prelude::*;

use crate::execution::Agent;
use crate::value::{JsError, JsResult, Value};
use crate::vm::{
    initial_state, is_function_body, lemma_run_lacks, run, Executable, ExecutionResult, Instruction, Outcome,
};

verus! {

/// EvaluateFunctionBody: runs a plain function body on its arguments to the
/// end; it returns what the body returns and throws what the body throws.
pub fn evaluate_function_body(agent: &Agent, executable: Executable, arguments: Vec<Value>) -> (r: JsResult<Value>)
    requires
        executable.index < agent.heap.executables@.len(),
        is_function_body(agent.heap.executables_model()[executable.index as int]),
    ensures
        match run(agent.heap.executables_model()[executable.index as int], initial_state(agent.heap.executables_model()[executable.index as int], arguments@)) {
            Outcome::Return(v) => r == Ok::<Value, JsError>(v),
            Outcome::Throw(x) => r == Err::<Value, JsError>(JsError { value: x }),
            _ => false,
        },
{
    let ghost e = agent.heap.executables_model()[executable.index as int];
    let ghost args = arguments@;
    let exe = &agent.heap.executables[executable.index];
    proof {
        lemma_run_lacks(e, initial_state(e, args), Instruction::Await);
        lemma_run_lacks(e, initial_state(e, args), Instruction::Yield);
    }
    match exe.execute(arguments) {
        ExecutionResult::Return(v) => Ok(v),
        ExecutionResult::Throw(err) => Err(err),
        _ => {
            proof {
                assert(false);
            }
            Ok(Value::Undefined)
        },
    }
}

} // verus!
