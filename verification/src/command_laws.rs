//! What a command line comes to.

use crate::execute_past_transactions::{url_parse, Command, PastExecution, UrlError};
use vstd::prelude::*;

verus! {

/// A command fails just where it has a REST endpoint that is no URL, and says why not;
/// else it goes through the REST API where it has an endpoint, and to its database where
/// it has none.
pub proof fn command_goes_where_it_is_told<P>(
    command: Command<P>,
    execution: Result<PastExecution<P>, UrlError>,
)
    requires
        command.comes_to(execution),
    ensures
        execution is Err <==> command.opts.target.rest_endpoint is Some && url_parse(
            command.opts.target.rest_endpoint->0@,
        ) is Err,
        execution is Err ==> execution->Err_0.message@ == url_parse(
            command.opts.target.rest_endpoint->0@,
        )->Err_0,
        execution is Ok && command.opts.target.rest_endpoint is Some ==> {
            &&& execution->Ok_0.target is RestClient
            &&& execution->Ok_0.target->url@ == url_parse(
                command.opts.target.rest_endpoint->0@,
            )->Ok_0
        },
        execution is Ok && command.opts.target.rest_endpoint is None ==> {
            &&& execution->Ok_0.target is Db
            &&& command.opts.target.db_path == Some(execution->Ok_0.target->path)
        },
{
}

/// Whatever target a command goes to, what is executed there is what the command says:
/// from its first version on, at most as many as its limit, as often as it says or once,
/// with its options; and the result is printed unless it is to be skipped.
pub proof fn command_executes_what_it_says<P>(
    command: Command<P>,
    execution: Result<PastExecution<P>, UrlError>,
)
    requires
        command.comes_to(execution),
        execution is Ok,
    ensures
        execution->Ok_0.begin_version == command.begin_version,
        execution->Ok_0.limit == command.limit,
        execution->Ok_0.use_same_block_boundaries == command.use_same_block_boundaries,
        command.repeat_execution_times is Some ==> execution->Ok_0.repeat_execution_times
            == command.repeat_execution_times->0,
        command.repeat_execution_times is None ==> execution->Ok_0.repeat_execution_times == 1,
        execution->Ok_0.concurrency_levels@ == command.opts.concurrency_level@,
        execution->Ok_0.enable_block_stm_profiling == command.opts.enable_block_stm_profiling,
        execution->Ok_0.enable_committer_backup == command.opts.enable_committer_backup,
        execution->Ok_0.print_result <==> !command.skip_result,
{
}

/// What a command asks for does not depend on the target.
pub proof fn executions_of_a_command_differ_in_the_target_alone<P>(
    command: Command<P>,
    one: PastExecution<P>,
    other: PastExecution<P>,
)
    requires
        command.asks_for(one),
        command.asks_for(other),
    ensures
        other == (PastExecution { target: other.target, ..one }),
        one.begin_version == command.begin_version,
        one.limit == command.limit,
        one.use_same_block_boundaries == command.use_same_block_boundaries,
        one.repeat_execution_times == (if command.repeat_execution_times is None {
            1
        } else {
            command.repeat_execution_times->0
        }),
        one.print_result != command.skip_result,
{
}

} // verus!
