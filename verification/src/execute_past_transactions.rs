//! Executing transactions of the past again: what the command line asks for.

use vstd::prelude::*;
use vstd::string::*;

verus! {

/// Where past transactions are read from. A path is passed on as it is.
#[derive(Debug, PartialEq, Eq)]
pub struct Target<P> {
    pub rest_endpoint: Option<String>,
    pub db_path: Option<P>,
}

/// The options that all commands share.
#[derive(Debug, PartialEq, Eq)]
pub struct Opts<P> {
    pub target: Target<P>,
    pub concurrency_level: Vec<usize>,
    pub enable_block_stm_profiling: bool,
    pub enable_committer_backup: bool,
}

/// The command that executes past transactions again.
#[derive(Debug, PartialEq, Eq)]
pub struct Command<P> {
    pub opts: Opts<P>,
    pub begin_version: u64,
    pub limit: u64,
    pub skip_result: bool,
    pub repeat_execution_times: Option<u64>,
    pub use_same_block_boundaries: bool,
}

/// Why an endpoint is no URL.
#[derive(Debug, PartialEq, Eq)]
pub struct UrlError {
    pub message: String,
}

/// What to read past transactions through.
#[derive(Debug, PartialEq, Eq)]
pub enum DebuggerTarget<P> {
    /// The REST API at a URL.
    RestClient { url: String },
    /// The database at a path.
    Db { path: P },
}

/// An execution of past transactions, down to the last argument.
#[derive(Debug, PartialEq, Eq)]
pub struct PastExecution<P> {
    pub target: DebuggerTarget<P>,
    pub begin_version: u64,
    pub limit: u64,
    pub use_same_block_boundaries: bool,
    pub repeat_execution_times: u64,
    pub concurrency_levels: Vec<usize>,
    pub enable_block_stm_profiling: bool,
    pub enable_committer_backup: bool,
    /// Whether the result is printed.
    pub print_result: bool,
}

/// The URL that a text parses to, in its normal form, or why it is no URL.
pub uninterp spec fn url_parse(text: Seq<char>) -> Result<Seq<char>, Seq<char>>;

/// `url::Url::parse`. Trusted: the URL, and the description of the error, depend on
/// the text alone.
#[verifier::external_body]
fn parse_url(text: &str) -> (parsed: Result<String, String>)
    ensures
        match parsed {
            Ok(url) => url_parse(text@) == Ok::<Seq<char>, Seq<char>>(url@),
            Err(message) => url_parse(text@) == Err::<Seq<char>, Seq<char>>(message@),
        },
{
    match url::Url::parse(text) {
        Ok(url) => Ok(String::from(url)),
        Err(error) => Err(error.to_string()),
    }
}

impl<P> Command<P> {
    /// Whether `execution` is what this command asks for of its target.
    pub open spec fn asks_for(self, execution: PastExecution<P>) -> bool {
        &&& execution.begin_version == self.begin_version
        &&& execution.limit == self.limit
        &&& execution.use_same_block_boundaries == self.use_same_block_boundaries
        &&& execution.repeat_execution_times == match self.repeat_execution_times {
            Some(times) => times,
            None => 1,
        }
        &&& execution.concurrency_levels == self.opts.concurrency_level
        &&& execution.enable_block_stm_profiling == self.opts.enable_block_stm_profiling
        &&& execution.enable_committer_backup == self.opts.enable_committer_backup
        &&& execution.print_result == !self.skip_result
    }

    /// The execution that this command asks for: through the REST API where
    /// `endpoint` tells what its endpoint parses to, else from the database.
    pub fn plan(self, endpoint: Option<Result<String, String>>) -> (execution: Result<
        PastExecution<P>,
        UrlError,
    >)
        requires
            endpoint is Some || self.opts.target.db_path is Some,
        ensures
            match endpoint {
                Some(Ok(url)) => {
                    &&& execution matches Ok(execution)
                    &&& execution.target == DebuggerTarget::<P>::RestClient { url }
                    &&& self.asks_for(execution)
                },
                Some(Err(message)) => {
                    execution == Err::<PastExecution<P>, UrlError>(UrlError { message })
                },
                None => {
                    &&& execution matches Ok(execution)
                    &&& self.opts.target.db_path == Some(execution.target->path)
                    &&& execution.target is Db
                    &&& self.asks_for(execution)
                },
            },
    {
        let target = match endpoint {
            Some(Ok(url)) => DebuggerTarget::RestClient { url },
            Some(Err(message)) => {
                return Err(UrlError { message });
            },
            None => DebuggerTarget::Db { path: self.opts.target.db_path.unwrap() },
        };
        let repeat_execution_times = match self.repeat_execution_times {
            Some(times) => times,
            None => 1,
        };
        Ok(
            PastExecution {
                target,
                begin_version: self.begin_version,
                limit: self.limit,
                use_same_block_boundaries: self.use_same_block_boundaries,
                repeat_execution_times,
                concurrency_levels: self.opts.concurrency_level,
                enable_block_stm_profiling: self.opts.enable_block_stm_profiling,
                enable_committer_backup: self.opts.enable_committer_backup,
                print_result: !self.skip_result,
            },
        )
    }

    /// Whether `execution` is what comes of this command: of its REST endpoint where
    /// it has one, whatever else it has, and of its database where not.
    pub open spec fn comes_to(self, execution: Result<PastExecution<P>, UrlError>) -> bool {
        match self.opts.target.rest_endpoint {
            Some(endpoint) => match url_parse(endpoint@) {
                Ok(url) => {
                    &&& execution matches Ok(execution)
                    &&& execution.target matches DebuggerTarget::RestClient { url: parsed }
                    &&& parsed@ == url
                    &&& self.asks_for(execution)
                },
                Err(message) => execution matches Err(error) && error.message@ == message,
            },
            None => {
                &&& execution matches Ok(execution)
                &&& execution.target matches DebuggerTarget::Db { path }
                &&& self.opts.target.db_path == Some(path)
                &&& self.asks_for(execution)
            },
        }
    }

    /// Works out the execution that this command asks for.
    pub fn run(self) -> (execution: Result<PastExecution<P>, UrlError>)
        requires
            self.opts.target.rest_endpoint is Some || self.opts.target.db_path is Some,
        ensures
            self.comes_to(execution),
    {
        let endpoint = match &self.opts.target.rest_endpoint {
            Some(endpoint) => Some(parse_url(endpoint.as_str())),
            None => None,
        };
        self.plan(endpoint)
    }
}

/// The database path does not matter to a command with a REST endpoint.
pub proof fn rest_endpoint_is_preferred<P>(
    command: Command<P>,
    other: Command<P>,
    execution: Result<PastExecution<P>, UrlError>,
)
    requires
        command.opts.target.rest_endpoint is Some,
        other == (Command {
            opts: Opts {
                target: Target {
                    rest_endpoint: command.opts.target.rest_endpoint,
                    db_path: other.opts.target.db_path,
                },
                ..command.opts
            },
            ..command
        }),
    ensures
        command.comes_to(execution) == other.comes_to(execution),
{
}

} // verus!
