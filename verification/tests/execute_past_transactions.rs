use aptos_execution::execute_past_transactions::{Command, DebuggerTarget, Opts, Target, UrlError};

fn command(rest_endpoint: Option<&str>, db_path: Option<&str>) -> Command<String> {
    Command {
        opts: Opts {
            target: Target {
                rest_endpoint: rest_endpoint.map(String::from),
                db_path: db_path.map(String::from),
            },
            concurrency_level: vec![1, 8],
            enable_block_stm_profiling: true,
            enable_committer_backup: false,
        },
        begin_version: 12,
        limit: 34,
        skip_result: false,
        repeat_execution_times: None,
        use_same_block_boundaries: true,
    }
}

#[test]
fn rest_endpoint_is_parsed_to_its_normal_form() {
    let execution = command(Some("HTTPS://Fullnode.Example.COM/v1/../v2"), None).run().unwrap();
    assert_eq!(
        execution.target,
        DebuggerTarget::RestClient { url: "https://fullnode.example.com/v2".to_string() }
    );
    assert_eq!(execution.begin_version, 12);
    assert_eq!(execution.limit, 34);
    assert!(execution.use_same_block_boundaries);
    assert_eq!(execution.repeat_execution_times, 1);
    assert_eq!(execution.concurrency_levels, vec![1, 8]);
    assert!(execution.enable_block_stm_profiling);
    assert!(!execution.enable_committer_backup);
    assert!(execution.print_result);
}

#[test]
fn rest_endpoint_comes_before_the_database() {
    let execution = command(Some("http://a"), Some("/db")).run().unwrap();
    assert_eq!(execution.target, DebuggerTarget::RestClient { url: "http://a/".to_string() });
}

#[test]
fn database_is_taken_where_there_is_no_endpoint() {
    let mut past = command(None, Some("/opt/db"));
    past.skip_result = true;
    past.repeat_execution_times = Some(7);
    let execution = past.run().unwrap();
    assert_eq!(execution.target, DebuggerTarget::Db { path: "/opt/db".to_string() });
    assert_eq!(execution.repeat_execution_times, 7);
    assert!(!execution.print_result);
}

#[test]
fn endpoint_that_is_no_url_is_an_error_even_with_a_database() {
    assert_eq!(
        command(Some("fullnode"), Some("/db")).run(),
        Err(UrlError { message: "relative URL without a base".to_string() })
    );
    assert_eq!(
        command(Some("http://"), None).run(),
        Err(UrlError { message: "empty host".to_string() })
    );
    assert_eq!(
        command(Some("http://a:port"), None).run(),
        Err(UrlError { message: "invalid port number".to_string() })
    );
}

#[test]
fn plan_goes_by_what_the_endpoint_parsed_to() {
    let execution = command(None, Some("/db")).plan(Some(Ok("u".to_string()))).unwrap();
    assert_eq!(execution.target, DebuggerTarget::RestClient { url: "u".to_string() });
    let execution = command(Some("x"), Some("/db")).plan(None).unwrap();
    assert_eq!(execution.target, DebuggerTarget::Db { path: "/db".to_string() });
    assert_eq!(
        command(None, None).plan(Some(Err("bad".to_string()))),
        Err(UrlError { message: "bad".to_string() })
    );
}
