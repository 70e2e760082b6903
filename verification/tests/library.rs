use piston_rspy::Client;
use piston_rspy::ExecResult;
use piston_rspy::ExecResponse;
use piston_rspy::Executor;
use piston_rspy::File;
use piston_rspy::HttpMethod;
use piston_rspy::Runtime;
use piston_rspy::parse_json;
use piston_rspy::write_json;

fn sample_file() -> File {
    File::new(
        "main.py".to_string(),
        "print('hi')".to_string(),
        "utf8".to_string(),
    )
}

fn sample_executor() -> Executor {
    Executor::new(
        "python".to_string(),
        "*".to_string(),
        vec![sample_file()],
        String::new(),
        vec![],
        10000,
        3000,
        -1,
        -1,
    )
}

#[test]
fn reset_restores_every_default() {
    let mut ex = sample_executor();
    ex.stdin_setter("1 2 3".to_string());
    ex = ex
        .add_arg("-v".to_string())
        .set_version("3.10".to_string())
        .set_compile_timeout(1)
        .set_run_timeout(2)
        .set_compile_memory_limit(3)
        .set_run_memory_limit(4);
    ex.reset();
    assert_eq!(ex.language(), "");
    assert_eq!(ex.version(), "*");
    assert!(ex.files().is_empty());
    assert_eq!(ex.stdin(), "");
    assert!(ex.args().is_empty());
    assert_eq!(ex.compile_timeout(), 10000);
    assert_eq!(ex.run_timeout(), 3000);
    assert_eq!(ex.compile_memory_limit(), -1);
    assert_eq!(ex.run_memory_limit(), -1);
}

#[test]
fn file_copy_is_independent() {
    let original = sample_file();
    let mut copy = original.copy();
    assert_eq!(copy.name(), original.name());
    assert_eq!(copy.content(), original.content());
    assert_eq!(copy.encoding(), original.encoding());
    copy.name_setter("other.py".to_string());
    copy.content_setter("pass".to_string());
    copy.encoding_setter("base64".to_string());
    assert_eq!(original.name(), "main.py");
    assert_eq!(original.content(), "print('hi')");
    assert_eq!(original.encoding(), "utf8");
}

#[test]
fn runtime_copy_is_independent() {
    let original = Runtime::new(
        "python".to_string(),
        "3.10.0".to_string(),
        vec!["py".to_string(), "python3".to_string()],
    );
    let copy = original.copy();
    assert_eq!(copy.language(), "python");
    assert_eq!(copy.version(), "3.10.0");
    assert_eq!(copy.aliases(), vec!["py".to_string(), "python3".to_string()]);
}

#[test]
fn executor_copy_is_deep() {
    let original = sample_executor();
    let copy = original.copy();
    assert_eq!(copy.language(), original.language());
    assert_eq!(copy.files().len(), 1);
    let copy = copy.add_file(File::new(
        "lib.py".to_string(),
        "x = 1".to_string(),
        "utf8".to_string(),
    ));
    assert_eq!(copy.files().len(), 2);
    assert_eq!(original.files().len(), 1);
    assert_eq!(original.files()[0].name(), "main.py");
}

#[test]
fn add_file_appends_and_set_files_replaces() {
    let ex = sample_executor();
    let extra = File::new("lib.py".to_string(), "x = 1".to_string(), "utf8".to_string());
    let ex = ex.add_file(extra);
    let files = ex.files();
    assert_eq!(files.len(), 2);
    assert_eq!(files[0].name(), "main.py");
    assert_eq!(files[1].name(), "lib.py");

    let mut ex = ex;
    ex.set_files(vec![File::new(
        "only.py".to_string(),
        "pass".to_string(),
        "utf8".to_string(),
    )]);
    let files = ex.files();
    assert_eq!(files.len(), 1);
    assert_eq!(files[0].name(), "only.py");
}

#[test]
fn add_args_appends_and_set_args_replaces() {
    let ex = sample_executor().add_arg("-a".to_string());
    let ex = ex.add_args(vec!["-b".to_string(), "-c".to_string()]);
    assert_eq!(
        ex.args(),
        vec!["-a".to_string(), "-b".to_string(), "-c".to_string()]
    );
    let mut ex = ex;
    ex.set_args(vec!["-z".to_string()]);
    assert_eq!(ex.args(), vec!["-z".to_string()]);
}

#[test]
fn language_is_folded_to_lowercase() {
    let ex = sample_executor().set_language("PyThOn".to_string());
    assert_eq!(ex.language(), "python");
    let mut ex = ex;
    ex.language_setter("RUST".to_string());
    assert_eq!(ex.language(), "rust");
}

fn run_body(code: &str, signal: &str) -> String {
    format!(
        "{{\"language\":\"python\",\"version\":\"3.10\",\"run\":{{\"stdout\":\"\",\"stderr\":\"\",\"output\":\"\",\"code\":{},\"signal\":{}}},\"compile\":null}}",
        code, signal
    )
}

#[test]
fn result_ok_and_err_are_complementary_for_a_code() {
    let ok = Client::process_execute_response(200, &run_body("0", "null")).unwrap();
    assert!(ok.run().is_ok());
    assert!(!ok.run().is_err());

    let failed = Client::process_execute_response(200, &run_body("1", "null")).unwrap();
    assert!(!failed.run().is_ok());
    assert!(failed.run().is_err());
}

#[test]
fn result_without_code_but_with_signal_is_not_ok() {
    let killed =
        Client::process_execute_response(200, &run_body("null", "\"SIGKILL\"")).unwrap();
    let run = killed.run();
    assert_eq!(run.code(), None);
    assert_eq!(run.signal(), Some("SIGKILL".to_string()));
    assert!(!run.is_ok());
    assert!(run.is_err());
}

#[test]
fn responses_cannot_be_built_directly() {
    let r = ExecResult::new_();
    assert!(r.is_err());
    let e = r.unwrap_err();
    assert!(e.is_construction_error());
    assert_eq!(e.details(), "ExecResult can not be instantiated");

    let r = ExecResponse::new_();
    assert!(r.is_err());
    let e = r.unwrap_err();
    assert!(e.is_construction_error());
    assert_eq!(e.details(), "ExecResponse can not be instantiated");
}

#[test]
fn execute_scenario_against_a_stub_answer() {
    let body = "{\"language\":\"python\",\"version\":\"3.10\",\"run\":{\"stdout\":\"hi\\n\",\"stderr\":\"\",\"output\":\"hi\\n\",\"code\":0,\"signal\":null},\"compile\":null,\"status\":200}";
    let resp = Client::process_execute_response(200, body).unwrap();
    assert!(resp.is_ok());
    assert!(!resp.is_err());
    assert_eq!(resp.status(), 200);
    assert_eq!(resp.language(), "python");
    assert_eq!(resp.version(), "3.10");
    assert!(resp.compile().is_none());
    let run = resp.run();
    assert!(run.is_ok());
    assert_eq!(run.stdout(), "hi\n");
    assert_eq!(run.stderr(), "");
    assert_eq!(run.output(), "hi\n");
    assert_eq!(run.code(), Some(0));
    assert_eq!(run.signal(), None);
}

#[test]
fn execute_scenario_with_a_compile_phase() {
    let body = "{\"language\":\"rust\",\"version\":\"1.65.0\",\"run\":{\"stdout\":\"42\\n\",\"stderr\":\"\",\"output\":\"42\\n\",\"code\":0,\"signal\":null},\"compile\":{\"stdout\":\"\",\"stderr\":\"\",\"output\":\"\",\"code\":0,\"signal\":null}}";
    let resp = Client::process_execute_response(200, body).unwrap();
    let compile = resp.compile().unwrap();
    assert!(compile.is_ok());
    assert_eq!(resp.run().stdout(), "42\n");
}

#[test]
fn a_non_success_status_is_a_transport_error_carrying_the_body() {
    let body = "{\"message\":\"unsupported language\"}";
    let err = Client::process_execute_response(400, body).unwrap_err();
    assert!(err.is_transport_error());
    assert_eq!(err.details(), format!("400: {}", body));
}

#[test]
fn a_body_that_is_not_json_is_a_transport_error() {
    let err = Client::process_execute_response(200, "no json here").unwrap_err();
    assert!(err.is_transport_error());
    assert_eq!(err.details(), "the response body is not a JSON document");
}

#[test]
fn a_fractional_number_is_refused() {
    let err = Client::process_execute_response(200, &run_body("1.5", "null")).unwrap_err();
    assert!(err.is_transport_error());
    assert_eq!(err.details(), "the response body is not a JSON document");
}

#[test]
fn a_json_body_of_the_wrong_shape_is_a_transport_error() {
    let err = Client::process_execute_response(200, "[1,2]").unwrap_err();
    assert!(err.is_transport_error());
    assert_eq!(
        err.details(),
        "the response body does not describe an execution response"
    );
}

#[test]
fn fetch_runtimes_scenario_keeps_the_order() {
    let body = "[{\"language\":\"python\",\"version\":\"3.10.0\",\"aliases\":[\"py\",\"python3\"]},{\"language\":\"rust\",\"version\":\"1.65.0\",\"aliases\":[]}]";
    let runtimes = Client::process_runtimes_response(200, body).unwrap();
    assert_eq!(runtimes.len(), 2);
    assert_eq!(runtimes[0].language(), "python");
    assert_eq!(runtimes[0].version(), "3.10.0");
    assert_eq!(
        runtimes[0].aliases(),
        vec!["py".to_string(), "python3".to_string()]
    );
    assert_eq!(runtimes[1].language(), "rust");
    assert!(runtimes[1].aliases().is_empty());
}

#[test]
fn runtimes_with_whitespace_and_field_reordering() {
    let body = " [ {\"aliases\": [\"py\"], \"version\": \"3.10.0\", \"language\": \"python\"} ] ";
    let runtimes = Client::process_runtimes_response(200, body).unwrap();
    assert_eq!(runtimes.len(), 1);
    assert_eq!(runtimes[0].language(), "python");
}

#[test]
fn runtimes_of_the_wrong_shape_are_a_transport_error() {
    let err = Client::process_runtimes_response(200, "{}").unwrap_err();
    assert!(err.is_transport_error());
    assert_eq!(
        err.details(),
        "the response body does not describe a runtime listing"
    );
}

#[test]
fn runtimes_failure_status_carries_the_body() {
    let err = Client::process_runtimes_response(500, "oops").unwrap_err();
    assert!(err.is_transport_error());
    assert_eq!(err.details(), "500: oops");
}

#[test]
fn the_default_client_configuration() {
    let client = Client::new();
    assert_eq!(client.url(), "https://emkc.org/api/v2/piston");
    assert_eq!(client.get_url(), client.url());
    assert_eq!(
        client.headers(),
        vec![("Content-Type".to_string(), "application/json".to_string())]
    );
    assert_eq!(client.get_headers(), client.headers());
}

#[test]
fn a_client_with_url_and_key() {
    let client = Client::with_url_and_key("http://localhost:2000".to_string(), "123abc".to_string());
    assert_eq!(client.url(), "http://localhost:2000");
    assert_eq!(
        client.headers(),
        vec![
            ("Content-Type".to_string(), "application/json".to_string()),
            ("Authorization".to_string(), "123abc".to_string()),
        ]
    );
    let keyed = Client::with_key("k".to_string());
    assert_eq!(keyed.url(), "https://emkc.org/api/v2/piston");
    assert_eq!(keyed.headers().len(), 2);
    let self_hosted = Client::with_url("http://piston.local".to_string());
    assert_eq!(self_hosted.url(), "http://piston.local");
    assert_eq!(self_hosted.headers().len(), 1);
}

#[test]
fn the_runtimes_request_is_a_get_of_the_runtimes_endpoint() {
    let client = Client::new();
    let req = client.runtimes_request();
    assert!(matches!(req.method, HttpMethod::Get));
    assert_eq!(req.url, "https://emkc.org/api/v2/piston/runtimes");
    assert!(req.body.is_none());
    assert_eq!(req.headers, client.headers());
}

#[test]
fn the_execute_request_carries_the_exact_body() {
    let client = Client::new();
    let req = client.execute_request(&sample_executor());
    assert!(matches!(req.method, HttpMethod::Post));
    assert_eq!(req.url, "https://emkc.org/api/v2/piston/execute");
    assert_eq!(
        req.body.unwrap(),
        "{\"language\":\"python\",\"version\":\"*\",\"files\":[{\"name\":\"main.py\",\"content\":\"print('hi')\",\"encoding\":\"utf8\"}],\"stdin\":\"\",\"args\":[],\"compile_timeout\":10000,\"run_timeout\":3000,\"compile_memory_limit\":-1,\"run_memory_limit\":-1}"
    );
}

#[test]
fn the_request_body_escapes_what_json_asks() {
    let mut ex = sample_executor();
    ex.set_files(vec![]);
    ex.stdin_setter("a\"b\\c\nd\te\u{1}".to_string());
    let body = Client::new().execute_request(&ex).body.unwrap();
    assert!(body.contains("\"stdin\":\"a\\\"b\\\\c\\nd\\te\\u0001\""));
}

#[test]
fn the_request_body_keeps_negative_limits() {
    let ex = sample_executor().set_run_memory_limit(-65536);
    let body = Client::new().execute_request(&ex).body.unwrap();
    assert!(body.contains("\"run_memory_limit\":-65536"));
}

#[test]
fn written_documents_read_back_unchanged() {
    let body = "{\"language\":\"go\",\"version\":\"1.19\",\"run\":{\"stdout\":\"a\\u0002b\",\"stderr\":\"\",\"output\":\"a\\u0002b\",\"code\":-7,\"signal\":null},\"compile\":null}";
    let doc = parse_json(body).unwrap();
    let written = write_json(&doc);
    let reread = parse_json(&written).unwrap();
    assert_eq!(write_json(&reread), written);
    let resp = Client::process_execute_response(200, &written).unwrap();
    assert_eq!(resp.run().stdout(), "a\u{2}b");
    assert_eq!(resp.run().code(), Some(-7));
}

#[test]
fn io_errors_carry_their_details() {
    let e = piston_rspy::ClientError::IoError {
        path: "/no/such/file".to_string(),
        details: "No such file or directory (os error 2)".to_string(),
    };
    assert!(e.is_io_error());
    assert!(!e.is_transport_error());
    assert_eq!(e.details(), "No such file or directory (os error 2)");
}

#[test]
fn default_values_match_the_documented_ones() {
    let f: piston_rspy::File = Default::default();
    assert_eq!(f.name(), "");
    assert_eq!(f.content(), "");
    assert_eq!(f.encoding(), "utf8");
    let ex: Executor = Default::default();
    assert_eq!(ex.language(), "");
    assert_eq!(ex.version(), "*");
    assert!(ex.files().is_empty());
    assert_eq!(ex.stdin(), "");
    assert!(ex.args().is_empty());
    assert_eq!(ex.compile_timeout(), 10000);
    assert_eq!(ex.run_timeout(), 3000);
    assert_eq!(ex.compile_memory_limit(), -1);
    assert_eq!(ex.run_memory_limit(), -1);
}

#[test]
fn file_chained_setters_return_the_updated_file() {
    let f = File::new(String::new(), String::new(), "utf8".to_string())
        .set_name("a.py".to_string())
        .set_content("pass".to_string())
        .set_encoding("base64".to_string());
    assert_eq!(f.name(), "a.py");
    assert_eq!(f.content(), "pass");
    assert_eq!(f.encoding(), "base64");
}
