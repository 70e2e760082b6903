use vstd::prelude::*;

use crate::error::ClientError;
use crate::error::ClientErrorV;
use crate::models::File;
use crate::models::FileV;
use crate::json::Json;
use crate::json::JsonV;
use crate::json::json_view_fields;
use crate::json::json_view_list;
use crate::json::lemma_json_view_fields_pointwise;
use crate::json::lemma_json_view_list_snoc;
use crate::json::spec_executor_json_doc;
use crate::json::spec_file_json_doc;
use crate::text::lower_of;
use crate::text::lowercase;

verus! {

/// Mathematical view of an [`Executor`].
pub struct ExecutorV {
    pub language: Seq<char>,
    pub version: Seq<char>,
    pub files: Seq<FileV>,
    pub stdin: Seq<char>,
    pub args: Seq<Seq<char>>,
    pub compile_timeout: int,
    pub run_timeout: int,
    pub compile_memory_limit: int,
    pub run_memory_limit: int,
}

/// The view an [`Executor`] has right after [`Executor::reset`]: no
/// language, any version, no files, no stdin, no args, a compile
/// timeout of ten seconds, a run timeout of three seconds and no
/// memory limits.
pub open spec fn default_executor_view() -> ExecutorV {
    ExecutorV {
        language: Seq::empty(),
        version: "*"@,
        files: Seq::empty(),
        stdin: Seq::empty(),
        args: Seq::empty(),
        compile_timeout: 10000,
        run_timeout: 3000,
        compile_memory_limit: -1,
        run_memory_limit: -1,
    }
}

/// The description of one code-execution request: the language and
/// version to run it under, the source files (the first one is the
/// entry point), the text passed on stdin, the command line arguments,
/// and the time and memory budgets.  A memory limit of `-1` means no
/// limit.
///
/// The executor is a plain configuration object: nothing is validated
/// against the remote service on this side, so that new languages need
/// no change here.
#[derive(Debug)]
pub struct Executor {
    language: String,
    version: String,
    files: Vec<File>,
    stdin: String,
    args: Vec<String>,
    compile_timeout: isize,
    run_timeout: isize,
    compile_memory_limit: isize,
    run_memory_limit: isize,
}

impl View for Executor {
    type V = ExecutorV;

    closed spec fn view(&self) -> ExecutorV {
        ExecutorV {
            language: self.language@,
            version: self.version@,
            files: self.files.deep_view(),
            stdin: self.stdin@,
            args: self.args.deep_view(),
            compile_timeout: self.compile_timeout as int,
            run_timeout: self.run_timeout as int,
            compile_memory_limit: self.compile_memory_limit as int,
            run_memory_limit: self.run_memory_limit as int,
        }
    }
}

impl DeepView for Executor {
    type V = ExecutorV;

    open spec fn deep_view(&self) -> ExecutorV {
        self@
    }
}

impl Default for Executor {
    /// An executor with every field at its default.
    fn default() -> (r: Self)
        ensures
            r@ == default_executor_view(),
    {
        let r = Executor {
            language: String::new(),
            version: String::from_str("*"),
            files: Vec::new(),
            stdin: String::new(),
            args: Vec::new(),
            compile_timeout: 10000,
            run_timeout: 3000,
            compile_memory_limit: -1,
            run_memory_limit: -1,
        };
        proof {
            assert(r.files.deep_view() =~= Seq::<FileV>::empty());
            assert(r.args.deep_view() =~= Seq::<Seq<char>>::empty());
        }
        r
    }
}

impl Executor {
    /// Creates a new executor from every field's value.
    #[allow(clippy::too_many_arguments)]
    pub fn new(
        language: String,
        version: String,
        files: Vec<File>,
        stdin: String,
        args: Vec<String>,
        compile_timeout: isize,
        run_timeout: isize,
        compile_memory_limit: isize,
        run_memory_limit: isize,
    ) -> (r: Self)
        ensures
            r@ == (ExecutorV {
                language: language@,
                version: version@,
                files: files.deep_view(),
                stdin: stdin@,
                args: args.deep_view(),
                compile_timeout: compile_timeout as int,
                run_timeout: run_timeout as int,
                compile_memory_limit: compile_memory_limit as int,
                run_memory_limit: run_memory_limit as int,
            }),
    {
        Executor {
            language,
            version,
            files,
            stdin,
            args,
            compile_timeout,
            run_timeout,
            compile_memory_limit,
            run_memory_limit,
        }
    }

    /// The language to use for execution.
    pub fn language(&self) -> (r: String)
        ensures
            r@ == self@.language,
    {
        self.language.clone()
    }

    /// Sets the language in place, folded to lowercase.
    pub fn language_setter(&mut self, language: String)
        ensures
            final(self)@ == (ExecutorV { language: lower_of(language@), ..old(self)@ }),
    {
        self.language = lowercase(language.as_str());
    }

    /// The version of the language to use for execution.
    pub fn version(&self) -> (r: String)
        ensures
            r@ == self@.version,
    {
        self.version.clone()
    }

    /// Sets the version in place.
    pub fn version_setter(&mut self, version: String)
        ensures
            final(self)@ == (ExecutorV { version: version@, ..old(self)@ }),
    {
        self.version = version;
    }

    /// The files to send with the request.  The first file in the
    /// list is the entry point the service runs.
    pub fn files(&self) -> (r: Vec<File>)
        ensures
            r.deep_view() == self@.files,
    {
        clone_file_vec(&self.files)
    }

    /// Replaces the whole file list in place.
    pub fn files_setter(&mut self, files: Vec<File>)
        ensures
            final(self)@ == (ExecutorV { files: files.deep_view(), ..old(self)@ }),
    {
        self.files = files;
    }

    /// The text passed as stdin to the program.
    pub fn stdin(&self) -> (r: String)
        ensures
            r@ == self@.stdin,
    {
        self.stdin.clone()
    }

    /// Sets the stdin text in place.
    pub fn stdin_setter(&mut self, stdin: String)
        ensures
            final(self)@ == (ExecutorV { stdin: stdin@, ..old(self)@ }),
    {
        self.stdin = stdin;
    }

    /// The command line arguments passed to the program.
    pub fn args(&self) -> (r: Vec<String>)
        ensures
            r.deep_view() == self@.args,
    {
        crate::models::clone_string_vec(&self.args)
    }

    /// Replaces the whole argument list in place.
    pub fn args_setter(&mut self, args: Vec<String>)
        ensures
            final(self)@ == (ExecutorV { args: args.deep_view(), ..old(self)@ }),
    {
        self.args = args;
    }

    /// The maximum allowed time for compilation, in milliseconds.
    pub fn compile_timeout(&self) -> (r: isize)
        ensures
            r as int == self@.compile_timeout,
    {
        self.compile_timeout
    }

    /// Sets the compile timeout in place.
    pub fn compile_timeout_setter(&mut self, timeout: isize)
        ensures
            final(self)@ == (ExecutorV { compile_timeout: timeout as int, ..old(self)@ }),
    {
        self.compile_timeout = timeout;
    }

    /// The maximum allowed time for execution, in milliseconds.
    pub fn run_timeout(&self) -> (r: isize)
        ensures
            r as int == self@.run_timeout,
    {
        self.run_timeout
    }

    /// Sets the run timeout in place.
    pub fn run_timeout_setter(&mut self, timeout: isize)
        ensures
            final(self)@ == (ExecutorV { run_timeout: timeout as int, ..old(self)@ }),
    {
        self.run_timeout = timeout;
    }

    /// The maximum allowed memory usage for compilation, in bytes.
    pub fn compile_memory_limit(&self) -> (r: isize)
        ensures
            r as int == self@.compile_memory_limit,
    {
        self.compile_memory_limit
    }

    /// Sets the compile memory limit in place.
    pub fn compile_memory_limit_setter(&mut self, limit: isize)
        ensures
            final(self)@ == (ExecutorV { compile_memory_limit: limit as int, ..old(self)@ }),
    {
        self.compile_memory_limit = limit;
    }

    /// The maximum allowed memory usage for execution, in bytes.
    pub fn run_memory_limit(&self) -> (r: isize)
        ensures
            r as int == self@.run_memory_limit,
    {
        self.run_memory_limit
    }

    /// Sets the run memory limit in place.
    pub fn run_memory_limit_setter(&mut self, limit: isize)
        ensures
            final(self)@ == (ExecutorV { run_memory_limit: limit as int, ..old(self)@ }),
    {
        self.run_memory_limit = limit;
    }

    /// Copies the executor, leaving the existing one unchanged.  The
    /// copy is fully independent, file list included: mutating it
    /// never touches the original.
    pub fn copy(&self) -> (r: Self)
        ensures
            r@ == self@,
    {
        Executor {
            language: self.language.clone(),
            version: self.version.clone(),
            files: clone_file_vec(&self.files),
            stdin: self.stdin.clone(),
            args: crate::models::clone_string_vec(&self.args),
            compile_timeout: self.compile_timeout,
            run_timeout: self.run_timeout,
            compile_memory_limit: self.compile_memory_limit,
            run_memory_limit: self.run_memory_limit,
        }
    }

    /// Restores every field to its default, in place, so that one
    /// executor can be configured again for the next request.
    pub fn reset(&mut self)
        ensures
            final(self)@ == default_executor_view(),
    {
        self.language = String::new();
        self.version = String::from_str("*");
        self.files = Vec::new();
        self.stdin = String::new();
        self.args = Vec::new();
        self.compile_timeout = 10000;
        self.run_timeout = 3000;
        self.compile_memory_limit = -1;
        self.run_memory_limit = -1;
        proof {
            assert(self.files.deep_view() =~= Seq::<FileV>::empty());
            assert(self.args.deep_view() =~= Seq::<Seq<char>>::empty());
        }
    }

    /// Sets the language, folded to lowercase, returning the executor
    /// for chained calls.
    pub fn set_language(self, language: String) -> (r: Self)
        ensures
            r@ == (ExecutorV { language: lower_of(language@), ..self@ }),
    {
        Executor { language: lowercase(language.as_str()), ..self }
    }

    /// Sets the version, returning the executor for chained calls.
    pub fn set_version(self, version: String) -> (r: Self)
        ensures
            r@ == (ExecutorV { version: version@, ..self@ }),
    {
        Executor { version, ..self }
    }

    /// Appends one file, keeping the existing ones, returning the
    /// executor for chained calls.
    pub fn add_file(self, file: File) -> (r: Self)
        ensures
            r@ == (ExecutorV { files: self@.files.push(file@), ..self@ }),
    {
        let ghost orig = self@;
        let ghost fv = file@;
        let mut me = self;
        me.files.push(file);
        proof {
            assert(me.files.deep_view() =~= orig.files.push(fv));
        }
        me
    }

    /// Appends several files, keeping the existing ones, returning
    /// the executor for chained calls.
    pub fn add_files(self, files: Vec<File>) -> (r: Self)
        ensures
            r@ == (ExecutorV { files: self@.files + files.deep_view(), ..self@ }),
    {
        let ghost orig = self@;
        let ghost added = files.deep_view();
        let mut me = self;
        let mut rest = files;
        me.files.append(&mut rest);
        proof {
            assert(me.files.deep_view() =~= orig.files + added);
        }
        me
    }

    /// Replaces the whole file list in place.
    pub fn set_files(&mut self, files: Vec<File>)
        ensures
            final(self)@ == (ExecutorV { files: files.deep_view(), ..old(self)@ }),
    {
        self.files = files;
    }

    /// Sets the stdin text, returning the executor for chained calls.
    pub fn set_stdin(self, stdin: String) -> (r: Self)
        ensures
            r@ == (ExecutorV { stdin: stdin@, ..self@ }),
    {
        Executor { stdin, ..self }
    }

    /// Appends one command line argument, keeping the existing ones,
    /// returning the executor for chained calls.
    pub fn add_arg(self, arg: String) -> (r: Self)
        ensures
            r@ == (ExecutorV { args: self@.args.push(arg@), ..self@ }),
    {
        let ghost orig = self@;
        let ghost av = arg@;
        let mut me = self;
        me.args.push(arg);
        proof {
            assert(me.args.deep_view() =~= orig.args.push(av));
        }
        me
    }

    /// Appends several command line arguments, keeping the existing
    /// ones, returning the executor for chained calls.
    pub fn add_args(self, args: Vec<String>) -> (r: Self)
        ensures
            r@ == (ExecutorV { args: self@.args + args.deep_view(), ..self@ }),
    {
        let ghost orig = self@;
        let ghost added = args.deep_view();
        let mut me = self;
        let mut rest = args;
        me.args.append(&mut rest);
        proof {
            assert(me.args.deep_view() =~= orig.args + added);
        }
        me
    }

    /// Replaces the whole argument list in place.
    pub fn set_args(&mut self, args: Vec<String>)
        ensures
            final(self)@ == (ExecutorV { args: args.deep_view(), ..old(self)@ }),
    {
        self.args = args;
    }

    /// Sets the compile timeout, returning the executor for chained
    /// calls.
    pub fn set_compile_timeout(self, timeout: isize) -> (r: Self)
        ensures
            r@ == (ExecutorV { compile_timeout: timeout as int, ..self@ }),
    {
        Executor { compile_timeout: timeout, ..self }
    }

    /// Sets the run timeout, returning the executor for chained calls.
    pub fn set_run_timeout(self, timeout: isize) -> (r: Self)
        ensures
            r@ == (ExecutorV { run_timeout: timeout as int, ..self@ }),
    {
        Executor { run_timeout: timeout, ..self }
    }

    /// Sets the compile memory limit, returning the executor for
    /// chained calls.
    pub fn set_compile_memory_limit(self, limit: isize) -> (r: Self)
        ensures
            r@ == (ExecutorV { compile_memory_limit: limit as int, ..self@ }),
    {
        Executor { compile_memory_limit: limit, ..self }
    }

    /// Sets the run memory limit, returning the executor for chained
    /// calls.
    pub fn set_run_memory_limit(self, limit: isize) -> (r: Self)
        ensures
            r@ == (ExecutorV { run_memory_limit: limit as int, ..self@ }),
    {
        Executor { run_memory_limit: limit, ..self }
    }

    /// The JSON document this executor is sent as.
    pub(crate) fn to_json(&self) -> (d: Json)
        ensures
            d@ == spec_executor_json_doc(self@),
    {
        let mut files_json: Vec<Json> = Vec::new();
        let nf = self.files.len();
        let mut i: usize = 0;
        while i < nf
            invariant
                i <= nf,
                nf == self.files.len(),
                files_json.len() == i,
                json_view_list(files_json@) =~= Seq::new(
                    i as nat,
                    |k: int| spec_file_json_doc(self@.files[k]),
                ),
            decreases nf - i,
        {
            let ghost before = files_json@;
            files_json.push(self.files[i].to_json());
            proof {
                lemma_json_view_list_snoc(before, files_json@[i as int]);
                assert(json_view_list(files_json@) =~= Seq::new(
                    (i + 1) as nat,
                    |k: int| spec_file_json_doc(self@.files[k]),
                ));
            }
            i = i + 1;
        }
        let mut args_json: Vec<Json> = Vec::new();
        let na = self.args.len();
        let mut j: usize = 0;
        while j < na
            invariant
                j <= na,
                na == self.args.len(),
                args_json.len() == j,
                json_view_list(args_json@) =~= Seq::new(
                    j as nat,
                    |k: int| JsonV::Text(self@.args[k]),
                ),
            decreases na - j,
        {
            let ghost before = args_json@;
            args_json.push(Json::Text(self.args[j].clone()));
            proof {
                lemma_json_view_list_snoc(before, args_json@[j as int]);
                assert(json_view_list(args_json@) =~= Seq::new(
                    (j + 1) as nat,
                    |k: int| JsonV::Text(self@.args[k]),
                ));
            }
            j = j + 1;
        }
        let mut fields: Vec<(String, Json)> = Vec::new();
        fields.push((String::from_str("language"), Json::Text(self.language.clone())));
        fields.push((String::from_str("version"), Json::Text(self.version.clone())));
        fields.push((String::from_str("files"), Json::Arr(files_json)));
        fields.push((String::from_str("stdin"), Json::Text(self.stdin.clone())));
        fields.push((String::from_str("args"), Json::Arr(args_json)));
        fields.push((String::from_str("compile_timeout"), Json::Int(self.compile_timeout as i64)));
        fields.push((String::from_str("run_timeout"), Json::Int(self.run_timeout as i64)));
        fields.push(
            (String::from_str("compile_memory_limit"), Json::Int(self.compile_memory_limit as i64)),
        );
        fields.push(
            (String::from_str("run_memory_limit"), Json::Int(self.run_memory_limit as i64)),
        );
        let d = Json::Obj(fields);
        proof {
            lemma_json_view_fields_pointwise(fields@);
            assert(json_view_fields(fields@) =~= seq![
                ("language"@, JsonV::Text(self@.language)),
                ("version"@, JsonV::Text(self@.version)),
                (
                    "files"@,
                    JsonV::Arr(
                        Seq::new(self@.files.len(), |k: int| spec_file_json_doc(self@.files[k])),
                    ),
                ),
                ("stdin"@, JsonV::Text(self@.stdin)),
                (
                    "args"@,
                    JsonV::Arr(Seq::new(self@.args.len(), |k: int| JsonV::Text(self@.args[k]))),
                ),
                ("compile_timeout"@, JsonV::Int(self@.compile_timeout)),
                ("run_timeout"@, JsonV::Int(self@.run_timeout)),
                ("compile_memory_limit"@, JsonV::Int(self@.compile_memory_limit)),
                ("run_memory_limit"@, JsonV::Int(self@.run_memory_limit)),
            ]);
            assert(d@ == spec_executor_json_doc(self@));
        }
        d
    }
}

/// Mathematical view of an [`ExecResult`].
pub struct ExecResultV {
    pub stdout: Seq<char>,
    pub stderr: Seq<char>,
    pub output: Seq<char>,
    pub code: Option<int>,
    pub signal: Option<Seq<char>>,
}

impl ExecResultV {
    /// The execution was ok: the process exited with code zero.
    pub open spec fn spec_is_ok(self) -> bool {
        self.code == Some(0int)
    }

    /// The execution went wrong: the process exited with a non-zero
    /// code, or never exited at all and was ended by a signal.
    pub open spec fn spec_is_err(self) -> bool {
        match self.code {
            Some(c) => c != 0,
            None => self.signal is Some,
        }
    }
}

/// For a process that exited with a code, being ok and being in error
/// are complementary; for one that was ended by a signal instead of
/// exiting, both readings say it was not ok.
pub proof fn lemma_exec_result_ok_err(r: ExecResultV)
    ensures
        r.code is Some ==> (r.spec_is_ok() <==> !r.spec_is_err()),
        r.code is None && r.signal is Some ==> !r.spec_is_ok() && r.spec_is_err(),
{
}

/// The outcome of one phase of an execution, compile or run: what the
/// process wrote to stdout and stderr, the two merged in order as
/// `output`, and how it ended, either an exit code or the signal that
/// stopped it.
///
/// Results are immutable and are only produced by the transport
/// layer's decoding of a service response; [`ExecResult::new_`], the
/// one public constructor, always refuses with a construction error.
#[derive(Debug)]
pub struct ExecResult {
    stdout: String,
    stderr: String,
    output: String,
    code: Option<isize>,
    signal: Option<String>,
}

impl View for ExecResult {
    type V = ExecResultV;

    closed spec fn view(&self) -> ExecResultV {
        ExecResultV {
            stdout: self.stdout@,
            stderr: self.stderr@,
            output: self.output@,
            code: match self.code {
                Some(c) => Some(c as int),
                None => None,
            },
            signal: match &self.signal {
                Some(s) => Some(s@),
                None => None,
            },
        }
    }
}

impl DeepView for ExecResult {
    type V = ExecResultV;

    open spec fn deep_view(&self) -> ExecResultV {
        self@
    }
}

impl ExecResult {
    /// The in-crate factory the transport layer decodes into.
    pub(crate) fn new(
        stdout: String,
        stderr: String,
        output: String,
        code: Option<isize>,
        signal: Option<String>,
    ) -> (r: Self)
        ensures
            r@ == (ExecResultV {
                stdout: stdout@,
                stderr: stderr@,
                output: output@,
                code: match code {
                    Some(c) => Some(c as int),
                    None => None,
                },
                signal: match signal {
                    Some(s) => Some(s@),
                    None => None,
                },
            }),
    {
        ExecResult { stdout, stderr, output, code, signal }
    }

    /// Refuses to build a result directly: results only come out of
    /// the transport layer.
    pub fn new_() -> (r: Result<Self, ClientError>)
        ensures
            r matches Err(e) && e@ == (ClientErrorV::ConstructionError {
                details: "ExecResult can not be instantiated"@,
            }),
    {
        Err(ClientError::ConstructionError {
            details: String::from_str("ExecResult can not be instantiated"),
        })
    }

    /// The text sent to stdout during execution.
    pub fn stdout(&self) -> (r: String)
        ensures
            r@ == self@.stdout,
    {
        self.stdout.clone()
    }

    /// The text sent to stderr during execution.
    pub fn stderr(&self) -> (r: String)
        ensures
            r@ == self@.stderr,
    {
        self.stderr.clone()
    }

    /// The text sent to stdout and stderr during execution, merged in
    /// order.
    pub fn output(&self) -> (r: String)
        ensures
            r@ == self@.output,
    {
        self.output.clone()
    }

    /// The exit code returned by the process, if it exited.
    pub fn code(&self) -> (r: Option<isize>)
        ensures
            r matches Some(c) ==> self@.code == Some(c as int),
            r is None ==> self@.code is None,
    {
        self.code
    }

    /// The signal that ended the process, if one did (`SIGKILL` and
    /// the like).
    pub fn signal(&self) -> (r: Option<String>)
        ensures
            r matches Some(s) ==> self@.signal == Some(s@),
            r is None ==> self@.signal is None,
    {
        match &self.signal {
            Some(s) => Some(s.clone()),
            None => None,
        }
    }

    /// Whether the execution was ok: the process exited with code
    /// zero.
    pub fn is_ok(&self) -> (r: bool)
        ensures
            r == self@.spec_is_ok(),
    {
        match self.code {
            Some(c) => c == 0,
            None => false,
        }
    }

    /// Whether the execution went wrong: a non-zero exit code, or a
    /// signal ended the process before it could exit.
    pub fn is_err(&self) -> (r: bool)
        ensures
            r == self@.spec_is_err(),
    {
        match self.code {
            Some(c) => c != 0,
            None => self.signal.is_some(),
        }
    }

    /// An independent duplicate, for handing one phase of a response
    /// out.
    pub(crate) fn duplicate(&self) -> (r: Self)
        ensures
            r@ == self@,
    {
        ExecResult {
            stdout: self.stdout.clone(),
            stderr: self.stderr.clone(),
            output: self.output.clone(),
            code: self.code,
            signal: match &self.signal {
                Some(s) => Some(s.clone()),
                None => None,
            },
        }
    }
}

/// Mathematical view of an [`ExecResponse`].
pub struct ExecResponseV {
    pub language: Seq<char>,
    pub version: Seq<char>,
    pub run: ExecResultV,
    pub compile: Option<ExecResultV>,
    pub status: int,
}

impl ExecResponseV {
    /// The transport succeeded: the service answered with status 200.
    /// This is a different axis from [`ExecResultV::spec_is_ok`],
    /// which is about the process exit code.
    pub open spec fn spec_is_ok(self) -> bool {
        self.status == 200
    }
}

/// The full answer to one execute call: the language and version the
/// service ran, the run phase's result, the compile phase's result
/// for languages that have one, and the HTTP status the answer came
/// with.
///
/// Responses are immutable and are only produced by the transport
/// layer's decoding of a service response; [`ExecResponse::new_`],
/// the one public constructor, always refuses with a construction
/// error.
#[derive(Debug)]
pub struct ExecResponse {
    language: String,
    version: String,
    run: ExecResult,
    compile: Option<ExecResult>,
    status: u16,
}

impl View for ExecResponse {
    type V = ExecResponseV;

    closed spec fn view(&self) -> ExecResponseV {
        ExecResponseV {
            language: self.language@,
            version: self.version@,
            run: self.run@,
            compile: match &self.compile {
                Some(c) => Some(c@),
                None => None,
            },
            status: self.status as int,
        }
    }
}

impl DeepView for ExecResponse {
    type V = ExecResponseV;

    open spec fn deep_view(&self) -> ExecResponseV {
        self@
    }
}

impl ExecResponse {
    /// The in-crate factory the transport layer decodes into.
    pub(crate) fn new(
        language: String,
        version: String,
        run: ExecResult,
        compile: Option<ExecResult>,
        status: u16,
    ) -> (r: Self)
        ensures
            r@ == (ExecResponseV {
                language: language@,
                version: version@,
                run: run@,
                compile: match compile {
                    Some(c) => Some(c@),
                    None => None,
                },
                status: status as int,
            }),
    {
        ExecResponse { language, version, run, compile, status }
    }

    /// Refuses to build a response directly: responses only come out
    /// of the transport layer.
    pub fn new_() -> (r: Result<Self, ClientError>)
        ensures
            r matches Err(e) && e@ == (ClientErrorV::ConstructionError {
                details: "ExecResponse can not be instantiated"@,
            }),
    {
        Err(ClientError::ConstructionError {
            details: String::from_str("ExecResponse can not be instantiated"),
        })
    }

    /// The language that was used.
    pub fn language(&self) -> (r: String)
        ensures
            r@ == self@.language,
    {
        self.language.clone()
    }

    /// The version of the language that was used.
    pub fn version(&self) -> (r: String)
        ensures
            r@ == self@.version,
    {
        self.version.clone()
    }

    /// The result of the run phase.
    pub fn run(&self) -> (r: ExecResult)
        ensures
            r@ == self@.run,
    {
        self.run.duplicate()
    }

    /// The result of the compile phase, for languages that have one;
    /// `None` for the rest.
    pub fn compile(&self) -> (r: Option<ExecResult>)
        ensures
            r matches Some(c) ==> self@.compile == Some(c@),
            r is None ==> self@.compile is None,
    {
        match &self.compile {
            Some(c) => Some(c.duplicate()),
            None => None,
        }
    }

    /// The HTTP status the service answered with.
    pub fn status(&self) -> (r: u16)
        ensures
            r as int == self@.status,
    {
        self.status
    }

    /// Whether the request to the service succeeded: a 200 status was
    /// received.  This says nothing about the executed process, whose
    /// own outcome is [`ExecResult::is_ok`] on the run phase.
    pub fn is_ok(&self) -> (r: bool)
        ensures
            r == self@.spec_is_ok(),
    {
        self.status == 200
    }

    /// Whether the request to the service failed: a status other than
    /// 200 was received.
    pub fn is_err(&self) -> (r: bool)
        ensures
            r == !self@.spec_is_ok(),
    {
        self.status != 200
    }
}

/// Every numeric field of an executor's view lies within the
/// machine's signed word, as the fields themselves do.
pub proof fn lemma_executor_view_limits(ex: &Executor)
    ensures
        isize::MIN <= ex@.compile_timeout <= isize::MAX,
        isize::MIN <= ex@.run_timeout <= isize::MAX,
        isize::MIN <= ex@.compile_memory_limit <= isize::MAX,
        isize::MIN <= ex@.run_memory_limit <= isize::MAX,
{
}

/// Clones a vector of files element by element, so that the result is
/// known to hold the same file views.
pub(crate) fn clone_file_vec(v: &Vec<File>) -> (r: Vec<File>)
    ensures
        r.deep_view() == v.deep_view(),
{
    let mut out: Vec<File> = Vec::new();
    let n = v.len();
    let mut i: usize = 0;
    while i < n
        invariant
            i <= n,
            n == v.len(),
            out.len() == i,
            forall|j: int| 0 <= j < i ==> out.deep_view()[j] == v.deep_view()[j],
        decreases n - i,
    {
        out.push(v[i].copy());
        i = i + 1;
    }
    assert(out.deep_view() =~= v.deep_view());
    out
}

} // verus!
