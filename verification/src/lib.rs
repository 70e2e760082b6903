//! A client library for the Piston remote code-execution service.
//!
//! An execution request is described by an [`Executor`] holding the
//! language, version and source [`File`]s to run.  A [`Client`] owns the
//! transport configuration (base url and headers), builds the wire
//! request for an execution or a runtime-discovery call, and turns the
//! raw response back into an [`ExecResponse`] or a list of [`Runtime`]s.
//! The network send itself is left to the embedding program; everything
//! on this side of it is verified.

mod client;
mod error;
mod executor;
mod json;
mod models;
mod roundtrip;
mod text;
mod wire;

pub use client::Client;
pub use client::ClientV;
pub use client::HttpMethod;
pub use client::HttpRequest;
pub use client::spec_default_url;
pub use client::spec_headers_for;
pub use error::ClientError;
pub use error::ClientErrorV;
pub use executor::ExecResponse;
pub use executor::ExecResponseV;
pub use executor::ExecResult;
pub use executor::ExecResultV;
pub use executor::Executor;
pub use executor::ExecutorV;
pub use executor::default_executor_view;
pub use executor::lemma_exec_result_ok_err;
pub use executor::lemma_executor_view_limits;
pub use models::File;
pub use models::FileV;
pub use models::Runtime;
pub use models::RuntimeV;
pub use models::default_file_view;
pub use json::Json;
pub use json::JsonV;
pub use json::parse_json;
pub use json::write_json;
pub use json::spec_write_value;
pub use json::spec_parse_json;
pub use json::spec_executor_json_doc;
pub use json::spec_file_json_doc;
pub use json::json_view;
pub use roundtrip::lemma_executor_request_reads_back;
pub use roundtrip::lemma_parse_json_of_write;
pub use roundtrip::lemma_parse_of_write;
pub use roundtrip::lemma_request_body_reads_back;
pub use roundtrip::spec_wf_json;
pub use text::lower_of;
pub use wire::spec_response_of_json;
pub use wire::spec_result_of_json;
pub use wire::spec_runtime_of_json;
pub use wire::spec_runtimes_of_json;
