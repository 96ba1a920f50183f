//! The command line: its commands, their arguments and their defaults.
use vstd::prelude::*;
use crate::number::{int_error_message, int_error_text, parse_usize};
use crate::text::{concat2, copy_str};

verus! {

pub const DEFAULT_BASE_URL: &'static str = "https://generativelanguage.googleapis.com";

pub const DEFAULT_MODEL: &'static str = "gemini-3-flash-preview";

pub const MULTIMODAL_EMBEDDING_MODEL: &'static str = "models/gemini-embedding-2";

pub const DEFAULT_PROXY_BIND: &'static str = "127.0.0.1:8080";

/// The whole command line.
pub struct Cli {
    pub api_key: Option<String>,
    pub base_url: String,
    pub log_file: String,
    pub command: Commands,
}

/// The commands.
pub enum Commands {
    /// Create an empty Gemini File Search store.
    CreateStore(CreateStoreArgs),
    /// Upload every file from a folder into a File Search store.
    Ingest(IngestArgs),
    /// Render each PDF page to JPEG and upload pages into a File Search store.
    IngestPdf(IngestPdfArgs),
    /// Ask a model a question grounded in a File Search store.
    Query(QueryArgs),
    /// List File Search stores in the current Gemini project.
    ListStores,
    /// List Gemini models that support generateContent.
    ListModels,
    /// Delete a File Search store.
    DeleteStore(DeleteStoreArgs),
    /// Serve an OpenAI-compatible chat completions API backed by Gemini File Search.
    Serve(ServeArgs),
}

/// The name of a command on the command line.
pub open spec fn command_name(c: Commands) -> Seq<char> {
    match c {
        Commands::CreateStore(_) => "create-store"@,
        Commands::Ingest(_) => "ingest"@,
        Commands::IngestPdf(_) => "ingest-pdf"@,
        Commands::Query(_) => "query"@,
        Commands::ListStores => "list-stores"@,
        Commands::ListModels => "list-models"@,
        Commands::DeleteStore(_) => "delete-store"@,
        Commands::Serve(_) => "serve"@,
    }
}

impl Commands {
    /// The name of the command, as typed.
    pub fn name(&self) -> (r: &'static str)
        ensures
            r@ == command_name(*self),
    {
        match self {
            Commands::CreateStore(_) => "create-store",
            Commands::Ingest(_) => "ingest",
            Commands::IngestPdf(_) => "ingest-pdf",
            Commands::Query(_) => "query",
            Commands::ListStores => "list-stores",
            Commands::ListModels => "list-models",
            Commands::DeleteStore(_) => "delete-store",
            Commands::Serve(_) => "serve",
        }
    }
}

pub struct CreateStoreArgs {
    pub display_name: String,
    /// Embedding model for the store. Use models/gemini-embedding-2 for image search.
    pub embedding_model: Option<String>,
}

pub struct IngestArgs {
    /// Folder containing files to upload.
    pub folder: String,
    /// Existing store name, for example fileSearchStores/my-docs-abc123.
    pub store: Option<String>,
    /// Display name used when creating a store if --store is omitted.
    pub store_display_name: Option<String>,
    /// Embedding model used when creating a store if --store is omitted.
    pub store_embedding_model: Option<String>,
    /// Only upload files directly inside the folder.
    pub no_recursive: bool,
    /// Include hidden files and files inside hidden directories.
    pub include_hidden: bool,
    /// Do not wait for upload/indexing operations to finish.
    pub no_wait: bool,
    /// Number of files to upload concurrently.
    pub upload_batch_size: usize,
    /// Seconds between operation polls.
    pub poll_interval_secs: u64,
    /// Maximum seconds to wait for each upload operation. Use 0 to wait indefinitely.
    pub operation_timeout_secs: u64,
    /// Skip files larger than this many bytes.
    pub max_bytes: Option<u64>,
}

pub struct IngestPdfArgs {
    /// PDF file to render and upload page-by-page.
    pub pdf: String,
    /// Existing store name, for example fileSearchStores/my-docs-abc123.
    pub store: String,
    /// Render DPI passed to pdftoppm.
    pub dpi: u16,
    /// First PDF page to render, using 1-based page numbers.
    pub first_page: Option<u16>,
    /// Last PDF page to render, using 1-based page numbers.
    pub last_page: Option<u16>,
    /// Gemini model used to extract page text from rendered JPEGs.
    pub ocr_model: String,
    /// Upload rendered JPEG files directly instead of OCR text pages.
    pub upload_jpegs: bool,
    /// Do not wait for upload/indexing operations to finish.
    pub no_wait: bool,
    /// Number of page documents to upload concurrently.
    pub upload_batch_size: usize,
    /// Seconds between operation polls.
    pub poll_interval_secs: u64,
    /// Maximum seconds to wait for each upload operation. Use 0 to wait indefinitely.
    pub operation_timeout_secs: u64,
}

pub struct QueryArgs {
    /// Store name to ground the query with, for example fileSearchStores/my-docs-abc123.
    pub store: String,
    /// Gemini model to use for the grounded response.
    pub model: String,
    /// File containing the system prompt sent as Gemini systemInstruction.
    pub system_prompt_file: Option<String>,
    /// Question to ask. If omitted, stdin is used.
    pub prompt: Vec<String>,
    /// Print retrieved citation chunks after the answer.
    pub show_citations: bool,
}

pub struct DeleteStoreArgs {
    pub store: String,
    /// Delete documents and related objects inside the store too.
    pub force: bool,
}

pub struct ServeArgs {
    /// Socket address for the Axum server.
    pub bind: String,
    /// Default File Search store used for chat completions.
    pub store: Option<String>,
    /// Gemini model used by the proxy server.
    pub model: String,
    /// File containing the system prompt sent as Gemini systemInstruction.
    pub system_prompt_file: Option<String>,
}

/// What `--upload-batch-size` accepts: a decimal `usize` of at least 1.
pub open spec fn upload_batch_size_result(value: Seq<char>) -> Result<int, Seq<char>> {
    match crate::number::parse_usize_spec(value) {
        Ok(n) => if n == 0 {
            Err("upload batch size must be at least 1"@)
        } else {
            Ok(n)
        },
        Err(k) => Err("invalid upload batch size: "@ + int_error_message(k)),
    }
}

/// Reads the value of `--upload-batch-size`.
pub fn parse_upload_batch_size(value: &str) -> (r: Result<usize, String>)
    ensures
        match r {
            Ok(n) => upload_batch_size_result(value@) == Ok::<int, Seq<char>>(n as int),
            Err(m) => upload_batch_size_result(value@) == Err::<int, Seq<char>>(m@),
        },
{
    match parse_usize(value) {
        Ok(n) => if n == 0 {
            Err(copy_str("upload batch size must be at least 1"))
        } else {
            Ok(n)
        },
        Err(k) => Err(concat2("invalid upload batch size: ", int_error_text(k).as_str())),
    }
}

} // verus!
