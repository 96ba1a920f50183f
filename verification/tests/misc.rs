use gemini_rag::gemini::types::{
    Candidate, FileSearchStore, GenerateContentResponse, GroundingChunk, GroundingMetadata, Model,
    RetrievedContext,
};
use gemini_rag::logging::{debug, error, event, warn, Level};
use gemini_rag::output::{citation_lines, model_line, response_text, store_line};
use gemini_rag::paths::{path_file_name, split_file_name};

fn context(title: Option<&str>, uri: Option<&str>, text: Option<&str>) -> RetrievedContext {
    RetrievedContext {
        text: text.map(str::to_string),
        title: title.map(str::to_string),
        uri: uri.map(str::to_string),
        file_search_store: Some("fileSearchStores/s".to_string()),
        custom_metadata: Vec::new(),
        page_number: None,
        media_id: None,
        extra: Vec::new(),
    }
}

#[test]
fn log_lines_carry_time_level_and_message() {
    assert_eq!(event("command started: query").line(1700000000), "1700000000\tINFO\tcommand started: query");
    assert_eq!(debug("d").line(0), "0\tDEBUG\td");
    assert_eq!(warn("w").line(5), "5\tWARN\tw");
    assert!(error("e").level == Level::Error);
    assert_eq!(error("e").line(9), "9\tERROR\te");
}

#[test]
fn stores_and_models_print_on_one_line() {
    let named = FileSearchStore {
        name: "fileSearchStores/lawdocs-abc123".to_string(),
        display_name: Some("lawdocs".to_string()),
        embedding_model: None,
    };
    assert_eq!(store_line(&named), "fileSearchStores/lawdocs-abc123\tlawdocs");
    let bare = FileSearchStore { name: "fileSearchStores/x".to_string(), display_name: None, embedding_model: None };
    assert_eq!(store_line(&bare), "fileSearchStores/x");
    let model = Model {
        name: "models/gemini-3-flash-preview".to_string(),
        display_name: Some("Gemini 3 Flash".to_string()),
        supported_generation_methods: Vec::new(),
    };
    assert_eq!(model_line(&model), "gemini-3-flash-preview\tGemini 3 Flash");
}

#[test]
fn citations_print_numbered_labels_and_flattened_text() {
    let response = GenerateContentResponse {
        candidates: vec![Candidate {
            content: None,
            grounding_metadata: Some(GroundingMetadata {
                grounding_chunks: vec![
                    GroundingChunk {
                        retrieved_context: Some(context(Some("Guide"), None, Some("a\nb"))),
                        extra: Vec::new(),
                    },
                    GroundingChunk { retrieved_context: None, extra: Vec::new() },
                    GroundingChunk {
                        retrieved_context: Some(context(None, Some("https://e.test"), None)),
                        extra: Vec::new(),
                    },
                    GroundingChunk {
                        retrieved_context: Some(context(None, None, None)),
                        extra: Vec::new(),
                    },
                ],
                extra: Vec::new(),
            }),
            extra: Vec::new(),
        }],
        extra: Vec::new(),
    };
    let lines = citation_lines(&response);
    assert_eq!(
        lines,
        vec![
            "\nCitations:".to_string(),
            "1. Guide".to_string(),
            "   a b".to_string(),
            "2. https://e.test".to_string(),
            "3. retrieved context".to_string(),
        ]
    );
    assert_eq!(response_text(&response), None);
    let empty = GenerateContentResponse { candidates: Vec::new(), extra: Vec::new() };
    assert!(citation_lines(&empty).is_empty());
}

#[test]
fn file_names_stems_and_extensions_follow_std_path() {
    for path in ["/a/b.txt", "a/b/", "a/..", "/", "", ".", "a/.", "./c", "x//y.tar.gz", ".hidden", "..", "a.", "dir/.config.json"] {
        let ours = path_file_name(path);
        let std_name = std::path::Path::new(path).file_name().map(|n| n.to_str().unwrap().to_string());
        assert_eq!(ours, std_name, "{path}");
        if let Some(name) = ours {
            let (stem, ext) = split_file_name(&name);
            let p = std::path::Path::new(path);
            assert_eq!(Some(stem), p.file_stem().map(|s| s.to_str().unwrap().to_string()), "{path}");
            assert_eq!(ext, p.extension().map(|s| s.to_str().unwrap().to_string()), "{path}");
        }
    }
}
