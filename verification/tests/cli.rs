use gemini_rag::cli::{
    parse_upload_batch_size, Commands, CreateStoreArgs, DeleteStoreArgs, DEFAULT_BASE_URL,
    DEFAULT_MODEL, DEFAULT_PROXY_BIND, MULTIMODAL_EMBEDDING_MODEL,
};
use gemini_rag::number::{parse_usize, IntErrorKind};

#[test]
fn commands_are_named_as_typed() {
    let create = Commands::CreateStore(CreateStoreArgs { display_name: "rag-docs".to_string(), embedding_model: None });
    assert_eq!(create.name(), "create-store");
    assert_eq!(Commands::ListStores.name(), "list-stores");
    assert_eq!(Commands::ListModels.name(), "list-models");
    let delete = Commands::DeleteStore(DeleteStoreArgs { store: "s".to_string(), force: false });
    assert_eq!(delete.name(), "delete-store");
    assert_eq!(DEFAULT_BASE_URL, "https://generativelanguage.googleapis.com");
    assert_eq!(DEFAULT_MODEL, "gemini-3-flash-preview");
    assert_eq!(MULTIMODAL_EMBEDDING_MODEL, "models/gemini-embedding-2");
    assert_eq!(DEFAULT_PROXY_BIND, "127.0.0.1:8080");
}

#[test]
fn upload_batch_size_is_a_positive_number() {
    assert_eq!(parse_upload_batch_size("4"), Ok(4));
    assert_eq!(parse_upload_batch_size("+2"), Ok(2));
    assert_eq!(parse_upload_batch_size("0"), Err("upload batch size must be at least 1".to_string()));
    assert_eq!(
        parse_upload_batch_size(""),
        Err("invalid upload batch size: cannot parse integer from empty string".to_string())
    );
    assert_eq!(
        parse_upload_batch_size("x1"),
        Err("invalid upload batch size: invalid digit found in string".to_string())
    );
    assert_eq!(
        parse_upload_batch_size("99999999999999999999999"),
        Err("invalid upload batch size: number too large to fit in target type".to_string())
    );
}

#[test]
fn usize_parsing_matches_std() {
    for text in ["0", "007", "+5", "", "+", "-", "-1", "1_000", " 1", "18446744073709551615", "18446744073709551616", "99999999999999999999x", "1x99999999999999999999"] {
        let ours = parse_usize(text);
        let std = text.parse::<usize>();
        match (ours, std) {
            (Ok(a), Ok(b)) => assert_eq!(a, b, "{text}"),
            (Err(kind), Err(e)) => {
                let expected = match e.kind() {
                    std::num::IntErrorKind::Empty => IntErrorKind::Empty,
                    std::num::IntErrorKind::InvalidDigit => IntErrorKind::InvalidDigit,
                    std::num::IntErrorKind::PosOverflow => IntErrorKind::PosOverflow,
                    other => panic!("unexpected {other:?}"),
                };
                assert_eq!(kind, expected, "{text}");
            }
            (a, b) => panic!("{text}: {a:?} vs {b:?}"),
        }
    }
}
