use gemini_rag::pdf::{
    is_rendered_jpeg, join_path, ocr_document_body, ocr_document_path, render_plan,
    rendered_page_number, rendered_pages, stable_order, PdfError, OCR_PROMPT,
};

fn strings(items: &[&str]) -> Vec<String> {
    items.iter().map(|s| s.to_string()).collect()
}

#[test]
fn render_plan_passes_resolution_range_and_prefix() {
    let plan = render_plan("/docs/law.pdf", 200, Some(1), Some(3), "/tmp/r").ok().expect("plan");
    assert_eq!(plan.output_prefix, "/tmp/r/law-page");
    assert_eq!(
        plan.args,
        strings(&["-jpeg", "-r", "200", "-f", "1", "-l", "3", "/docs/law.pdf", "/tmp/r/law-page"])
    );
    let plain = render_plan("scan", 150, None, None, "/tmp/r/").ok().expect("plan");
    assert_eq!(plain.args, strings(&["-jpeg", "-r", "150", "scan", "/tmp/r/scan-page"]));
    let nameless = render_plan("/", 100, None, Some(2), "t").ok().expect("plan");
    assert_eq!(nameless.output_prefix, "t/document-page");
    assert_eq!(nameless.args, strings(&["-jpeg", "-r", "100", "-l", "2", "/", "t/document-page"]));
}

#[test]
fn render_plan_refuses_an_inverted_range() {
    let error = render_plan("a.pdf", 200, Some(5), Some(2), "/tmp").err().expect("inverted");
    assert!(matches!(error, PdfError::PageRange));
    assert_eq!(error.message(), "--first-page cannot be greater than --last-page");
    assert!(render_plan("a.pdf", 200, Some(2), Some(2), "/tmp").is_ok());
}

#[test]
fn rendered_pages_are_jpegs_sorted_by_page_number() {
    let entries = strings(&[
        "/tmp/r/law-page-10.jpg",
        "/tmp/r/law-page-2.jpg",
        "/tmp/r/notes.txt",
        "/tmp/r/cover.JPG",
        "/tmp/r/law-page-1.jpg",
        "/tmp/r/extra-x.jpg",
    ]);
    let pages = rendered_pages("/docs/law.pdf", entries).ok().expect("pages");
    assert_eq!(
        pages,
        strings(&[
            "/tmp/r/law-page-1.jpg",
            "/tmp/r/law-page-2.jpg",
            "/tmp/r/law-page-10.jpg",
            "/tmp/r/cover.JPG",
            "/tmp/r/extra-x.jpg",
        ])
    );
    let none = rendered_pages("/docs/law.pdf", strings(&["/tmp/r/a.png"])).err().expect("no pages");
    assert_eq!(none.message(), "pdftoppm did not produce any JPEG pages for /docs/law.pdf");
}

#[test]
fn page_numbers_come_after_the_last_dash() {
    assert_eq!(rendered_page_number("/tmp/r/law-page-07.jpg"), Some(7));
    assert_eq!(rendered_page_number("/tmp/r/my-doc-page-12.jpg"), Some(12));
    assert_eq!(rendered_page_number("/tmp/r/cover.jpg"), None);
    assert_eq!(rendered_page_number("/tmp/r/law-page-.jpg"), None);
    assert_eq!(rendered_page_number("/tmp/r/law-page-+3.jpg"), Some(3));
    assert!(is_rendered_jpeg("/tmp/a.Jpg"));
    assert!(!is_rendered_jpeg("/tmp/a.jpeg"));
    assert!(!is_rendered_jpeg("/tmp/.jpg"));
}

#[test]
fn stable_order_keeps_ties_in_place() {
    assert_eq!(stable_order(&vec![3, 1, 3, 0, 1]), vec![3, 1, 4, 0, 2]);
    assert_eq!(stable_order(&Vec::new()), Vec::<usize>::new());
}

#[test]
fn ocr_documents_name_their_page() {
    assert_eq!(ocr_document_path("/tmp/r", 0), "/tmp/r/page-0001.txt");
    assert_eq!(ocr_document_path("/tmp/r", 12344), "/tmp/r/page-12345.txt");
    assert_eq!(
        ocr_document_body("/tmp/r/law-page-1.jpg", 0, "\n  Text here. \n"),
        "Source image: law-page-1.jpg\nPage: 1\n\nText here."
    );
    assert_eq!(ocr_document_body("/", 1, "x"), "Source image: rendered-page.jpg\nPage: 2\n\nx");
    assert!(OCR_PROMPT.starts_with("Extract all readable text from this page image."));
    assert_eq!(join_path("", "a"), "a");
    assert_eq!(join_path("d", "/abs"), "/abs");
}
