use mindmirror::files::{
    file_event_description, file_event_title, next_file_version, stored_file_name,
};

#[test]
fn first_version_keeps_its_name() {
    assert_eq!(stored_file_name("plan.pdf", Some("pdf"), 1, "20240101_120000"), "plan.pdf");
    assert_eq!(stored_file_name("plan", None, 1, "20240101_120000"), "plan");
    assert_eq!(stored_file_name("plan.pdf", Some("pdf"), 0, "20240101_120000"), "plan.pdf");
}

#[test]
fn later_versions_carry_the_moment_of_upload() {
    assert_eq!(
        stored_file_name("plan.pdf", Some("pdf"), 2, "20240101_120000"),
        "plan_20240101_120000.pdf"
    );
    assert_eq!(
        stored_file_name("archive.tar.gz", Some("gz"), 3, "T"),
        "archive.tar_T.gz"
    );
    assert_eq!(stored_file_name("README", None, 2, "T"), "README_T");
    assert_eq!(stored_file_name("图纸.dwg", Some("dwg"), 2, "T"), "图纸_T.dwg");
}

#[test]
fn extension_is_cut_only_where_the_name_ends_with_it() {
    assert_eq!(stored_file_name("plan.PDF", Some("pdf"), 2, "T"), "plan.PDF_T.pdf");
    assert_eq!(stored_file_name("pdf", Some("pdf"), 2, "T"), "pdf_T.pdf");
    assert_eq!(stored_file_name(".pdf", Some("pdf"), 2, "T"), "_T.pdf");
    assert_eq!(stored_file_name("planpdf", Some("pdf"), 2, "T"), "planpdf_T.pdf");
    assert_eq!(stored_file_name("plan.", Some(""), 2, "T"), "plan_T.");
}

#[test]
fn versions_follow_one_another() {
    assert_eq!(next_file_version(0), Some(1));
    assert_eq!(next_file_version(41), Some(42));
    assert_eq!(next_file_version(i32::MAX), None);
}

#[test]
fn upload_is_recorded_as_new_or_as_update() {
    assert_eq!(file_event_title("plan.pdf", 1), "新增文件: plan.pdf");
    assert_eq!(file_event_title("plan.pdf", 2), "更新文件: plan.pdf");
    assert_eq!(file_event_description(1), "文件版本: v1");
    assert_eq!(file_event_description(12), "文件版本: v12");
}
