use manga_cli::archive::{build_cbz, contiguous_count, pdf_convert_args, ArchiveError, MAX_IMAGES};
use manga_cli::cache::{clear_outcome, ClearOutcome};
use manga_cli::extract::{extract, image_sources, present_values, title_links};
use manga_cli::input::{parse_decimal, parse_number, select_title};
use manga_cli::text::{
    chapter_link, decimal_string, format_manga_name, image_file_name, image_path, search_url,
    title_line,
};
use std::io::{Cursor, Read};

#[test]
fn normalizes_spaces_and_hyphens() {
    assert_eq!(format_manga_name("one piece"), "one_piece");
    assert_eq!(format_manga_name("spy-x family"), "spy_x_family");
    assert_eq!(format_manga_name("a - b"), "a___b");
    assert_eq!(format_manga_name(""), "");
}

#[test]
fn normalization_is_idempotent() {
    for name in ["one piece", "spy-x family", "already_done", "mixed -_ chars", "émigré - ü"] {
        let once = format_manga_name(name);
        assert_eq!(format_manga_name(&once), once);
        assert!(!once.contains(' ') && !once.contains('-'));
    }
}

#[test]
fn search_scenario_lists_two_titles() {
    let page = r#"<html><body><h3><a href="/m1">T1</a></h3><h3><a href="/m2">T2</a></h3></body></html>"#;
    let links = title_links(page);
    assert_eq!(links, vec!["/m1".to_string(), "/m2".to_string()]);
    let lines: Vec<String> = links.iter().enumerate().map(|(i, l)| title_line(i + 1, l)).collect();
    assert_eq!(lines, vec!["[1] /m1".to_string(), "[2] /m2".to_string()]);
}

#[test]
fn titles_without_link_or_href_are_skipped() {
    let page = r#"<h3><a href="/a">A</a></h3><h3>plain</h3><h3><a>no href</a></h3><h3><span><a href="/b">B</a></span></h3>"#;
    assert_eq!(title_links(page), vec!["/a".to_string(), "/b".to_string()]);
}

#[test]
fn first_link_of_each_container_is_taken() {
    let page = r#"<h3><a href="/first">1</a><a href="/second">2</a></h3>"#;
    assert_eq!(title_links(page), vec!["/first".to_string()]);
}

#[test]
fn image_sources_keep_document_order() {
    let page = r#"<div><img src="p1.jpg"><img alt="x"><p><img src="p2.jpg"></p><img src="p3.jpg"></div>"#;
    assert_eq!(
        image_sources(page),
        vec!["p1.jpg".to_string(), "p2.jpg".to_string(), "p3.jpg".to_string()]
    );
}

#[test]
fn extract_on_markup_without_matches_is_empty() {
    assert!(image_sources("").is_empty());
    assert!(title_links("<p>nothing</p>").is_empty());
    assert_eq!(extract("<b id=\"k\">x</b>", "b", None, "id"), vec!["k".to_string()]);
}

#[test]
fn present_values_drop_missing_without_reordering() {
    let slots = vec![None, Some("x".to_string()), None, Some("y".to_string()), Some("z".to_string())];
    assert_eq!(present_values(&slots), vec!["x".to_string(), "y".to_string(), "z".to_string()]);
    assert!(present_values(&vec![None, None]).is_empty());
}

#[test]
fn scan_stops_at_first_gap() {
    assert_eq!(contiguous_count(&vec![true, true, false, true]), 2);
    assert_eq!(contiguous_count(&vec![false, true]), 0);
    assert_eq!(contiguous_count(&vec![]), 0);
    assert_eq!(contiguous_count(&vec![true, true, true]), 3);
}

#[test]
fn scan_is_capped() {
    assert_eq!(contiguous_count(&vec![true; MAX_IMAGES + 200]), 1000);
}

#[test]
fn pdf_without_pages_is_refused() {
    assert_eq!(pdf_convert_args(0), Err(ArchiveError::EmptyInput));
}

#[test]
fn pdf_arguments_list_pages_in_order() {
    let args = pdf_convert_args(2).unwrap();
    assert_eq!(args, vec!["convert", "-quality", "100", "1.jpg", "2.jpg", "output.pdf"]);
}

fn read_entry(archive: &[u8], name: &str) -> Vec<u8> {
    let mut zip = zip::ZipArchive::new(Cursor::new(archive.to_vec())).unwrap();
    let mut entry = zip.by_name(name).unwrap();
    let mut data = Vec::new();
    entry.read_to_end(&mut data).unwrap();
    data
}

#[test]
fn cbz_round_trip_keeps_bytes() {
    let images = vec![vec![0xFFu8, 0xD8, 0x00, 0x17], vec![], (0..=255u8).collect::<Vec<u8>>()];
    let archive = build_cbz(&images).unwrap();
    let zip = zip::ZipArchive::new(Cursor::new(archive.clone())).unwrap();
    let names: Vec<String> = zip.file_names().map(String::from).collect();
    assert_eq!(names.len(), 3);
    assert_eq!(read_entry(&archive, "1.jpg"), images[0]);
    assert_eq!(read_entry(&archive, "2.jpg"), images[1]);
    assert_eq!(read_entry(&archive, "3.jpg"), images[2]);
}

#[test]
fn cbz_without_pages_is_an_empty_archive() {
    let archive = build_cbz(&vec![]).unwrap();
    let zip = zip::ZipArchive::new(Cursor::new(archive)).unwrap();
    assert_eq!(zip.len(), 0);
}

#[test]
fn clearing_missing_directory_is_benign() {
    assert_eq!(clear_outcome(false), ClearOutcome::NothingToClear);
    assert_eq!(clear_outcome(false).message(), "No cache to clear.");
    assert_eq!(clear_outcome(true), ClearOutcome::Cleared);
    assert_eq!(clear_outcome(true).message(), "Cleared cache.");
}

#[test]
fn prompt_numbers_are_parsed() {
    assert_eq!(parse_number(" 42\n"), Some(42));
    assert_eq!(parse_number("\t7 "), Some(7));
    assert_eq!(parse_number("+3"), Some(3));
    assert_eq!(parse_number("abc"), None);
    assert_eq!(parse_number(""), None);
    assert_eq!(parse_number("   "), None);
    assert_eq!(parse_number("-1"), None);
    assert_eq!(parse_number("+"), None);
    assert_eq!(parse_number("1 2"), None);
}

#[test]
fn prompt_trims_unicode_whitespace() {
    assert_eq!(parse_number("\u{3000}5\u{85}"), Some(5));
    assert_eq!(parse_number("\u{a0}\r\n12\u{2009}"), Some(12));
    assert_eq!(parse_number("\u{200b}5"), None);
}

#[test]
fn cbz_entries_are_named_in_page_order() {
    let images: Vec<Vec<u8>> = (0..12u8).map(|k| vec![k; k as usize + 1]).collect();
    let archive = build_cbz(&images).unwrap();
    let mut zip = zip::ZipArchive::new(Cursor::new(archive.clone())).unwrap();
    assert_eq!(zip.len(), 12);
    for k in 0..12usize {
        let entry = zip.by_index(k).unwrap();
        assert_eq!(entry.name(), format!("{}.jpg", k + 1));
    }
    for k in 0..12usize {
        assert_eq!(read_entry(&archive, &format!("{}.jpg", k + 1)), images[k]);
    }
}

#[test]
fn cbz_build_is_deterministic() {
    let images = vec![vec![1u8, 2, 3], vec![9u8; 5000]];
    assert_eq!(build_cbz(&images).unwrap(), build_cbz(&images).unwrap());
}

#[test]
fn parse_respects_usize_range() {
    let max = usize::MAX.to_string();
    assert_eq!(parse_decimal(&max), Some(usize::MAX));
    let over = format!("{}0", max);
    assert_eq!(parse_decimal(&over), None);
    assert_eq!(parse_decimal("007"), Some(7));
}

#[test]
fn links_and_file_names_are_composed() {
    assert_eq!(chapter_link("/m1", 12), "/m1/chapter-12");
    assert_eq!(chapter_link("https://site/manga/x", 0), "https://site/manga/x/chapter-0");
    assert_eq!(image_file_name(10), "10.jpg");
    assert_eq!(image_path(".cache/manga-cli", 3), ".cache/manga-cli/3.jpg");
    assert_eq!(search_url("https://s/search/", "one piece"), "https://s/search/one_piece");
    assert_eq!(decimal_string(0), "0");
    assert_eq!(decimal_string(1050), "1050");
    assert_eq!(decimal_string(usize::MAX), usize::MAX.to_string());
}

#[test]
fn selection_is_one_based() {
    let titles = vec!["/m1".to_string(), "/m2".to_string()];
    assert_eq!(select_title(&titles, 1), "/m1");
    assert_eq!(select_title(&titles, 2), "/m2");
}
