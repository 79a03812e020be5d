use cassandra_server::bytes::{hex_bytes, parse_blob_metadata_arg, parse_uuid_bytes};
use cassandra_server::paging::{apply_paging, limit_and_page};

fn rows(n: usize) -> Vec<Vec<Option<Vec<u8>>>> {
    (0..n).map(|i| vec![Some(vec![i as u8]), None]).collect()
}

#[test]
fn paging_first_page_and_resume() {
    let (page, next, warnings) = apply_paging(rows(5), Some(2), &None);
    assert_eq!(page, rows(5)[0..2].to_vec());
    assert_eq!(next, Some(vec![0, 0, 0, 2]));
    assert!(warnings.is_empty());
    let (page2, next2, _) = apply_paging(rows(5), Some(2), &next);
    assert_eq!(page2, rows(5)[2..4].to_vec());
    assert_eq!(next2, Some(vec![0, 0, 0, 4]));
    let (page3, next3, _) = apply_paging(rows(5), Some(2), &next2);
    assert_eq!(page3, rows(5)[4..5].to_vec());
    assert_eq!(next3, None);
}

#[test]
fn paging_edge_cases() {
    let (all, next, _) = apply_paging(rows(3), None, &None);
    assert_eq!(all, rows(3));
    assert_eq!(next, None);
    let (past, next, _) = apply_paging(rows(3), Some(1), &Some(vec![0, 0, 0, 3]));
    assert!(past.is_empty());
    assert_eq!(next, None);
    let (short_state, _, _) = apply_paging(rows(3), Some(10), &Some(vec![0, 1]));
    assert_eq!(short_state, rows(3));
    let (negative, next, _) = apply_paging(rows(3), Some(-1), &None);
    assert_eq!(negative, rows(3));
    assert_eq!(next, None);
    let (exact, next, _) = apply_paging(rows(2), Some(2), &None);
    assert_eq!(exact, rows(2));
    assert_eq!(next, None);
}

#[test]
fn hex_rendering() {
    assert_eq!(hex_bytes(&[]), "0x");
    assert_eq!(hex_bytes(&[0x00, 0x0f, 0xab, 0xff]), "0x000fabff");
}

#[test]
fn blob_literals() {
    assert_eq!(parse_blob_metadata_arg("0xCAFE"), Some(vec![0xca, 0xfe]));
    assert_eq!(parse_blob_metadata_arg("0X00ff"), Some(vec![0x00, 0xff]));
    assert_eq!(parse_blob_metadata_arg("0x"), Some(vec![]));
    assert_eq!(parse_blob_metadata_arg("cafe"), None);
    assert_eq!(parse_blob_metadata_arg("0xabc"), None);
    assert_eq!(parse_blob_metadata_arg("0xzz"), None);
    assert_eq!(parse_blob_metadata_arg("0x+f"), Some(vec![0x0f]));
    assert_eq!(parse_blob_metadata_arg("0xé0"), None);
}

#[test]
fn blob_literal_round_trip() {
    let bytes = vec![0u8, 1, 127, 128, 200, 255];
    assert_eq!(parse_blob_metadata_arg(&hex_bytes(&bytes)), Some(bytes));
}

#[test]
fn uuid_text() {
    assert_eq!(
        parse_uuid_bytes("550e8400-e29b-41d4-a716-446655440000"),
        Some(vec![
            0x55, 0x0e, 0x84, 0x00, 0xe2, 0x9b, 0x41, 0xd4, 0xa7, 0x16, 0x44, 0x66, 0x55, 0x44, 0x00, 0x00
        ])
    );
    assert_eq!(parse_uuid_bytes("zz"), None);
    assert_eq!(parse_uuid_bytes(""), Some(vec![]));
}

#[test]
fn paging_through_all_pages_reads_every_row_once() {
    for total in [0usize, 1, 5, 6, 7] {
        let rows: Vec<Vec<Option<Vec<u8>>>> = (0..total).map(|i| vec![Some(vec![i as u8])]).collect();
        let mut state: Option<Vec<u8>> = None;
        let mut seen = Vec::new();
        let mut pages = 0;
        loop {
            let (page, next, _) = apply_paging(rows.clone(), Some(3), &state);
            pages += 1;
            if next.is_some() {
                assert_eq!(page.len(), 3);
            } else {
                assert!(page.len() <= 3);
                assert!(total == 0 || !page.is_empty());
            }
            seen.extend(page);
            match next {
                Some(s) => state = Some(s),
                None => break,
            }
        }
        assert_eq!(seen, rows);
        assert_eq!(pages, if total == 0 { 1 } else { (total + 2) / 3 });
    }
}

#[test]
fn limit_cuts_rows_before_paging() {
    let rows: Vec<Vec<Option<Vec<u8>>>> = (0u8..6).map(|i| vec![Some(vec![i])]).collect();
    let (page, next, warnings) = limit_and_page(rows.clone(), 4, Some(3), &None);
    assert_eq!(page, rows[0..3].to_vec());
    assert_eq!(next, Some(vec![0, 0, 0, 3]));
    assert!(warnings.is_empty());
    let (page, next, _) = limit_and_page(rows.clone(), 4, Some(3), &next);
    assert_eq!(page, rows[3..4].to_vec());
    assert_eq!(next, None);
    let (page, next, _) = limit_and_page(rows.clone(), 10, None, &None);
    assert_eq!(page, rows);
    assert_eq!(next, None);
    let (page, _, _) = limit_and_page(rows, 0, Some(3), &None);
    assert!(page.is_empty());
}
