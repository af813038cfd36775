use notoize::client::{
    codepoints_of, BlockData, BlockEndpoints, CodepointFontSupport, NotoizeClient, NotoizeError,
};

fn block(ix: usize, start: u32, end: u32, name: &str) -> BlockEndpoints {
    BlockEndpoints { ix, start, end, name: name.to_string() }
}

fn cp(key: &str, fonts: Option<Vec<&str>>) -> (String, CodepointFontSupport) {
    (
        key.to_string(),
        CodepointFontSupport { fonts: fonts.map(|v| v.iter().map(|s| s.to_string()).collect()) },
    )
}

fn data(cps: Vec<(String, CodepointFontSupport)>, fonts: Option<Vec<&str>>) -> BlockData {
    BlockData { cps, fonts: fonts.map(|v| v.iter().map(|s| s.to_string()).collect()) }
}

fn latin_client() -> NotoizeClient {
    let mut client =
        NotoizeClient::from_blocks(vec![block(0, 0x41, 0x5A, "Basic Latin")]).unwrap();
    let d = data(vec![cp("65", Some(vec!["Sans", "Serif", "Sans Mono"]))], None);
    client.ingest_block(0, &d).unwrap();
    client
}

#[test]
fn empty_input_empty_stack_and_reports() {
    let client = NotoizeClient::from_blocks(vec![block(0, 0x41, 0x5A, "Basic Latin")]).unwrap();
    let cps = codepoints_of("");
    assert!(cps.is_empty());
    assert!(client.blocks_needed(&cps).is_empty());
    let stack = client.select(&cps);
    assert!(stack.names.is_empty());
    let reports = stack.map_string();
    assert_eq!(reports.all, "");
    assert_eq!(reports.conflicts, "");
    assert_eq!(reports.missing, "");
}

#[test]
fn single_latin_letter_selects_sans() {
    let client = latin_client();
    let cps = codepoints_of("A");
    assert_eq!(cps, vec![0x41]);
    let stack = client.select(&cps);
    assert_eq!(stack.names, vec!["Noto Sans".to_string()]);
    assert_eq!(stack.map.len(), 1);
    assert_eq!(stack.map[0].codepoint, 0x41);
    let reports = stack.map_string();
    assert_eq!(reports.all, "0041\r\n    Sans, Sans Mono, Serif\r\n");
    assert_eq!(reports.conflicts, "");
    assert_eq!(reports.missing, "");
}

#[test]
fn latin_then_armenian_first_needed_order() {
    let mut client = NotoizeClient::from_blocks(vec![
        block(0, 0x41, 0x5A, "Basic Latin"),
        block(1, 0x530, 0x537, "Armenian"),
    ])
    .unwrap();
    let cps = codepoints_of("\u{531}A");
    assert_eq!(cps, vec![0x41, 0x531]);
    let needed = client.blocks_needed(&cps);
    assert_eq!(needed, vec![0, 1]);
    let latin = data(vec![cp("65", Some(vec!["Sans"]))], None);
    client.ingest_block(0, &latin).unwrap();
    let armenian = data(vec![cp("1329", None)], Some(vec!["Sans Armenian"]));
    client.ingest_block(1, &armenian).unwrap();
    let stack = client.select(&cps);
    assert_eq!(
        stack.names,
        vec!["Noto Sans".to_string(), "Noto Sans Armenian".to_string()]
    );
}

#[test]
fn devanagari_tie_break_and_missing_sibling() {
    let mut client =
        NotoizeClient::from_blocks(vec![block(0, 0x915, 0x916, "Devanagari")]).unwrap();
    let d = data(
        vec![
            cp("2325", Some(vec!["Serif Devanagari", "Sans Devanagari"])),
            cp("2326", Some(vec!["Serif Devanagari"])),
        ],
        None,
    );
    client.ingest_block(0, &d).unwrap();
    let cps = codepoints_of("\u{915}\u{916}");
    let stack = client.select(&cps);
    assert_eq!(
        stack.names,
        vec![
            "Noto Sans Devanagari".to_string(),
            "Noto Serif Devanagari".to_string()
        ]
    );
    let reports = stack.map_string();
    assert_eq!(reports.conflicts, "");
    assert_eq!(reports.missing, "0916\r\n    Sans Devanagari\r\n");
}

#[test]
fn no_duplicate_family_in_stack() {
    let mut client = NotoizeClient::from_blocks(vec![block(0, 0x41, 0x42, "Two")]).unwrap();
    let d = data(
        vec![cp("65", Some(vec!["Sans"])), cp("66", Some(vec!["Sans"]))],
        None,
    );
    client.ingest_block(0, &d).unwrap();
    let stack = client.select(&codepoints_of("AB"));
    assert_eq!(stack.names, vec!["Noto Sans".to_string()]);
}

#[test]
fn codepoint_outside_every_block_is_skipped() {
    let client = latin_client();
    let cps = codepoints_of("A\u{2603}");
    assert!(client.blocks_needed(&cps).is_empty());
    let stack = client.select(&cps);
    assert_eq!(stack.names, vec!["Noto Sans".to_string()]);
    assert_eq!(stack.map.len(), 1);
    let reports = stack.map_string();
    assert_eq!(reports.all, "0041\r\n    Sans, Sans Mono, Serif\r\n");
}

#[test]
fn cached_client_needs_no_refetch_and_reports_identically() {
    let client = latin_client();
    let cps = codepoints_of("A");
    assert!(client.blocks_needed(&cps).is_empty());
    let first = client.select(&cps);
    let second = client.select(&cps);
    assert_eq!(first.names, second.names);
    let ra = first.map_string();
    let rb = second.map_string();
    assert_eq!(ra.all, rb.all);
    assert_eq!(ra.conflicts, rb.conflicts);
    assert_eq!(ra.missing, rb.missing);
}

#[test]
fn two_cold_clients_resolve_identically() {
    let a = latin_client();
    let b = latin_client();
    let cps = codepoints_of("A");
    assert_eq!(a.select(&cps).names, b.select(&cps).names);
}

#[test]
fn repeated_ingest_is_a_no_op() {
    let mut client = latin_client();
    let other = data(vec![cp("65", Some(vec!["Serif"]))], None);
    client.ingest_block(0, &other).unwrap();
    let stack = client.select(&codepoints_of("A"));
    assert_eq!(stack.names, vec!["Noto Sans".to_string()]);
}

#[test]
fn ui_and_display_variants_are_filtered() {
    let mut client = NotoizeClient::from_blocks(vec![block(0, 0x600, 0x601, "Arabic")]).unwrap();
    let d = data(
        vec![cp("1536", Some(vec!["Sans Arabic UI", "Sans Arabic"]))],
        None,
    );
    client.ingest_block(0, &d).unwrap();
    let stack = client.select(&codepoints_of("\u{600}"));
    assert_eq!(stack.names, vec!["Noto Sans Arabic".to_string()]);
}

#[test]
fn conflicting_scripts_are_reported() {
    let mut client = NotoizeClient::from_blocks(vec![block(0, 0x41, 0x41, "One")]).unwrap();
    let d = data(vec![cp("65", Some(vec!["Sans", "Sans Armenian"]))], None);
    client.ingest_block(0, &d).unwrap();
    let stack = client.select(&codepoints_of("A"));
    let reports = stack.map_string();
    assert_eq!(reports.all, "0041\r\n    Sans\r\n    Sans Armenian\r\n");
    assert_eq!(reports.conflicts, "0041\r\n    Sans\r\n    Sans Armenian\r\n");
}

#[test]
fn ui_inside_a_name_is_not_filtered() {
    let mut client = NotoizeClient::from_blocks(vec![block(0, 0x600, 0x600, "One")]).unwrap();
    let d = data(vec![cp("1536", Some(vec!["Sans UI Arabic"]))], None);
    let e = client.ingest_block(0, &d).unwrap_err();
    assert!(matches!(e, NotoizeError::UnknownVariant(v) if v == "Sans UI Arabic"));
}

#[test]
fn unknown_variant_is_fatal() {
    let mut client = NotoizeClient::from_blocks(vec![block(0, 0x41, 0x41, "One")]).unwrap();
    let d = data(vec![cp("65", Some(vec!["Sans Frobnicate"]))], None);
    let e = client.ingest_block(0, &d).unwrap_err();
    assert!(matches!(e, NotoizeError::UnknownVariant(v) if v == "Sans Frobnicate"));
}

#[test]
fn malformed_codepoint_key_is_fatal() {
    let mut client = NotoizeClient::from_blocks(vec![block(0, 0x41, 0x41, "One")]).unwrap();
    let d = data(vec![cp("sixty-five", Some(vec!["Sans"]))], None);
    let e = client.ingest_block(0, &d).unwrap_err();
    assert!(matches!(e, NotoizeError::BadCodepointKey(k) if k == "sixty-five"));
}

#[test]
fn overlapping_block_list_is_rejected() {
    let e = NotoizeClient::from_blocks(vec![
        block(0, 0x41, 0x60, "One"),
        block(1, 0x50, 0x70, "Two"),
    ])
    .unwrap_err();
    assert!(matches!(e, NotoizeError::BadBlockList));
}

#[test]
fn blocks_needed_names_each_block_once() {
    let client = NotoizeClient::from_blocks(vec![
        block(0, 0x41, 0x5A, "Basic Latin"),
        block(1, 0x530, 0x537, "Armenian"),
    ])
    .unwrap();
    let needed = client.blocks_needed(&codepoints_of("AB\u{531}C"));
    assert_eq!(needed, vec![0, 1]);
}

#[test]
fn codepoints_are_sorted_and_deduplicated() {
    assert_eq!(codepoints_of("cbaab"), vec![97, 98, 99]);
    assert_eq!(codepoints_of("\u{1F600}A"), vec![0x41, 0x1F600]);
}
