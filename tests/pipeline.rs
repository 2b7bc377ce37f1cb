use pyscan::columns::{output_batch, to_struct_array, ToStructArray};
use pyscan::hash::ContentHash;
use pyscan::line_endings::normalize;
use pyscan::output::{shard_paths, OutputDriver, OutputMode, Payload, PushAction};
use pyscan::scheduler::{chunk_count, chunk_ranges, parse_oid, process_chunk};
use pyscan::source::{parse_data, prepare_source};
use pyscan::stats::Stats;
use pyscan::tree::{Expression, Module, SmallStatement, Statement};

fn fstring_module() -> Module {
    Module { body: vec![Statement::Simple(vec![SmallStatement::Assign(Expression::FormattedString(vec![Expression::Other]))])] }
}

#[test]
fn normalize_turns_crlf_and_cr_into_lf() {
    assert_eq!(normalize(b"a\r\nb\rc\n"), b"a\nb\nc\n".to_vec());
    assert_eq!(normalize(b"\r\r\n\r"), b"\n\n\n".to_vec());
    assert_eq!(normalize(b""), Vec::<u8>::new());
    assert_eq!(normalize(b"plain"), b"plain".to_vec());
}

#[test]
fn prepare_source_decodes_normalized_text() {
    assert_eq!(prepare_source(b"x = 1\r\ny = 2\r"), Some("x = 1\ny = 2\n".to_string()));
    assert_eq!(prepare_source("é = 1".as_bytes()), Some("é = 1".to_string()));
    assert_eq!(prepare_source(b""), Some(String::new()));
}

#[test]
fn prepare_source_rejects_invalid_utf8() {
    assert_eq!(prepare_source(&[0x66, 0xff, 0xfe]), None);
}

#[test]
fn prepare_source_skips_gams_dumps() {
    assert_eq!(prepare_source(b"#  MINLP written by GAMS Convert\nx = 1\n"), None);
    assert_eq!(
        prepare_source(b"# MINLP written by GAMS\n"),
        Some("# MINLP written by GAMS\n".to_string())
    );
}

#[test]
fn parse_data_walks_what_the_parser_returns() {
    let r = parse_data(b"x = f\"{a}\"\r\n", |text: &str| {
        assert_eq!(text, "x = f\"{a}\"\n");
        Some(fstring_module())
    });
    let mut expected = Stats::new();
    expected.has_fstring = true;
    assert_eq!(r, Some(expected));
    assert_eq!(parse_data(b"def (", |_: &str| None), None);
}

#[test]
fn null_row_equivalence_of_undecodable_and_empty() {
    let undecodable = parse_data(&[0xc3, 0x28], |_: &str| Some(fstring_module()));
    assert_eq!(undecodable, None);
    let empty = parse_data(b"", |_: &str| Some(Module { body: vec![] }));
    assert_eq!(empty, Some(Stats::new()));
    let batch = to_struct_array(vec![undecodable, empty]);
    assert_eq!(batch.len, 2);
    assert_eq!(batch.columns.len(), 14);
    for column in &batch.columns {
        assert_eq!(column, &vec![false, false]);
    }
}

#[test]
fn struct_array_holds_rows_in_columns() {
    let mut s = Stats::new();
    s.has_walrus = true;
    let batch = vec![Some(s), None, Some(Stats::new())].to_struct_array();
    assert_eq!(batch.len, 3);
    assert_eq!(batch.columns[7], vec![true, false, false]);
    assert_eq!(batch.columns[0], vec![false, false, false]);
    let fields = Stats::arrow_fields();
    assert_eq!(fields.len(), 14);
    assert_eq!(fields[0].name, "has_async");
    assert_eq!(fields[7].name, "has_walrus");
    assert_eq!(fields[13].name, "has_set_comp");
    assert!(fields.iter().all(|f| !f.nullable));
    let builders = Stats::field_builders(8);
    assert_eq!(builders.len(), 14);
    assert!(builders.iter().all(|b| b.is_empty()));
}

fn hash_of(first: u8) -> Vec<u8> {
    (0..20u8).map(|i| i.wrapping_add(first)).collect()
}

#[test]
fn content_hash_needs_twenty_bytes() {
    assert!(ContentHash::from_bytes(&[0u8; 19]).is_none());
    assert!(ContentHash::from_bytes(&[0u8; 21]).is_none());
    let h = ContentHash::from_bytes(&hash_of(0)).unwrap();
    assert_eq!(h.as_bytes(), &hash_of(0)[..]);
}

#[test]
fn content_hash_hex_is_lowercase_two_digits_per_byte() {
    let h = ContentHash::from_bytes(&hash_of(0)).unwrap();
    assert_eq!(h.to_hex(), "000102030405060708090a0b0c0d0e0f10111213");
    let h = ContentHash::from_bytes(&[0xabu8; 20]).unwrap();
    assert_eq!(h.to_hex(), "ab".repeat(20));
}

#[test]
fn shard_paths_use_two_prefix_levels() {
    let (dir, file) = shard_paths(&"/out".to_string(), &"abcdef0123".to_string());
    assert_eq!(dir, "/out/abc/de");
    assert_eq!(file, "/out/abc/de/abcdef0123");
}

fn payload(oid: &str) -> Payload {
    Payload { oid: oid.to_string(), path: "pkg/a.py".to_string(), contents: "x = 1\n".to_string() }
}

#[test]
fn json_output_buffers_lines() {
    let mut out = OutputDriver::new(OutputMode::Json);
    assert_eq!(out.matches, 0);
    let action = out.push(&payload("abcdef"), b"{\"a\":1}");
    assert!(matches!(action, PushAction::Buffered));
    let action = out.push(&payload("abcdef"), b"{}");
    assert!(matches!(action, PushAction::Buffered));
    assert_eq!(out.matches, 2);
    assert_eq!(out.flush(), b"{\"a\":1}\n{}\n".to_vec());
    assert_eq!(out.flush(), Vec::<u8>::new());
}

#[test]
fn json_output_asks_for_a_flush_when_full() {
    let mut out = OutputDriver::new(OutputMode::Json);
    let big = vec![b'x'; pyscan::output::BUFFER_SIZE];
    assert!(matches!(out.push(&payload("abcdef"), &big), PushAction::Flush));
    assert_eq!(out.flush().len(), pyscan::output::BUFFER_SIZE + 1);
}

#[test]
fn directory_output_names_the_sharded_file() {
    let mut out = OutputDriver::new(OutputMode::Directory("root".to_string()));
    match out.push(&payload("0123456789"), b"") {
        PushAction::Write { dir, file, record } => {
            assert_eq!(dir, "root/012/34");
            assert_eq!(file, "root/012/34/0123456789");
            assert_eq!(record, "0123456789\tpkg/a.py\n");
        }
        _ => panic!("expected a file to write"),
    }
    assert_eq!(out.matches, 1);
    assert!(out.flush().is_empty());
}

#[test]
fn chunk_count_rounds_up() {
    assert_eq!(chunk_count(10, 4), 3);
    assert_eq!(chunk_count(8, 4), 2);
    assert_eq!(chunk_count(0, 4), 0);
    assert_eq!(chunk_count(1, 8192), 1);
}

#[test]
fn chunk_ranges_cover_the_input() {
    assert_eq!(chunk_ranges(10, 4), vec![(0, 4), (4, 8), (8, 10)]);
    assert_eq!(chunk_ranges(8, 4), vec![(0, 4), (4, 8)]);
    assert_eq!(chunk_ranges(0, 4), vec![]);
}

#[test]
fn process_chunk_gives_null_rows_for_failures() {
    let good = hash_of(0);
    let missing = hash_of(100);
    let bad_utf8 = hash_of(200);
    let read = |h: &ContentHash| -> Option<Vec<u8>> {
        if h.as_bytes() == &good[..] {
            Some(b"x = f\"{a}\"\n".to_vec())
        } else if h.as_bytes() == &bad_utf8[..] {
            Some(vec![0xff])
        } else {
            None
        }
    };
    let parse = |_: &str| Some(fstring_module());
    let rows = process_chunk(
        &vec![Some(good.clone()), None, Some(vec![1, 2, 3]), Some(missing), Some(bad_utf8.clone())],
        &read,
        &parse,
    );
    let mut expected = Stats::new();
    expected.has_fstring = true;
    assert_eq!(rows, vec![Some(expected), None, None, None, None]);
    let h = ContentHash::from_bytes(&good).unwrap();
    assert_eq!(parse_oid(&h, &read, &parse), Some(expected));
}

#[test]
fn output_batch_writes_hashes_in_hex_beside_the_rows() {
    let mut s = Stats::new();
    s.has_match = true;
    let batch = output_batch(&vec![Some(hash_of(0)), None, Some(vec![1, 2])], vec![Some(s), None, None]);
    assert_eq!(
        batch.hash,
        vec![Some("000102030405060708090a0b0c0d0e0f10111213".to_string()), None, None]
    );
    assert_eq!(batch.flags.len, 3);
    assert_eq!(batch.flags.columns[6], vec![true, false, false]);
}

#[test]
fn payload_normalizes_and_decodes_contents() {
    let h = ContentHash::from_bytes(&hash_of(0)).unwrap();
    let p = pyscan::output::make_payload(&h, "a/b.py".to_string(), b"x = 1\r\ny\xff\r");
    assert_eq!(p.oid, "000102030405060708090a0b0c0d0e0f10111213");
    assert_eq!(p.path, "a/b.py");
    assert_eq!(p.contents, "x = 1\ny\u{fffd}\n");
}

#[test]
fn payload_selection_follows_the_contents_pattern() {
    let h = ContentHash::from_bytes(&hash_of(0)).unwrap();
    let pattern = pyscan::search::ContentPattern::new("import dataclasses").unwrap();
    let hit = pyscan::output::select_payload(&h, "m.py".to_string(), b"import dataclasses\n", Some(&pattern));
    assert_eq!(hit.map(|p| p.contents), Some("import dataclasses\n".to_string()));
    let miss = pyscan::output::select_payload(&h, "m.py".to_string(), b"import os\n", Some(&pattern));
    assert!(miss.is_none());
    let all = pyscan::output::select_payload(&h, "m.py".to_string(), b"import os\n", None);
    assert!(all.is_some());
    assert!(pyscan::search::contents_match(None, b""));
    assert!(!pyscan::search::contents_match(Some(&pattern), b"import dataclass"));
}

#[test]
fn grep_chunk_flags_matching_objects() {
    let good = hash_of(0);
    let other = hash_of(50);
    let read = |h: &ContentHash| -> Option<Vec<u8>> {
        if h.as_bytes() == &good[..] {
            Some(b"async def f(): pass\n".to_vec())
        } else if h.as_bytes() == &other[..] {
            Some(b"def f(): pass\n".to_vec())
        } else {
            None
        }
    };
    let pattern = pyscan::search::ContentPattern::new(r"\basync\b").unwrap();
    let found = pyscan::scheduler::grep_chunk(
        &vec![Some(good.clone()), Some(other.clone()), None, Some(vec![0; 3]), Some(hash_of(99))],
        &read,
        &pattern,
    );
    assert_eq!(found, vec![true, false, false, false, false]);
}

#[test]
fn invalid_content_pattern_is_refused() {
    assert!(pyscan::search::ContentPattern::new("(unclosed").is_none());
    assert!(pyscan::search::GlobPattern::new("[").is_none());
}

#[test]
fn empty_input_is_the_empty_text() {
    assert_eq!(prepare_source(b""), Some(String::new()));
    let seen = parse_data(b"", |text: &str| {
        assert_eq!(text, "");
        Some(Module { body: vec![] })
    });
    assert_eq!(seen, Some(Stats::new()));
}
