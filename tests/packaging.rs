use astrodon::archive::{Archive, ArchiveError, ModuleKind, ModuleRecord};
use astrodon::bytes::{u64_from_bytes, u64_to_bytes, BytesError};
use astrodon::layout::{extract_payload, package_binary, ExtractError, Payload};
use astrodon::loader::{plan_load, resolve_import, EmbeddedModuleLoader, LoadError, LoadPlan};
use astrodon::trailer::{encode_trailer, parse_trailer, Trailer, MAGIC_TRAILER};

fn record(specifier: &str, kind: ModuleKind, source: &str) -> ModuleRecord {
    ModuleRecord {
        specifier: specifier.to_string(),
        kind,
        source: source.as_bytes().to_vec(),
    }
}

#[test]
fn reads_big_endian_u64() {
    assert_eq!(u64_from_bytes(&[0, 0, 0, 0, 0, 0, 1, 2]), Ok(258));
    assert_eq!(u64_from_bytes(&[0xff; 8]), Ok(u64::MAX));
    assert_eq!(u64_from_bytes(&[1, 2, 3]), Err(BytesError::WrongLength));
    assert_eq!(u64_from_bytes(&[]), Err(BytesError::WrongLength));
}

#[test]
fn writes_big_endian_u64() {
    assert_eq!(u64_to_bytes(0x0102030405060708), vec![1, 2, 3, 4, 5, 6, 7, 8]);
}

#[test]
fn magic_spells_marker() {
    assert_eq!(&MAGIC_TRAILER, b"4str0d0n");
}

#[test]
fn trailer_layout_with_metadata() {
    let t = encode_trailer(&Trailer { archive_offset: 10, metadata_offset: Some(300) });
    assert_eq!(t.len(), 24);
    assert_eq!(&t[0..8], b"4str0d0n");
    assert_eq!(&t[8..16], &[0, 0, 0, 0, 0, 0, 0, 10]);
    assert_eq!(&t[16..24], &[0, 0, 0, 0, 0, 0, 1, 44]);
    assert_eq!(
        parse_trailer(&t, true),
        Some(Trailer { archive_offset: 10, metadata_offset: Some(300) })
    );
}

#[test]
fn trailer_layout_plain() {
    let t = encode_trailer(&Trailer { archive_offset: 7, metadata_offset: None });
    assert_eq!(t.len(), 16);
    assert_eq!(parse_trailer(&t, false), Some(Trailer { archive_offset: 7, metadata_offset: None }));
}

#[test]
fn trailer_without_marker_is_none() {
    let mut t = encode_trailer(&Trailer { archive_offset: 7, metadata_offset: Some(9) });
    t[0] = b'x';
    assert_eq!(parse_trailer(&t, true), None);
}

#[test]
fn package_then_extract_round_trip() {
    let base = b"BASE-BINARY".to_vec();
    let archive = b"serialised module graph".to_vec();
    let metadata = br#"{"entrypoint":"file:///app.js","author":"a","name":"n"}"#.to_vec();
    let packed = package_binary(&base, &archive, Some(&metadata)).unwrap();
    assert_eq!(packed.len(), base.len() + archive.len() + metadata.len() + 24);
    assert_eq!(&packed[..base.len()], &base[..]);
    let got = extract_payload(&packed, true).unwrap().unwrap();
    assert_eq!(got, Payload { archive, metadata: Some(metadata) });
}

#[test]
fn package_then_extract_plain_round_trip() {
    let base = vec![0u8; 5];
    let archive = vec![9u8, 8, 7];
    let packed = package_binary(&base, &archive, None).unwrap();
    assert_eq!(packed.len(), 5 + 3 + 16);
    assert_eq!(&packed[8..16], b"4str0d0n");
    let got = extract_payload(&packed, false).unwrap().unwrap();
    assert_eq!(got, Payload { archive, metadata: None });
}

#[test]
fn plain_binary_has_no_payload() {
    let file = vec![7u8; 100];
    assert_eq!(extract_payload(&file, true), Ok(None));
    assert_eq!(extract_payload(&file, false), Ok(None));
}

#[test]
fn short_file_is_truncated() {
    assert_eq!(extract_payload(&[1, 2, 3], true), Err(ExtractError::Truncated));
    assert_eq!(extract_payload(&[0u8; 23], true), Err(ExtractError::Truncated));
}

#[test]
fn offsets_past_trailer_are_rejected() {
    let mut file = vec![0u8; 4];
    file.extend_from_slice(&encode_trailer(&Trailer { archive_offset: 2, metadata_offset: Some(50) }));
    assert_eq!(extract_payload(&file, true), Err(ExtractError::BadOffsets));
    let mut file = vec![0u8; 4];
    file.extend_from_slice(&encode_trailer(&Trailer { archive_offset: 3, metadata_offset: Some(1) }));
    assert_eq!(extract_payload(&file, true), Err(ExtractError::BadOffsets));
}

#[test]
fn archive_of_entry_and_import_holds_two_modules() {
    let mut archive = Archive::new();
    assert_eq!(archive.insert(record("file:///p/app.js", ModuleKind::JavaScript, "import './util.js';")), Ok(()));
    assert_eq!(archive.insert(record("file:///p/util.js", ModuleKind::JavaScript, "export const x = 1;")), Ok(()));
    assert_eq!(archive.len(), 2);
    let mut names = archive.specifiers();
    names.sort();
    assert_eq!(names, vec!["file:///p/app.js".to_string(), "file:///p/util.js".to_string()]);
}

#[test]
fn archive_refuses_duplicate_specifier() {
    let mut archive = Archive::new();
    assert_eq!(archive.insert(record("file:///a.js", ModuleKind::JavaScript, "1")), Ok(()));
    assert_eq!(
        archive.insert(record("file:///a.js", ModuleKind::Json, "2")),
        Err(ArchiveError::DuplicateSpecifier)
    );
    assert_eq!(archive.len(), 1);
    let m = archive.get_module(&"file:///a.js".to_string()).unwrap();
    assert_eq!(m.source, b"1".to_vec());
}

#[test]
fn loader_serves_source_and_kind() {
    let mut archive = Archive::new();
    archive.insert(record("file:///p/app.js", ModuleKind::JavaScript, "console.log(1);")).unwrap();
    archive.insert(record("file:///p/data.json", ModuleKind::Json, "{\"a\":1}")).unwrap();
    let loader = EmbeddedModuleLoader { archive };
    let m = loader.load(&"file:///p/data.json".to_string(), false).unwrap();
    assert_eq!(m.code, "{\"a\":1}");
    assert_eq!(m.module_type, ModuleKind::Json);
    assert_eq!(m.module_url_specified, "file:///p/data.json");
    assert_eq!(m.module_url_found, "file:///p/data.json");
    let m = loader.load(&"file:///p/app.js".to_string(), false).unwrap();
    assert_eq!(m.code, "console.log(1);");
    assert_eq!(m.module_type, ModuleKind::JavaScript);
}

#[test]
fn loader_errors() {
    let mut archive = Archive::new();
    archive
        .insert(ModuleRecord {
            specifier: "file:///bad.js".to_string(),
            kind: ModuleKind::JavaScript,
            source: vec![0xff, 0xfe],
        })
        .unwrap();
    let loader = EmbeddedModuleLoader { archive };
    assert_eq!(loader.load(&"file:///missing.js".to_string(), false).err(), Some(LoadError::ModuleNotFound));
    assert_eq!(loader.load(&"file:///bad.js".to_string(), false).err(), Some(LoadError::NotUtf8));
    assert_eq!(loader.load(&"file:///bad.js".to_string(), true).err(), Some(LoadError::DynamicImport));
}

#[test]
fn resolves_relative_specifiers() {
    assert_eq!(resolve_import("./util.js", "file:///p/app.js"), Ok("file:///p/util.js".to_string()));
    assert_eq!(resolve_import("../lib/x.js", "file:///p/src/app.js"), Ok("file:///p/lib/x.js".to_string()));
    assert_eq!(resolve_import("https://x/y.js", "file:///p/app.js"), Ok("https://x/y.js".to_string()));
    assert_eq!(resolve_import("./a.js", "not a url"), Err(LoadError::InvalidSpecifier));
    assert_eq!(resolve_import("/abs/z.js", "file:///p/app.js"), Ok("file:///abs/z.js".to_string()));
    assert_eq!(resolve_import("https://x/y.js", "not a url"), Ok("https://x/y.js".to_string()));
    let loader = EmbeddedModuleLoader { archive: Archive::new() };
    assert_eq!(loader.resolve("./b.js", "file:///q/a.js"), Ok("file:///q/b.js".to_string()));
}

#[test]
fn load_plans_by_scheme() {
    assert_eq!(plan_load("file:///p/app.js", false), Ok(LoadPlan::File));
    assert_eq!(plan_load("data:text/javascript,1", false), Ok(LoadPlan::DataUrl));
    assert_eq!(plan_load("https://x/y.js", false), Ok(LoadPlan::Unsupported("https".to_string())));
    assert_eq!(plan_load("https://x/y.js", true), Ok(LoadPlan::Skip));
    assert_eq!(plan_load("nonsense", false), Err(LoadError::InvalidSpecifier));
}

#[test]
fn bare_specifier_is_refused() {
    assert_eq!(resolve_import("util.js", "file:///p/app.js"), Err(LoadError::InvalidSpecifier));
    assert_eq!(resolve_import(".hidden.js", "file:///p/app.js"), Err(LoadError::InvalidSpecifier));
    let loader = EmbeddedModuleLoader { archive: Archive::new() };
    assert_eq!(loader.resolve("lodash", "file:///p/app.js"), Err(LoadError::InvalidSpecifier));
}
