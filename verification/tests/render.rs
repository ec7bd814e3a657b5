use std::sync::Arc;

use brdb::schema::{BrdbSchema, BrdbSchemaGlobalData};
use brdb_inspect::render::{
    classify, has_suffix, kind_of_suffix, read_file, render_raw, render_schema, render_text,
    Fetched, FileKind, ReadStep, RenderError, RenderedOutput,
};

const SCHEMA_TEXT: &str = "enum Foo {
    A = 0,
    B = 1,
}
struct Bar {
    value: i32,
    arr: str[],
    flat_arr: str[flat],
    map: {str: i32},
}
";

fn schema_bytes() -> Vec<u8> {
    BrdbSchema::new_parsed(SCHEMA_TEXT).unwrap().to_bytes().unwrap()
}

fn global_data() -> Arc<BrdbSchemaGlobalData> {
    Arc::new(BrdbSchemaGlobalData::default())
}

fn text_output(text: &str) -> RenderedOutput {
    RenderedOutput { raw: Vec::new(), text: text.to_string() }
}

#[test]
fn scenario_render_json() {
    let file = Fetched::Got(b"{\"x\":1}".to_vec());
    let step = read_file("a/b.json", &file, &Fetched::NotYet);
    assert_eq!(step, ReadStep::Done(Ok(text_output("{\"x\":1}"))));
}

#[test]
fn scenario_unsupported_suffix() {
    let step = read_file("a/b.xyz", &Fetched::NotYet, &Fetched::NotYet);
    assert_eq!(step, ReadStep::Done(Err(RenderError::UnsupportedFileType("xyz".to_string()))));
}

#[test]
fn unsupported_suffix_ends_before_any_request() {
    let file = Fetched::Got(b"bytes".to_vec());
    let data = Fetched::Got(global_data());
    for path in ["a.txt", "a.", "a.JSON", "a.json ", "a.schema.bak", "a.b/c"] {
        let suffix = path.rsplit('.').next().unwrap().to_string();
        let expected = ReadStep::Done(Err(RenderError::UnsupportedFileType(suffix)));
        assert_eq!(read_file(path, &Fetched::NotYet, &Fetched::NotYet), expected);
        assert_eq!(read_file(path, &Fetched::Failed, &Fetched::Failed), expected);
        assert_eq!(read_file(path, &file, &data), expected);
    }
}

#[test]
fn file_is_fetched_first() {
    for path in ["a.json", "a.mps", "a.schema", "dir.d/x.tar.json"] {
        assert_eq!(read_file(path, &Fetched::NotYet, &Fetched::NotYet), ReadStep::FetchFile);
        assert_eq!(read_file(path, &Fetched::NotYet, &Fetched::Failed), ReadStep::FetchFile);
    }
}

#[test]
fn missing_file_fails_the_read() {
    for path in ["a.json", "a.mps", "a.schema"] {
        assert_eq!(
            read_file(path, &Fetched::Failed, &Fetched::NotYet),
            ReadStep::Done(Err(RenderError::StorageReadFailed))
        );
        assert_eq!(
            read_file(path, &Fetched::Failed, &Fetched::Got(global_data())),
            ReadStep::Done(Err(RenderError::StorageReadFailed))
        );
    }
}

#[test]
fn json_is_passed_through_without_validation() {
    let file = Fetched::Got(b"not json at all \xc3\xa9".to_vec());
    assert_eq!(
        read_file("x.json", &file, &Fetched::NotYet),
        ReadStep::Done(Ok(text_output("not json at all é")))
    );
    assert_eq!(
        read_file("x.json", &Fetched::Got(Vec::new()), &Fetched::NotYet),
        ReadStep::Done(Ok(text_output("")))
    );
}

#[test]
fn json_must_be_utf8() {
    let file = Fetched::Got(vec![b'{', 0xff, b'}']);
    assert_eq!(
        read_file("x.json", &file, &Fetched::NotYet),
        ReadStep::Done(Err(RenderError::InvalidEncoding))
    );
    let overlong = Fetched::Got(vec![0xc0, 0x80]);
    assert_eq!(
        read_file("x.json", &overlong, &Fetched::NotYet),
        ReadStep::Done(Err(RenderError::InvalidEncoding))
    );
    let truncated = Fetched::Got(vec![0xe6, 0x95]);
    assert_eq!(
        read_file("x.json", &truncated, &Fetched::NotYet),
        ReadStep::Done(Err(RenderError::InvalidEncoding))
    );
}

#[test]
fn mps_goes_out_raw_with_empty_text() {
    let bytes = vec![0x00, 0xff, 0x93, 0x01, 0x02, 0x03];
    let step = read_file("World/0/Owners.mps", &Fetched::Got(bytes.clone()), &Fetched::NotYet);
    assert_eq!(step, ReadStep::Done(Ok(RenderedOutput { raw: bytes, text: String::new() })));
}

#[test]
fn schema_needs_global_data_after_the_file() {
    let file = Fetched::Got(schema_bytes());
    assert_eq!(read_file("x.schema", &file, &Fetched::NotYet), ReadStep::FetchGlobalData);
    assert_eq!(
        read_file("x.schema", &file, &Fetched::Failed),
        ReadStep::Done(Err(RenderError::GlobalDataUnavailable))
    );
}

#[test]
fn schema_is_rendered_in_text_form() {
    let file = Fetched::Got(schema_bytes());
    let step = read_file("x.schema", &file, &Fetched::Got(global_data()));
    assert_eq!(step, ReadStep::Done(Ok(text_output(SCHEMA_TEXT))));
}

#[test]
fn malformed_schema_fails_to_decode() {
    let data = Fetched::Got(global_data());
    for bytes in [Vec::new(), vec![0x01], b"{\"x\":1}".to_vec(), vec![0x92, 0x81]] {
        assert_eq!(
            read_file("x.schema", &Fetched::Got(bytes), &data),
            ReadStep::Done(Err(RenderError::SchemaDecodeFailed))
        );
    }
}

#[test]
fn other_kinds_never_ask_for_global_data() {
    let file = Fetched::Got(b"x".to_vec());
    for data in [Fetched::NotYet, Fetched::Failed, Fetched::Got(global_data())] {
        assert_eq!(read_file("a.json", &file, &data), ReadStep::Done(Ok(text_output("x"))));
        assert_eq!(
            read_file("a.mps", &file, &data),
            ReadStep::Done(Ok(RenderedOutput { raw: b"x".to_vec(), text: String::new() }))
        );
    }
}

#[test]
fn render_text_decodes_utf8() {
    assert_eq!(render_text("数据 é".as_bytes()), Ok(text_output("数据 é")));
    assert_eq!(render_text(&[0x80]), Err(RenderError::InvalidEncoding));
}

#[test]
fn render_raw_copies_the_bytes() {
    assert_eq!(
        render_raw(&[1, 2, 3]),
        RenderedOutput { raw: vec![1, 2, 3], text: String::new() }
    );
    assert_eq!(render_raw(&[]), RenderedOutput { raw: Vec::new(), text: String::new() });
}

#[test]
fn render_schema_decodes_with_brdb() {
    assert_eq!(render_schema(&schema_bytes(), &global_data()), Ok(text_output(SCHEMA_TEXT)));
    assert_eq!(
        render_schema(b"plain text", &global_data()),
        Err(RenderError::SchemaDecodeFailed)
    );
}

#[test]
fn classify_by_last_suffix() {
    assert_eq!(classify("a.schema"), Ok(FileKind::Schema));
    assert_eq!(classify("a.json"), Ok(FileKind::Json));
    assert_eq!(classify("a.mps"), Ok(FileKind::Mps));
    assert_eq!(classify("a.mps.json"), Ok(FileKind::Json));
    assert_eq!(classify("dir.json/a.mps"), Ok(FileKind::Mps));
    assert_eq!(classify("a.xyz"), Err(RenderError::UnsupportedFileType("xyz".to_string())));
    assert_eq!(classify("a."), Err(RenderError::UnsupportedFileType(String::new())));
    assert_eq!(
        classify("a.json/b"),
        Err(RenderError::UnsupportedFileType("json/b".to_string()))
    );
}

#[test]
fn kind_of_suffix_knows_three_types() {
    assert_eq!(kind_of_suffix("schema"), Some(FileKind::Schema));
    assert_eq!(kind_of_suffix("json"), Some(FileKind::Json));
    assert_eq!(kind_of_suffix("mps"), Some(FileKind::Mps));
    assert_eq!(kind_of_suffix(""), None);
    assert_eq!(kind_of_suffix("Json"), None);
    assert_eq!(kind_of_suffix("xyz"), None);
}

#[test]
fn has_suffix_asks_for_a_dot() {
    assert!(has_suffix("a.json"));
    assert!(has_suffix("."));
    assert!(has_suffix("a.b/c"));
    assert!(!has_suffix("a"));
    assert!(!has_suffix(""));
    assert!(!has_suffix("a/b"));
}

#[test]
fn render_error_messages() {
    assert_eq!(RenderError::StorageReadFailed.message(), "couldnt read file");
    assert_eq!(RenderError::GlobalDataUnavailable.message(), "couldnt get global data");
    assert_eq!(RenderError::SchemaDecodeFailed.message(), "couldnt read schema");
    assert_eq!(RenderError::InvalidEncoding.message(), "couldnt convert file bytes to str");
    assert_eq!(
        RenderError::UnsupportedFileType("xyz".to_string()).message(),
        "Invalid file type"
    );
}
