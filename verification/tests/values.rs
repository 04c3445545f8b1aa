use pen::ninja_module_builder::{FilePathConverter, NinjaModuleBuilder};
use pen::position::Position;
use pen::reused_record::{Record, ReusedRecord};
use pen::string::ByteString;
use std::sync::Arc;

fn position() -> Position {
    Position {
        path: "foo.pen".to_string(),
        line_number: 2,
        column_number: 3,
        line: "x = \"foo\"".to_string(),
    }
}

#[test]
fn byte_string_keeps_value_and_position() {
    let string = ByteString::new(b"foo".to_vec(), position());
    assert_eq!(string.value(), b"foo");
    assert_eq!(string.position(), &position());
}

#[test]
fn empty_byte_string() {
    let string = ByteString::new(vec![], position());
    assert_eq!(string.value(), &[] as &[u8]);
}

#[test]
fn reused_record_keeps_id_and_record() {
    let record = Record { name: "foo".to_string() };
    let reused = ReusedRecord::new("bar".to_string(), record.clone());
    assert_eq!(reused.reuse_id(), "bar");
    assert_eq!(reused.record(), &record);
}

#[test]
fn ninja_module_builder_keeps_converter() {
    let converter = FilePathConverter { base_directory: "/tmp/pen".to_string() };
    let builder = NinjaModuleBuilder::new(Arc::new(converter.clone()));
    assert_eq!(builder.file_path_converter(), &converter);
}

#[test]
fn ninja_command_runs_build_script() {
    let converter = FilePathConverter { base_directory: "/tmp/pen".to_string() };
    let builder = NinjaModuleBuilder::new(Arc::new(converter));
    assert_eq!(
        builder.build_command("/tmp/pen/build.ninja"),
        vec!["ninja".to_string(), "-f".to_string(), "/tmp/pen/build.ninja".to_string()]
    );
}
