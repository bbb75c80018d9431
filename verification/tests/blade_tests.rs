use rayzor_ir::blade::{error_message, OutsideFailure, blade_header, blade_magic, check_header, BladeError, BladeMetadata, BladeModule, BLADE_VERSION};
use rayzor_ir::module::IrModule;

fn metadata() -> BladeMetadata {
    BladeMetadata {
        name: "test_module".to_string(),
        source_path: "test.hx".to_string(),
        source_timestamp: 1234567890,
        compile_timestamp: 1234567900,
        dependencies: vec!["std".to_string()],
        compiler_version: "0.1.0".to_string(),
    }
}

#[test]
fn the_header_is_blad_version_one() {
    assert_eq!(&blade_magic(), b"BLAD");
    assert_eq!(BLADE_VERSION, 1);
    let (magic, version) = blade_header();
    assert_eq!(&magic, b"BLAD");
    assert_eq!(version, 1);
    assert!(check_header(&magic, version).is_ok());
}

#[test]
fn a_wrong_magic_is_refused_before_the_version() {
    assert!(matches!(check_header(b"BLAX", 1), Err(BladeError::InvalidMagic)));
    assert!(matches!(check_header(b"XLAD", 7), Err(BladeError::InvalidMagic)));
    assert!(matches!(check_header(&[0, 0, 0, 0], 1), Err(BladeError::InvalidMagic)));
}

#[test]
fn another_version_is_refused() {
    assert!(matches!(check_header(b"BLAD", 2), Err(BladeError::UnsupportedVersion(2))));
    assert!(matches!(check_header(b"BLAD", 0), Err(BladeError::UnsupportedVersion(0))));
}

#[test]
fn an_artifact_gives_back_its_module_and_metadata() {
    let module = IrModule::new("test_module".to_string(), "test.hx".to_string());
    let blade = BladeModule::new(metadata(), module);
    assert_eq!(&blade.magic, b"BLAD");
    assert_eq!(blade.version, BLADE_VERSION);
    let (mir, md) = blade.into_parts().unwrap();
    assert_eq!(mir.name, "test_module");
    assert_eq!(mir.source_file, "test.hx");
    assert_eq!(md.name, "test_module");
    assert_eq!(md.source_timestamp, 1234567890);
    assert_eq!(md.dependencies, vec!["std".to_string()]);
}

#[test]
fn a_decoded_artifact_with_a_bad_header_is_refused() {
    let mut blade = BladeModule::new(metadata(), IrModule::new("m".to_string(), "m.hx".to_string()));
    blade.version = 3;
    assert!(matches!(blade.into_parts(), Err(BladeError::UnsupportedVersion(3))));
    let mut blade = BladeModule::new(metadata(), IrModule::new("m".to_string(), "m.hx".to_string()));
    blade.magic = *b"blad";
    assert!(matches!(blade.into_parts(), Err(BladeError::InvalidMagic)));
}

/// The header, and two fields of the metadata, encoded with postcard and
/// decoded again; the decoded header is accepted. (The module itself cannot
/// be encoded here: its serde copy lives outside the library.)
#[test]
fn header_and_metadata_fields_survive_postcard() {
    let md = metadata();
    let (magic, version) = blade_header();
    let mut bytes: Vec<u8> = postcard::to_allocvec(&(magic, version)).unwrap();
    bytes.extend_from_slice(&postcard::to_allocvec(&(md.name.clone(), md.compile_timestamp)).unwrap());
    let ((decoded_magic, decoded_version), rest): (([u8; 4], u32), &[u8]) = postcard::take_from_bytes(&bytes).unwrap();
    let (name, stamp): (String, u64) = postcard::from_bytes(rest).unwrap();
    assert_eq!(&decoded_magic, b"BLAD");
    assert_eq!(decoded_version, BLADE_VERSION);
    assert_eq!(name, "test_module");
    assert_eq!(stamp, 1234567900);
    assert!(check_header(&decoded_magic, decoded_version).is_ok());
}

#[test]
fn error_messages() {
    assert_eq!(BladeError::InvalidMagic.message(), "Invalid BLADE magic number");
    assert_eq!(BladeError::UnsupportedVersion(42).message(), "Unsupported BLADE version: 42");
    assert_eq!(BladeError::UnsupportedVersion(0).message(), "Unsupported BLADE version: 0");
    let io = BladeError::Io(std::io::Error::new(std::io::ErrorKind::Other, "disk full"));
    assert_eq!(io.message(), "I/O error: disk full");
    let decode = postcard::from_bytes::<u32>(&[]).unwrap_err();
    let m = BladeError::Serialization(decode).message();
    assert!(m.starts_with("Serialization error: "));
    assert!(m.len() > "Serialization error: ".len());
}

#[test]
fn messages_of_outside_failures() {
    assert_eq!(error_message(OutsideFailure::Io, "no such file"), "I/O error: no such file");
    assert_eq!(error_message(OutsideFailure::Serialization, "bad"), "Serialization error: bad");
    assert_eq!(error_message(OutsideFailure::Io, ""), "I/O error: ");
}
