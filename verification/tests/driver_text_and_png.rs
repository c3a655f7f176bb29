use hell_workers_jobs::acceptance::{acceptance_config, AcceptanceConfigError, AcceptanceEnvFacts, DriverOutput};
use hell_workers_jobs::png::{
    png_crc32, png_evidence, validate_png_structure, PngEvidence, PngEvidenceError,
    PngStructureError,
};
use hell_workers_jobs::text::{json_escape, validate_run_id};

fn png_chunk(chunk_type: &[u8; 4], data: &[u8]) -> Vec<u8> {
    let mut chunk = Vec::new();
    chunk.extend_from_slice(&(data.len() as u32).to_be_bytes());
    chunk.extend_from_slice(chunk_type);
    chunk.extend_from_slice(data);
    let crc_start = 4;
    chunk.extend_from_slice(&png_crc32(&chunk[crc_start..]).to_be_bytes());
    chunk
}

fn structural_png(width: u32, height: u32) -> Vec<u8> {
    let mut bytes = b"\x89PNG\r\n\x1a\n".to_vec();
    let mut ihdr = Vec::new();
    ihdr.extend_from_slice(&width.to_be_bytes());
    ihdr.extend_from_slice(&height.to_be_bytes());
    ihdr.extend_from_slice(&[8, 6, 0, 0, 0]);
    bytes.extend(png_chunk(b"IHDR", &ihdr));
    bytes.extend(png_chunk(
        b"IDAT",
        &[0x78, 0x9c, 0x03, 0x00, 0x00, 0x00, 0x00, 0x01],
    ));
    bytes.extend(png_chunk(b"IEND", &[]));
    bytes
}

#[test]
fn run_id_validation_rejects_paths_and_accepts_fresh_tokens() {
    assert!(validate_run_id("c1-native-20260805_ab12").is_ok());
    assert!(validate_run_id("../stale").is_err());
    assert!(validate_run_id("").is_err());
}

#[test]
fn json_escape_keeps_driver_results_well_formed() {
    assert_eq!(json_escape("x\n\"y\\z"), "x\\n\\\"y\\\\z");
}

#[test]
fn png_validation_requires_complete_crc_checked_structure() {
    let valid = structural_png(1280, 720);
    assert_eq!(validate_png_structure(&valid), Ok((1280, 720)));

    let mut truncated = valid.clone();
    truncated.truncate(24);
    assert!(validate_png_structure(&truncated).is_err());

    let mut corrupt = valid;
    let last = corrupt.len() - 1;
    corrupt[last] ^= 0x01;
    assert!(validate_png_structure(&corrupt).is_err());
}

#[test]
fn crc32_of_the_standard_check_string() {
    assert_eq!(png_crc32(b"123456789"), 0xCBF4_3926);
    assert_eq!(png_crc32(b""), 0);
    assert_eq!(png_crc32(b"IEND"), 0xAE42_6082);
}

#[test]
fn png_structure_errors_are_typed() {
    assert_eq!(validate_png_structure(b"not a png"), Err(PngStructureError::NotPng));
    let valid = structural_png(4, 4);
    let mut corrupt = valid.clone();
    let last = corrupt.len() - 1;
    corrupt[last] ^= 0x01;
    assert_eq!(validate_png_structure(&corrupt), Err(PngStructureError::CorruptChunkCrc));
    let signature_only = valid[..8].to_vec();
    assert_eq!(
        validate_png_structure(&signature_only),
        Err(PngStructureError::MissingTerminalIend)
    );
    let mut truncated = valid.clone();
    truncated.truncate(12);
    assert_eq!(
        validate_png_structure(&truncated),
        Err(PngStructureError::TruncatedChunkHeader)
    );
    assert_eq!(
        validate_png_structure(&structural_png(0, 4)),
        Err(PngStructureError::ZeroDimensions)
    );
}

#[test]
fn screenshot_evidence_requires_the_minimum_size() {
    let big = structural_png(1280, 720);
    assert_eq!(
        png_evidence(&big),
        Ok(PngEvidence { width: 1280, height: 720, bytes: big.len() as u64 })
    );
    assert_eq!(
        png_evidence(&structural_png(639, 720)),
        Err(PngEvidenceError::TooSmall { width: 639, height: 720 })
    );
    assert_eq!(
        png_evidence(&structural_png(640, 359)),
        Err(PngEvidenceError::TooSmall { width: 640, height: 359 })
    );
    assert_eq!(
        png_evidence(b"junk"),
        Err(PngEvidenceError::Structure(PngStructureError::NotPng))
    );
}

#[test]
fn run_ids_with_separators_or_oversized_are_rejected() {
    assert!(validate_run_id("a/b").is_err());
    assert!(validate_run_id("a\\b").is_err());
    assert!(validate_run_id(&"a".repeat(65)).is_err());
    assert!(validate_run_id(&"a".repeat(64)).is_ok());
}

#[test]
fn json_escape_leaves_plain_text_unchanged() {
    assert_eq!(json_escape("plain text 123"), "plain text 123");
    assert_eq!(json_escape("\t\r"), "\\t\\r");
}

fn ready_env() -> AcceptanceEnvFacts {
    AcceptanceEnvFacts {
        artifact_set: true,
        artifact_empty: false,
        artifact_absolute: true,
        artifact_is_dir: true,
        headless_backend: false,
        run_id: Some("run-2024_01".to_string()),
        result_exists: false,
        screenshot_exists: false,
        save_exists: false,
    }
}

#[test]
fn acceptance_run_is_off_without_the_artifact_variable() {
    let env = AcceptanceEnvFacts { artifact_set: false, run_id: None, ..ready_env() };
    assert_eq!(acceptance_config(env), Ok(None));
}

#[test]
fn acceptance_run_starts_with_a_fresh_directory_and_run_id() {
    assert_eq!(acceptance_config(ready_env()), Ok(Some("run-2024_01".to_string())));
}

#[test]
fn acceptance_run_refusals_come_in_check_order() {
    let empty = AcceptanceEnvFacts { artifact_empty: true, artifact_absolute: false, ..ready_env() };
    assert_eq!(acceptance_config(empty), Err(AcceptanceConfigError::EmptyArtifactPath));
    let relative = AcceptanceEnvFacts { artifact_absolute: false, ..ready_env() };
    assert_eq!(acceptance_config(relative), Err(AcceptanceConfigError::RelativeArtifactPath));
    let missing = AcceptanceEnvFacts { artifact_is_dir: false, headless_backend: true, ..ready_env() };
    assert_eq!(acceptance_config(missing), Err(AcceptanceConfigError::MissingArtifactDirectory));
    let headless = AcceptanceEnvFacts { headless_backend: true, run_id: None, ..ready_env() };
    assert_eq!(acceptance_config(headless), Err(AcceptanceConfigError::HeadlessBackend));
    let no_id = AcceptanceEnvFacts { run_id: None, ..ready_env() };
    assert_eq!(acceptance_config(no_id), Err(AcceptanceConfigError::MissingRunId));
    let path_id = AcceptanceEnvFacts { run_id: Some("../escape".to_string()), ..ready_env() };
    assert_eq!(acceptance_config(path_id), Err(AcceptanceConfigError::InvalidRunId));
    let stale = AcceptanceEnvFacts { screenshot_exists: true, save_exists: true, ..ready_env() };
    assert_eq!(
        acceptance_config(stale),
        Err(AcceptanceConfigError::StaleOutput(DriverOutput::Screenshot))
    );
    let stale_save = AcceptanceEnvFacts { save_exists: true, ..ready_env() };
    assert_eq!(
        acceptance_config(stale_save),
        Err(AcceptanceConfigError::StaleOutput(DriverOutput::Save))
    );
}
