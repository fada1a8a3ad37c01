use std::path::{Path, PathBuf};

use nitro_attestation::program_build::{
    parse_mode, wire_lines, BuildMode, BuildStep, ProgramBuild, ZkVmBackend,
};

struct TestBackend;

impl ZkVmBackend for TestBackend {
    fn spec_env_prefix() -> vstd::seq::Seq<char> {
        unreachable!("a specification is never run")
    }

    fn env_prefix() -> &'static str {
        "SP1"
    }

    fn build_one(
        target: &str,
        _ws_root: &Path,
        _docker: bool,
        output_dir: Option<&Path>,
    ) -> PathBuf {
        match output_dir {
            Some(dir) => dir.join(format!("{target}.elf")),
            None => PathBuf::new(),
        }
    }
}

#[test]
fn parse_mode_unset_is_prebuilt() {
    assert_eq!(parse_mode(None), BuildMode::Prebuilt);
}

#[test]
fn parse_mode_empty_string_is_prebuilt() {
    assert_eq!(parse_mode(Some("")), BuildMode::Prebuilt);
}

#[test]
fn parse_mode_prebuilt_literal_with_whitespace_and_casing() {
    assert_eq!(parse_mode(Some("prebuilt")), BuildMode::Prebuilt);
    assert_eq!(parse_mode(Some("Prebuilt")), BuildMode::Prebuilt);
    assert_eq!(parse_mode(Some("  PREBUILT  ")), BuildMode::Prebuilt);
}

#[test]
fn parse_mode_docker_case_insensitive() {
    assert_eq!(parse_mode(Some("docker")), BuildMode::Docker);
    assert_eq!(parse_mode(Some("DOCKER")), BuildMode::Docker);
    assert_eq!(parse_mode(Some(" Docker ")), BuildMode::Docker);
}

#[test]
fn parse_mode_anything_else_is_local() {
    for raw in ["disable", "0", "false", "no", "off", "garbage", "1", "true"] {
        assert_eq!(parse_mode(Some(raw)), BuildMode::Local, "raw={raw}");
    }
}

#[test]
fn parse_mode_whitespace_only_is_prebuilt() {
    assert_eq!(parse_mode(Some(" \t\n ")), BuildMode::Prebuilt);
    assert_eq!(parse_mode(Some("\u{3000}docker\u{a0}")), BuildMode::Docker);
}

#[test]
fn parse_mode_inner_space_is_local() {
    assert_eq!(parse_mode(Some("dock er")), BuildMode::Local);
    assert_eq!(parse_mode(Some("prebuilt2")), BuildMode::Local);
}

#[test]
fn program_build_modes_and_reproducibility() {
    let prebuilt = ProgramBuild::<TestBackend>::from_env_value(None);
    assert_eq!(prebuilt.mode(), BuildMode::Prebuilt);
    assert!(prebuilt.reproducible());
    let docker = ProgramBuild::<TestBackend>::from_env_value(Some("docker"));
    assert_eq!(docker.mode(), BuildMode::Docker);
    assert!(docker.reproducible());
    let local = ProgramBuild::<TestBackend>::from_env_value(Some("disable"));
    assert_eq!(local.mode(), BuildMode::Local);
    assert!(!local.reproducible());
    assert_eq!(
        local.reproducible_env_line(),
        "cargo:rustc-env=ZKVM_REPRODUCIBLE_BUILD=0"
    );
    assert_eq!(
        docker.reproducible_env_line(),
        "cargo:rustc-env=ZKVM_REPRODUCIBLE_BUILD=1"
    );
}

#[test]
fn build_steps_follow_the_mode() {
    let targets = ["sp1-verifier", "sp1-aggregator"];
    let prebuilt = ProgramBuild::<TestBackend>::from_env_value(Some("prebuilt"));
    assert_eq!(
        prebuilt.build_steps(&targets),
        vec![
            BuildStep::UsePrebuilt { target: "sp1-verifier".to_string() },
            BuildStep::UsePrebuilt { target: "sp1-aggregator".to_string() },
        ]
    );
    let docker = ProgramBuild::<TestBackend>::from_env_value(Some("Docker"));
    assert_eq!(
        docker.build_steps(&targets[..1]),
        vec![BuildStep::BuildDocker { target: "sp1-verifier".to_string() }]
    );
    let local = ProgramBuild::<TestBackend>::from_env_value(Some("local"));
    assert_eq!(
        local.build_steps(&targets[1..]),
        vec![BuildStep::BuildLocal { target: "sp1-aggregator".to_string() }]
    );
}

#[test]
fn prebuilt_file_name_adds_elf() {
    assert_eq!(TestBackend::prebuilt_file_name("risc0-verifier"), "risc0-verifier.elf");
}

#[test]
fn wire_lines_skip_empty_paths() {
    let targets = vec![
        ("sp1-verifier".to_string(), "/ws/elf/sp1-verifier.elf".to_string()),
        ("sp1-aggregator".to_string(), String::new()),
    ];
    assert_eq!(
        wire_lines(TestBackend::env_prefix(), &targets),
        vec![
            "cargo:rustc-env=SP1_ELF_sp1-verifier=/ws/elf/sp1-verifier.elf".to_string(),
            "cargo:rerun-if-changed=/ws/elf/sp1-verifier.elf".to_string(),
        ]
    );
    assert!(wire_lines("RISC0", &[]).is_empty());
}

#[test]
fn backend_wire_uses_its_prefix() {
    let path = TestBackend::build_one("sp1-verifier", Path::new("/ws"), true, Some(Path::new("/ws/elf")));
    assert_eq!(path, PathBuf::from("/ws/elf/sp1-verifier.elf"));
    let local = TestBackend::build_one("sp1-aggregator", Path::new("/ws"), false, None);
    let targets = vec![
        ("sp1-verifier".to_string(), path.display().to_string()),
        ("sp1-aggregator".to_string(), local.display().to_string()),
    ];
    assert_eq!(
        TestBackend::wire(&targets),
        vec![
            "cargo:rustc-env=SP1_ELF_sp1-verifier=/ws/elf/sp1-verifier.elf".to_string(),
            "cargo:rerun-if-changed=/ws/elf/sp1-verifier.elf".to_string(),
        ]
    );
}
