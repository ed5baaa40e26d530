use blueprint_sim::xtask::changelog::{begins_with, split_lines, ChangelogError};
use blueprint_sim::xtask::commands::{bytes_to_string, CommandLine, Output};
use blueprint_sim::xtask::manifest::{lookup, ManifestError, BASE_APP_ICON, CLI_NAME, INTEL_TRIPLE, SILICON_TRIPLE, WINDOWS_TRIPLE};
use blueprint_sim::text::chars_of;
use blueprint_sim::xtask::{
    cargo_exec, exec, get_cargo_toml, get_changelog_notes, get_current_version, get_default_app_name,
    get_default_bin_name, get_default_build_dir, get_default_release_dir, get_default_target_dir,
    get_metadata_entry, try_exec, xtask_exec,
};

const MANIFEST: &str = r#"
[package]
name = "space_race_game"
version = "0.3.1"
edition = "2021"

[metadata.bevy-package-cli]
target-dir = "out/target"
osx-app-name = "Space Race"
retries = 3

[dependencies]
rand = "0.8"
"#;

const BARE: &str = "[package]\nname = \"space_race_game\"\nversion = \"1.0.0\"\n";

const CHANGELOG: &str = "# Changelog\n\n## 0.0.2 - second\n- sharper stars\r\n- faster ships\n\n## 0.0.1\n- first flight\n";

fn chars(text: &str) -> Vec<char> {
    text.chars().collect()
}

#[test]
fn a_manifest_says_name_and_version() {
    let manifest = get_cargo_toml(MANIFEST).unwrap();
    assert_eq!(get_default_bin_name(&manifest), Some(String::from("space_race_game")));
    assert_eq!(get_current_version(&manifest), Some(String::from("0.3.1")));
    let bare = get_cargo_toml(BARE).unwrap();
    assert_eq!(get_current_version(&bare), Some(String::from("1.0.0")));
}

#[test]
fn what_is_no_manifest_is_refused() {
    assert_eq!(get_cargo_toml("[package\nname = ").err(), Some(ManifestError::Invalid));
    assert_eq!(get_cargo_toml("name = = 3").err(), Some(ManifestError::Invalid));
    let empty = get_cargo_toml("").unwrap();
    assert_eq!(get_default_bin_name(&empty), None);
    assert_eq!(get_current_version(&empty), None);
    assert_eq!(get_default_app_name(&empty), Err(ManifestError::MissingPackageName));
    let odd = get_cargo_toml("package = 3\n").unwrap();
    assert_eq!(get_default_bin_name(&odd), None);
    let numbered = get_cargo_toml("[package]\nname = 3\nversion = 1.5\n").unwrap();
    assert_eq!(get_default_bin_name(&numbered), None);
    assert_eq!(get_current_version(&numbered), None);
}

#[test]
fn settings_come_from_the_metadata_or_by_default() {
    let manifest = get_cargo_toml(MANIFEST).unwrap();
    assert_eq!(get_default_target_dir(&manifest).unwrap().as_str(), "out/target");
    assert_eq!(get_default_build_dir(&manifest).unwrap().as_str(), "build");
    assert_eq!(get_default_release_dir(&manifest).unwrap().as_str(), "release/");
    let bare = get_cargo_toml(BARE).unwrap();
    assert_eq!(get_default_target_dir(&bare).unwrap().as_str(), "target/bevy_package_cli");
    assert_eq!(get_default_build_dir(&bare).unwrap().as_str(), "build");
    assert_eq!(get_default_release_dir(&bare).unwrap().as_str(), "release/");

    assert_eq!(get_metadata_entry(&manifest, "target-dir").and_then(|v| v.as_str()), Some("out/target"));
    assert_eq!(get_metadata_entry(&manifest, "retries").and_then(|v| v.as_integer()), Some(3));
    assert!(get_metadata_entry(&manifest, "build-dir").is_none());
    assert!(get_metadata_entry(&bare, "target-dir").is_none());
    assert_eq!(lookup(&manifest, &vec!["dependencies", "rand"]).and_then(|v| v.as_str()), Some("0.8"));
    assert!(lookup(&manifest, &vec!["package", "name", "deeper"]).is_none());
    assert!(lookup(&manifest, &vec![]).unwrap().is_table());
}

#[test]
fn a_setting_that_is_no_string_is_an_error() {
    let manifest = get_cargo_toml(
        "[package]\nname = \"a\"\n[metadata.bevy-package-cli]\ntarget-dir = 3\nbuild-dir = [\"x\"]\nrelease-dir = true\nosx-app-name = 1.5\n",
    )
    .unwrap();
    assert_eq!(get_default_target_dir(&manifest).err(), Some(ManifestError::NotAString));
    assert_eq!(get_default_build_dir(&manifest).err(), Some(ManifestError::NotAString));
    assert_eq!(get_default_release_dir(&manifest).err(), Some(ManifestError::NotAString));
    assert_eq!(get_default_app_name(&manifest), Err(ManifestError::NotAString));
}

#[test]
fn the_application_is_named_by_setting_or_in_title_case() {
    let manifest = get_cargo_toml(MANIFEST).unwrap();
    assert_eq!(get_default_app_name(&manifest), Ok(String::from("Space Race")));
    let bare = get_cargo_toml(BARE).unwrap();
    assert_eq!(get_default_app_name(&bare), Ok(String::from("Space Race Game")));
    let nameless = get_cargo_toml("[metadata.bevy-package-cli]\nosx-app-name = \"Space Race\"\n").unwrap();
    assert_eq!(get_default_app_name(&nameless), Err(ManifestError::MissingPackageName));
}

#[test]
fn the_names_of_the_tool_are_fixed() {
    assert_eq!(CLI_NAME, "bevy-package-cli");
    assert_eq!(SILICON_TRIPLE, "aarch64-apple-darwin");
    assert_eq!(INTEL_TRIPLE, "x86_64-apple-darwin");
    assert_eq!(WINDOWS_TRIPLE, "x86_64-pc-windows-gnu");
    assert_eq!(BASE_APP_ICON, "assets/images/icon_1024x1024.png");
}

#[test]
fn changelog_extraction() {
    let version = "0.0.1";
    let notes = get_changelog_notes(CHANGELOG, version).unwrap().unwrap();
    println!("Notes: {:?}", notes);
    assert_eq!(notes, (String::from("- first flight"), String::from("v0.0.1")));
}

#[test]
fn the_notes_end_before_the_next_heading() {
    let notes = get_changelog_notes(CHANGELOG, "0.0.2").unwrap().unwrap();
    assert_eq!(notes.0, "- sharper stars\n- faster ships\n");
    assert_eq!(notes.1, "v0.0.2 - second");
}

#[test]
fn a_version_without_a_section_has_no_notes() {
    assert_eq!(get_changelog_notes(CHANGELOG, "0.0.3"), Ok(None));
    assert_eq!(get_changelog_notes("", "0.0.1"), Ok(None));
    assert_eq!(get_changelog_notes("## 0.1", "0.1.0"), Ok(None));
}

#[test]
fn a_section_may_be_empty_or_the_last_line() {
    assert_eq!(get_changelog_notes("## 1.0", "1.0"), Ok(Some((String::new(), String::from("v1.0")))));
    assert_eq!(get_changelog_notes("## 1.0\n## 0.9\nold", "1.0"), Ok(Some((String::new(), String::from("v1.0")))));
    assert_eq!(
        get_changelog_notes("intro\n## ## 2.0 big\n\nline\n", "## 2.0"),
        Ok(Some((String::from("\nline"), String::from("v2.0 big"))))
    );
}

#[test]
fn an_unclear_changelog_is_an_error() {
    assert_eq!(
        get_changelog_notes("## 0.0.1\na\n## 0.0.10\nb\n", "0.0.1"),
        Err(ChangelogError::DuplicateVersion)
    );
    assert_eq!(
        get_changelog_notes("## 3\na\n## 2\nb\n## 1\nc\n", "3"),
        Err(ChangelogError::SeveralOlderVersions)
    );
    assert_eq!(
        get_changelog_notes("## 3\na\n## 2\nb\n## 3\nc\n", "3"),
        Err(ChangelogError::DuplicateVersion)
    );
    // headings before the section do not count
    assert_eq!(get_changelog_notes("## 3\n## 2\n## 1\nc", "1"), Ok(Some((String::from("c"), String::from("v1")))));
}

#[test]
fn lines_are_split_as_the_standard_library_splits_them() {
    let samples = [
        "", "\n", "a", "a\n", "a\nb", "a\r\nb\r\n", "a\r", "\r\n", "\r", "a\n\nb\n\n", "\n\na", "x\r\r\ny",
        "héllo\nwörld\r\n", "## 1\n- a\n",
    ];
    for text in samples {
        let expected: Vec<Vec<char>> = text.lines().map(chars).collect();
        assert_eq!(split_lines(&chars(text)), expected, "for {:?}", text);
    }
    assert!(begins_with(&chars("## 1.0"), &chars("## ")));
    assert!(begins_with(&chars("## "), &chars("## ")));
    assert!(!begins_with(&chars("##"), &chars("## ")));
    assert!(!begins_with(&chars("# # 1"), &chars("## ")));
    assert!(begins_with(&chars("abc"), &chars("")));
    assert_eq!(chars_of("añb"), vec!['a', 'ñ', 'b']);
}

#[test]
fn commands_are_made_of_program_and_arguments() {
    let args = vec![String::from("build"), String::from("--release")];
    let CommandLine { program, args: given } = cargo_exec("/usr/bin/cargo", args.clone());
    assert_eq!(program, "/usr/bin/cargo");
    assert_eq!(given, args);
    let CommandLine { program, args: given } = xtask_exec("/usr/bin/cargo", args);
    assert_eq!(program, "/usr/bin/cargo");
    assert_eq!(given, vec!["xtask", "build", "--release"]);
    assert_eq!(xtask_exec("cargo", Vec::new()).args, vec!["xtask"]);
}

#[test]
fn the_outcome_of_a_command_is_its_output_or_a_message() {
    let fine = Output { success: true, stdout: b"/sdk/path\n".to_vec(), stderr: b"warning".to_vec() };
    assert_eq!(try_exec("xcrun", &fine), Ok(String::from("/sdk/path\n")));
    assert_eq!(exec("xcrun", &fine), "/sdk/path\n");
    let failed = Output { success: false, stdout: b"partial".to_vec(), stderr: b"no such sdk".to_vec() };
    assert_eq!(try_exec("xcrun", &failed), Err(String::from("Command xcrun failed: no such sdk")));
    // each byte is the character with its number
    assert_eq!(bytes_to_string(&vec![0x41, 0xE9, 0xFF, 0x00]), "A\u{e9}\u{ff}\u{0}");
    assert_eq!(bytes_to_string(&Vec::new()), "");
}
