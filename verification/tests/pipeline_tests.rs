use prismarine::error::PackError;
use prismarine::meta::render_pack_meta;
use prismarine::models::{Config, General, Pack, PackMeta};
use prismarine::pipeline::{
    archive_file_name, check_project_files, output_file_name, plan_export,
    resolve_config_version,
};
use prismarine::strutil::replace_all;

fn config(mc_version: &str, template: Option<&str>) -> Config {
    Config {
        general: General {
            name: "My Pack".to_string(),
            description: "demo".to_string(),
            version: "0.1.0".to_string(),
            minecraft_version: mc_version.to_string(),
            license: "ARR".to_string(),
            name_template: template.map(|t| t.to_string()),
        },
    }
}

#[test]
fn missing_config_file_fails_first() {
    assert_eq!(check_project_files(false, false), Err(PackError::MissingConfigFile));
    assert_eq!(check_project_files(false, true), Err(PackError::MissingConfigFile));
}

#[test]
fn missing_ignore_file_fails_validation() {
    assert_eq!(check_project_files(true, false), Err(PackError::MissingIgnoreFile));
}

#[test]
fn present_project_files_pass_validation() {
    assert_eq!(check_project_files(true, true), Ok(()));
}

#[test]
fn ungrammatical_version_fails_before_resolution() {
    assert_eq!(
        resolve_config_version(&config("latest", None)),
        Err(PackError::InvalidVersion)
    );
    assert_eq!(
        resolve_config_version(&config("1.20.x", None)),
        Err(PackError::InvalidVersion)
    );
    // A digitless suffix fails the grammar even though the comparator
    // would place the string inside a covered range.
    assert_eq!(
        resolve_config_version(&config("1.8.9-rc", None)),
        Err(PackError::InvalidVersion)
    );
}

#[test]
fn unmapped_version_fails_resolution() {
    assert_eq!(
        resolve_config_version(&config("1.5", None)),
        Err(PackError::InvalidVersion)
    );
}

#[test]
fn grammatical_covered_version_resolves() {
    assert_eq!(resolve_config_version(&config("1.20.1", None)), Ok(15));
}

#[test]
fn default_output_name_joins_name_and_version() {
    let cfg = config("1.20.1", None);
    assert_eq!(output_file_name(&cfg.general), "My Pack v0.1.0");
    assert_eq!(archive_file_name(&cfg.general), "My Pack v0.1.0.zip");
}

#[test]
fn template_tokens_are_substituted() {
    let cfg = config("1.20.1", Some("{name}-{version}-release"));
    assert_eq!(output_file_name(&cfg.general), "My Pack-0.1.0-release");
    assert_eq!(archive_file_name(&cfg.general), "My Pack-0.1.0-release.zip");
}

#[test]
fn template_without_tokens_is_kept_verbatim() {
    let cfg = config("1.20.1", Some("fixed-name"));
    assert_eq!(output_file_name(&cfg.general), "fixed-name");
}

#[test]
fn plan_fixes_code_and_names_together() {
    let plan = plan_export(&config("1.19.3", Some("{name} {version}"))).unwrap();
    assert_eq!(plan.format_code, 12);
    assert_eq!(plan.output_name, "My Pack 0.1.0");
    assert_eq!(plan.archive_name, "My Pack 0.1.0.zip");
}

#[test]
fn plan_rejects_bad_versions() {
    assert_eq!(plan_export(&config("nope", None)).unwrap_err(), PackError::InvalidVersion);
    assert_eq!(plan_export(&config("1.20.3", None)).unwrap_err(), PackError::InvalidVersion);
}

#[test]
fn replace_all_rewrites_every_occurrence_left_to_right() {
    assert_eq!(replace_all("a-b-c", "-", "+"), "a+b+c");
    assert_eq!(replace_all("aaa", "aa", "b"), "ba");
    assert_eq!(replace_all("abc", "x", "y"), "abc");
    assert_eq!(replace_all("{v}{v}", "{v}", ""), "");
}

#[test]
fn metadata_renders_compact_json() {
    let meta = PackMeta { pack: Pack { pack_format: 18, description: "A pack".to_string() } };
    assert_eq!(
        render_pack_meta(&meta),
        "{\"pack\":{\"pack_format\":18,\"description\":\"A pack\"}}"
    );
}

#[test]
fn metadata_escapes_description_characters() {
    let meta = PackMeta {
        pack: Pack {
            pack_format: 7,
            description: "say \"hi\"\\\nnew\tline\u{1}".to_string(),
        },
    };
    assert_eq!(
        render_pack_meta(&meta),
        "{\"pack\":{\"pack_format\":7,\"description\":\"say \\\"hi\\\"\\\\\\nnew\\tline\\u0001\"}}"
    );
}

#[test]
fn metadata_renders_negative_codes_with_a_sign() {
    let meta = PackMeta { pack: Pack { pack_format: -3, description: "d".to_string() } };
    assert_eq!(
        render_pack_meta(&meta),
        "{\"pack\":{\"pack_format\":-3,\"description\":\"d\"}}"
    );
}
