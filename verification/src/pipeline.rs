use vstd::prelude::*;
use vstd::string::*;

use crate::error::PackError;
use crate::grammar::{is_valid_version, valid_version};
use crate::mapper::{map_entries, spec_map_entries, ArchiveEntry, SelectedEntry};
use crate::models::{Config, General};
use crate::selector::{matcher_patterns, select_entries, spec_select};
use crate::strutil::{replace_all, spec_replace_all};
use crate::version::{get_format, has_long_digit_run, resolve_format};

verus! {

/// The export's file preconditions: the configuration file and the
/// ignore file must both lie directly under the project root, the
/// configuration file checked first; the missing one names the error.
pub fn check_project_files(has_config: bool, has_ignore: bool) -> (r: Result<(), PackError>)
    ensures
        r is Ok <==> has_config && has_ignore,
        !has_config ==> r == Err::<(), PackError>(PackError::MissingConfigFile),
        has_config && !has_ignore ==> r == Err::<(), PackError>(PackError::MissingIgnoreFile),
{
    if !has_config {
        Err(PackError::MissingConfigFile)
    } else if !has_ignore {
        Err(PackError::MissingIgnoreFile)
    } else {
        Ok(())
    }
}

/// Checks the declared platform version against the strict grammar and
/// resolves it through the range table; a version that fails either
/// step is unusable, and so is one whose digit runs would overflow the
/// comparison's numeric parsing — all three carry the same error.
pub fn resolve_config_version(config: &Config) -> (r: Result<i32, PackError>)
    ensures
        r is Ok <==> valid_version(config.general.minecraft_version@) && !has_long_digit_run(
            config.general.minecraft_version@,
        ) && resolve_format(config.general.minecraft_version@) is Some,
        r is Ok ==> r.unwrap() as int == resolve_format(
            config.general.minecraft_version@,
        ).unwrap(),
        r is Err ==> r == Err::<i32, PackError>(PackError::InvalidVersion),
{
    if !is_valid_version(config.general.minecraft_version.as_str()) {
        return Err(PackError::InvalidVersion);
    }
    get_format(config.general.minecraft_version.clone())
}

/// The resolved output name: the template with the literal `{name}`
/// and `{version}` tokens substituted, in that order, or the default
/// `<name> v<version>` form without a template.
pub open spec fn spec_output_name(g: General) -> Seq<char> {
    match g.name_template {
        Some(t) => spec_replace_all(
            spec_replace_all(t@, "{name}"@, g.name@),
            "{version}"@,
            g.version@,
        ),
        None => g.name@ + " v"@ + g.version@,
    }
}

/// Computes the output name from the configuration's template, or the
/// default form when none is supplied.
pub fn output_file_name(g: &General) -> (r: String)
    ensures
        r@ == spec_output_name(*g),
{
    match &g.name_template {
        Some(t) => {
            proof {
                reveal_strlit("{name}");
                reveal_strlit("{version}");
            }
            let first = replace_all(t.as_str(), "{name}", g.name.as_str());
            replace_all(first.as_str(), "{version}", g.version.as_str())
        },
        None => {
            let mut out = String::from_str(g.name.as_str());
            out.append(" v");
            out.append(g.version.as_str());
            proof {
                assert(out@ =~= g.name@ + " v"@ + g.version@);
            }
            out
        },
    }
}

/// The archive's file name: the resolved output name with the `.zip`
/// extension appended.
pub fn archive_file_name(g: &General) -> (r: String)
    ensures
        r@ == spec_output_name(*g) + ".zip"@,
{
    let name = output_file_name(g);
    name.concat(".zip")
}

/// Everything the export decides before any file is touched: the
/// resolved format code and the archive's file name.
#[derive(Debug)]
pub struct ExportPlan {
    pub format_code: i32,
    pub output_name: String,
    pub archive_name: String,
}

/// Validates the declared platform version and fixes the output
/// naming; a plan exists exactly when the version satisfies the
/// grammar and some table range holds it.
pub fn plan_export(config: &Config) -> (r: Result<ExportPlan, PackError>)
    ensures
        r is Ok <==> valid_version(config.general.minecraft_version@) && !has_long_digit_run(
            config.general.minecraft_version@,
        ) && resolve_format(config.general.minecraft_version@) is Some,
        r is Ok ==> {
            &&& r.unwrap().format_code as int == resolve_format(
                config.general.minecraft_version@,
            ).unwrap()
            &&& r.unwrap().output_name@ == spec_output_name(config.general)
            &&& r.unwrap().archive_name@ == spec_output_name(config.general) + ".zip"@
        },
        r is Err ==> r == Err::<ExportPlan, PackError>(PackError::InvalidVersion),
{
    let format_code = match resolve_config_version(config) {
        Ok(code) => code,
        Err(e) => {
            return Err(e);
        },
    };
    let output_name = output_file_name(&config.general);
    let archive_name = archive_file_name(&config.general);
    Ok(ExportPlan { format_code, output_name, archive_name })
}

/// Selection then mapping as one step: the walked entries that survive
/// the ignore policy, each remapped into the archive, in walk order.
pub fn select_and_map(
    matcher: &ignore::gitignore::Gitignore,
    entries: &Vec<SelectedEntry>,
) -> (r: Vec<ArchiveEntry>)
    ensures
        r@.map_values(|e: ArchiveEntry| e@) == spec_map_entries(
            spec_select(matcher_patterns(*matcher), entries@.map_values(|e: SelectedEntry| e@)),
        ),
{
    let selected = select_entries(matcher, entries);
    map_entries(&selected)
}

} // verus!
