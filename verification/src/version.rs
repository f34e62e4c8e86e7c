use vstd::prelude::*;
use vstd::string::*;

use crate::error::PackError;
use crate::grammar::{all_digits, is_ascii_digit};

verus! {

/// What the flexver comparison decides for two version strings: `true`
/// when the left one orders at or below the right one.
pub uninterp spec fn flexver_le(a: Seq<char>, b: Seq<char>) -> bool;

/// Nineteen digits in a row somewhere in the string: enough for a
/// numeric segment to overflow the comparison's 64-bit parsing.
pub open spec fn has_long_digit_run(s: Seq<char>) -> bool {
    exists|i: int| 0 <= i && i + 19 <= s.len() && all_digits(#[trigger] s.subrange(i, i + 19))
}

/// Relies on `flexver_rs::compare`: a non-lexicographic version
/// comparison that reads nothing but its two arguments, so its result
/// is a function of them alone. It parses every numeric segment into
/// a signed 64-bit value and panics when one overflows, so callers
/// keep both strings free of nineteen-digit runs, where every segment
/// stays below ten to the eighteenth and parsing cannot overflow.
#[verifier::external_body]
fn flex_le(a: &str, b: &str) -> (r: bool)
    requires
        !has_long_digit_run(a@),
        !has_long_digit_run(b@),
    ensures
        r == flexver_le(a@, b@),
{
    match flexver_rs::compare(a, b) {
        std::cmp::Ordering::Less => true,
        std::cmp::Ordering::Equal => true,
        std::cmp::Ordering::Greater => false,
    }
}

/// Whether the string holds nineteen digits in a row.
fn has_long_run(s: &str) -> (r: bool)
    ensures
        r == has_long_digit_run(s@),
{
    let n = s.unicode_len();
    let mut run: usize = 0;
    let mut i: usize = 0;
    while i < n
        invariant
            0 <= i <= n,
            n == s@.len(),
            run <= i,
            run < 19,
            forall|k: int| i - run <= k < i ==> is_ascii_digit(#[trigger] s@[k]),
            i - run == 0 || !is_ascii_digit(s@[i - run - 1]),
            forall|j: int|
                0 <= j && j + 19 <= i ==> !all_digits(#[trigger] s@.subrange(j, j + 19)),
        decreases n - i,
    {
        let c = s.get_char(i);
        let is_d = '0' <= c && c <= '9';
        if is_d {
            run += 1;
            if run == 19 {
                proof {
                    let j0 = i as int + 1 - 19;
                    assert(0 <= j0 && j0 + 19 <= s@.len());
                    assert forall|m: int| 0 <= m < 19 implies is_ascii_digit(
                        #[trigger] s@.subrange(j0, j0 + 19)[m],
                    ) by {
                        assert(s@.subrange(j0, j0 + 19)[m] == s@[j0 + m]);
                    }
                    assert(all_digits(s@.subrange(j0, j0 + 19)));
                    assert(has_long_digit_run(s@));
                }
                return true;
            }
        }
        proof {
            let j0 = i as int + 1 - 19;
            if j0 >= 0 {
                if is_d {
                    let p = i as int - run as int;
                    assert(!is_ascii_digit(s@[p]));
                    assert(s@.subrange(j0, j0 + 19)[p - j0] == s@[p]);
                } else {
                    assert(s@.subrange(j0, j0 + 19)[i - j0] == s@[i as int]);
                }
                assert(!all_digits(s@.subrange(j0, j0 + 19)));
            }
        }
        if !is_d {
            run = 0;
        }
        i += 1;
    }
    false
}

/// One row of the format table: an inclusive version range
/// `[min_ver, max_ver]`, the format code it maps to, and the
/// capability flags that the code implies.
#[derive(Debug, Clone)]
pub struct PackFormatVer {
    pub min_ver: String,
    pub max_ver: String,
    pub format_ver: i32,
    pub supports_filter: bool,
    pub supports_supported_formats: bool,
    pub supports_overlays: bool,
}

impl PackFormatVer {
    /// The capability flags hold exactly of the codes their features
    /// arrived with: filtering from code 9, supported-formats and
    /// overlays from code 18.
    pub open spec fn wf(self) -> bool {
        &&& self.supports_filter == (self.format_ver >= 9)
        &&& self.supports_supported_formats == (self.format_ver >= 18)
        &&& self.supports_overlays == (self.format_ver >= 18)
    }

    pub fn new(min_ver: &str, max_ver: &str, format_ver: i32) -> (r: Self)
        ensures
            r.min_ver@ == min_ver@,
            r.max_ver@ == max_ver@,
            r.format_ver == format_ver,
            r.wf(),
    {
        Self {
            min_ver: String::from_str(min_ver),
            max_ver: String::from_str(max_ver),
            format_ver,
            supports_filter: 9 <= format_ver,
            supports_supported_formats: 18 <= format_ver,
            supports_overlays: 18 <= format_ver,
        }
    }
}

/// The hand-curated range table: monotonically increasing in version
/// and in format code, with gaps for versions that map to no code.
pub open spec fn format_table() -> Seq<(Seq<char>, Seq<char>, int)> {
    seq![
        ("1.6.1"@, "1.8.9"@, 1),
        ("1.9"@, "1.10.2"@, 2),
        ("1.11"@, "1.12.2"@, 3),
        ("1.13"@, "1.14.4"@, 4),
        ("1.15"@, "1.16.1"@, 5),
        ("1.16.2"@, "1.16.5"@, 6),
        ("1.17"@, "1.17.1"@, 7),
        ("1.18"@, "1.18.2"@, 8),
        ("1.19"@, "1.19.2"@, 9),
        ("1.19.3"@, "1.19.3"@, 12),
        ("1.19.4"@, "1.19.4"@, 13),
        ("1.20"@, "1.20.1"@, 15),
        ("1.20.2"@, "1.20.2"@, 18),
    ]
}

/// Law: the format codes increase strictly along the table.
pub proof fn lemma_format_codes_increase(i: int, j: int)
    requires
        0 <= i < j < format_table().len(),
    ensures
        format_table()[i].2 < format_table()[j].2,
{
}

/// A version lies in a row's range when the row's minimum orders at or
/// below it and it orders at or below the row's maximum.
pub open spec fn in_range(v: Seq<char>, row: (Seq<char>, Seq<char>, int)) -> bool {
    flexver_le(row.0, v) && flexver_le(v, row.1)
}

/// The code of the first row of `tbl` whose range holds `v`, if any.
pub open spec fn first_format(tbl: Seq<(Seq<char>, Seq<char>, int)>, v: Seq<char>) -> Option<int>
    decreases tbl.len(),
{
    if tbl.len() == 0 {
        None
    } else if in_range(v, tbl[0]) {
        Some(tbl[0].2)
    } else {
        first_format(tbl.skip(1), v)
    }
}

/// The format code a version resolves to: the code of the first table
/// row whose inclusive range holds it under the flexver ordering, and
/// none when the version falls in a gap or outside the covered span.
pub open spec fn resolve_format(v: Seq<char>) -> Option<int> {
    first_format(format_table(), v)
}

/// The full range table as executable rows, in table order.
pub fn get_pack_formats() -> (r: Vec<PackFormatVer>)
    ensures
        r@.len() == format_table().len(),
        forall|i: int|
            0 <= i < r@.len() ==> {
                &&& (#[trigger] r@[i]).min_ver@ == format_table()[i].0
                &&& r@[i].max_ver@ == format_table()[i].1
                &&& r@[i].format_ver as int == format_table()[i].2
                &&& r@[i].wf()
                &&& !has_long_digit_run(r@[i].min_ver@)
                &&& !has_long_digit_run(r@[i].max_ver@)
            },
{
    let mut v: Vec<PackFormatVer> = Vec::new();
    v.push(PackFormatVer::new("1.6.1", "1.8.9", 1));
    v.push(PackFormatVer::new("1.9", "1.10.2", 2));
    v.push(PackFormatVer::new("1.11", "1.12.2", 3));
    v.push(PackFormatVer::new("1.13", "1.14.4", 4));
    v.push(PackFormatVer::new("1.15", "1.16.1", 5));
    v.push(PackFormatVer::new("1.16.2", "1.16.5", 6));
    v.push(PackFormatVer::new("1.17", "1.17.1", 7));
    v.push(PackFormatVer::new("1.18", "1.18.2", 8));
    v.push(PackFormatVer::new("1.19", "1.19.2", 9));
    v.push(PackFormatVer::new("1.19.3", "1.19.3", 12));
    v.push(PackFormatVer::new("1.19.4", "1.19.4", 13));
    v.push(PackFormatVer::new("1.20", "1.20.1", 15));
    v.push(PackFormatVer::new("1.20.2", "1.20.2", 18));
    proof {
        reveal_strlit("1.6.1");
        reveal_strlit("1.8.9");
        reveal_strlit("1.9");
        reveal_strlit("1.10.2");
        reveal_strlit("1.11");
        reveal_strlit("1.12.2");
        reveal_strlit("1.13");
        reveal_strlit("1.14.4");
        reveal_strlit("1.15");
        reveal_strlit("1.16.1");
        reveal_strlit("1.16.2");
        reveal_strlit("1.16.5");
        reveal_strlit("1.17");
        reveal_strlit("1.17.1");
        reveal_strlit("1.18");
        reveal_strlit("1.18.2");
        reveal_strlit("1.19");
        reveal_strlit("1.19.2");
        reveal_strlit("1.19.3");
        reveal_strlit("1.19.4");
        reveal_strlit("1.20");
        reveal_strlit("1.20.1");
        reveal_strlit("1.20.2");
        assert forall|i: int| 0 <= i < v@.len() implies !has_long_digit_run(
            (#[trigger] v@[i]).min_ver@,
        ) && !has_long_digit_run(v@[i].max_ver@) by {
            assert(v@[i].min_ver@.len() < 19 && v@[i].max_ver@.len() < 19);
        }
    }
    v
}

/// Resolves a platform version to its format code by scanning the
/// table in order; a version no range holds is a hard failure, and so
/// is one whose digit runs would overflow the comparison's numeric
/// parsing.
pub fn get_format(mc_version: String) -> (r: Result<i32, PackError>)
    ensures
        has_long_digit_run(mc_version@) ==> r == Err::<i32, PackError>(PackError::InvalidVersion),
        !has_long_digit_run(mc_version@) ==> (r is Ok <==> resolve_format(mc_version@) is Some),
        r is Ok ==> r.unwrap() as int == resolve_format(mc_version@).unwrap(),
        r is Err ==> r == Err::<i32, PackError>(PackError::InvalidVersion),
{
    if has_long_run(mc_version.as_str()) {
        return Err(PackError::InvalidVersion);
    }
    let versions = get_pack_formats();
    let n = versions.len();
    proof {
        assert(format_table().skip(0) =~= format_table());
    }
    let mut i: usize = 0;
    while i < n
        invariant
            0 <= i <= n,
            n == format_table().len(),
            versions@.len() == format_table().len(),
            !has_long_digit_run(mc_version@),
            forall|k: int|
                0 <= k < versions@.len() ==> {
                    &&& (#[trigger] versions@[k]).min_ver@ == format_table()[k].0
                    &&& versions@[k].max_ver@ == format_table()[k].1
                    &&& versions@[k].format_ver as int == format_table()[k].2
                    &&& !has_long_digit_run(versions@[k].min_ver@)
                    &&& !has_long_digit_run(versions@[k].max_ver@)
                },
            first_format(format_table().skip(i as int), mc_version@) == resolve_format(
                mc_version@,
            ),
        decreases n - i,
    {
        let ver = &versions[i];
        proof {
            assert(format_table().skip(i as int)[0] == format_table()[i as int]);
        }
        if flex_le(ver.min_ver.as_str(), mc_version.as_str()) && flex_le(
            mc_version.as_str(),
            ver.max_ver.as_str(),
        ) {
            return Ok(ver.format_ver);
        }
        proof {
            assert(format_table().skip(i as int).skip(1) =~= format_table().skip(i as int + 1));
        }
        i += 1;
    }
    proof {
        assert(format_table().skip(format_table().len() as int).len() == 0);
    }
    Err(PackError::InvalidVersion)
}

} // verus!
