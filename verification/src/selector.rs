use vstd::prelude::*;
use vstd::string::*;

use crate::error::PackError;
use crate::mapper::SelectedEntry;

verus! {

#[verifier::external_type_specification]
#[verifier::external_body]
pub struct ExGitignoreBuilder(ignore::gitignore::GitignoreBuilder);

#[verifier::external_type_specification]
#[verifier::external_body]
pub struct ExGitignore(ignore::gitignore::Gitignore);

#[verifier::external_type_specification]
#[verifier::external_body]
pub struct ExIgnoreError(ignore::Error);

/// What a builder holds: the texts of its patterns, in order (each
/// glob keeps the text it was made from), together with its root and
/// matching flags, which this library fixes at the empty path and the
/// defaults.
pub uninterp spec fn builder_patterns(b: ignore::gitignore::GitignoreBuilder) -> Seq<Seq<char>>;

/// What a matcher holds: the texts of the patterns it was built from,
/// in order, together with the root and flags it was built with.
pub uninterp spec fn matcher_patterns(g: ignore::gitignore::Gitignore) -> Seq<Seq<char>>;

/// The verdict of gitignore-style matching of one path against a
/// matcher holding these patterns: ignored, whitelisted (negated), or
/// unmatched. The verdict is a function of what the matcher holds, the
/// path and the directory flag.
pub uninterp spec fn ignore_verdict(
    patterns: Seq<Seq<char>>,
    path: Seq<char>,
    is_dir: bool,
) -> Option<bool>;

/// Whether one pattern line parses as a glob: what
/// `GitignoreBuilder::add_line` accepts depends on the line alone.
pub uninterp spec fn glob_parses(p: Seq<char>) -> bool;

/// Whether a glob set compiles from these patterns: what
/// `GitignoreBuilder::build` accepts depends on the patterns alone.
pub uninterp spec fn glob_set_builds(patterns: Seq<Seq<char>>) -> bool;

/// Every pattern of the sequence parses as a glob.
pub open spec fn all_patterns_parse(ps: Seq<Seq<char>>) -> bool {
    forall|i: int| 0 <= i < ps.len() ==> glob_parses(#[trigger] ps[i])
}

/// One of Rust's whitespace characters (the Unicode White_Space set),
/// as `str::trim_end` removes them.
pub open spec fn spec_is_whitespace(c: char) -> bool {
    ||| c == '\u{09}'
    ||| c == '\u{0A}'
    ||| c == '\u{0B}'
    ||| c == '\u{0C}'
    ||| c == '\u{0D}'
    ||| c == ' '
    ||| c == '\u{85}'
    ||| c == '\u{A0}'
    ||| c == '\u{1680}'
    ||| ('\u{2000}' <= c && c <= '\u{200A}')
    ||| c == '\u{2028}'
    ||| c == '\u{2029}'
    ||| c == '\u{202F}'
    ||| c == '\u{205F}'
    ||| c == '\u{3000}'
}

/// The text without its trailing whitespace.
pub open spec fn spec_trim_end(l: Seq<char>) -> Seq<char>
    decreases l.len(),
{
    if l.len() > 0 && spec_is_whitespace(l.last()) {
        spec_trim_end(l.drop_last())
    } else {
        l
    }
}

/// A trailing space kept by escaping: the line ends in `\` then a
/// space, which exempts it from trimming.
pub open spec fn ends_escaped_space(l: Seq<char>) -> bool {
    l.len() >= 2 && l[l.len() - 2] == '\\' && l[l.len() - 1] == ' '
}

/// A line that stands as a pattern exactly as given: nonempty, no
/// leading `#`, and no trailing whitespace unless it is an escaped
/// space.
pub open spec fn effective_pattern(l: Seq<char>) -> bool {
    &&& l.len() > 0
    &&& l[0] != '#'
    &&& (ends_escaped_space(l) || !spec_is_whitespace(l.last()))
}

/// What one raw line contributes to the pattern list: nothing for a
/// `#` comment or a line blank after trimming, else one pattern, the
/// line with its trailing whitespace removed unless that ends in an
/// escaped space.
pub open spec fn spec_line_patterns(l: Seq<char>) -> Seq<Seq<char>> {
    if l.len() > 0 && l[0] == '#' {
        Seq::empty()
    } else {
        let t = if ends_escaped_space(l) {
            l
        } else {
            spec_trim_end(l)
        };
        if t.len() == 0 {
            Seq::empty()
        } else {
            seq![t]
        }
    }
}

/// Relies on `ignore::gitignore::GitignoreBuilder::new`: a fresh
/// builder holds no patterns. The root is fixed at the empty path, so
/// paths are matched as given, relative to the project root.
#[verifier::external_body]
fn gitignore_builder_new() -> (r: ignore::gitignore::GitignoreBuilder)
    ensures
        builder_patterns(r) == Seq::<Seq<char>>::empty(),
{
    ignore::gitignore::GitignoreBuilder::new("")
}

/// Relies on `GitignoreBuilder::add_line`, called only on effective
/// pattern lines (the crate's own comment, blank and trim handling
/// then leaves the line as given): it succeeds exactly when the line
/// parses as a glob, appending one pattern with the line's text; on a
/// parse error the builder is left unchanged.
#[verifier::external_body]
fn gitignore_builder_add_line(
    b: &mut ignore::gitignore::GitignoreBuilder,
    line: &str,
) -> (r: Result<(), ignore::Error>)
    requires
        effective_pattern(line@),
    ensures
        r is Ok <==> glob_parses(line@),
        r is Ok ==> builder_patterns(*final(b)) == builder_patterns(*old(b)).push(line@),
        r is Err ==> builder_patterns(*final(b)) == builder_patterns(*old(b)),
{
    match b.add_line(None, line) {
        Ok(_) => Ok(()),
        Err(e) => Err(e),
    }
}

/// Relies on `GitignoreBuilder::build`: it succeeds exactly when the
/// glob set compiles from the builder's patterns, and the matcher then
/// decides by exactly those patterns.
#[verifier::external_body]
fn gitignore_builder_build(b: &ignore::gitignore::GitignoreBuilder) -> (r: Result<
    ignore::gitignore::Gitignore,
    ignore::Error,
>)
    ensures
        r is Ok <==> glob_set_builds(builder_patterns(*b)),
        r is Ok ==> matcher_patterns(r.unwrap()) == builder_patterns(*b),
{
    b.build()
}

/// Relies on `Gitignore::matched`: of the patterns matching the path
/// the last one decides, negated patterns whitelist, and patterns
/// restricted to directories are skipped for files; the verdict is a
/// function of the pattern texts, the path and the directory flag.
#[verifier::external_body]
fn gitignore_matched(g: &ignore::gitignore::Gitignore, path: &str, is_dir: bool) -> (r: Option<
    bool,
>)
    ensures
        r == ignore_verdict(matcher_patterns(*g), path@, is_dir),
{
    match g.matched(path, is_dir) {
        ignore::Match::None => None,
        ignore::Match::Ignore(_) => Some(true),
        ignore::Match::Whitelist(_) => Some(false),
    }
}

/// The text without its leading byte-order marks; an ignore file saved
/// with one keeps its first pattern intact.
pub open spec fn strip_boms(s: Seq<char>) -> Seq<char>
    decreases s.len(),
{
    if s.len() > 0 && s[0] == '\u{feff}' {
        strip_boms(s.skip(1))
    } else {
        s
    }
}

/// A boundary after the byte-order marks characterizes the stripped
/// text.
proof fn lemma_strip_boms_at(s: Seq<char>, b: int)
    requires
        0 <= b <= s.len(),
        forall|j: int| 0 <= j < b ==> s[j] == '\u{feff}',
        b == s.len() || s[b] != '\u{feff}',
    ensures
        strip_boms(s) == s.skip(b),
    decreases b,
{
    if b == 0 {
        assert(s.skip(0) =~= s);
    } else {
        lemma_strip_boms_at(s.skip(1), b - 1);
        assert(s.skip(1).skip(b - 1) =~= s.skip(b));
    }
}

/// The position where the leading byte-order marks end.
fn bom_prefix_end(s: &str) -> (b: usize)
    ensures
        b <= s@.len(),
        strip_boms(s@) == s@.skip(b as int),
{
    let n = s.unicode_len();
    let mut i: usize = 0;
    while i < n
        invariant
            0 <= i <= n,
            n == s@.len(),
            forall|j: int| 0 <= j < i ==> s@[j] == '\u{feff}',
        decreases n - i,
    {
        if s.get_char(i) != '\u{feff}' {
            proof {
                lemma_strip_boms_at(s@, i as int);
            }
            return i;
        }
        i += 1;
    }
    proof {
        lemma_strip_boms_at(s@, i as int);
    }
    i
}

/// The length of the first line of `s`: the distance to the first
/// newline, or the whole length when none is left.
pub open spec fn line_break(s: Seq<char>) -> nat
    decreases s.len(),
{
    if s.len() == 0 || s[0] == '\n' {
        0
    } else {
        1 + line_break(s.skip(1))
    }
}

/// A line with a trailing carriage return loses it.
pub open spec fn strip_cr(l: Seq<char>) -> Seq<char> {
    if l.len() > 0 && l.last() == '\r' {
        l.drop_last()
    } else {
        l
    }
}

/// The first line never outruns the text.
proof fn lemma_line_break_le(s: Seq<char>)
    ensures
        line_break(s) <= s.len(),
    decreases s.len(),
{
    if s.len() != 0 && s[0] != '\n' {
        lemma_line_break_le(s.skip(1));
    }
}

/// The patterns of a whole ignore text: its newline-separated lines,
/// each stripped of a trailing carriage return, each contributing its
/// patterns in order.
pub open spec fn spec_patterns(s: Seq<char>) -> Seq<Seq<char>>
    decreases s.len(),
    via spec_patterns_decreases
{
    if s.len() == 0 {
        Seq::empty()
    } else {
        let k = line_break(s);
        spec_line_patterns(strip_cr(s.take(k as int))) + if k == s.len() {
            Seq::empty()
        } else {
            spec_patterns(s.skip(k as int + 1))
        }
    }
}

#[via_fn]
proof fn spec_patterns_decreases(s: Seq<char>) {
    lemma_line_break_le(s);
}

/// A newline position characterizes the first line's length.
proof fn lemma_line_break_at(s: Seq<char>, i: int)
    requires
        0 <= i <= s.len(),
        forall|j: int| 0 <= j < i ==> s[j] != '\n',
        i == s.len() || s[i] == '\n',
    ensures
        line_break(s) == i,
    decreases i,
{
    if i != 0 {
        lemma_line_break_at(s.skip(1), i - 1);
    }
}

/// The position of the first newline at or after `pos`, or the length
/// when none is left.
fn find_newline(s: &str, pos: usize) -> (j: usize)
    requires
        pos <= s@.len(),
    ensures
        j - pos == line_break(s@.skip(pos as int)),
        pos <= j <= s@.len(),
        j < s@.len() ==> s@[j as int] == '\n',
{
    let n = s.unicode_len();
    let mut i: usize = pos;
    while i < n
        invariant
            pos <= i <= n,
            n == s@.len(),
            forall|j: int| pos <= j < i ==> s@[j] != '\n',
        decreases n - i,
    {
        if s.get_char(i) == '\n' {
            proof {
                lemma_line_break_at(s@.skip(pos as int), i - pos);
            }
            return i;
        }
        i += 1;
    }
    proof {
        lemma_line_break_at(s@.skip(pos as int), i - pos);
    }
    i
}

/// Whether `c` is one of Rust's whitespace characters.
fn is_whitespace_char(c: char) -> (r: bool)
    ensures
        r == spec_is_whitespace(c),
{
    c == '\u{09}' || c == '\u{0A}' || c == '\u{0B}' || c == '\u{0C}' || c == '\u{0D}' || c == ' '
        || c == '\u{85}' || c == '\u{A0}' || c == '\u{1680}' || ('\u{2000}' <= c && c
        <= '\u{200A}') || c == '\u{2028}' || c == '\u{2029}' || c == '\u{202F}' || c == '\u{205F}'
        || c == '\u{3000}'
}

/// A boundary free of trailing whitespace characterizes the trimmed
/// text.
proof fn lemma_trim_end_at(l: Seq<char>, m: int)
    requires
        0 <= m <= l.len(),
        forall|j: int| m <= j < l.len() ==> spec_is_whitespace(#[trigger] l[j]),
        m == 0 || !spec_is_whitespace(l[m - 1]),
    ensures
        spec_trim_end(l) == l.take(m),
    decreases l.len(),
{
    if m == l.len() {
        if l.len() > 0 && spec_is_whitespace(l.last()) {
            lemma_trim_end_at(l.drop_last(), m - 1);
            assert(l.drop_last() =~= l.take(m - 1));
        } else {
            assert(l.take(m) =~= l);
        }
    } else {
        lemma_trim_end_at(l.drop_last(), m);
        assert(l.drop_last().take(m) =~= l.take(m));
    }
}

/// The trimmed text is a prefix of the original, and a nonempty one
/// never ends in whitespace.
proof fn lemma_trim_end_props(l: Seq<char>)
    ensures
        spec_trim_end(l).len() <= l.len(),
        spec_trim_end(l) == l.take(spec_trim_end(l).len() as int),
        spec_trim_end(l).len() > 0 ==> !spec_is_whitespace(spec_trim_end(l).last()),
    decreases l.len(),
{
    if l.len() > 0 && spec_is_whitespace(l.last()) {
        lemma_trim_end_props(l.drop_last());
        assert(l.drop_last().take(spec_trim_end(l).len() as int) =~= l.take(
            spec_trim_end(l).len() as int,
        ));
    } else {
        assert(l.take(l.len() as int) =~= l);
    }
}

/// The line as the matcher will record it: kept whole when it ends in
/// an escaped space, otherwise with trailing whitespace removed.
fn trim_pattern_line(l: &str) -> (r: &str)
    ensures
        ends_escaped_space(l@) ==> r@ == l@,
        !ends_escaped_space(l@) ==> r@ == spec_trim_end(l@),
{
    let n = l.unicode_len();
    if n >= 2 && l.get_char(n - 2) == '\\' && l.get_char(n - 1) == ' ' {
        return l;
    }
    let mut m: usize = n;
    while m > 0
        invariant
            0 <= m <= n,
            n == l@.len(),
            !ends_escaped_space(l@),
            forall|j: int| m <= j < n ==> spec_is_whitespace(#[trigger] l@[j]),
        decreases m,
    {
        if !is_whitespace_char(l.get_char(m - 1)) {
            proof {
                lemma_trim_end_at(l@, m as int);
            }
            let r = l.substring_char(0, m);
            proof {
                assert(r@ =~= l@.take(m as int));
            }
            return r;
        }
        m -= 1;
    }
    proof {
        lemma_trim_end_at(l@, 0);
    }
    let r = l.substring_char(0, 0);
    proof {
        assert(r@ =~= l@.take(0));
    }
    r
}

/// Builds the ignore matcher from the ignore file's text: one pattern
/// per line, `#` comments and blank lines inert, a leading `!`
/// negating, a trailing `/` restricting the pattern to directories,
/// and a leading byte-order mark dropped. Building succeeds exactly
/// when every pattern parses as a glob and the glob set compiles.
pub fn build_matcher(content: &str) -> (r: Result<ignore::gitignore::Gitignore, PackError>)
    ensures
        r is Ok <==> all_patterns_parse(spec_patterns(strip_boms(content@))) && glob_set_builds(
            spec_patterns(strip_boms(content@)),
        ),
        r is Ok ==> matcher_patterns(r.unwrap()) == spec_patterns(strip_boms(content@)),
        r is Err ==> r == Err::<ignore::gitignore::Gitignore, PackError>(
            PackError::InvalidIgnorePattern,
        ),
{
    let ghost total = spec_patterns(strip_boms(content@));
    let mut b = gitignore_builder_new();
    let n = content.unicode_len();
    let start = bom_prefix_end(content);
    proof {
        assert(builder_patterns(b) + total =~= total);
    }
    let mut pos: usize = start;
    while pos < n
        invariant
            0 <= pos <= n,
            n == content@.len(),
            total == spec_patterns(strip_boms(content@)),
            total == builder_patterns(b) + spec_patterns(content@.skip(pos as int)),
            all_patterns_parse(builder_patterns(b)),
        decreases n - pos,
    {
        let ghost rest = content@.skip(pos as int);
        let k = find_newline(content, pos);
        proof {
            lemma_line_break_le(rest);
        }
        let line_end = if k > pos && content.get_char(k - 1) == '\r' {
            k - 1
        } else {
            k
        };
        let line = content.substring_char(pos, line_end);
        proof {
            assert(rest.take(k - pos) =~= content@.subrange(pos as int, k as int));
            assert(strip_cr(rest.take(k - pos)) =~= line@);
            if k == n {
                assert(spec_patterns(rest) =~= spec_line_patterns(line@));
            } else {
                assert(rest.skip(k - pos + 1) =~= content@.skip(k as int + 1));
                assert(spec_patterns(rest) =~= spec_line_patterns(line@) + spec_patterns(
                    content@.skip(k as int + 1),
                ));
            }
        }
        let ghost prev = builder_patterns(b);
        let mut fed = false;
        if !(line.unicode_len() > 0 && line.get_char(0) == '#') {
            let pattern = trim_pattern_line(line);
            if pattern.unicode_len() > 0 {
                proof {
                    if !ends_escaped_space(line@) {
                        lemma_trim_end_props(line@);
                        assert(pattern@[0] == line@[0]);
                    }
                    assert(effective_pattern(pattern@));
                    assert(spec_line_patterns(line@) =~= seq![pattern@]);
                }
                match gitignore_builder_add_line(&mut b, pattern) {
                    Ok(_) => {},
                    Err(_) => {
                        proof {
                            assert(total[prev.len() as int] == pattern@);
                            assert(!all_patterns_parse(total));
                        }
                        return Err(PackError::InvalidIgnorePattern);
                    },
                }
                fed = true;
                proof {
                    assert forall|t: int| 0 <= t < builder_patterns(b).len() implies glob_parses(
                        #[trigger] builder_patterns(b)[t],
                    ) by {
                        if t < prev.len() {
                            assert(builder_patterns(b)[t] == prev[t]);
                        } else {
                            assert(builder_patterns(b)[t] == pattern@);
                        }
                    }
                }
            }
        }
        proof {
            if !fed {
                assert(spec_line_patterns(line@) =~= Seq::<Seq<char>>::empty());
            }
            assert(builder_patterns(b) =~= prev + spec_line_patterns(line@));
        }
        if k == n {
            proof {
                assert(spec_patterns(content@.skip(n as int)).len() == 0);
                assert(prev + spec_patterns(rest) =~= builder_patterns(b) + spec_patterns(
                    content@.skip(n as int),
                ));
            }
            pos = n;
        } else {
            proof {
                assert(prev + spec_patterns(rest) =~= builder_patterns(b) + spec_patterns(
                    content@.skip(k as int + 1),
                ));
            }
            pos = k + 1;
        }
    }
    proof {
        assert(builder_patterns(b) + spec_patterns(content@.skip(pos as int)) =~= builder_patterns(
            b,
        ));
    }
    match gitignore_builder_build(&b) {
        Ok(g) => Ok(g),
        Err(_) => Err(PackError::InvalidIgnorePattern),
    }
}

/// Some ancestor directory of the path is itself ignored.
pub open spec fn ancestor_ignored(patterns: Seq<Seq<char>>, path: Seq<char>) -> bool {
    exists|i: int|
        0 <= i < path.len() && path[i] == '/' && ignore_verdict(patterns, path.take(i), true)
            == Some(true)
}

/// A path is excluded when its own verdict ignores it, or when any
/// ancestor directory's verdict ignores that ancestor: the walk never
/// descends into an ignored directory, so no negated pattern rescues a
/// descendant.
pub open spec fn spec_excluded(patterns: Seq<Seq<char>>, path: Seq<char>, is_dir: bool) -> bool {
    ignore_verdict(patterns, path, is_dir) == Some(true) || ancestor_ignored(patterns, path)
}

/// The entries of `s` that the ignore policy keeps, in order.
pub open spec fn spec_select(patterns: Seq<Seq<char>>, s: Seq<(Seq<char>, bool)>) -> Seq<
    (Seq<char>, bool),
>
    decreases s.len(),
{
    if s.len() == 0 {
        Seq::empty()
    } else {
        spec_select(patterns, s.drop_last()) + if spec_excluded(patterns, s.last().0, s.last().1) {
            Seq::empty()
        } else {
            seq![s.last()]
        }
    }
}

/// Whether one root-relative path is excluded by the matcher, checking
/// the path itself and each of its ancestor directories.
pub fn is_excluded(g: &ignore::gitignore::Gitignore, path: &str, is_dir: bool) -> (r: bool)
    ensures
        r == spec_excluded(matcher_patterns(*g), path@, is_dir),
{
    let n = path.unicode_len();
    let mut i: usize = 0;
    while i < n
        invariant
            0 <= i <= n,
            n == path@.len(),
            forall|j: int|
                0 <= j < i ==> !(path@[j] == '/' && ignore_verdict(
                    matcher_patterns(*g),
                    path@.take(j),
                    true,
                ) == Some(true)),
        decreases n - i,
    {
        if path.get_char(i) == '/' {
            let prefix = path.substring_char(0, i);
            proof {
                assert(prefix@ =~= path@.take(i as int));
            }
            match gitignore_matched(g, prefix, true) {
                Some(true) => {
                    return true;
                },
                _ => {},
            }
        }
        i += 1;
    }
    match gitignore_matched(g, path, is_dir) {
        Some(true) => true,
        _ => false,
    }
}

/// Filters a walked sequence under the layered ignore policy, keeping
/// order; this is the selection the export feeds downstream.
pub fn select_entries(g: &ignore::gitignore::Gitignore, entries: &Vec<SelectedEntry>) -> (r: Vec<
    SelectedEntry,
>)
    ensures
        r@.map_values(|e: SelectedEntry| e@) == spec_select(
            matcher_patterns(*g),
            entries@.map_values(|e: SelectedEntry| e@),
        ),
{
    let ghost patterns = matcher_patterns(*g);
    let ghost all = entries@.map_values(|e: SelectedEntry| e@);
    let mut r: Vec<SelectedEntry> = Vec::new();
    let n = entries.len();
    let mut i: usize = 0;
    while i < n
        invariant
            0 <= i <= n,
            n == entries@.len(),
            all == entries@.map_values(|e: SelectedEntry| e@),
            patterns == matcher_patterns(*g),
            r@.map_values(|e: SelectedEntry| e@) == spec_select(patterns, all.take(i as int)),
        decreases n - i,
    {
        let entry = &entries[i];
        proof {
            assert(all.take(i as int + 1).drop_last() =~= all.take(i as int));
            assert(all.take(i as int + 1).last() == entry@);
        }
        if !is_excluded(g, entry.path.as_str(), entry.is_dir) {
            let kept = entry.clone();
            proof {
                assert(r@.push(kept).map_values(|e: SelectedEntry| e@) =~= r@.map_values(
                    |e: SelectedEntry| e@,
                ).push(kept@));
                assert(spec_select(patterns, all.take(i as int + 1)) =~= spec_select(
                    patterns,
                    all.take(i as int),
                ).push(entry@));
            }
            r.push(kept);
        } else {
            proof {
                assert(spec_select(patterns, all.take(i as int + 1)) =~= spec_select(
                    patterns,
                    all.take(i as int),
                ));
            }
        }
        i += 1;
    }
    proof {
        assert(all.take(n as int) =~= all);
    }
    r
}

} // verus!
