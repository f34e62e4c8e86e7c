use vstd::prelude::*;
use vstd::string::*;

use crate::strutil::{str_eq, str_has_prefix};

verus! {

/// A filesystem node that survived ignore filtering, named by its
/// root-relative path with `/` separators.
#[derive(Debug)]
pub struct SelectedEntry {
    pub path: String,
    pub is_dir: bool,
}

impl Clone for SelectedEntry {
    fn clone(&self) -> (r: Self)
        ensures
            r == *self,
    {
        SelectedEntry { path: self.path.clone(), is_dir: self.is_dir }
    }
}

impl View for SelectedEntry {
    type V = (Seq<char>, bool);

    open spec fn view(&self) -> (Seq<char>, bool) {
        (self.path@, self.is_dir)
    }
}

/// The mapped form of a selected entry: where it will sit inside the
/// archive, and which source path its contents come from.
#[derive(Debug)]
pub struct ArchiveEntry {
    pub archive_path: String,
    pub is_dir: bool,
    pub source_path: String,
}

impl Clone for ArchiveEntry {
    fn clone(&self) -> (r: Self)
        ensures
            r == *self,
    {
        ArchiveEntry {
            archive_path: self.archive_path.clone(),
            is_dir: self.is_dir,
            source_path: self.source_path.clone(),
        }
    }
}

impl View for ArchiveEntry {
    type V = (Seq<char>, bool, Seq<char>);

    open spec fn view(&self) -> (Seq<char>, bool, Seq<char>) {
        (self.archive_path@, self.is_dir, self.source_path@)
    }
}

/// The root-prefix stripping rule: the reserved pack-assets directory
/// itself maps to nothing, a path under it loses that one leading
/// segment, and every other path passes through unchanged.
pub open spec fn spec_map_path(p: Seq<char>) -> Option<Seq<char>> {
    if p == "pack"@ {
        None
    } else if p.len() > "pack/"@.len() && p.take("pack/"@.len() as int) == "pack/"@ {
        Some(p.skip("pack/"@.len() as int))
    } else {
        Some(p)
    }
}

/// The mapped entries of a selected sequence, in order: each entry's
/// path is mapped, and entries whose mapping is empty are dropped.
pub open spec fn spec_map_entries(s: Seq<(Seq<char>, bool)>) -> Seq<(Seq<char>, bool, Seq<char>)>
    decreases s.len(),
{
    if s.len() == 0 {
        Seq::empty()
    } else {
        spec_map_entries(s.drop_last()) + match spec_map_path(s.last().0) {
            Some(ap) => seq![(ap, s.last().1, s.last().0)],
            None => Seq::empty(),
        }
    }
}

/// Law: a selected entry at a nonempty relative path is either dropped
/// entirely or mapped to a nonempty archive path; the mapping never
/// produces an empty archive record name.
pub proof fn lemma_map_path_nonempty(p: Seq<char>)
    requires
        p.len() > 0,
    ensures
        spec_map_path(p) is Some ==> spec_map_path(p).unwrap().len() > 0,
{
}

/// Maps one root-relative path to its archive path, or to nothing when
/// the entry is the reserved directory itself.
pub fn map_archive_path(p: &str) -> (r: Option<String>)
    ensures
        r is Some <==> spec_map_path(p@) is Some,
        r is Some ==> r.unwrap()@ == spec_map_path(p@).unwrap(),
{
    if str_eq(p, "pack") {
        None
    } else {
        let n = p.unicode_len();
        let np = "pack/".unicode_len();
        if n > np && str_has_prefix(p, "pack/") {
            let stripped = p.substring_char(np, n);
            proof {
                assert(stripped@ =~= p@.skip("pack/"@.len() as int));
            }
            Some(String::from_str(stripped))
        } else {
            Some(String::from_str(p))
        }
    }
}

/// Maps a selected sequence in order, dropping entries that map to
/// nothing; the mapping is pure and order-preserving.
pub fn map_entries(entries: &Vec<SelectedEntry>) -> (r: Vec<ArchiveEntry>)
    ensures
        r@.map_values(|e: ArchiveEntry| e@) == spec_map_entries(
            entries@.map_values(|e: SelectedEntry| e@),
        ),
{
    let ghost all = entries@.map_values(|e: SelectedEntry| e@);
    let mut r: Vec<ArchiveEntry> = Vec::new();
    let n = entries.len();
    let mut i: usize = 0;
    while i < n
        invariant
            0 <= i <= n,
            n == entries@.len(),
            all == entries@.map_values(|e: SelectedEntry| e@),
            r@.map_values(|e: ArchiveEntry| e@) == spec_map_entries(all.take(i as int)),
        decreases n - i,
    {
        let entry = &entries[i];
        proof {
            assert(all.take(i as int + 1).drop_last() =~= all.take(i as int));
            assert(all.take(i as int + 1).last() == entry@);
        }
        match map_archive_path(entry.path.as_str()) {
            Some(ap) => {
                let mapped = ArchiveEntry {
                    archive_path: ap,
                    is_dir: entry.is_dir,
                    source_path: entry.path.clone(),
                };
                proof {
                    assert(r@.push(mapped).map_values(|e: ArchiveEntry| e@) =~= r@.map_values(
                        |e: ArchiveEntry| e@,
                    ).push(mapped@));
                    assert(spec_map_entries(all.take(i as int + 1)) =~= spec_map_entries(
                        all.take(i as int),
                    ).push(mapped@));
                }
                r.push(mapped);
            },
            None => {
                proof {
                    assert(spec_map_entries(all.take(i as int + 1)) =~= spec_map_entries(
                        all.take(i as int),
                    ));
                }
            },
        }
        i += 1;
    }
    proof {
        assert(all.take(n as int) =~= all);
    }
    r
}

} // verus!
