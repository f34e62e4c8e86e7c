use vstd::prelude::*;
use vstd::string::*;

use crate::error::PackError;
use crate::meta::{render_pack_meta, spec_pack_meta_json};
use crate::models::PackMeta;

verus! {

#[verifier::external_type_specification]
#[verifier::external_body]
pub struct ExZipError(zip::result::ZipError);

/// Holds the outside archive writer over an in-memory cursor. The
/// verifier sees nothing inside; every contract speaks of it through
/// `zip_entries` and `zip_open` alone.
#[verifier::external_body]
pub struct ZipBuffer {
    writer: zip::ZipWriter<std::io::Cursor<Vec<u8>>>,
}

/// The records a writer holds so far, in order: the stored entry name,
/// whether it is a directory record, and the file bytes written to it.
pub uninterp spec fn zip_entries(w: ZipBuffer) -> Seq<(Seq<char>, bool, Seq<u8>)>;

/// Whether the writer's last record is a file still open for writing.
pub uninterp spec fn zip_open(w: ZipBuffer) -> bool;

/// The raw bytes that finishing a writer with these records yields:
/// with the stored method, default options and the crate's constant
/// default timestamp, they are a function of the records alone.
pub uninterp spec fn zip_serialization(entries: Seq<(Seq<char>, bool, Seq<u8>)>) -> Seq<u8>;

/// Some record already carries this stored name.
pub open spec fn zip_name_taken(entries: Seq<(Seq<char>, bool, Seq<u8>)>, name: Seq<char>) -> bool {
    exists|i: int| 0 <= i < entries.len() && (#[trigger] entries[i]).0 == name
}

/// The name's encoding fits the archive's sixteen-bit length field.
pub open spec fn name_fits(name: Seq<char>) -> bool {
    vstd::utf8::encode_utf8(name).len() <= 65535
}

/// A fresh record under this stored name can be started.
pub open spec fn name_free(entries: Seq<(Seq<char>, bool, Seq<u8>)>, name: Seq<char>) -> bool {
    !zip_name_taken(entries, name) && name_fits(name)
}

/// Relies on `zip::ZipWriter::new`: a writer over a fresh in-memory
/// cursor holds no records.
#[verifier::external_body]
fn zip_writer_new() -> (r: ZipBuffer)
    ensures
        zip_entries(r) == Seq::<(Seq<char>, bool, Seq<u8>)>::empty(),
{
    ZipBuffer { writer: zip::ZipWriter::new(std::io::Cursor::new(Vec::new())) }
}

/// Relies on `ZipWriter::add_directory`: it succeeds exactly when no
/// record carries the stored name — the given name with a `/` appended
/// (the name must not already end in a separator) — and that name's
/// encoding fits the sixteen-bit length field; one uncompressed
/// directory record is then appended, and on failure the records are
/// left unchanged.
#[verifier::external_body]
fn zip_add_directory(w: &mut ZipBuffer, name: &str) -> (r: Result<(), zip::result::ZipError>)
    requires
        name@.len() == 0 || (name@.last() != '/' && name@.last() != '\\'),
    ensures
        r is Ok <==> name_free(zip_entries(*old(w)), name@.push('/')),
        r is Ok ==> zip_entries(*final(w)) == zip_entries(*old(w)).push(
            (name@.push('/'), true, Seq::<u8>::empty()),
        ),
        r is Err ==> zip_entries(*final(w)) == zip_entries(*old(w)),
{
    w.writer.add_directory(name, zip::write::SimpleFileOptions::default())
}

/// Relies on `ZipWriter::start_file`: it succeeds exactly when no
/// record carries the name and the name's encoding fits the
/// sixteen-bit length field; a new, empty file record is then appended
/// and left open for writing, and on failure the records are left
/// unchanged.
#[verifier::external_body]
fn zip_start_file(w: &mut ZipBuffer, name: &str) -> (r: Result<(), zip::result::ZipError>)
    ensures
        r is Ok <==> name_free(zip_entries(*old(w)), name@),
        r is Ok ==> zip_entries(*final(w)) == zip_entries(*old(w)).push(
            (name@, false, Seq::<u8>::empty()),
        ) && zip_open(*final(w)),
        r is Err ==> zip_entries(*final(w)) == zip_entries(*old(w)),
{
    w.writer.start_file(name, zip::write::SimpleFileOptions::default())
}

/// Relies on the `std::io::Write` impl of `ZipWriter` (`write_all`):
/// with the last record an open file and the file staying under the
/// four-gigabyte threshold of the default options, writing to the
/// in-memory cursor cannot fail, and the bytes are appended to that
/// record.
#[verifier::external_body]
fn zip_write_all(w: &mut ZipBuffer, buf: &[u8]) -> (r: Result<(), zip::result::ZipError>)
    requires
        zip_open(*old(w)),
        zip_entries(*old(w)).len() > 0,
        !zip_entries(*old(w)).last().1,
        zip_entries(*old(w)).last().2.len() + buf@.len() <= 0xFFFF_FFFF,
    ensures
        r is Ok,
        zip_entries(*final(w)) == zip_entries(*old(w)).update(
            zip_entries(*old(w)).len() - 1,
            (
                zip_entries(*old(w)).last().0,
                false,
                zip_entries(*old(w)).last().2 + buf@,
            ),
        ),
{
    match std::io::Write::write_all(&mut w.writer, buf) {
        Ok(_) => Ok(()),
        Err(e) => Err(zip::result::ZipError::Io(e)),
    }
}

/// Relies on `ZipWriter::finish` and `Cursor::into_inner`: finishing
/// writes the archive's closing structures into the in-memory cursor,
/// which cannot fail, and hands back the raw bytes of the whole
/// archive — a function of the record sequence alone, since the stored
/// method, default options and the crate's constant default timestamp
/// leave nothing else to vary.
#[verifier::external_body]
fn zip_finish(w: ZipBuffer) -> (r: Result<Vec<u8>, zip::result::ZipError>)
    ensures
        r is Ok,
        r is Ok ==> r.unwrap()@ == zip_serialization(zip_entries(w)),
{
    match w.writer.finish() {
        Ok(c) => Ok(c.into_inner()),
        Err(e) => Err(e),
    }
}

/// One record to be written: an archive path, the directory flag, and
/// the bytes of the source file (empty for a directory).
#[derive(Debug)]
pub struct ArchiveRecord {
    pub path: String,
    pub is_dir: bool,
    pub data: Vec<u8>,
}

impl View for ArchiveRecord {
    type V = (Seq<char>, bool, Seq<u8>);

    open spec fn view(&self) -> (Seq<char>, bool, Seq<u8>) {
        (self.path@, self.is_dir, self.data@)
    }
}

/// How one record is stored: a directory under its path with a `/`
/// appended and no bytes, a file under its path with its bytes.
pub open spec fn stored_record(r: (Seq<char>, bool, Seq<u8>)) -> (Seq<char>, bool, Seq<u8>) {
    if r.1 {
        (r.0.push('/'), true, Seq::<u8>::empty())
    } else {
        (r.0, false, r.2)
    }
}

/// The stored form of a whole record sequence, in order.
pub open spec fn stored_records(s: Seq<(Seq<char>, bool, Seq<u8>)>) -> Seq<
    (Seq<char>, bool, Seq<u8>),
> {
    s.map_values(|r: (Seq<char>, bool, Seq<u8>)| stored_record(r))
}

/// The synthesized metadata record: always named `pack.mcmeta`, its
/// bytes the serialized pack metadata.
pub open spec fn spec_meta_record(code: int, desc: Seq<char>) -> (Seq<char>, bool, Seq<u8>) {
    ("pack.mcmeta"@, false, vstd::utf8::encode_utf8(spec_pack_meta_json(code, desc)))
}

/// A directory record at this path can be written: the path carries no
/// trailing separator, its stored name is fresh, and that name fits
/// the archive's length field.
pub open spec fn dir_addable(entries: Seq<(Seq<char>, bool, Seq<u8>)>, path: Seq<char>) -> bool {
    &&& (path.len() == 0 || (path.last() != '/' && path.last() != '\\'))
    &&& name_free(entries, path.push('/'))
}

/// A file record at this path with these bytes can be written: the
/// name is fresh and fits the length field, and the bytes stay under
/// the four-gigabyte threshold.
pub open spec fn file_addable(
    entries: Seq<(Seq<char>, bool, Seq<u8>)>,
    path: Seq<char>,
    data: Seq<u8>,
) -> bool {
    &&& name_free(entries, path)
    &&& data.len() <= 0xFFFF_FFFF
}

/// Whether a whole fill succeeds: each record, in order, must be
/// addable over the records before it, and the metadata record must be
/// addable last.
pub open spec fn spec_fill_ok(
    entries: Seq<(Seq<char>, bool, Seq<u8>)>,
    records: Seq<(Seq<char>, bool, Seq<u8>)>,
    code: int,
    desc: Seq<char>,
) -> bool
    decreases records.len(),
{
    if records.len() == 0 {
        file_addable(
            entries,
            "pack.mcmeta"@,
            vstd::utf8::encode_utf8(spec_pack_meta_json(code, desc)),
        )
    } else {
        &&& if records[0].1 {
            dir_addable(entries, records[0].0)
        } else {
            file_addable(entries, records[0].0, records[0].2)
        }
        &&& spec_fill_ok(entries.push(stored_record(records[0])), records.skip(1), code, desc)
    }
}

/// A streaming archive writer over an in-memory buffer; its view is
/// the sequence of records written so far.
pub struct ArchiveBuilder {
    writer: ZipBuffer,
}

impl View for ArchiveBuilder {
    type V = Seq<(Seq<char>, bool, Seq<u8>)>;

    closed spec fn view(&self) -> Seq<(Seq<char>, bool, Seq<u8>)> {
        zip_entries(self.writer)
    }
}

impl ArchiveBuilder {
    /// A fresh archive with no records.
    pub fn new() -> (r: Self)
        ensures
            r@ == Seq::<(Seq<char>, bool, Seq<u8>)>::empty(),
    {
        ArchiveBuilder { writer: zip_writer_new() }
    }

    /// Writes one directory record at the given archive path; it
    /// succeeds exactly when the record is addable, and on failure the
    /// archive is left unchanged.
    pub fn add_directory(&mut self, path: &str) -> (r: Result<(), PackError>)
        ensures
            r is Ok <==> dir_addable(old(self)@, path@),
            r is Ok ==> final(self)@ == old(self)@.push(
                (path@.push('/'), true, Seq::<u8>::empty()),
            ),
            r is Err ==> r == Err::<(), PackError>(PackError::ArchiveError) && final(self)@ == old(
                self,
            )@,
    {
        let n = path.unicode_len();
        if n > 0 {
            let c = path.get_char(n - 1);
            if c == '/' || c == '\\' {
                return Err(PackError::ArchiveError);
            }
        }
        match zip_add_directory(&mut self.writer, path) {
            Ok(_) => Ok(()),
            Err(_) => Err(PackError::ArchiveError),
        }
    }

    /// Writes one file record at the given archive path with exactly
    /// the given bytes; it succeeds exactly when the record is
    /// addable, and on failure the archive is left unchanged.
    pub fn add_file(&mut self, path: &str, data: &[u8]) -> (r: Result<(), PackError>)
        ensures
            r is Ok <==> file_addable(old(self)@, path@, data@),
            r is Ok ==> final(self)@ == old(self)@.push((path@, false, data@)),
            r is Err ==> r == Err::<(), PackError>(PackError::ArchiveError) && final(self)@ == old(
                self,
            )@,
    {
        if data.len() > 0xFFFF_FFFF {
            return Err(PackError::ArchiveError);
        }
        match zip_start_file(&mut self.writer, path) {
            Ok(_) => {},
            Err(_) => {
                return Err(PackError::ArchiveError);
            },
        }
        match zip_write_all(&mut self.writer, data) {
            Ok(_) => {
                proof {
                    assert(Seq::<u8>::empty() + data@ =~= data@);
                    assert(zip_entries(self.writer) =~= old(self)@.push((path@, false, data@)));
                }
                Ok(())
            },
            Err(_) => Err(PackError::ArchiveError),
        }
    }

    /// Writes the synthesized metadata record for the given pack
    /// metadata; it succeeds exactly when that record is addable.
    pub fn add_metadata(&mut self, meta: &PackMeta) -> (r: Result<(), PackError>)
        ensures
            r is Ok <==> file_addable(
                old(self)@,
                "pack.mcmeta"@,
                vstd::utf8::encode_utf8(
                    spec_pack_meta_json(meta.pack.pack_format as int, meta.pack.description@),
                ),
            ),
            r is Ok ==> final(self)@ == old(self)@.push(
                spec_meta_record(meta.pack.pack_format as int, meta.pack.description@),
            ),
            r is Err ==> r == Err::<(), PackError>(PackError::ArchiveError) && final(self)@ == old(
                self,
            )@,
    {
        let json = render_pack_meta(meta);
        let bytes = json.as_str().as_bytes();
        self.add_file("pack.mcmeta", bytes)
    }

    /// Writes every record of `records` in its stored form, in order,
    /// then exactly one metadata record last: the archive's record
    /// sequence is the stored mapped sequence plus the synthesized
    /// metadata entry. Filling succeeds exactly when every record, and
    /// the metadata record after them, is addable in turn.
    pub fn fill(&mut self, records: &Vec<ArchiveRecord>, meta: &PackMeta) -> (r: Result<
        (),
        PackError,
    >)
        ensures
            r is Ok <==> spec_fill_ok(
                old(self)@,
                records@.map_values(|e: ArchiveRecord| e@),
                meta.pack.pack_format as int,
                meta.pack.description@,
            ),
            r is Ok ==> final(self)@ == old(self)@ + stored_records(
                records@.map_values(|e: ArchiveRecord| e@),
            ) + seq![spec_meta_record(meta.pack.pack_format as int, meta.pack.description@)],
            r is Err ==> r == Err::<(), PackError>(PackError::ArchiveError),
    {
        let ghost all = records@.map_values(|e: ArchiveRecord| e@);
        let ghost code = meta.pack.pack_format as int;
        let ghost desc = meta.pack.description@;
        let n = records.len();
        let mut i: usize = 0;
        proof {
            assert(stored_records(all.take(0)) =~= Seq::<(Seq<char>, bool, Seq<u8>)>::empty());
            assert(old(self)@ + stored_records(all.take(0)) =~= old(self)@);
            assert(all.skip(0) =~= all);
        }
        while i < n
            invariant
                0 <= i <= n,
                n == records@.len(),
                all == records@.map_values(|e: ArchiveRecord| e@),
                code == meta.pack.pack_format as int,
                desc == meta.pack.description@,
                self@ == old(self)@ + stored_records(all.take(i as int)),
                spec_fill_ok(old(self)@, all, code, desc) == spec_fill_ok(
                    self@,
                    all.skip(i as int),
                    code,
                    desc,
                ),
            decreases n - i,
        {
            let rec = &records[i];
            let ghost before = self@;
            proof {
                assert(all.skip(i as int)[0] == rec@);
                assert(all.skip(i as int).skip(1) =~= all.skip(i as int + 1));
            }
            let added = if rec.is_dir {
                self.add_directory(rec.path.as_str())
            } else {
                self.add_file(rec.path.as_str(), rec.data.as_slice())
            };
            match added {
                Ok(_) => {},
                Err(_) => {
                    proof {
                        assert(!spec_fill_ok(before, all.skip(i as int), code, desc));
                    }
                    return Err(PackError::ArchiveError);
                },
            }
            proof {
                assert(all.take(i as int + 1).drop_last() =~= all.take(i as int));
                assert(all.take(i as int + 1).last() == rec@);
                assert(self@ =~= before.push(stored_record(rec@)));
                assert(stored_records(all.take(i as int + 1)) =~= stored_records(
                    all.take(i as int),
                ).push(stored_record(rec@)));
                assert(before.push(stored_record(rec@)) =~= old(self)@ + stored_records(
                    all.take(i as int + 1),
                ));
            }
            i += 1;
        }
        proof {
            assert(all.take(n as int) =~= all);
            assert(all.skip(n as int).len() == 0);
        }
        let ghost before_meta = self@;
        match self.add_metadata(meta) {
            Ok(_) => {
                proof {
                    assert(before_meta.push(spec_meta_record(code, desc)) =~= old(self)@
                        + stored_records(all) + seq![spec_meta_record(code, desc)]);
                }
                Ok(())
            },
            Err(_) => Err(PackError::ArchiveError),
        }
    }

    /// Finishes the archive, which an in-memory writer always can, and
    /// hands back its raw bytes: the serialization of the records
    /// written.
    pub fn finish(self) -> (r: Result<Vec<u8>, PackError>)
        ensures
            r is Ok,
            r is Ok ==> r.unwrap()@ == zip_serialization(self@),
    {
        let ArchiveBuilder { writer } = self;
        match zip_finish(writer) {
            Ok(bytes) => Ok(bytes),
            Err(_) => Err(PackError::ArchiveError),
        }
    }
}

} // verus!
