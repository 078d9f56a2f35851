//! The generated bindings, and the archive in which they are kept.
use std::io::{Cursor, Read, Write};
use vstd::prelude::*;

verus! {

/// `zip::result::ZipError`: why an archive could not be written or read.
#[verifier::external_type_specification]
#[verifier::external_body]
pub struct ExZipError(zip::result::ZipError);

/// `zip::ZipWriter` over a buffer in memory.
#[verifier::external_body]
pub struct ArchiveWriter {
    inner: zip::ZipWriter<Cursor<Vec<u8>>>,
}

/// The entries of an archive that is being written, in order, each with its name and with the
/// text that was put into it so far.
pub uninterp spec fn written(writer: ArchiveWriter) -> Seq<(Seq<char>, Seq<char>)>;

/// The text of the entry of that name, as `zip::ZipArchive` reads it; `None` where the bytes
/// are no archive, have no such entry, or the entry is not text.
pub uninterp spec fn entry_text(archive: Seq<u8>, name: Seq<char>) -> Option<Seq<char>>;

/// The bytes that `zip::ZipWriter` gives where entries of these names are started one after the
/// other, each is given its text at once, and the archive is finished; `None` where one of the
/// steps fails. Without the crate's `time` feature, under which entries bear the time of their
/// writing, they depend on the entries alone.
pub uninterp spec fn archive_of(list: Seq<(Seq<char>, Seq<char>)>) -> Option<Seq<u8>>;

/// No archive whose entries begin with these is made.
pub open spec fn never_made(begun: Seq<(Seq<char>, Seq<char>)>) -> bool {
    forall|rest: Seq<(Seq<char>, Seq<char>)>| archive_of(#[trigger] (begun + rest)) is None
}

/// A name of ASCII characters that the format has room for.
pub open spec fn is_short_name(name: &str) -> bool {
    name.is_ascii() && name@.len() <= 0xffff
}

/// How many bytes the names and the texts of the entries have together.
pub open spec fn total_size(list: Seq<(Seq<char>, Seq<char>)>) -> nat
    decreases list.len(),
{
    if list.len() == 0 {
        0
    } else {
        total_size(list.drop_last()) + vstd::utf8::encode_utf8(list.last().0).len()
            + vstd::utf8::encode_utf8(list.last().1).len()
    }
}

/// The entries are so few and so small that no number about them comes near the limits of the
/// format: fewer than 65535, of 2 GiB together.
pub open spec fn all_fit(list: Seq<(Seq<char>, Seq<char>)>) -> bool {
    list.len() < 0xffff && total_size(list) <= 0x8000_0000
}

/// The archive has the entries, and no others.
pub open spec fn keeps(archive: Seq<u8>, list: Seq<(Seq<char>, Seq<char>)>) -> bool {
    &&& forall|i: int|
        0 <= i < list.len() ==> entry_text(archive, (#[trigger] list[i]).0) == Some(list[i].1)
    &&& forall|name: Seq<char>|
        (forall|i: int| 0 <= i < list.len() ==> list[i].0 != name) ==> #[trigger] entry_text(
            archive,
            name,
        ) is None
}

/// `zip::ZipWriter::new`: an archive without entries.
#[verifier::external_body]
fn new_archive() -> (r: ArchiveWriter)
    ensures
        written(r) == Seq::<(Seq<char>, Seq<char>)>::empty(),
{
    ArchiveWriter { inner: zip::ZipWriter::new(Cursor::new(Vec::new())) }
}

/// `zip::ZipWriter::start_file` with the default options: where it succeeds, no entry had
/// the name, and one without text is the last now; where it fails, no archive with such a
/// beginning is made. On which names it succeeds is up to the crate. It panics on a name of
/// more than 65535 bytes.
#[verifier::external_body]
fn start_file(writer: ArchiveWriter, name: &str) -> (r: Result<
    ArchiveWriter,
    zip::result::ZipError,
>)
    requires
        is_short_name(name),
    ensures
        match r {
            Ok(started) => {
                &&& written(started) == written(writer).push((name@, Seq::<char>::empty()))
                &&& forall|i: int|
                    0 <= i < written(writer).len() ==> (#[trigger] written(writer)[i]).0 != name@
            },
            Err(_) => forall|content: Seq<char>|
                never_made(#[trigger] written(writer).push((name@, content))),
        },
{
    let mut writer = writer;
    writer.inner.start_file(name, zip::write::SimpleFileOptions::default())?;
    Ok(writer)
}

/// `write_all` of `zip::ZipWriter`: where it succeeds, the text is that of the last entry,
/// which had none; where it fails, no archive with such a beginning is made. On which texts it
/// succeeds is up to the crate.
#[verifier::external_body]
fn write_text(writer: ArchiveWriter, content: &str) -> (r: Result<
    ArchiveWriter,
    zip::result::ZipError,
>)
    requires
        written(writer).len() > 0,
        written(writer).last().1.len() == 0,
    ensures
        match r {
            Ok(filled) => written(filled) == written(writer).drop_last().push(
                (written(writer).last().0, content@),
            ),
            Err(_) => never_made(
                written(writer).drop_last().push((written(writer).last().0, content@)),
            ),
        },
{
    let mut writer = writer;
    writer.inner.write_all(content.as_bytes())?;
    Ok(writer)
}

/// `zip::ZipWriter::finish`: the bytes of the archive of the entries. Where there are fewer than
/// 65535 entries, of 2 GiB together, reading each entry from them gives the text that was put into
/// it, and there is no other entry. On which entries it succeeds is up to the crate; what is read
/// of an archive of more or larger entries, whose numbers come near the limits of the format, is
/// not said.
#[verifier::external_body]
fn finish(writer: ArchiveWriter) -> (r: Result<Vec<u8>, zip::result::ZipError>)
    ensures
        match r {
            Ok(archive) => {
                &&& archive_of(written(writer)) == Some(archive@)
                &&& all_fit(written(writer)) ==> keeps(archive@, written(writer))
            },
            Err(_) => archive_of(written(writer)) is None,
        },
{
    Ok(writer.inner.finish()?.into_inner())
}

/// `zip::ZipArchive`, opened on the bytes, `by_name`, and `read_to_string` on the entry. The
/// result depends on the bytes and the name alone.
#[verifier::external_body]
fn read_entry(archive: &[u8], name: &str) -> (r: Result<String, zip::result::ZipError>)
    ensures
        match r {
            Ok(content) => entry_text(archive@, name@) == Some(content@),
            Err(_) => entry_text(archive@, name@) is None,
        },
{
    let mut content = String::new();
    zip::ZipArchive::new(Cursor::new(archive))?.by_name(name)?.read_to_string(&mut content)?;
    Ok(content)
}

/// The generated files: the bindings, the enumeration of object identifiers, and the C source
/// of the shim.
pub struct Bindings {
    pub binding: String,
    pub binding_oids: String,
    pub binding_cshim: String,
}

/// What the generated files hold.
pub struct BindingsView {
    pub binding: Seq<char>,
    pub binding_oids: Seq<char>,
    pub binding_cshim: Seq<char>,
}

impl View for Bindings {
    type V = BindingsView;

    open spec fn view(&self) -> BindingsView {
        BindingsView {
            binding: self.binding@,
            binding_oids: self.binding_oids@,
            binding_cshim: self.binding_cshim@,
        }
    }
}

/// The entries under which the files are kept, in order.
pub open spec fn entries(files: BindingsView) -> Seq<(Seq<char>, Seq<char>)> {
    seq![
        ("binding.rs"@, files.binding),
        ("binding_oids.rs"@, files.binding_oids),
        ("binding_cshim.c"@, files.binding_cshim),
    ]
}

/// The files that an archive holds, where it holds all of them.
pub open spec fn files_in(archive: Seq<u8>) -> Option<BindingsView> {
    match (
        entry_text(archive, "binding.rs"@),
        entry_text(archive, "binding_oids.rs"@),
        entry_text(archive, "binding_cshim.c"@),
    ) {
        (Some(binding), Some(binding_oids), Some(binding_cshim)) => Some(
            BindingsView { binding, binding_oids, binding_cshim },
        ),
        _ => None,
    }
}

/// Puts one entry at the end of an archive. Where that fails, no archive with such a beginning
/// is made.
fn add_entry(writer: ArchiveWriter, name: &str, content: &str) -> (r: Result<
    ArchiveWriter,
    zip::result::ZipError,
>)
    requires
        is_short_name(name),
    ensures
        match r {
            Ok(longer) => written(longer) == written(writer).push((name@, content@)),
            Err(_) => never_made(written(writer).push((name@, content@))),
        },
{
    match start_file(writer, name) {
        Ok(started) => {
            assert(written(started).drop_last() =~= written(writer));
            write_text(started, content)
        },
        Err(e) => Err(e),
    }
}

impl Bindings {
    /// The archive of the files, where one is made. Of files of more than 2 GiB together it is
    /// not said that the archive keeps them.
    pub fn pack(&self) -> (r: Result<Vec<u8>, zip::result::ZipError>)
        ensures
            match r {
                Ok(archive) => {
                    &&& archive_of(entries(self@)) == Some(archive@)
                    &&& all_fit(entries(self@)) ==> keeps(archive@, entries(self@))
                },
                Err(_) => archive_of(entries(self@)) is None,
            },
    {
        let ghost list = entries(self@);
        proof {
            reveal_strlit("binding.rs");
            reveal_strlit("binding_oids.rs");
            reveal_strlit("binding_cshim.c");
        }
        let writer = new_archive();
        let writer: ArchiveWriter = match add_entry(writer, "binding.rs", self.binding.as_str()) {
            Ok(longer) => longer,
            Err(e) => {
                assert(list =~= Seq::empty().push(list[0]) + list.skip(1));
                return Err(e);
            },
        };
        assert(written(writer) =~= list.take(1));
        let writer: ArchiveWriter = match add_entry(
            writer,
            "binding_oids.rs",
            self.binding_oids.as_str(),
        ) {
            Ok(longer) => longer,
            Err(e) => {
                assert(list =~= list.take(1).push(list[1]) + list.skip(2));
                return Err(e);
            },
        };
        assert(written(writer) =~= list.take(2));
        let writer: ArchiveWriter = match add_entry(
            writer,
            "binding_cshim.c",
            self.binding_cshim.as_str(),
        ) {
            Ok(longer) => longer,
            Err(e) => {
                assert(list =~= list.take(2).push(list[2]) + list.skip(3));
                return Err(e);
            },
        };
        assert(written(writer) =~= list);
        finish(writer)
    }

    /// The files that the archive holds.
    pub fn unzip(archive: &[u8]) -> (r: Result<Bindings, zip::result::ZipError>)
        ensures
            match r {
                Ok(files) => files_in(archive@) == Some(files@),
                Err(_) => files_in(archive@) is None,
            },
    {
        let binding: String = match read_entry(archive, "binding.rs") {
            Ok(content) => content,
            Err(e) => {
                return Err(e);
            },
        };
        let binding_oids: String = match read_entry(archive, "binding_oids.rs") {
            Ok(content) => content,
            Err(e) => {
                return Err(e);
            },
        };
        let binding_cshim: String = match read_entry(archive, "binding_cshim.c") {
            Ok(content) => content,
            Err(e) => {
                return Err(e);
            },
        };
        Ok(Bindings { binding, binding_oids, binding_cshim })
    }
}

/// What is read from an archive of the files is what was put into it.
pub proof fn packed_files_are_read_back(archive: Seq<u8>, files: BindingsView)
    requires
        keeps(archive, entries(files)),
    ensures
        files_in(archive) == Some(files),
{
    let list = entries(files);
    assert(entry_text(archive, list[0].0) == Some(list[0].1));
    assert(entry_text(archive, list[1].0) == Some(list[1].1));
    assert(entry_text(archive, list[2].0) == Some(list[2].1));
}

/// An archive is sure to keep files that, with the 40 bytes of their names, have at most 2 GiB.
pub proof fn which_files_fit(files: BindingsView)
    ensures
        all_fit(entries(files)) <==> 40 + vstd::utf8::encode_utf8(files.binding).len()
            + vstd::utf8::encode_utf8(files.binding_oids).len() + vstd::utf8::encode_utf8(
            files.binding_cshim,
        ).len() <= 0x8000_0000,
{
    reveal_strlit("binding.rs");
    reveal_strlit("binding_oids.rs");
    reveal_strlit("binding_cshim.c");
    vstd::utf8::is_ascii_chars_encode_utf8("binding.rs"@);
    vstd::utf8::is_ascii_chars_encode_utf8("binding_oids.rs"@);
    vstd::utf8::is_ascii_chars_encode_utf8("binding_cshim.c"@);
    let list = entries(files);
    reveal_with_fuel(total_size, 4);
    assert(list.drop_last().last() == list[1]);
    assert(list.drop_last().drop_last().last() == list[0]);
}

/// The names of the entries differ, so that one archive can hold them all.
pub proof fn entry_names_differ(files: BindingsView, i: int, j: int)
    requires
        0 <= i < j < entries(files).len(),
    ensures
        entries(files)[i].0 != entries(files)[j].0,
{
    reveal_strlit("binding.rs");
    reveal_strlit("binding_oids.rs");
    reveal_strlit("binding_cshim.c");
    assert("binding_oids.rs"@[8] == 'o');
    assert("binding_cshim.c"@[8] == 'c');
    assert("binding.rs"@.len() == 10);
    assert("binding_oids.rs"@.len() == 15);
    assert("binding_cshim.c"@.len() == 15);
}

/// The files are kept under these names, in this order, each with its own text.
pub proof fn files_are_kept_under_their_names(files: BindingsView)
    ensures
        entries(files).len() == 3,
        entries(files)[0] == ("binding.rs"@, files.binding),
        entries(files)[1] == ("binding_oids.rs"@, files.binding_oids),
        entries(files)[2] == ("binding_cshim.c"@, files.binding_cshim),
{
}

/// The files of an archive are the texts of the entries of these three names; where one of them is
/// missing, there are none.
pub proof fn files_are_read_by_their_names(archive: Seq<u8>)
    ensures
        files_in(archive) is Some <==> entry_text(archive, "binding.rs"@) is Some && entry_text(
            archive,
            "binding_oids.rs"@,
        ) is Some && entry_text(archive, "binding_cshim.c"@) is Some,
        files_in(archive) matches Some(files) ==> {
            &&& entry_text(archive, "binding.rs"@) == Some(files.binding)
            &&& entry_text(archive, "binding_oids.rs"@) == Some(files.binding_oids)
            &&& entry_text(archive, "binding_cshim.c"@) == Some(files.binding_cshim)
        },
{
}

} // verus!
