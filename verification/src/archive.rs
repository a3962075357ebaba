use vstd::prelude::*;
use vstd::string::StringExecFns;
use crate::codec::{encode_img, encode_spec};
use crate::error::ArchiveError;
use crate::raster::Raster;

verus! {

/// `zip::result::ZipError`: why the zip writer refused. Nothing is read from
/// it.
#[verifier::external_type_specification]
#[verifier::external_body]
pub struct ExZipError(zip::result::ZipError);

/// `std::io::Error`: why a write failed. Nothing is read from it.
#[verifier::external_type_specification]
#[verifier::external_body]
pub struct ExIoError(std::io::Error);

/// A zip archive that is being written: an ordered collection of named
/// entries, to which entries are only ever added.
///
/// Trusted: it holds a `zip::ZipWriter` over a buffer in memory, of which
/// the library knows only what `archive_entries` names.
#[verifier::external_body]
pub struct Archive {
    writer: zip::ZipWriter<std::io::Cursor<Vec<u8>>>,
}

/// The entries that were written to an archive, oldest first: the name of
/// each and its bytes.
pub uninterp spec fn archive_entries(a: Archive) -> Seq<(Seq<char>, Seq<u8>)>;

/// The archive still takes entries: no call on it has failed.
pub uninterp spec fn archive_open(a: Archive) -> bool;

/// An archive that holds the entries `before` lets an entry of the given
/// name be started.
pub uninterp spec fn start_accepted(before: Seq<(Seq<char>, Seq<u8>)>, name: Seq<char>) -> bool;

/// An archive that holds the entries `before`, the last of them still
/// empty, takes `data` as the content of that entry.
pub uninterp spec fn write_accepted(before: Seq<(Seq<char>, Seq<u8>)>, data: Seq<u8>) -> bool;

/// An archive that holds the given entries can be closed.
pub uninterp spec fn finish_accepted(entries: Seq<(Seq<char>, Seq<u8>)>) -> bool;

/// The zip file that holds the given entries in the given order, each
/// written in one piece with the writer's default options.
pub uninterp spec fn archive_bytes(entries: Seq<(Seq<char>, Seq<u8>)>) -> Seq<u8>;

/// An archive that holds the entries `before` takes one more entry of the
/// given name and content.
pub open spec fn appends(before: Seq<(Seq<char>, Seq<u8>)>, name: Seq<char>, data: Seq<u8>) -> bool {
    &&& start_accepted(before, name)
    &&& write_accepted(before.push((name, Seq::<u8>::empty())), data)
}

/// The `i`-th of the entries is taken after those before it.
pub open spec fn entry_accepted(entries: Seq<(Seq<char>, Seq<u8>)>, i: int) -> bool {
    appends(entries.take(i), entries[i].0, entries[i].1)
}

/// The entries can be written one after the other into a new archive, and
/// the archive can then be closed.
pub open spec fn packs(entries: Seq<(Seq<char>, Seq<u8>)>) -> bool {
    &&& forall|i: int| 0 <= i < entries.len() ==> #[trigger] entry_accepted(entries, i)
    &&& finish_accepted(entries)
}

/// Trusted: `zip::ZipWriter::new` starts an archive without entries, which
/// takes entries.
#[verifier::external_body]
fn zip_new() -> (a: Archive)
    ensures
        archive_entries(a) == Seq::<(Seq<char>, Seq<u8>)>::empty(),
        archive_open(a),
{
    Archive { writer: zip::ZipWriter::new(std::io::Cursor::new(Vec::new())) }
}

/// Trusted: `zip::ZipWriter::start_file`, where it succeeds, has added an
/// empty entry of the given name behind the others. The writer works on a
/// buffer in memory with fixed options, so whether it succeeds depends on
/// the entries written so far and the name alone.
#[verifier::external_body]
fn zip_start_file(a: &mut Archive, name: &str) -> (r: Result<(), zip::result::ZipError>)
    ensures
        r is Ok ==> archive_entries(*final(a)) == archive_entries(*old(a)).push(
            (name@, Seq::<u8>::empty()),
        ),
        archive_open(*old(a)) ==> (r is Ok <==> start_accepted(archive_entries(*old(a)), name@)),
        r is Ok && archive_open(*old(a)) ==> archive_open(*final(a)),
{
    a.writer.start_file(name, zip::write::FileOptions::default())
}

/// Trusted: `std::io::Write::write_all` on a zip writer whose last entry is
/// still empty, where it succeeds, has made the given bytes the content of
/// that entry. Whether it succeeds depends on the entries written so far
/// and the bytes alone.
#[verifier::external_body]
fn zip_write_all(a: &mut Archive, data: &[u8]) -> (r: Result<(), std::io::Error>)
    requires
        archive_entries(*old(a)).len() > 0,
        archive_entries(*old(a)).last().1.len() == 0,
    ensures
        r is Ok ==> archive_entries(*final(a)) == archive_entries(*old(a)).drop_last().push(
            (archive_entries(*old(a)).last().0, data@),
        ),
        archive_open(*old(a)) ==> (r is Ok <==> write_accepted(archive_entries(*old(a)), data@)),
        r is Ok && archive_open(*old(a)) ==> archive_open(*final(a)),
{
    std::io::Write::write_all(&mut a.writer, data)
}

/// Trusted: `zip::ZipWriter::finish`, where it succeeds, returns the zip
/// file of the entries written. Whether it succeeds depends on the entries
/// alone, and on an archive without entries it does: it then only writes
/// the end record into the buffer.
#[verifier::external_body]
fn zip_finish(a: Archive) -> (r: Result<Vec<u8>, zip::result::ZipError>)
    ensures
        r matches Ok(file) ==> file@ == archive_bytes(archive_entries(a)),
        archive_open(a) ==> (r is Ok <==> finish_accepted(archive_entries(a))),
        archive_open(a) && archive_entries(a).len() == 0 ==> r is Ok,
{
    let mut a = a;
    Ok(a.writer.finish()?.into_inner())
}

/// The character of the decimal digit `d`.
pub open spec fn digit(d: nat) -> char {
    if d == 0 {
        '0'
    } else if d == 1 {
        '1'
    } else if d == 2 {
        '2'
    } else if d == 3 {
        '3'
    } else if d == 4 {
        '4'
    } else if d == 5 {
        '5'
    } else if d == 6 {
        '6'
    } else if d == 7 {
        '7'
    } else if d == 8 {
        '8'
    } else {
        '9'
    }
}

/// The decimal digits of `n`, the most significant first.
pub open spec fn decimal(n: nat) -> Seq<char>
    decreases n,
{
    if n < 10 {
        seq![digit(n)]
    } else {
        decimal(n / 10).push(digit(n % 10))
    }
}

/// The name of the entry with index `i`: the index in decimal, then `.png`.
pub open spec fn entry_name_spec(i: nat) -> Seq<char> {
    decimal(i) + seq!['.', 'p', 'n', 'g']
}

/// Different numbers are written differently.
pub proof fn lemma_decimal_injective(a: nat, b: nat)
    requires
        decimal(a) == decimal(b),
    ensures
        a == b,
    decreases a,
{
    if a < 10 && b < 10 {
        assert(decimal(a)[0] == digit(a));
        assert(decimal(b)[0] == digit(b));
    } else if a < 10 {
        assert(decimal(a).len() == 1);
        assert(decimal(b).len() == decimal(b / 10).len() + 1);
        assert(decimal(b / 10).len() >= 1) by {
            if b / 10 >= 10 {
                assert(decimal(b / 10).len() == decimal(b / 10 / 10).len() + 1);
            }
        }
    } else if b < 10 {
        assert(decimal(b).len() == 1);
        assert(decimal(a).len() == decimal(a / 10).len() + 1);
        assert(decimal(a / 10).len() >= 1) by {
            if a / 10 >= 10 {
                assert(decimal(a / 10).len() == decimal(a / 10 / 10).len() + 1);
            }
        }
    } else {
        let x = decimal(a / 10);
        let y = decimal(b / 10);
        assert(decimal(a) == x.push(digit(a % 10)));
        assert(decimal(b) == y.push(digit(b % 10)));
        assert(x.push(digit(a % 10)).drop_last() =~= x);
        assert(y.push(digit(b % 10)).drop_last() =~= y);
        assert(x.push(digit(a % 10)).last() == digit(a % 10));
        assert(y.push(digit(b % 10)).last() == digit(b % 10));
        lemma_decimal_injective(a / 10, b / 10);
    }
}

/// Entries with different indices have different names.
pub proof fn lemma_entry_names_differ(i: nat, j: nat)
    requires
        i != j,
    ensures
        entry_name_spec(i) != entry_name_spec(j),
{
    let tail = seq!['.', 'p', 'n', 'g'];
    if entry_name_spec(i) == entry_name_spec(j) {
        assert((decimal(i) + tail).len() == (decimal(j) + tail).len());
        assert((decimal(i) + tail).subrange(0, decimal(i).len() as int) =~= decimal(i));
        assert((decimal(j) + tail).subrange(0, decimal(j).len() as int) =~= decimal(j));
        lemma_decimal_injective(i, j);
    }
}

fn digit_text(d: usize) -> (s: &'static str)
    requires
        d < 10,
    ensures
        s@ == seq![digit(d as nat)],
{
    proof {
        reveal_strlit("0");
        reveal_strlit("1");
        reveal_strlit("2");
        reveal_strlit("3");
        reveal_strlit("4");
        reveal_strlit("5");
        reveal_strlit("6");
        reveal_strlit("7");
        reveal_strlit("8");
        reveal_strlit("9");
    }
    let s: &'static str = if d == 0 {
        "0"
    } else if d == 1 {
        "1"
    } else if d == 2 {
        "2"
    } else if d == 3 {
        "3"
    } else if d == 4 {
        "4"
    } else if d == 5 {
        "5"
    } else if d == 6 {
        "6"
    } else if d == 7 {
        "7"
    } else if d == 8 {
        "8"
    } else {
        "9"
    };
    assert(s@ =~= seq![digit(d as nat)]);
    s
}

/// Writes `n` in decimal.
pub fn decimal_string(n: usize) -> (s: String)
    ensures
        s@ == decimal(n as nat),
    decreases n,
{
    if n < 10 {
        String::from_str(digit_text(n))
    } else {
        let mut s: String = decimal_string(n / 10);
        s.append(digit_text(n % 10));
        assert(s@ =~= decimal(n as nat));
        s
    }
}

/// The name of the entry with index `i`.
pub fn entry_name(i: usize) -> (name: String)
    ensures
        name@ == entry_name_spec(i as nat),
{
    let mut name: String = decimal_string(i);
    proof {
        reveal_strlit(".png");
    }
    name.append(".png");
    assert(name@ =~= entry_name_spec(i as nat));
    name
}

impl View for Archive {
    type V = Seq<(Seq<char>, Seq<u8>)>;

    open spec fn view(&self) -> Seq<(Seq<char>, Seq<u8>)> {
        archive_entries(*self)
    }
}

impl Archive {
    /// The archive still takes entries.
    pub open spec fn is_open(&self) -> bool {
        archive_open(*self)
    }

    /// An archive without entries.
    pub fn new() -> (a: Archive)
        ensures
            a@ == Seq::<(Seq<char>, Seq<u8>)>::empty(),
            a.is_open(),
    {
        zip_new()
    }

    /// Adds an entry behind the others. On failure the archive is of no
    /// further use.
    pub fn append(&mut self, name: &str, data: &[u8]) -> (r: Result<(), ArchiveError>)
        ensures
            r is Ok ==> final(self)@ == old(self)@.push((name@, data@)),
            r matches Err(e) ==> e == ArchiveError::ContainerError,
            old(self).is_open() ==> (r is Ok <==> appends(old(self)@, name@, data@)),
            r is Ok && old(self).is_open() ==> final(self).is_open(),
    {
        match zip_start_file(self, name) {
            Ok(_) => {},
            Err(_) => { return Err(ArchiveError::ContainerError); },
        }
        match zip_write_all(self, data) {
            Ok(_) => {
                assert(self@ =~= old(self)@.push((name@, data@)));
                Ok(())
            },
            Err(_) => Err(ArchiveError::ContainerError),
        }
    }

    /// Closes the archive and returns the zip file. An archive without
    /// entries can always be closed.
    pub fn finalize(self) -> (r: Result<Vec<u8>, ArchiveError>)
        ensures
            r matches Ok(file) ==> file@ == archive_bytes(self@),
            r matches Err(e) ==> e == ArchiveError::ContainerError,
            self.is_open() ==> (r is Ok <==> finish_accepted(self@)),
            self.is_open() && self@.len() == 0 ==> r is Ok,
    {
        match zip_finish(self) {
            Ok(file) => Ok(file),
            Err(_) => Err(ArchiveError::ContainerError),
        }
    }
}

/// Encodes a raster as PNG and adds it to the archive as entry `i`. Where
/// the raster cannot be encoded the archive is not touched.
pub fn add_img_to_zip(i: usize, img: &Raster, zip: &mut Archive) -> (r: Result<(), ArchiveError>)
    ensures
        r is Ok ==> encode_spec(img@) is Some && final(zip)@ == old(zip)@.push(
            (entry_name_spec(i as nat), encode_spec(img@).unwrap()),
        ),
        r matches Err(e) ==> e == (if encode_spec(img@) is None {
            ArchiveError::EncodeError
        } else {
            ArchiveError::ContainerError
        }),
        encode_spec(img@) is None ==> r is Err && *final(zip) == *old(zip),
        old(zip).is_open() ==> (r is Ok <==> encode_spec(img@) is Some && appends(
            old(zip)@,
            entry_name_spec(i as nat),
            encode_spec(img@).unwrap(),
        )),
        r is Ok && old(zip).is_open() ==> final(zip).is_open(),
{
    let file: Vec<u8> = match encode_img(img) {
        Some(v) => v,
        None => { return Err(ArchiveError::EncodeError); },
    };
    let name: String = entry_name(i);
    zip.append(name.as_str(), file.as_slice())
}

} // verus!
