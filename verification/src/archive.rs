//! The archive sink: buffered entries, written out as one uncompressed
//! zip container only once the whole batch has been fetched.
//!
//! The buffer itself is plain verified data. Only the final serialization
//! goes through the `zip` crate, behind trusted wrappers around an in-memory
//! writer; the ghost `zip_entries` names what has been put into that writer,
//! so the verified loop in `finalize` is known to hand over exactly the
//! buffered pairs, in order.

use vstd::prelude::*;

verus! {

/// An in-memory zip archive being written. Opaque: its contents are tracked
/// only through `zip_entries`.
#[verifier::external_body]
pub struct ZipBuilder {
    inner: zip::write::ZipWriter<std::io::Cursor<Vec<u8>>>,
}

/// The (path, bytes) entries added to a `ZipBuilder` so far, in order.
pub uninterp spec fn zip_entries(b: ZipBuilder) -> Seq<(Seq<char>, Seq<u8>)>;

/// Whether a writer holding `entries` takes one more entry `(path, data)`.
/// `start_file` decides this from the names and sizes alone — it refuses a
/// duplicate or over-long name, or data too large for the plain format — and
/// writing to the in-memory cursor adds no failure of its own.
pub uninterp spec fn zip_add_ok(
    entries: Seq<(Seq<char>, Seq<u8>)>,
    path: Seq<char>,
    data: Seq<u8>,
) -> bool;

/// Whether `finish` succeeds on a writer holding `entries`.
pub uninterp spec fn zip_finish_ok(entries: Seq<(Seq<char>, Seq<u8>)>) -> bool;

/// The serialized archive for `entries`: what `finish` returns on success.
/// With the stored method, no optional features and the constant default
/// timestamp, the bytes are a function of the entries alone.
pub uninterp spec fn zip_bytes_of(entries: Seq<(Seq<char>, Seq<u8>)>) -> Seq<u8>;

/// Whether adding `pairs` in order to a fresh writer succeeds at every step.
pub open spec fn zip_run_adds_ok(pairs: Seq<(Seq<char>, Seq<u8>)>) -> bool
    decreases pairs.len(),
{
    pairs.len() == 0 || {
        &&& zip_run_adds_ok(pairs.drop_last())
        &&& zip_add_ok(pairs.drop_last(), pairs.last().0, pairs.last().1)
    }
}

/// Whether the whole run — every add, then the final serialization — succeeds.
pub open spec fn zip_run_ok(pairs: Seq<(Seq<char>, Seq<u8>)>) -> bool {
    zip_run_adds_ok(pairs) && zip_finish_ok(pairs)
}

pub proof fn lemma_zip_run_adds_ok_prefix(pairs: Seq<(Seq<char>, Seq<u8>)>, i: int)
    requires
        0 <= i <= pairs.len(),
        zip_run_adds_ok(pairs),
    ensures
        zip_run_adds_ok(pairs.subrange(0, i)),
    decreases pairs.len() - i,
{
    if i == pairs.len() {
        assert(pairs.subrange(0, i) =~= pairs);
    } else {
        let t = pairs.subrange(0, i + 1);
        assert(t.drop_last() =~= pairs.subrange(0, i));
        lemma_zip_run_adds_ok_prefix(pairs, i + 1);
    }
}

/// Relies on `zip::write::ZipWriter::new` over an in-memory cursor: a fresh
/// writer holds no entries.
#[verifier::external_body]
pub fn zip_builder_new() -> (b: ZipBuilder)
    ensures
        zip_entries(b) == Seq::<(Seq<char>, Seq<u8>)>::empty(),
{
    ZipBuilder { inner: zip::write::ZipWriter::new(std::io::Cursor::new(Vec::new())) }
}

/// Relies on `zip::write::ZipWriter::start_file` with the stored
/// (uncompressed) method and `std::io::Write::write_all`: whether the entry
/// is taken is a function of the writer's entries and the arguments, and on
/// success the archive has gained exactly this one entry, after those
/// already added.
#[verifier::external_body]
pub fn zip_builder_add(b: &mut ZipBuilder, path: &str, data: &Vec<u8>) -> (r: Result<(), String>)
    ensures
        r is Ok <==> zip_add_ok(zip_entries(*old(b)), path@, data@),
        r is Ok ==> zip_entries(*final(b)) == zip_entries(*old(b)).push((path@, data@)),
{
    let options = zip::write::SimpleFileOptions::default().compression_method(
        zip::CompressionMethod::Stored,
    );
    if let Err(e) = b.inner.start_file(path, options) {
        return Err(e.to_string());
    }
    if let Err(e) = std::io::Write::write_all(&mut b.inner, data.as_slice()) {
        return Err(e.to_string());
    }
    Ok(())
}

/// Relies on `zip::write::ZipWriter::finish` over an in-memory cursor:
/// whether it succeeds, and on success the serialized archive itself, are
/// functions of the writer's entries alone, and the bytes end with the
/// 22-byte end-of-central-directory record.
#[verifier::external_body]
pub fn zip_builder_finish(b: ZipBuilder) -> (r: Result<Vec<u8>, String>)
    ensures
        r is Ok <==> zip_finish_ok(zip_entries(b)),
        r matches Ok(bytes) ==> bytes@ == zip_bytes_of(zip_entries(b)) && bytes@.len() >= 22,
{
    match b.inner.finish() {
        Ok(cursor) => Ok(cursor.into_inner()),
        Err(e) => Err(e.to_string()),
    }
}

/// The views of a sequence of buffered (path, bytes) pairs.
pub open spec fn pairs_view(s: Seq<(String, Vec<u8>)>) -> Seq<(Seq<char>, Seq<u8>)> {
    s.map_values(|p: (String, Vec<u8>)| (p.0@, p.1@))
}

/// The archive sink: buffers every accepted pair, and serializes them all at
/// once — `finalize` is to be called only when the whole batch is fetched.
pub struct ArchiveSink {
    entries: Vec<(String, Vec<u8>)>,
}

impl ArchiveSink {
    /// The buffered (path, bytes) pairs, in acceptance order.
    pub closed spec fn spec_entries(self) -> Seq<(Seq<char>, Seq<u8>)> {
        pairs_view(self.entries@)
    }

    /// An empty sink.
    pub fn new() -> (r: ArchiveSink)
        ensures
            r.spec_entries() == Seq::<(Seq<char>, Seq<u8>)>::empty(),
    {
        let sink = ArchiveSink { entries: Vec::new() };
        proof {
            assert(sink.spec_entries() =~= Seq::<(Seq<char>, Seq<u8>)>::empty());
        }
        sink
    }

    /// How many pairs are buffered.
    pub fn len(&self) -> (n: usize)
        ensures
            n == self.spec_entries().len(),
    {
        self.entries.len()
    }

    /// Buffers one fetched entry.
    pub fn accept(&mut self, path: String, content: Vec<u8>)
        ensures
            final(self).spec_entries() == old(self).spec_entries().push((path@, content@)),
    {
        let ghost before = self.entries@;
        self.entries.push((path, content));
        proof {
            assert(pairs_view(self.entries@) =~= pairs_view(before).push(
                (self.entries@.last().0@, self.entries@.last().1@),
            ));
        }
    }

    /// Serializes every buffered pair, in order, into one uncompressed zip
    /// container, and returns its bytes. It succeeds exactly when the writer
    /// takes the whole run, and the bytes are the archive of exactly the
    /// buffered pairs.
    pub fn finalize(self) -> (r: Result<Vec<u8>, String>)
        ensures
            r is Ok <==> zip_run_ok(self.spec_entries()),
            r matches Ok(bytes) ==> bytes@ == zip_bytes_of(self.spec_entries()) && bytes@.len()
                >= 22,
    {
        let ghost whole = pairs_view(self.entries@);
        let mut builder = zip_builder_new();
        let mut i: usize = 0;
        while i < self.entries.len()
            invariant
                0 <= i <= self.entries@.len(),
                whole == pairs_view(self.entries@),
                whole.len() == self.entries@.len(),
                zip_entries(builder) == whole.subrange(0, i as int),
                zip_run_adds_ok(whole.subrange(0, i as int)),
            decreases self.entries@.len() - i,
        {
            proof {
                assert(whole.subrange(0, i + 1 as int).drop_last() =~= whole.subrange(0, i as int));
                assert(whole.subrange(0, i + 1 as int).last() == (self.entries@[i as int].0@,
                self.entries@[i as int].1@));
            }
            let entry = &self.entries[i];
            match zip_builder_add(&mut builder, entry.0.as_str(), &entry.1) {
                Ok(_) => {},
                Err(e) => {
                    proof {
                        assert(!zip_run_adds_ok(whole.subrange(0, i + 1 as int)));
                        if zip_run_adds_ok(whole) {
                            lemma_zip_run_adds_ok_prefix(whole, i + 1 as int);
                        }
                    }
                    return Err(e);
                },
            }
            proof {
                assert(whole.subrange(0, i + 1 as int) =~= whole.subrange(0, i as int).push(
                    (self.entries@[i as int].0@, self.entries@[i as int].1@),
                ));
            }
            i = i + 1;
        }
        proof {
            assert(whole.subrange(0, self.entries@.len() as int) =~= whole);
        }
        zip_builder_finish(builder)
    }
}

} // verus!
