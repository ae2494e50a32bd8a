//! Packaging the cached page images: the scan for the contiguous run of
//! numbered files, the arguments of the PDF conversion, and CBZ archives.
use vstd::prelude::*;
use std::io::Cursor;
use std::io::Write;
use zip::result::ZipError;
use zip::write::FileOptions;
use zip::ZipWriter;
use crate::text::{decimal, image_file_name, image_suffix};
use crate::extract::string_views;

verus! {

/// The highest image number that a scan looks at.
pub const MAX_IMAGES: usize = 1000;

/// Why an archive could not be built.
#[derive(Debug, Clone, Copy, PartialEq, Eq, Structural)]
pub enum ArchiveError {
    /// No page image was found to convert.
    EmptyInput,
    /// Writing the archive failed.
    Io,
}

/// A CBZ archive being written in memory, through zip's `ZipWriter`.
#[verifier::external_body]
pub struct CbzWriter {
    inner: ZipWriter<Cursor<Vec<u8>>>,
}

/// The entries written so far, each a file name and its contents, in order.
pub uninterp spec fn cbz_contents(w: CbzWriter) -> Seq<(Seq<char>, Seq<u8>)>;

/// Whether the writer still takes entries: it has not been finished, and no
/// write has failed.
pub uninterp spec fn cbz_open(w: CbzWriter) -> bool;

/// The bytes of the archive that zip's `ZipWriter` writes for `entries`,
/// each started with the default options (deflate, default timestamp) and
/// filled in one write.
pub uninterp spec fn zip_archive(entries: Seq<(Seq<char>, Seq<u8>)>) -> Seq<u8>;

/// The largest image, in bytes, that a CBZ entry is promised to take: half
/// of the 4 GiB that zip stores without its large-file option, which leaves
/// room for what compression may add.
pub const MAX_ENTRY_BYTES: usize = 0x7fff_ffff;

/// The entry started last, if any, is small enough for zip to close it.
pub open spec fn last_entry_fits(entries: Seq<(Seq<char>, Seq<u8>)>) -> bool {
    entries.len() == 0 || entries.last().1.len() <= MAX_ENTRY_BYTES
}

/// Every image is small enough for a CBZ entry.
pub open spec fn images_fit(images: Seq<Vec<u8>>) -> bool {
    forall|k: int| 0 <= k < images.len() ==> (#[trigger] images[k])@.len() <= MAX_ENTRY_BYTES
}

#[verifier::external_type_specification]
#[verifier::external_body]
pub struct ExZipError(ZipError);

#[verifier::external_type_specification]
#[verifier::external_body]
pub struct ExIoError(std::io::Error);

/// `n` is where a scan of `present` stops: `present[k]` tells whether the
/// image numbered `k + 1` exists, and the scan takes images from number 1
/// on until the first one missing, the end of `present`, or `MAX_IMAGES`.
pub open spec fn scan_stops_at(present: Seq<bool>, n: int) -> bool {
    &&& 0 <= n <= present.len()
    &&& n <= MAX_IMAGES
    &&& forall|k: int| 0 <= k < n ==> present[k]
    &&& n == present.len() || n == MAX_IMAGES || !present[n]
}

/// The number of images in the contiguous run that starts at number 1.
pub fn contiguous_count(present: &Vec<bool>) -> (n: usize)
    ensures
        scan_stops_at(present@, n as int),
{
    let mut n: usize = 0;
    while n < present.len() && n < MAX_IMAGES && present[n]
        invariant
            n <= present.len(),
            n <= MAX_IMAGES,
            forall|k: int| 0 <= k < n ==> present@[k],
        decreases present.len() - n,
    {
        n += 1;
    }
    n
}

/// A scan includes no image at or after the first missing number, and only
/// one count meets the scan's description.
pub proof fn lemma_scan_stops_at_first_gap(present: Seq<bool>, n: int, gap: int)
    requires
        scan_stops_at(present, n),
        0 <= gap < present.len(),
        !present[gap],
    ensures
        n <= gap,
        forall|m: int| scan_stops_at(present, m) ==> m == n,
{
    assert forall|m: int| scan_stops_at(present, m) implies m == n by {
        if m < n {
            assert(present[m]);
        } else if n < m {
            assert(present[n]);
        }
    };
}

/// The name of the page image in position `k` of a run, counted from 0.
pub open spec fn page_name(k: int) -> Seq<char> {
    decimal((k + 1) as nat) + image_suffix()
}

/// The arguments handed to the image-conversion tool for `count` pages.
pub open spec fn pdf_args(count: nat) -> Seq<Seq<char>> {
    seq![seq!['c', 'o', 'n', 'v', 'e', 'r', 't'], seq!['-', 'q', 'u', 'a', 'l', 'i', 't', 'y'], seq!['1', '0', '0']]
        + Seq::new(count, |k: int| page_name(k)) + seq![seq!['o', 'u', 't', 'p', 'u', 't', '.', 'p', 'd', 'f']]
}

/// The arguments of the PDF conversion of the first `count` page images,
/// run in the staging directory; no conversion without pages.
pub fn pdf_convert_args(count: usize) -> (r: Result<Vec<String>, ArchiveError>)
    ensures
        count == 0 <==> r == Err::<Vec<String>, ArchiveError>(ArchiveError::EmptyInput),
        count > 0 <==> r is Ok,
        r is Ok ==> string_views(r->Ok_0@) == pdf_args(count as nat),
{
    if count == 0 {
        return Err(ArchiveError::EmptyInput);
    }
    proof {
        reveal_strlit("convert");
        reveal_strlit("-quality");
        reveal_strlit("100");
        reveal_strlit("output.pdf");
    }
    let mut args: Vec<String> = Vec::new();
    args.push("convert".to_owned());
    args.push("-quality".to_owned());
    args.push("100".to_owned());
    let ghost head = string_views(args@);
    let mut i: usize = 0;
    while i < count
        invariant
            i <= count,
            args.len() == 3 + i,
            string_views(args@) == head + Seq::new(i as nat, |k: int| page_name(k)),
        decreases count - i,
    {
        let ghost prev = args@;
        let name = image_file_name(i + 1);
        args.push(name);
        assert(string_views(args@) =~= string_views(prev).push(page_name(i as int)));
        assert(string_views(args@) =~= head + Seq::new((i + 1) as nat, |k: int| page_name(k)));
        i += 1;
    }
    let ghost prev = args@;
    args.push("output.pdf".to_owned());
    assert("convert"@ =~= seq!['c', 'o', 'n', 'v', 'e', 'r', 't']);
    assert("-quality"@ =~= seq!['-', 'q', 'u', 'a', 'l', 'i', 't', 'y']);
    assert("100"@ =~= seq!['1', '0', '0']);
    assert("output.pdf"@ =~= seq!['o', 'u', 't', 'p', 'u', 't', '.', 'p', 'd', 'f']);
    assert(string_views(args@) =~= string_views(prev).push("output.pdf"@));
    assert(string_views(args@) =~= pdf_args(count as nat));
    Ok(args)
}

/// Relies on zip's `ZipWriter::new`: a writer over an empty buffer holds no
/// entry and takes new ones.
#[verifier::external_body]
fn new_cbz_writer() -> (r: CbzWriter)
    ensures
        cbz_contents(r) == Seq::<(Seq<char>, Seq<u8>)>::empty(),
        cbz_open(r),
{
    CbzWriter { inner: ZipWriter::new(Cursor::new(Vec::new())) }
}

/// Relies on zip's `ZipWriter::start_file`: it closes the entry started last
/// and appends a new, empty entry named `name`. On an in-memory buffer it
/// fails only where the closed entry exceeds 4 GiB.
#[verifier::external_body]
fn start_cbz_entry(w: &mut CbzWriter, name: &str) -> (r: Result<(), ZipError>)
    ensures
        cbz_open(*old(w)) && last_entry_fits(cbz_contents(*old(w))) ==> r is Ok,
        r is Ok ==> cbz_contents(*final(w)) == cbz_contents(*old(w)).push((name@, Seq::empty()))
            && cbz_open(*final(w)),
{
    w.inner.start_file(name, FileOptions::default())
}

/// Relies on `Write::write_all` of zip's `ZipWriter`: the bytes are added to
/// the entry started last. With an entry started on an open writer over an
/// in-memory buffer it fails only where the entry exceeds 4 GiB.
#[verifier::external_body]
fn write_cbz_bytes(w: &mut CbzWriter, data: &Vec<u8>) -> (r: Result<(), std::io::Error>)
    requires
        cbz_open(*old(w)),
        cbz_contents(*old(w)).len() > 0,
    ensures
        cbz_contents(*old(w)).last().1.len() + data@.len() <= MAX_ENTRY_BYTES ==> r is Ok,
        r is Ok ==> cbz_open(*final(w)) && cbz_contents(*final(w)) == cbz_contents(
            *old(w),
        ).update(
            cbz_contents(*old(w)).len() - 1,
            (cbz_contents(*old(w)).last().0, cbz_contents(*old(w)).last().1 + data@),
        ),
{
    w.inner.write_all(data)
}

/// Relies on zip's `ZipWriter::finish`: closes the entry started last,
/// writes the central directory and hands back the archive's bytes. On an
/// in-memory buffer it fails only where the closed entry exceeds 4 GiB.
#[verifier::external_body]
fn finish_cbz(w: &mut CbzWriter) -> (r: Result<Vec<u8>, ZipError>)
    ensures
        cbz_open(*old(w)) && last_entry_fits(cbz_contents(*old(w))) ==> r is Ok,
        r is Ok ==> r->Ok_0@ == zip_archive(cbz_contents(*old(w))),
{
    w.inner.finish().map(|c| c.into_inner())
}

/// The entries of a CBZ archive of `images`: the image in position `k` is
/// stored unmodified under the page name of `k`.
pub open spec fn cbz_entries(images: Seq<Vec<u8>>) -> Seq<(Seq<char>, Seq<u8>)> {
    Seq::new(images.len(), |k: int| (page_name(k), images[k]@))
}

/// Adds one entry per image to `w`, named `1.jpg`, `2.jpg`, ... in order.
pub fn write_cbz_entries(w: &mut CbzWriter, images: &Vec<Vec<u8>>) -> (r: Result<(), ArchiveError>)
    ensures
        r is Ok ==> cbz_contents(*final(w)) == cbz_contents(*old(w)) + cbz_entries(images@),
        r is Ok && images.len() > 0 ==> cbz_open(*final(w)),
        r is Err ==> r == Err::<(), ArchiveError>(ArchiveError::Io),
        cbz_open(*old(w)) && last_entry_fits(cbz_contents(*old(w))) && images_fit(images@) ==> r is Ok,
        images.len() == 0 ==> r is Ok && *final(w) == *old(w),
{
    let ghost start = cbz_contents(*w);
    let ghost fits = cbz_open(*w) && last_entry_fits(start) && images_fit(images@);
    let mut i: usize = 0;
    if images.len() == 0 {
        return Ok(());
    }
    while i < images.len()
        invariant
            i <= images.len(),
            cbz_contents(*w) == start + cbz_entries(images@.take(i as int)),
            fits ==> cbz_open(*w) && last_entry_fits(cbz_contents(*w)) && images_fit(images@),
            start == cbz_contents(*old(w)),
            fits == (cbz_open(*old(w)) && last_entry_fits(start) && images_fit(images@)),
            i > 0 ==> cbz_open(*w),
            images.len() > 0,
        decreases images.len() - i,
    {
        let name = image_file_name(i + 1);
        match start_cbz_entry(w, name.as_str()) {
            Ok(()) => {},
            Err(_) => {
                return Err(ArchiveError::Io);
            },
        }
        assert(fits ==> images@[i as int]@.len() <= MAX_ENTRY_BYTES);
        assert(cbz_contents(*w).len() > 0 && cbz_contents(*w).last().1.len() == 0);
        match write_cbz_bytes(w, &images[i]) {
            Ok(()) => {},
            Err(_) => {
                return Err(ArchiveError::Io);
            },
        }
        assert(Seq::<u8>::empty() + images@[i as int]@ =~= images@[i as int]@);
        assert(cbz_contents(*w) =~= start + cbz_entries(images@.take(i + 1)));
        i += 1;
    }
    assert(images@.take(images.len() as int) =~= images@);
    Ok(())
}

/// A CBZ archive holding `images` as its pages, `1.jpg`, `2.jpg`, ... in
/// order; an empty list gives an archive with no entry.
pub fn build_cbz(images: &Vec<Vec<u8>>) -> (r: Result<Vec<u8>, ArchiveError>)
    ensures
        r is Ok ==> r->Ok_0@ == zip_archive(cbz_entries(images@)),
        images_fit(images@) ==> r is Ok,
        r is Err ==> r == Err::<Vec<u8>, ArchiveError>(ArchiveError::Io),
{
    let mut w = new_cbz_writer();
    match write_cbz_entries(&mut w, images) {
        Ok(()) => {},
        Err(e) => {
            return Err(e);
        },
    }
    assert(Seq::<(Seq<char>, Seq<u8>)>::empty() + cbz_entries(images@) =~= cbz_entries(images@));
    match finish_cbz(&mut w) {
        Ok(bytes) => Ok(bytes),
        Err(_) => Err(ArchiveError::Io),
    }
}

/// A CBZ archive of no pages is the archive of no entries.
pub proof fn lemma_empty_page_run(images: Seq<Vec<u8>>)
    requires
        images.len() == 0,
    ensures
        cbz_entries(images) == Seq::<(Seq<char>, Seq<u8>)>::empty(),
        images_fit(images),
{
    assert(cbz_entries(images) =~= Seq::<(Seq<char>, Seq<u8>)>::empty());
}

} // verus!
