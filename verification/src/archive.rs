//! The binary in a downloaded archive.
//!
//! A release comes as a compressed tar archive or as a zip archive. What is taken
//! from it is the first file with the expected name, whatever directory it lies in.

use crate::paths;
use crate::reader;
use crate::sendme::string_view;
use crate::text;
use crate::transfer::owned;
use std::io::Read;
use vstd::prelude::*;
use vstd::utf8::{decode_utf8, valid_utf8};

verus! {

// ── Names ──

/// A name that may be missing; what is missing counts as empty.
pub open spec fn or_empty(name: Option<Seq<char>>) -> Seq<char> {
    match name {
        Some(n) => n,
        None => Seq::empty(),
    }
}

fn name_or_empty(name: &Option<String>) -> (r: String)
    ensures
        r@ == or_empty(string_view(*name)),
{
    match name {
        Some(n) => owned(n.as_str()),
        None => {
            let none: Vec<char> = Vec::new();
            let r = text::string_of(none.as_slice());
            assert(r@ =~= Seq::empty());
            r
        },
    }
}

// ── What is listed ──

/// An entry of an archive, as far as the search reads it.
pub enum ListedModel {
    /// The archive cannot be read here.
    Broken(Seq<char>),
    /// No file.
    Skipped,
    Named(Seq<char>),
}

pub enum Listed {
    Broken(String),
    Skipped,
    Named(String),
}

impl View for Listed {
    type V = ListedModel;

    open spec fn view(&self) -> ListedModel {
        match *self {
            Listed::Broken(e) => ListedModel::Broken(e@),
            Listed::Skipped => ListedModel::Skipped,
            Listed::Named(n) => ListedModel::Named(n@),
        }
    }
}

pub open spec fn listing(v: Seq<Listed>) -> Seq<ListedModel> {
    v.map_values(|l: Listed| l@)
}

/// What is said where nothing was found.
pub open spec fn not_contained(expected: Seq<char>) -> Seq<char> {
    "Archive did not contain expected binary '"@ + expected + "'"@
}

/// The first entry from `i` on with the expected name, whatever the case of its
/// letters; what is broken before it ends the search.
pub open spec fn found_from(list: Seq<ListedModel>, expected: Seq<char>, i: nat) -> Result<
    nat,
    Seq<char>,
>
    decreases list.len() - i,
{
    if i >= list.len() {
        Err(not_contained(expected))
    } else {
        match list[i as int] {
            ListedModel::Broken(e) => Err(e),
            ListedModel::Named(n) if text::same_ignoring_case(n, expected) => Ok(i),
            _ => found_from(list, expected, i + 1),
        }
    }
}

/// The first file with the expected name.
pub open spec fn found(list: Seq<ListedModel>, expected: Seq<char>) -> Result<nat, Seq<char>> {
    found_from(list, expected, 0)
}

/// A file that is found has the expected name, and no file before it has.
pub proof fn law_found_is_the_first(list: Seq<ListedModel>, expected: Seq<char>, i: nat)
    requires
        found(list, expected) == Ok::<nat, Seq<char>>(i),
    ensures
        i < list.len(),
        list[i as int] matches ListedModel::Named(n) && text::same_ignoring_case(n, expected),
        forall|j: int|
            #![trigger list[j]]
            0 <= j < i ==> !(list[j] is Broken) && (list[j] matches ListedModel::Named(n)
                ==> !text::same_ignoring_case(n, expected)),
{
    lemma_found_from(list, expected, 0, i);
}

proof fn lemma_found_from(list: Seq<ListedModel>, expected: Seq<char>, from: nat, i: nat)
    requires
        found_from(list, expected, from) == Ok::<nat, Seq<char>>(i),
    ensures
        from <= i < list.len(),
        list[i as int] matches ListedModel::Named(n) && text::same_ignoring_case(n, expected),
        forall|j: int|
            #![trigger list[j]]
            from <= j < i ==> !(list[j] is Broken) && (list[j] matches ListedModel::Named(n)
                ==> !text::same_ignoring_case(n, expected)),
    decreases list.len() - from,
{
    if from < list.len() {
        match list[from as int] {
            ListedModel::Broken(_) => {},
            ListedModel::Named(n) if text::same_ignoring_case(n, expected) => {},
            _ => {
                lemma_found_from(list, expected, from + 1, i);
            },
        }
    }
}

/// Looks for the first file with the expected name.
pub fn find_binary(list: &Vec<Listed>, expected: &str) -> (r: Result<usize, String>)
    ensures
        match r {
            Ok(i) => i < list.len() && found(listing(list@), expected@) == Ok::<nat, Seq<char>>(
                i as nat,
            ),
            Err(e) => found(listing(list@), expected@) == Err::<nat, Seq<char>>(e@),
        },
{
    let ghost all = listing(list@);
    let mut i: usize = 0;
    while i < list.len()
        invariant
            i <= list.len(),
            all == listing(list@),
            found(all, expected@) == found_from(all, expected@, i as nat),
        decreases list.len() - i,
    {
        assert(all[i as int] == list@[i as int]@);
        match &list[i] {
            Listed::Broken(e) => {
                return Err(owned(e.as_str()));
            },
            Listed::Skipped => {},
            Listed::Named(n) => {
                let name = text::chars_of(n.as_str());
                if text::is_ignoring_case(name.as_slice(), expected) {
                    return Ok(i);
                }
            },
        }
        i += 1;
    }
    let mut out = text::chars_of("Archive did not contain expected binary '");
    text::push_text(&mut out, expected);
    text::push_text(&mut out, "'");
    Err(text::string_of(out.as_slice()))
}

/// Contents that were read, or why they were not.
pub open spec fn outcome(r: Result<Vec<u8>, String>) -> Result<Seq<u8>, Seq<char>> {
    match r {
        Ok(v) => Ok(v@),
        Err(e) => Err(e@),
    }
}

// ── Compressed data ──

/// The data in a gzip member, where it can be read.
pub uninterp spec fn gunzipped(data: Seq<u8>) -> Option<Seq<u8>>;

/// `flate2::read::GzDecoder`, read to the end. What it gives is a function of the
/// data alone: the bytes that were compressed, or an error.
#[verifier::external_body]
fn gunzip(data: &[u8]) -> (r: Option<Vec<u8>>)
    ensures
        match r {
            Some(v) => gunzipped(data@) == Some(v@),
            None => gunzipped(data@) is None,
        },
{
    let mut out = Vec::new();
    flate2::read::GzDecoder::new(data).read_to_end(&mut out).ok().map(|_| out)
}

/// What is to be done for a binary that the program carries with it.
pub enum Bundled {
    /// There is none, or it cannot be read.
    Nothing,
    /// It was written before.
    Present,
    Write(Vec<u8>),
}

/// A carried binary is written once; a file of some length is taken to be it.
pub fn extract_bundled_binary(gz_data: &[u8], present_len: Option<u64>) -> (r: Bundled)
    ensures
        if gz_data@.len() == 0 {
            r is Nothing
        } else if present_len is Some && present_len->0 > 0 {
            r is Present
        } else {
            match gunzipped(gz_data@) {
                Some(bytes) => r matches Bundled::Write(v) && v@ == bytes,
                None => r is Nothing,
            }
        },
{
    if gz_data.len() == 0 {
        return Bundled::Nothing;
    }
    match present_len {
        Some(n) => {
            if n > 0 {
                return Bundled::Present;
            }
        },
        None => {},
    }
    match gunzip(gz_data) {
        Some(v) => Bundled::Write(v),
        None => Bundled::Nothing,
    }
}

// ── tar archives ──

/// An entry of a tar archive.
pub struct TarEntry {
    pub is_file: bool,
    pub path: Vec<u8>,
    /// What the system takes for the file name of its path.
    pub system_name: Result<Option<String>, String>,
}

/// The entries of a compressed tar archive in order, each with whether it is a
/// file and with its path; an entry that cannot be read is the last.
pub uninterp spec fn tar_gz_items(bytes: Seq<u8>) -> Result<
    Seq<Result<(bool, Seq<u8>), Seq<char>>>,
    Seq<char>,
>;

/// An entry as it was handed out.
pub open spec fn is_tar_entry(e: Result<TarEntry, String>, item: Result<(bool, Seq<u8>), Seq<char>>) -> bool {
    match (e, item) {
        (Ok(e), Ok((is_file, path))) => {
            &&& e.is_file == is_file
            &&& e.path@ == path
        },
        (Err(e), Err(f)) => e@ == f,
        _ => false,
    }
}

/// The entries of a `tar::Archive` over a `flate2::read::GzDecoder`. Which they
/// are is a function of the bytes alone. Beside the path of each stands what
/// `Path::file_name` makes of it, which depends on the system; of that nothing is
/// claimed.
#[verifier::external_body]
fn tar_gz_entries(bytes: &[u8]) -> (r: Result<Vec<Result<TarEntry, String>>, String>)
    ensures
        match (r, tar_gz_items(bytes@)) {
            (Ok(v), Ok(items)) => v@.len() == items.len() && forall|i: int|
                0 <= i < items.len() ==> is_tar_entry(#[trigger] v@[i], items[i]),
            (Err(e), Err(f)) => e@ == f,
            _ => false,
        },
{
    let mut archive = tar::Archive::new(flate2::read::GzDecoder::new(bytes));
    let entries = archive.entries().map_err(|e| e.to_string())?;
    Ok(entries.map(|item| match item {
        Ok(entry) => Ok(TarEntry {
            is_file: entry.header().entry_type().is_file(),
            path: entry.path_bytes().into_owned(),
            system_name: entry.path().map(|p| {
                p.file_name().and_then(|n| n.to_str()).map(|n| n.to_string())
            }).map_err(|e| e.to_string()),
        }),
        Err(e) => Err(e.to_string()),
    }).collect())
}

/// The contents of an entry of a compressed tar archive.
pub uninterp spec fn tar_gz_contents(bytes: Seq<u8>, i: nat) -> Result<Seq<u8>, Seq<char>>;

/// The entry with a number of a `tar::Archive` over a `flate2::read::GzDecoder`,
/// read to its end. What it gives is a function of the bytes and the number alone.
#[verifier::external_body]
fn read_tar_gz_entry(bytes: &[u8], i: usize) -> (r: Result<Vec<u8>, String>)
    ensures
        outcome(r) == tar_gz_contents(bytes@, i as nat),
{
    let mut out = Vec::new();
    let mut archive = tar::Archive::new(flate2::read::GzDecoder::new(bytes));
    let item = archive.entries().map_err(|e| e.to_string())?.nth(i).ok_or_else(String::new)?;
    item.and_then(|mut entry| entry.read_to_end(&mut out)).map_err(|e| e.to_string())?;
    Ok(out)
}

/// The file name in a path, where that can be said without asking the system: the
/// path is valid UTF-8 and cannot begin with a prefix.
pub open spec fn tar_name(path: Seq<u8>, windows: bool) -> Option<Seq<char>> {
    if valid_utf8(path) && !paths::may_have_prefix(decode_utf8(path), windows) {
        Some(paths::file_name(decode_utf8(path), windows))
    } else {
        None
    }
}

/// An entry as the search reads it. The system's word counts only where the name
/// cannot be said without it.
pub open spec fn tar_listed(e: Result<TarEntry, String>, windows: bool) -> ListedModel {
    match e {
        Err(e) => ListedModel::Broken(e@),
        Ok(e) => if !e.is_file {
            ListedModel::Skipped
        } else {
            match tar_name(e.path@, windows) {
                Some(n) => ListedModel::Named(n),
                None => match e.system_name {
                    Ok(n) => ListedModel::Named(or_empty(string_view(n))),
                    Err(e) => ListedModel::Broken(e@),
                },
            }
        },
    }
}

fn known_name(path: &[u8], windows: bool) -> (r: Option<String>)
    ensures
        string_view(r) == tar_name(path@, windows),
{
    match reader::from_utf8(path) {
        Some(p) => {
            let chars = text::chars_of(p.as_str());
            if paths::is_prefix_possible(chars.as_slice(), windows) {
                None
            } else {
                Some(paths::name_of(chars.as_slice(), windows))
            }
        },
        None => None,
    }
}

/// The entries of a tar archive as the search reads them.
pub fn list_tar(entries: &Vec<Result<TarEntry, String>>, windows: bool) -> (r: Vec<Listed>)
    ensures
        listing(r@) == entries@.map_values(|e: Result<TarEntry, String>| tar_listed(e, windows)),
{
    let ghost all = entries@.map_values(|e: Result<TarEntry, String>| tar_listed(e, windows));
    let mut out: Vec<Listed> = Vec::new();
    let mut i: usize = 0;
    assert(listing(out@) =~= all.take(0));
    while i < entries.len()
        invariant
            i <= entries.len(),
            all == entries@.map_values(|e: Result<TarEntry, String>| tar_listed(e, windows)),
            listing(out@) == all.take(i as int),
        decreases entries.len() - i,
    {
        let l = match &entries[i] {
            Err(e) => Listed::Broken(owned(e.as_str())),
            Ok(e) => if !e.is_file {
                Listed::Skipped
            } else {
                match known_name(e.path.as_slice(), windows) {
                    Some(n) => Listed::Named(n),
                    None => match &e.system_name {
                        Ok(n) => Listed::Named(name_or_empty(n)),
                        Err(e) => Listed::Broken(owned(e.as_str())),
                    },
                }
            },
        };
        let ghost had = out@;
        let ghost model = l@;
        out.push(l);
        assert(listing(out@) =~= listing(had).push(model));
        assert(all.take(i + 1) =~= all.take(i as int).push(all[i as int]));
        i += 1;
    }
    assert(all.take(all.len() as int) =~= all);
    out
}

/// What `list` is of the entries that were handed out for `items`.
pub open spec fn is_tar_listing(
    list: Seq<ListedModel>,
    items: Seq<Result<(bool, Seq<u8>), Seq<char>>>,
    windows: bool,
) -> bool {
    &&& list.len() == items.len()
    &&& forall|i: int|
        #![trigger list[i]]
        0 <= i < items.len() ==> match items[i] {
            Err(e) => list[i] == ListedModel::Broken(e),
            Ok((is_file, path)) => if !is_file {
                list[i] is Skipped
            } else {
                match tar_name(path, windows) {
                    Some(n) => list[i] == ListedModel::Named(n),
                    None => !(list[i] is Skipped),
                }
            },
        }
}

/// There is one listing of a tar archive where every name can be said without asking
/// the system, and so one outcome of a search. Off Windows that is so wherever all
/// paths are valid UTF-8.
pub proof fn law_tar_outcome_is_known(
    bytes: Seq<u8>,
    expected: Seq<char>,
    windows: bool,
    a: Result<Seq<u8>, Seq<char>>,
    b: Result<Seq<u8>, Seq<char>>,
)
    requires
        tar_gz_items(bytes) matches Ok(items) ==> forall|i: int|
            0 <= i < items.len() ==> ((#[trigger] items[i]) matches Ok((_, path)) ==> valid_utf8(
                path,
            ) && !paths::may_have_prefix(decode_utf8(path), windows)),
        is_tar_outcome(bytes, expected, windows, a),
        is_tar_outcome(bytes, expected, windows, b),
    ensures
        a == b,
{
    if let Ok(items) = tar_gz_items(bytes) {
        let v = choose|list: Seq<ListedModel>|
            #![trigger found(list, expected)]
            is_tar_listing(list, items, windows) && a == (match found(list, expected) {
                Err(e) => Err(e),
                Ok(i) => tar_gz_contents(bytes, i),
            });
        let w = choose|list: Seq<ListedModel>|
            #![trigger found(list, expected)]
            is_tar_listing(list, items, windows) && b == (match found(list, expected) {
                Err(e) => Err(e),
                Ok(i) => tar_gz_contents(bytes, i),
            });
        assert forall|i: int| 0 <= i < items.len() implies v[i] == w[i] by {
            assert(items[i] is Ok || items[i] is Err);
        }
        assert(v =~= w);
    }
}

/// What comes of a search for the expected name in a compressed tar archive, for
/// some listing of its entries.
pub open spec fn is_tar_outcome(
    bytes: Seq<u8>,
    expected: Seq<char>,
    windows: bool,
    o: Result<Seq<u8>, Seq<char>>,
) -> bool {
    match tar_gz_items(bytes) {
        Err(e) => o == Err::<Seq<u8>, Seq<char>>(e),
        Ok(items) => exists|list: Seq<ListedModel>|
            #![trigger found(list, expected)]
            is_tar_listing(list, items, windows) && o == (match found(list, expected) {
                Err(e) => Err(e),
                Ok(i) => tar_gz_contents(bytes, i),
            }),
    }
}

/// The contents of the first file of a compressed tar archive with the expected
/// name. How a path is read that is not valid UTF-8, or that may begin with a prefix,
/// is left to the system; the search is the same whatever names it gives.
pub fn extract_binary_from_tar_gz(archive_bytes: &[u8], expected_name: &str, windows: bool) -> (r:
    Result<Vec<u8>, String>)
    ensures
        is_tar_outcome(archive_bytes@, expected_name@, windows, outcome(r)),
{
    match tar_gz_entries(archive_bytes) {
        Err(e) => Err(e),
        Ok(entries) => {
            let list = list_tar(&entries, windows);
            proof {
                let items = tar_gz_items(archive_bytes@)->Ok_0;
                let model = listing(list@);
                assert forall|i: int|
                    #![trigger model[i]]
                    0 <= i < items.len() implies match items[i] {
                    Err(e) => model[i] == ListedModel::Broken(e),
                    Ok((is_file, path)) => if !is_file {
                        model[i] is Skipped
                    } else {
                        match tar_name(path, windows) {
                            Some(n) => model[i] == ListedModel::Named(n),
                            None => !(model[i] is Skipped),
                        }
                    },
                } by {
                    assert(is_tar_entry(entries@[i], items[i]));
                    assert(model[i] == tar_listed(entries@[i], windows));
                }
                assert(is_tar_listing(model, items, windows));
            }
            match find_binary(&list, expected_name) {
                Err(e) => Err(e),
                Ok(i) => read_tar_gz_entry(archive_bytes, i),
            }
        },
    }
}

// ── zip archives ──

/// An entry of a zip archive.
pub struct ZipEntry {
    pub path: String,
    /// What the system takes for the file name of its path.
    pub system_name: Option<String>,
}

/// The entries of a zip archive in order, each with its path or with why it
/// cannot be read.
pub uninterp spec fn zip_items(bytes: Seq<u8>) -> Result<
    Seq<Result<Seq<char>, Seq<char>>>,
    Seq<char>,
>;

pub open spec fn is_zip_entry(e: Result<ZipEntry, String>, item: Result<Seq<char>, Seq<char>>) -> bool {
    match (e, item) {
        (Ok(e), Ok(path)) => e.path@ == path,
        (Err(e), Err(f)) => e@ == f,
        _ => false,
    }
}

/// The entries of a `zip::ZipArchive`, by `by_index`. Which they are is a function
/// of the bytes alone. Beside the path of each stands what `Path::file_name` makes of
/// it, which depends on the system; of that nothing is claimed.
#[verifier::external_body]
fn zip_entries(bytes: &[u8]) -> (r: Result<Vec<Result<ZipEntry, String>>, String>)
    ensures
        match (r, zip_items(bytes@)) {
            (Ok(v), Ok(items)) => v@.len() == items.len() && forall|i: int|
                0 <= i < items.len() ==> is_zip_entry(#[trigger] v@[i], items[i]),
            (Err(e), Err(f)) => e@ == f,
            _ => false,
        },
{
    let mut archive = zip::ZipArchive::new(std::io::Cursor::new(bytes)).map_err(|e| e.to_string())?;
    Ok((0..archive.len()).map(|i| match archive.by_index(i) {
        Ok(entry) => Ok(ZipEntry {
            path: entry.name().to_string(),
            system_name: std::path::Path::new(entry.name()).file_name().and_then(|n| {
                n.to_str()
            }).map(|n| n.to_string()),
        }),
        Err(e) => Err(e.to_string()),
    }).collect())
}

/// The contents of an entry of a zip archive.
pub uninterp spec fn zip_contents(bytes: Seq<u8>, i: nat) -> Result<Seq<u8>, Seq<char>>;

/// The entry with a number of a `zip::ZipArchive`, read to its end. What it gives
/// is a function of the bytes and the number alone.
#[verifier::external_body]
fn read_zip_entry(bytes: &[u8], i: usize) -> (r: Result<Vec<u8>, String>)
    ensures
        outcome(r) == zip_contents(bytes@, i as nat),
{
    let mut out = Vec::new();
    let mut archive = zip::ZipArchive::new(std::io::Cursor::new(bytes)).map_err(|e| e.to_string())?;
    let mut entry = archive.by_index(i).map_err(|e| e.to_string())?;
    entry.read_to_end(&mut out).map_err(|e| e.to_string())?;
    Ok(out)
}

/// An entry as the search reads it: a path that ends in a slash is no file. The
/// system's word counts only where the path may begin with a prefix.
pub open spec fn zip_listed(e: Result<ZipEntry, String>, windows: bool) -> ListedModel {
    match e {
        Err(e) => ListedModel::Broken(e@),
        Ok(e) => if e.path@.len() > 0 && e.path@.last() == '/' {
            ListedModel::Skipped
        } else if paths::may_have_prefix(e.path@, windows) {
            ListedModel::Named(or_empty(string_view(e.system_name)))
        } else {
            ListedModel::Named(paths::file_name(e.path@, windows))
        },
    }
}

/// The entries of a zip archive as the search reads them.
pub fn list_zip(entries: &Vec<Result<ZipEntry, String>>, windows: bool) -> (r: Vec<Listed>)
    ensures
        listing(r@) == entries@.map_values(|e: Result<ZipEntry, String>| zip_listed(e, windows)),
{
    let ghost all = entries@.map_values(|e: Result<ZipEntry, String>| zip_listed(e, windows));
    let mut out: Vec<Listed> = Vec::new();
    let mut i: usize = 0;
    assert(listing(out@) =~= all.take(0));
    while i < entries.len()
        invariant
            i <= entries.len(),
            all == entries@.map_values(|e: Result<ZipEntry, String>| zip_listed(e, windows)),
            listing(out@) == all.take(i as int),
        decreases entries.len() - i,
    {
        let l = match &entries[i] {
            Err(e) => Listed::Broken(owned(e.as_str())),
            Ok(e) => {
                let path = text::chars_of(e.path.as_str());
                if path.len() > 0 && path[path.len() - 1] == '/' {
                    Listed::Skipped
                } else if paths::is_prefix_possible(path.as_slice(), windows) {
                    Listed::Named(name_or_empty(&e.system_name))
                } else {
                    Listed::Named(paths::name_of(path.as_slice(), windows))
                }
            },
        };
        let ghost had = out@;
        let ghost model = l@;
        out.push(l);
        assert(listing(out@) =~= listing(had).push(model));
        assert(all.take(i + 1) =~= all.take(i as int).push(all[i as int]));
        i += 1;
    }
    assert(all.take(all.len() as int) =~= all);
    out
}

/// What `list` is of the entries that were handed out for `items`.
pub open spec fn is_zip_listing(
    list: Seq<ListedModel>,
    items: Seq<Result<Seq<char>, Seq<char>>>,
    windows: bool,
) -> bool {
    &&& list.len() == items.len()
    &&& forall|i: int|
        #![trigger list[i]]
        0 <= i < items.len() ==> match items[i] {
            Err(e) => list[i] == ListedModel::Broken(e),
            Ok(path) => if path.len() > 0 && path.last() == '/' {
                list[i] is Skipped
            } else if !paths::may_have_prefix(path, windows) {
                list[i] == ListedModel::Named(paths::file_name(path, windows))
            } else {
                list[i] is Named
            },
        }
}

/// There is one listing of a zip archive where no path may begin with a prefix, and so
/// one outcome of a search. Off Windows that is always so.
pub proof fn law_zip_outcome_is_known(
    bytes: Seq<u8>,
    expected: Seq<char>,
    windows: bool,
    a: Result<Seq<u8>, Seq<char>>,
    b: Result<Seq<u8>, Seq<char>>,
)
    requires
        zip_items(bytes) matches Ok(items) ==> forall|i: int|
            0 <= i < items.len() ==> ((#[trigger] items[i]) matches Ok(path)
                ==> !paths::may_have_prefix(path, windows)),
        is_zip_outcome(bytes, expected, windows, a),
        is_zip_outcome(bytes, expected, windows, b),
    ensures
        a == b,
{
    if let Ok(items) = zip_items(bytes) {
        let v = choose|list: Seq<ListedModel>|
            #![trigger found(list, expected)]
            is_zip_listing(list, items, windows) && a == (match found(list, expected) {
                Err(e) => Err(e),
                Ok(i) => zip_contents(bytes, i),
            });
        let w = choose|list: Seq<ListedModel>|
            #![trigger found(list, expected)]
            is_zip_listing(list, items, windows) && b == (match found(list, expected) {
                Err(e) => Err(e),
                Ok(i) => zip_contents(bytes, i),
            });
        assert forall|i: int| 0 <= i < items.len() implies v[i] == w[i] by {
            assert(items[i] is Ok || items[i] is Err);
        }
        assert(v =~= w);
    }
}

/// What comes of a search for the expected name in a zip archive, for some listing
/// of its entries.
pub open spec fn is_zip_outcome(
    bytes: Seq<u8>,
    expected: Seq<char>,
    windows: bool,
    o: Result<Seq<u8>, Seq<char>>,
) -> bool {
    match zip_items(bytes) {
        Err(e) => o == Err::<Seq<u8>, Seq<char>>(e),
        Ok(items) => exists|list: Seq<ListedModel>|
            #![trigger found(list, expected)]
            is_zip_listing(list, items, windows) && o == (match found(list, expected) {
                Err(e) => Err(e),
                Ok(i) => zip_contents(bytes, i),
            }),
    }
}

/// The contents of the first file of a zip archive with the expected name. How a
/// path is read that may begin with a prefix is left to the system; the search is the
/// same whatever names it gives.
pub fn extract_binary_from_zip(archive_bytes: &[u8], expected_name: &str, windows: bool) -> (r:
    Result<Vec<u8>, String>)
    ensures
        is_zip_outcome(archive_bytes@, expected_name@, windows, outcome(r)),
{
    match zip_entries(archive_bytes) {
        Err(e) => Err(e),
        Ok(entries) => {
            let list = list_zip(&entries, windows);
            proof {
                let items = zip_items(archive_bytes@)->Ok_0;
                let model = listing(list@);
                assert forall|i: int|
                    #![trigger model[i]]
                    0 <= i < items.len() implies match items[i] {
                    Err(e) => model[i] == ListedModel::Broken(e),
                    Ok(path) => if path.len() > 0 && path.last() == '/' {
                        model[i] is Skipped
                    } else if !paths::may_have_prefix(path, windows) {
                        model[i] == ListedModel::Named(paths::file_name(path, windows))
                    } else {
                        model[i] is Named
                    },
                } by {
                    assert(is_zip_entry(entries@[i], items[i]));
                    assert(model[i] == zip_listed(entries@[i], windows));
                }
                assert(is_zip_listing(model, items, windows));
            }
            match find_binary(&list, expected_name) {
                Err(e) => Err(e),
                Ok(i) => read_zip_entry(archive_bytes, i),
            }
        },
    }
}

/// Takes a binary out of a release, by the way in which the release is packed.
pub fn extract_binary(
    asset: &str,
    archive_bytes: &[u8],
    expected_name: &str,
    windows: bool,
) -> (r: Result<Vec<u8>, String>)
    ensures
        if ".tar.gz"@.is_suffix_of(asset@) {
            is_tar_outcome(archive_bytes@, expected_name@, windows, outcome(r))
        } else if ".zip"@.is_suffix_of(asset@) {
            is_zip_outcome(archive_bytes@, expected_name@, windows, outcome(r))
        } else {
            r matches Err(e) && e@ == "Unsupported archive format: "@ + asset@
        },
{
    let name = text::chars_of(asset);
    if text::ends_with(name.as_slice(), ".tar.gz") {
        extract_binary_from_tar_gz(archive_bytes, expected_name, windows)
    } else if text::ends_with(name.as_slice(), ".zip") {
        extract_binary_from_zip(archive_bytes, expected_name, windows)
    } else {
        let mut out = text::chars_of("Unsupported archive format: ");
        text::push_text(&mut out, asset);
        Err(text::string_of(out.as_slice()))
    }
}

} // verus!
