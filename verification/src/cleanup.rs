//! What is left over from earlier runs: cached tickets that have grown old, and
//! downloads that were never finished.

use crate::display;
use crate::engine;
use crate::engine::{EazyCacheEntry, Session};
use crate::messages;
use crate::numerals;
use crate::sendme;
use crate::session::EntryModel;
use crate::text;
use crate::transfer::owned;
use vstd::prelude::*;

verus! {

/// A ticket is kept for a week; one of an unknown age for good.
pub open spec fn is_old(e: EntryModel, unix_secs: u64) -> bool {
    e.timestamp > 0 && unix_secs > e.timestamp + 604800
}

/// The hashes of the old tickets among the first `n`, each once.
pub open spec fn old_hashes(
    cache: Seq<EntryModel>,
    hashes: Seq<Option<Seq<char>>>,
    unix_secs: u64,
    n: nat,
) -> Seq<Seq<char>>
    decreases n,
{
    if n == 0 || n > cache.len() {
        Seq::empty()
    } else {
        let before = old_hashes(cache, hashes, unix_secs, (n - 1) as nat);
        if n <= hashes.len() && is_old(cache[n - 1], unix_secs) {
            match hashes[n - 1] {
                Some(h) => if before.contains(h) {
                    before
                } else {
                    before.push(h)
                },
                None => before,
            }
        } else {
            before
        }
    }
}

/// No hash is named twice.
pub proof fn law_old_hashes_are_named_once(
    cache: Seq<EntryModel>,
    hashes: Seq<Option<Seq<char>>>,
    unix_secs: u64,
    n: nat,
)
    ensures
        forall|i: int, j: int|
            0 <= i < j < old_hashes(cache, hashes, unix_secs, n).len() ==> #[trigger] old_hashes(
                cache,
                hashes,
                unix_secs,
                n,
            )[i] != #[trigger] old_hashes(cache, hashes, unix_secs, n)[j],
    decreases n,
{
    if n > 0 && n <= cache.len() {
        law_old_hashes_are_named_once(cache, hashes, unix_secs, (n - 1) as nat);
        let before = old_hashes(cache, hashes, unix_secs, (n - 1) as nat);
        let all = old_hashes(cache, hashes, unix_secs, n);
        assert forall|i: int, j: int| 0 <= i < j < all.len() implies #[trigger] all[i]
            != #[trigger] all[j] by {
            if j < before.len() {
                assert(before[i] != before[j]);
            } else {
                assert(all[i] == before[i]);
                assert(before.contains(before[i]));
            }
        }
    }
}

/// The hashes of the old tickets. The hash of each cached ticket is given, where it
/// has one.
pub fn expired_hashes(cache: &Vec<EazyCacheEntry>, hashes: &Vec<Option<String>>, unix_secs: u64) -> (r:
    Vec<String>)
    ensures
        messages::lines_view(r@) == old_hashes(
            engine::entries(cache@),
            engine::hash_views(hashes@),
            unix_secs,
            cache@.len(),
        ),
{
    let ghost all = engine::entries(cache@);
    let ghost hv = engine::hash_views(hashes@);
    let mut out: Vec<String> = Vec::new();
    let mut i: usize = 0;
    assert(messages::lines_view(out@) =~= Seq::empty());
    while i < cache.len()
        invariant
            i <= cache.len(),
            all == engine::entries(cache@),
            hv == engine::hash_views(hashes@),
            messages::lines_view(out@) == old_hashes(all, hv, unix_secs, i as nat),
        decreases cache.len() - i,
    {
        assert(all[i as int] == cache@[i as int]@);
        let stamp = cache[i].timestamp;
        let old = stamp > 0 && unix_secs > stamp && unix_secs - stamp > 604800;
        if old && i < hashes.len() {
            assert(hv[i as int] == sendme::string_view(hashes@[i as int]));
            match &hashes[i] {
                Some(h) => {
                    if !listed(&out, h.as_str()) {
                        let ghost had = out@;
                        let s = owned(h.as_str());
                        let ghost model = s@;
                        out.push(s);
                        assert(messages::lines_view(out@) =~= messages::lines_view(had).push(
                            model,
                        ));
                    }
                },
                None => {},
            }
        }
        i += 1;
    }
    out
}

fn listed(v: &Vec<String>, s: &str) -> (r: bool)
    ensures
        r == messages::lines_view(v@).contains(s@),
{
    let ghost all = messages::lines_view(v@);
    let mut i: usize = 0;
    while i < v.len()
        invariant
            i <= v.len(),
            all == messages::lines_view(v@),
            forall|j: int| 0 <= j < i ==> #[trigger] all[j] != s@,
        decreases v.len() - i,
    {
        assert(all[i as int] == v@[i as int]@);
        if text::same_str(v[i].as_str(), s) {
            return true;
        }
        i += 1;
    }
    false
}

// ── Unfinished downloads ──

/// The hash in the name of a directory in which sendme receives.
pub open spec fn received_hash(name: Seq<char>) -> Option<Seq<char>> {
    if ".sendme-recv-"@.is_prefix_of(name) {
        Some(name.skip(".sendme-recv-"@.len() as int))
    } else {
        None
    }
}

/// A download that was never finished: a directory of sendme's of more than a
/// mebibyte whose ticket is not cached.
pub open spec fn is_unfinished(name: Seq<char>, is_dir: bool, size: u64, cached: Seq<Option<Seq<char>>>) -> bool {
    &&& is_dir
    &&& size > 1048576
    &&& received_hash(name) matches Some(h) && !cached.contains(Some(h))
}

pub struct ScanModel {
    /// The numbers of the paths that were found.
    pub targets: Seq<u64>,
    pub bytes: u64,
}

/// The downloads that were never finished.
pub struct CleanupScan {
    pub targets: Vec<u64>,
    pub bytes: u64,
}

impl View for CleanupScan {
    type V = ScanModel;

    open spec fn view(&self) -> ScanModel {
        ScanModel { targets: self.targets@, bytes: self.bytes }
    }
}

/// A directory is looked at; one that was found before is not counted again.
pub open spec fn looked_at(
    s: ScanModel,
    path: u64,
    name: Seq<char>,
    is_dir: bool,
    size: u64,
    cached: Seq<Option<Seq<char>>>,
) -> ScanModel {
    if is_unfinished(name, is_dir, size, cached) && !s.targets.contains(path) {
        ScanModel { targets: s.targets.push(path), bytes: (s.bytes + size) as u64 }
    } else {
        s
    }
}

/// A download whose ticket is cached is never offered for deletion.
pub proof fn law_cached_downloads_are_kept(
    s: ScanModel,
    path: u64,
    name: Seq<char>,
    is_dir: bool,
    size: u64,
    cached: Seq<Option<Seq<char>>>,
)
    requires
        received_hash(name) matches Some(h) && cached.contains(Some(h)),
    ensures
        looked_at(s, path, name, is_dir, size, cached) == s,
{
}

fn is_cached(cached: &Vec<Option<String>>, hash: &[char]) -> (r: bool)
    ensures
        r == engine::hash_views(cached@).contains(Some(hash@)),
{
    let ghost all = engine::hash_views(cached@);
    let mut i: usize = 0;
    while i < cached.len()
        invariant
            i <= cached.len(),
            all == engine::hash_views(cached@),
            forall|j: int| 0 <= j < i ==> #[trigger] all[j] != Some(hash@),
        decreases cached.len() - i,
    {
        assert(all[i as int] == sendme::string_view(cached@[i as int]));
        match &cached[i] {
            Some(h) => {
                if text::is(hash, h.as_str()) {
                    return true;
                }
            },
            None => {},
        }
        i += 1;
    }
    false
}

/// Whether a directory is a download that was never finished.
pub fn is_unfinished_download(name: &str, is_dir: bool, size: u64, cached: &Vec<Option<String>>) -> (r:
    bool)
    ensures
        r == is_unfinished(name@, is_dir, size, engine::hash_views(cached@)),
{
    if !is_dir || size <= 1048576 {
        return false;
    }
    let chars = text::chars_of(name);
    if !text::starts_with(chars.as_slice(), ".sendme-recv-") {
        return false;
    }
    let n = text::chars_of(".sendme-recv-").len();
    let hash = vstd::slice::slice_subrange(chars.as_slice(), n, chars.len());
    assert(hash@ =~= name@.skip(n as int));
    !is_cached(cached, hash)
}

impl CleanupScan {
    pub fn new() -> (r: CleanupScan)
        ensures
            r@ == (ScanModel { targets: Seq::empty(), bytes: 0 }),
    {
        CleanupScan { targets: Vec::new(), bytes: 0 }
    }

    fn has(&self, path: u64) -> (r: bool)
        ensures
            r == self@.targets.contains(path),
    {
        let mut i: usize = 0;
        while i < self.targets.len()
            invariant
                i <= self.targets.len(),
                forall|j: int| 0 <= j < i ==> self.targets@[j] != path,
            decreases self.targets.len() - i,
        {
            if self.targets[i] == path {
                return true;
            }
            i += 1;
        }
        false
    }

    /// Looks at a directory of `size` bytes.
    pub fn look_at(
        &mut self,
        path: u64,
        name: &str,
        is_dir: bool,
        size: u64,
        cached: &Vec<Option<String>>,
    )
        requires
            old(self)@.bytes + size <= u64::MAX,
        ensures
            final(self)@ == looked_at(
                old(self)@,
                path,
                name@,
                is_dir,
                size,
                engine::hash_views(cached@),
            ),
    {
        if is_unfinished_download(name, is_dir, size, cached) && !self.has(path) {
            self.targets.push(path);
            self.bytes += size;
        }
    }

    /// What is said of what was found.
    pub fn summary(&self) -> (r: String)
        ensures
            r@ == "Found "@ + numerals::decimal(self@.targets.len()) + " folder(s) using "@
                + display::size_unit(self@.bytes) + "."@,
    {
        let mut out = text::chars_of("Found ");
        numerals::push_decimal(&mut out, self.targets.len() as u64);
        text::push_text(&mut out, " folder(s) using ");
        display::push_size_unit(&mut out, self.bytes);
        text::push_text(&mut out, ".");
        text::string_of(out.as_slice())
    }

    /// Whether there is anything to offer for deletion.
    pub fn found_some(&self) -> (r: bool)
        ensures
            r == (self@.targets.len() > 0),
    {
        self.targets.len() > 0
    }
}

impl Session {
    /// The hashes of the cached tickets that have grown old.
    pub fn expired(&self, hashes: &Vec<Option<String>>, unix_secs: u64) -> (r: Vec<String>)
        ensures
            messages::lines_view(r@) == old_hashes(
                self@.cache,
                engine::hash_views(hashes@),
                unix_secs,
                self@.cache.len(),
            ),
    {
        expired_hashes(&self.cache, hashes, unix_secs)
    }
}

} // verus!
