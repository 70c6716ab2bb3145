//! Transient screenshot assets.
//!
//! Screenshot bytes are never part of a raw event or of the database. They
//! live briefly in memory, keyed by the raw event they illustrate, until the
//! analysis queue takes them or they expire.
use vstd::prelude::*;
use std::time::{Duration, Instant};
use crate::text::{string_from, chars_of};
use crate::time::{duration_as_nanos, duration_from_secs, duration_at_least, instant_now, instant_elapsed};

verus! {

/// Seconds a screenshot may wait for analysis before it is purged.
pub const DEFAULT_SCREENSHOT_RETENTION_SECS: u64 = 30;

/// How long a screenshot may wait for analysis: 30 seconds.
pub fn default_screenshot_retention() -> (d: Duration)
    ensures
        duration_as_nanos(d) == DEFAULT_SCREENSHOT_RETENTION_SECS as nat * 1_000_000_000,
{
    duration_from_secs(DEFAULT_SCREENSHOT_RETENTION_SECS)
}

/// Moments worth a screenshot.
#[derive(Debug, Clone, Copy, PartialEq, Eq, Structural)]
pub enum ScreenshotTrigger {
    AppActivated,
    WindowTitleChanged,
    DoubleClick,
    RightClick,
    TextSelected,
    DragEnded,
    ElementFocused,
}

impl ScreenshotTrigger {
    /// Whether this trigger justifies a screenshot; every listed trigger is
    /// an explicit, meaningful moment.
    pub fn meaningful(self) -> (r: bool)
        ensures
            r,
    {
        true
    }
}

/// A screenshot held in memory for the event `raw_event_id`.
#[derive(Debug)]
pub struct TransientScreenshotAsset {
    pub raw_event_id: String,
    pub queue_task_id: Option<String>,
    pub captured_at: Instant,
    pub bytes: Vec<u8>,
    pub mime_type: String,
}

/// Whether an asset can be analysed: it has bytes and an `image/` type.
pub open spec fn asset_is_valid(a: TransientScreenshotAsset) -> bool {
    &&& a.bytes@.len() > 0
    &&& a.mime_type@.len() >= 6
    &&& a.mime_type@.take(6) == "image/"@
}

fn starts_with_image(s: &str) -> (r: bool)
    ensures
        r == (s@.len() >= 6 && s@.take(6) == "image/"@),
{
    proof {
        reveal_strlit("image/");
    }
    let cs = chars_of(s);
    if cs.len() < 6 {
        return false;
    }
    let prefix = ['i', 'm', 'a', 'g', 'e', '/'];
    let mut i: usize = 0;
    while i < 6
        invariant
            cs@ == s@,
            s@.len() >= 6,
            i <= 6,
            prefix@ == "image/"@,
            forall|j: int| 0 <= j < i ==> s@[j] == prefix@[j],
        decreases 6 - i,
    {
        if cs[i] != prefix[i] {
            assert(s@.take(6)[i as int] != "image/"@[i as int]);
            return false;
        }
        i = i + 1;
    }
    assert(s@.take(6) =~= "image/"@);
    true
}

impl TransientScreenshotAsset {
    /// A screenshot of the event `raw_event_id`, captured now, not yet tied
    /// to a queue task.
    pub fn new(raw_event_id: String, bytes: Vec<u8>, mime_type: &str) -> (a: Self)
        ensures
            a.raw_event_id == raw_event_id,
            a.queue_task_id is None,
            a.bytes == bytes,
            a.mime_type@ == mime_type@,
    {
        TransientScreenshotAsset {
            raw_event_id,
            queue_task_id: None,
            captured_at: instant_now(),
            bytes,
            mime_type: string_from(mime_type),
        }
    }

    /// Whether an asset captured `elapsed` ago has been kept for at least
    /// `retention`.
    pub fn expired_after(&self, elapsed: Duration, retention: Duration) -> (r: bool)
        ensures
            r == (duration_as_nanos(elapsed) >= duration_as_nanos(retention)),
    {
        duration_at_least(elapsed, retention)
    }

    /// Whether the asset is at least `retention` old: [`Self::expired_after`]
    /// applied to the time elapsed since its capture, which the clock gives.
    /// Every asset is expired for a zero retention.
    pub fn expired(&self, retention: Duration) -> (r: bool)
        ensures
            duration_as_nanos(retention) == 0 ==> r,
    {
        self.expired_after(instant_elapsed(&self.captured_at), retention)
    }

    /// Whether the asset has bytes and an image MIME type.
    pub fn is_valid(&self) -> (r: bool)
        ensures
            r == asset_is_valid(*self),
    {
        !self.bytes.is_empty() && starts_with_image(self.mime_type.as_str())
    }
}

// ---------------------------------------------------------------------------
// The store
// ---------------------------------------------------------------------------

/// The raw-event ids of a list of assets.
pub open spec fn asset_ids(s: Seq<TransientScreenshotAsset>) -> Seq<Seq<char>> {
    s.map_values(|a: TransientScreenshotAsset| a.raw_event_id@)
}

/// The assets of a list, by raw-event id.
pub open spec fn assets_by_id(s: Seq<TransientScreenshotAsset>) -> Map<
    Seq<char>,
    TransientScreenshotAsset,
> {
    Map::new(
        |k: Seq<char>| asset_ids(s).contains(k),
        |k: Seq<char>| s[asset_ids(s).index_of(k)],
    )
}

proof fn lemma_unique_index(s: Seq<TransientScreenshotAsset>, i: int)
    requires
        asset_ids(s).no_duplicates(),
        0 <= i < s.len(),
    ensures
        asset_ids(s).index_of(s[i].raw_event_id@) == i,
        assets_by_id(s).contains_key(s[i].raw_event_id@),
        assets_by_id(s)[s[i].raw_event_id@] == s[i],
{
    let ids = asset_ids(s);
    assert(ids[i] == s[i].raw_event_id@);
    assert(ids.contains(s[i].raw_event_id@));
    let j = ids.index_of(s[i].raw_event_id@);
    assert(0 <= j < ids.len() && ids[j] == s[i].raw_event_id@);
}

proof fn lemma_push(s: Seq<TransientScreenshotAsset>, a: TransientScreenshotAsset)
    requires
        asset_ids(s).no_duplicates(),
        !asset_ids(s).contains(a.raw_event_id@),
    ensures
        asset_ids(s.push(a)).no_duplicates(),
        assets_by_id(s.push(a)) == assets_by_id(s).insert(a.raw_event_id@, a),
{
    let t = s.push(a);
    let ids_s = asset_ids(s);
    let ids_t = asset_ids(t);
    assert(ids_t =~= ids_s.push(a.raw_event_id@));
    assert forall|i: int, j: int| 0 <= i < ids_t.len() && 0 <= j < ids_t.len() && i != j implies ids_t[i]
        != ids_t[j] by {
        if i < s.len() && j < s.len() {
            assert(ids_t[i] == ids_s[i]);
            assert(ids_t[j] == ids_s[j]);
        } else if i < s.len() {
            assert(ids_t[i] == ids_s[i]);
            assert(ids_t[j] == a.raw_event_id@);
        } else {
            assert(ids_t[j] == ids_s[j]);
            assert(ids_t[i] == a.raw_event_id@);
        }
    }
    assert(ids_t.no_duplicates());
    assert forall|k: Seq<char>| ids_t.contains(k) <==> (ids_s.contains(k) || k == a.raw_event_id@) by {
        if ids_t.contains(k) {
            let x = choose|x: int| 0 <= x < ids_t.len() && ids_t[x] == k;
            if x < s.len() {
                assert(ids_s[x] == k);
            }
        }
        if ids_s.contains(k) {
            let x = choose|x: int| 0 <= x < ids_s.len() && ids_s[x] == k;
            assert(ids_t[x] == k);
        }
        if k == a.raw_event_id@ {
            assert(ids_t[s.len() as int] == k);
        }
    }
    let m = assets_by_id(s).insert(a.raw_event_id@, a);
    assert(assets_by_id(t).dom() =~= m.dom());
    assert forall|k: Seq<char>| #[trigger] assets_by_id(t).contains_key(k) implies assets_by_id(t)[k]
        == m[k] by {
        if k == a.raw_event_id@ {
            lemma_unique_index(t, s.len() as int);
        } else {
            let x = choose|x: int| 0 <= x < ids_t.len() && ids_t[x] == k;
            assert(x < s.len());
            assert(ids_s[x] == k);
            lemma_unique_index(s, x);
            lemma_unique_index(t, x);
        }
    }
    assert(assets_by_id(t) =~= m);
}

proof fn lemma_update(s: Seq<TransientScreenshotAsset>, i: int, a: TransientScreenshotAsset)
    requires
        asset_ids(s).no_duplicates(),
        0 <= i < s.len(),
        a.raw_event_id@ == s[i].raw_event_id@,
    ensures
        asset_ids(s.update(i, a)).no_duplicates(),
        assets_by_id(s.update(i, a)) == assets_by_id(s).insert(a.raw_event_id@, a),
{
    let t = s.update(i, a);
    assert(asset_ids(t) =~= asset_ids(s));
    let m = assets_by_id(s).insert(a.raw_event_id@, a);
    lemma_unique_index(s, i);
    assert(assets_by_id(t).dom() =~= m.dom());
    assert forall|k: Seq<char>| #[trigger] assets_by_id(t).contains_key(k) implies assets_by_id(t)[k]
        == m[k] by {
        let x = choose|x: int| 0 <= x < asset_ids(t).len() && asset_ids(t)[x] == k;
        lemma_unique_index(t, x);
        if x != i {
            lemma_unique_index(s, x);
        }
    }
    assert(assets_by_id(t) =~= m);
}

proof fn lemma_remove(s: Seq<TransientScreenshotAsset>, i: int)
    requires
        asset_ids(s).no_duplicates(),
        0 <= i < s.len(),
    ensures
        asset_ids(s.remove(i)).no_duplicates(),
        assets_by_id(s.remove(i)) == assets_by_id(s).remove(s[i].raw_event_id@),
{
    let t = s.remove(i);
    let k0 = s[i].raw_event_id@;
    let ids_s = asset_ids(s);
    let ids_t = asset_ids(t);
    assert(ids_t =~= ids_s.remove(i));
    assert forall|x: int, y: int| 0 <= x < ids_t.len() && 0 <= y < ids_t.len() && x != y implies ids_t[x]
        != ids_t[y] by {
        let xs = if x < i { x } else { x + 1 };
        let ys = if y < i { y } else { y + 1 };
        assert(ids_t[x] == ids_s[xs]);
        assert(ids_t[y] == ids_s[ys]);
    }
    assert(ids_t.no_duplicates());
    assert forall|k: Seq<char>| ids_t.contains(k) <==> (ids_s.contains(k) && k != k0) by {
        if ids_t.contains(k) {
            let x = choose|x: int| 0 <= x < ids_t.len() && ids_t[x] == k;
            let xs = if x < i { x } else { x + 1 };
            assert(ids_s[xs] == k);
            assert(ids_s[i] == k0);
        }
        if ids_s.contains(k) && k != k0 {
            let x = choose|x: int| 0 <= x < ids_s.len() && ids_s[x] == k;
            assert(x != i);
            if x < i {
                assert(ids_t[x] == k);
            } else {
                assert(ids_t[x - 1] == k);
            }
        }
    }
    let m = assets_by_id(s).remove(k0);
    assert(assets_by_id(t).dom() =~= m.dom());
    assert forall|k: Seq<char>| #[trigger] assets_by_id(t).contains_key(k) implies assets_by_id(t)[k]
        == m[k] by {
        let x = choose|x: int| 0 <= x < ids_t.len() && ids_t[x] == k;
        lemma_unique_index(t, x);
        if x < i {
            lemma_unique_index(s, x);
        } else {
            lemma_unique_index(s, x + 1);
        }
    }
    assert(assets_by_id(t) =~= m);
}

proof fn lemma_len(s: Seq<TransientScreenshotAsset>)
    requires
        asset_ids(s).no_duplicates(),
    ensures
        assets_by_id(s).len() == s.len(),
        assets_by_id(s).dom().finite(),
{
    asset_ids(s).unique_seq_to_set();
    assert(assets_by_id(s).dom() =~= asset_ids(s).to_set());
}

fn position_in(assets: &Vec<TransientScreenshotAsset>, raw_event_id: &str) -> (r: Option<usize>)
    ensures
        r matches Some(i) ==> i < assets@.len() && asset_ids(assets@)[i as int] == raw_event_id@,
        r is None ==> !asset_ids(assets@).contains(raw_event_id@),
{
    let wanted = string_from(raw_event_id);
    let mut i: usize = 0;
    while i < assets.len()
        invariant
            wanted@ == raw_event_id@,
            i <= assets@.len(),
            forall|j: int| 0 <= j < i ==> asset_ids(assets@)[j] != raw_event_id@,
        decreases assets@.len() - i,
    {
        if assets[i].raw_event_id == wanted {
            return Some(i);
        }
        i = i + 1;
    }
    proof {
        if asset_ids(assets@).contains(raw_event_id@) {
            let j = asset_ids(assets@).index_of(raw_event_id@);
            assert(asset_ids(assets@)[j] == raw_event_id@);
        }
    }
    None
}

/// Ages of stored screenshots, by raw-event id, as plain values.
pub open spec fn age_views(ages: Seq<(String, Duration)>) -> Seq<(Seq<char>, Duration)> {
    ages.map_values(|a: (String, Duration)| (a.0@, a.1))
}

/// Whether `ages` gives the screenshot of `id` an age of at least
/// `retention_ns` nanoseconds.
pub open spec fn aged_out(ages: Seq<(Seq<char>, Duration)>, id: Seq<char>, retention_ns: nat) -> bool {
    exists|i: int|
        0 <= i < ages.len() && (#[trigger] ages[i]).0 == id && duration_as_nanos(ages[i].1) >= retention_ns
}

/// Whether `ages` gives an age to every screenshot of `assets`.
pub open spec fn ages_cover(ages: Seq<(Seq<char>, Duration)>, assets: Map<Seq<char>, TransientScreenshotAsset>) -> bool {
    forall|k: Seq<char>| #[trigger] assets.contains_key(k) ==> exists|i: int| 0 <= i < ages.len() && (#[trigger] ages[i]).0 == k
}

/// `assets` without the screenshots that `ages` shows at least
/// `retention_ns` nanoseconds old; the others stay unchanged.
pub open spec fn purged(
    assets: Map<Seq<char>, TransientScreenshotAsset>,
    ages: Seq<(Seq<char>, Duration)>,
    retention_ns: nat,
) -> Map<Seq<char>, TransientScreenshotAsset> {
    Map::new(|k: Seq<char>| assets.contains_key(k) && !aged_out(ages, k, retention_ns), |k: Seq<char>| assets[k])
}

/// Decides [`aged_out`] for one id.
fn is_aged_out(ages: &Vec<(String, Duration)>, id: &String, retention: Duration) -> (r: bool)
    ensures
        r == aged_out(age_views(ages@), id@, duration_as_nanos(retention)),
{
    let ghost v = age_views(ages@);
    let mut i: usize = 0;
    while i < ages.len()
        invariant
            v == age_views(ages@),
            i <= ages@.len(),
            forall|j: int|
                0 <= j < i ==> !((#[trigger] v[j]).0 == id@ && duration_as_nanos(v[j].1) >= duration_as_nanos(
                    retention,
                )),
        decreases ages@.len() - i,
    {
        if ages[i].0 == *id && duration_at_least(ages[i].1, retention) {
            assert(v[i as int].0 == id@);
            return true;
        }
        i = i + 1;
    }
    false
}

/// In-memory screenshots awaiting analysis, at most one per raw event.
pub struct TransientScreenshotStore {
    assets: Vec<TransientScreenshotAsset>,
}

impl TransientScreenshotStore {
    #[verifier::type_invariant]
    spec fn unique_events(&self) -> bool {
        asset_ids(self.assets@).no_duplicates()
    }

    /// The stored screenshots, by raw-event id.
    pub closed spec fn assets(&self) -> Map<Seq<char>, TransientScreenshotAsset> {
        assets_by_id(self.assets@)
    }

    /// Stores a valid asset, replacing any earlier screenshot of the same
    /// event; an invalid asset is refused.
    pub fn insert(&mut self, asset: TransientScreenshotAsset) -> (r: bool)
        ensures
            r == asset_is_valid(asset),
            r ==> final(self).assets() == old(self).assets().insert(asset.raw_event_id@, asset),
            !r ==> final(self).assets() == old(self).assets(),
            final(self).assets().dom().finite(),
    {
        proof {
            use_type_invariant(&*self);
        }
        proof {
            lemma_len(self.assets@);
        }
        if !asset.is_valid() {
            return false;
        }
        let mut assets = Vec::new();
        std::mem::swap(&mut assets, &mut self.assets);
        let ghost before = assets@;
        match position_in(&assets, asset.raw_event_id.as_str()) {
            Some(i) => {
                proof {
                    lemma_update(before, i as int, asset);
                }
                assets.set(i, asset);
            },
            None => {
                proof {
                    lemma_push(before, asset);
                }
                assets.push(asset);
            },
        }
        proof {
            lemma_len(assets@);
        }
        self.assets = assets;
        true
    }

    /// Ties the screenshot of `raw_event_id` to the queue task that will
    /// analyse it; false, changing nothing, when there is no such screenshot.
    pub fn associate_queue_task(&mut self, raw_event_id: &str, queue_task_id: String) -> (r: bool)
        ensures
            r == old(self).assets().contains_key(raw_event_id@),
            r ==> final(self).assets() == old(self).assets().insert(
                raw_event_id@,
                TransientScreenshotAsset {
                    queue_task_id: Some(queue_task_id),
                    ..old(self).assets()[raw_event_id@]
                },
            ),
            !r ==> final(self).assets() == old(self).assets(),
            final(self).assets().dom().finite(),
    {
        proof {
            use_type_invariant(&*self);
        }
        let mut assets = Vec::new();
        std::mem::swap(&mut assets, &mut self.assets);
        let ghost before = assets@;
        let found = match position_in(&assets, raw_event_id) {
            Some(i) => {
                let mut asset = assets.remove(i);
                let ghost old_asset = asset;
                asset.queue_task_id = Some(queue_task_id);
                assets.insert(i, asset);
                proof {
                    lemma_unique_index(before, i as int);
                    assert(assets@ =~= before.update(i as int, asset));
                    lemma_update(before, i as int, asset);
                }
                true
            },
            None => {
                proof {
                    assert(!assets_by_id(before).contains_key(raw_event_id@));
                }
                false
            },
        };
        proof {
            lemma_len(assets@);
        }
        self.assets = assets;
        found
    }

    /// Removes and returns the screenshot of `raw_event_id`, if any; the
    /// store keeps no copy.
    pub fn take(&mut self, raw_event_id: &str) -> (r: Option<TransientScreenshotAsset>)
        ensures
            old(self).assets().contains_key(raw_event_id@) ==> r == Some(
                old(self).assets()[raw_event_id@],
            ) && final(self).assets() == old(self).assets().remove(raw_event_id@),
            !old(self).assets().contains_key(raw_event_id@) ==> r is None && final(self).assets()
                == old(self).assets(),
            final(self).assets().dom().finite(),
    {
        proof {
            use_type_invariant(&*self);
        }
        let mut assets = Vec::new();
        std::mem::swap(&mut assets, &mut self.assets);
        let ghost before = assets@;
        let taken = match position_in(&assets, raw_event_id) {
            Some(i) => {
                proof {
                    lemma_unique_index(before, i as int);
                    lemma_remove(before, i as int);
                }
                Some(assets.remove(i))
            },
            None => None,
        };
        proof {
            lemma_len(assets@);
        }
        self.assets = assets;
        taken
    }

    /// Drops every screenshot that `ages` shows at least `retention` old and
    /// keeps the others unchanged. `ages` gives the time elapsed since each
    /// capture, by raw-event id; a screenshot without an age stays.
    pub fn remove_expired(&mut self, ages: &Vec<(String, Duration)>, retention: Duration)
        ensures
            final(self).assets() == purged(old(self).assets(), age_views(ages@), duration_as_nanos(retention)),
            final(self).assets().dom().finite(),
    {
        proof {
            use_type_invariant(&*self);
        }
        let ghost v = age_views(ages@);
        let ghost ns = duration_as_nanos(retention);
        let mut remaining = Vec::new();
        std::mem::swap(&mut remaining, &mut self.assets);
        let ghost s = remaining@;
        let ghost mut pos: Seq<int> = Seq::empty();
        let mut kept: Vec<TransientScreenshotAsset> = Vec::new();
        while remaining.len() > 0
            invariant
                v == age_views(ages@),
                ns == duration_as_nanos(retention),
                asset_ids(s).no_duplicates(),
                remaining@ == s.take(remaining@.len() as int),
                remaining@.len() <= s.len(),
                pos.len() == kept@.len(),
                forall|x: int|
                    0 <= x < pos.len() ==> remaining@.len() <= #[trigger] pos[x] < s.len()
                        && kept@[x] == s[pos[x]] && !aged_out(v, s[pos[x]].raw_event_id@, ns),
                forall|x: int, y: int| 0 <= x < y < pos.len() ==> #[trigger] pos[x] > #[trigger] pos[y],
                forall|j: int|
                    remaining@.len() <= j < s.len() ==> aged_out(v, (#[trigger] s[j]).raw_event_id@, ns)
                        || exists|x: int| 0 <= x < pos.len() && pos[x] == j,
            decreases remaining@.len(),
        {
            let ghost r = remaining@.len() as int;
            let ghost old_pos = pos;
            let asset = remaining.pop().unwrap();
            assert(remaining@ =~= s.take(r - 1));
            assert(asset == s[r - 1]);
            if !is_aged_out(ages, &asset.raw_event_id, retention) {
                proof {
                    pos = pos.push(r - 1);
                    assert(pos[pos.len() - 1] == r - 1);
                }
                kept.push(asset);
            }
            proof {
                assert forall|j: int| remaining@.len() <= j < s.len() implies aged_out(
                    v,
                    (#[trigger] s[j]).raw_event_id@,
                    ns,
                ) || exists|x: int| 0 <= x < pos.len() && pos[x] == j by {
                    if !aged_out(v, s[j].raw_event_id@, ns) {
                        if j == r - 1 {
                            assert(pos[pos.len() - 1] == j);
                        } else {
                            let x = choose|x: int| 0 <= x < old_pos.len() && old_pos[x] == j;
                            assert(pos[x] == j);
                        }
                    }
                }
            }
        }
        proof {
            assert forall|x: int, y: int|
                0 <= x < kept@.len() && 0 <= y < kept@.len() && x != y implies asset_ids(kept@)[x]
                != asset_ids(kept@)[y] by {
                assert(asset_ids(kept@)[x] == asset_ids(s)[pos[x]]);
                assert(asset_ids(kept@)[y] == asset_ids(s)[pos[y]]);
                assert(pos[x] != pos[y]);
            }
            assert(asset_ids(kept@).no_duplicates());
            let m = purged(assets_by_id(s), v, ns);
            assert forall|k: Seq<char>| #[trigger] assets_by_id(kept@).contains_key(k) implies m.contains_key(k)
                && assets_by_id(kept@)[k] == m[k] by {
                let x = choose|x: int| 0 <= x < asset_ids(kept@).len() && asset_ids(kept@)[x] == k;
                lemma_unique_index(kept@, x);
                lemma_unique_index(s, pos[x]);
            }
            assert forall|k: Seq<char>| #[trigger] m.contains_key(k) implies assets_by_id(kept@).contains_key(k) by {
                let j = choose|j: int| 0 <= j < asset_ids(s).len() && asset_ids(s)[j] == k;
                assert(s[j].raw_event_id@ == k);
                let x = choose|x: int| 0 <= x < pos.len() && pos[x] == j;
                assert(asset_ids(kept@)[x] == k);
            }
            assert(assets_by_id(kept@) =~= m);
            lemma_len(kept@);
        }
        self.assets = kept;
    }

    /// Drops every screenshot at least `retention` old, by the clock: the
    /// time elapsed since each capture is read and handed to
    /// [`Self::remove_expired`]. Whatever the clock reads, what remains is
    /// part of what was stored, unchanged; with a zero retention nothing
    /// remains.
    pub fn purge_expired(&mut self, retention: Duration)
        ensures
            exists|ages: Seq<(Seq<char>, Duration)>|
                #[trigger] ages_cover(ages, old(self).assets()) && final(self).assets() == purged(
                    old(self).assets(),
                    ages,
                    duration_as_nanos(retention),
                ),
            forall|k: Seq<char>|
                #[trigger] final(self).assets().contains_key(k) ==> old(self).assets().contains_key(
                    k,
                ) && final(self).assets()[k] == old(self).assets()[k],
            duration_as_nanos(retention) == 0 ==> final(self).assets().dom().is_empty(),
            final(self).assets().dom().finite(),
    {
        proof {
            use_type_invariant(&*self);
        }
        let ghost s = self.assets@;
        let mut ages: Vec<(String, Duration)> = Vec::new();
        let mut i: usize = 0;
        while i < self.assets.len()
            invariant
                s == self.assets@,
                i <= s.len(),
                ages@.len() == i,
                forall|j: int| 0 <= j < i ==> (#[trigger] age_views(ages@)[j]).0 == s[j].raw_event_id@,
            decreases s.len() - i,
        {
            let elapsed = instant_elapsed(&self.assets[i].captured_at);
            let ghost before = ages@;
            ages.push((self.assets[i].raw_event_id.clone(), elapsed));
            assert(age_views(ages@)[i as int] == (s[i as int].raw_event_id@, elapsed));
            assert forall|j: int| 0 <= j < i implies (#[trigger] age_views(ages@)[j]).0 == s[j].raw_event_id@ by {
                assert(age_views(ages@)[j] == age_views(before)[j]);
            }
            i = i + 1;
        }
        let ghost v = age_views(ages@);
        let ghost old_assets = assets_by_id(s);
        proof {
            assert forall|k: Seq<char>| #[trigger] old_assets.contains_key(k) implies exists|i: int|
                0 <= i < v.len() && (#[trigger] v[i]).0 == k by {
                let j = choose|j: int| 0 <= j < asset_ids(s).len() && asset_ids(s)[j] == k;
                assert(v[j].0 == k);
            }
            assert(ages_cover(v, old_assets));
        }
        self.remove_expired(&ages, retention);
        proof {
            if duration_as_nanos(retention) == 0 {
                assert forall|k: Seq<char>| !#[trigger] self.assets().contains_key(k) by {
                    if old_assets.contains_key(k) {
                        let i = choose|i: int| 0 <= i < v.len() && (#[trigger] v[i]).0 == k;
                        assert(aged_out(v, k, 0));
                    }
                }
                assert(self.assets().dom() =~= Set::<Seq<char>>::empty());
            }
        }
    }

    /// Drops every screenshot at least the default retention of 30 seconds
    /// old: the same as [`Self::purge_expired`] with that retention.
    pub fn purge_default_retention(&mut self)
        ensures
            exists|ages: Seq<(Seq<char>, Duration)>|
                #[trigger] ages_cover(ages, old(self).assets()) && final(self).assets() == purged(
                    old(self).assets(),
                    ages,
                    DEFAULT_SCREENSHOT_RETENTION_SECS as nat * 1_000_000_000,
                ),
            forall|k: Seq<char>|
                #[trigger] final(self).assets().contains_key(k) ==> old(self).assets().contains_key(
                    k,
                ) && final(self).assets()[k] == old(self).assets()[k],
            final(self).assets().dom().finite(),
    {
        let retention = default_screenshot_retention();
        self.purge_expired(retention);
    }

    /// How many screenshots are held.
    pub fn len(&self) -> (n: usize)
        ensures
            n == self.assets().len(),
            self.assets().dom().finite(),
    {
        proof {
            use_type_invariant(self);
            lemma_len(self.assets@);
        }
        self.assets.len()
    }
}

/// Taking a screenshot right after storing it gives that screenshot back,
/// and leaves the store as it was apart from that event's screenshot.
pub proof fn law_take_returns_inserted(
    before: Map<Seq<char>, TransientScreenshotAsset>,
    asset: TransientScreenshotAsset,
)
    ensures
        before.insert(asset.raw_event_id@, asset).contains_key(asset.raw_event_id@),
        before.insert(asset.raw_event_id@, asset)[asset.raw_event_id@] == asset,
        before.insert(asset.raw_event_id@, asset).remove(asset.raw_event_id@) == before.remove(
            asset.raw_event_id@,
        ),
{
    assert(before.insert(asset.raw_event_id@, asset).remove(asset.raw_event_id@) =~= before.remove(
        asset.raw_event_id@,
    ));
}

/// The number of stored screenshots grows by one when a screenshot of a new
/// event is stored, stays when one is replaced, and drops by one when a
/// stored one is taken.
pub proof fn law_len_follows_insert_and_take(
    before: Map<Seq<char>, TransientScreenshotAsset>,
    asset: TransientScreenshotAsset,
)
    requires
        before.dom().finite(),
    ensures
        before.insert(asset.raw_event_id@, asset).len() == before.len() + (if before.contains_key(
            asset.raw_event_id@,
        ) {
            0int
        } else {
            1int
        }),
        before.contains_key(asset.raw_event_id@) ==> before.remove(asset.raw_event_id@).len()
            == before.len() - 1,
{
    let k = asset.raw_event_id@;
    if before.contains_key(k) {
        assert(before.insert(k, asset).dom() =~= before.dom());
    } else {
        assert(before.insert(k, asset).dom() =~= before.dom().insert(k));
    }
    assert(before.remove(k).dom() =~= before.dom().remove(k));
}

impl Default for TransientScreenshotStore {
    fn default() -> (s: Self)
        ensures
            s.assets() == Map::<Seq<char>, TransientScreenshotAsset>::empty(),
            s.assets().dom().finite(),
    {
        let s = TransientScreenshotStore { assets: Vec::new() };
        assert(s.assets() =~= Map::<Seq<char>, TransientScreenshotAsset>::empty());
        s
    }
}

/// Captures the active window as PNG bytes.
pub trait ActiveWindowScreenshotProvider: Send {
    fn capture_active_window(&self) -> Result<Vec<u8>, String>;
}

} // verus!
