//! The media index: an in-memory, time-bounded snapshot of the artifact
//! store. The filesystem stays authoritative; a refresh replaces the
//! snapshot wholesale from a fresh store listing, and reads impose the
//! newest-first ordering. Reading the clock and scanning the store are the
//! caller's concern: both arrive here as plain values.
use vstd::prelude::*;

verus! {

/// One indexed artifact: identifier, served filename, thumbnail location
/// relative to the served root, and creation time in milliseconds since the
/// epoch.
pub struct VideoInfo {
    pub id: String,
    pub filename: String,
    pub thumbnail: String,
    pub created_at: u64,
}

impl Clone for VideoInfo {
    fn clone(&self) -> (r: Self)
        ensures
            r == *self,
    {
        VideoInfo {
            id: self.id.clone(),
            filename: self.filename.clone(),
            thumbnail: self.thumbnail.clone(),
            created_at: self.created_at,
        }
    }
}

/// How long a snapshot stays fresh, in milliseconds.
pub const REFRESH_WINDOW_MILLIS: u64 = 30000;

/// No two records share an identifier.
pub open spec fn unique_ids(s: Seq<VideoInfo>) -> bool {
    forall|i: int, j: int| 0 <= i < j < s.len() ==> s[i].id@ != s[j].id@
}

/// `s` with `v` inserted: the record with the same identifier is replaced
/// when one is present, else `v` is appended.
pub open spec fn insert_record(s: Seq<VideoInfo>, v: VideoInfo) -> Seq<VideoInfo> {
    if exists|i: int| 0 <= i < s.len() && s[i].id@ == v.id@ {
        s.update(choose|i: int| 0 <= i < s.len() && s[i].id@ == v.id@, v)
    } else {
        s.push(v)
    }
}

/// The snapshot a refresh builds from a store listing: every record
/// inserted in order, a later record replacing an earlier one with the same
/// identifier.
pub open spec fn merged_records(l: Seq<VideoInfo>) -> Seq<VideoInfo>
    decreases l.len(),
{
    if l.len() == 0 {
        Seq::empty()
    } else {
        insert_record(merged_records(l.drop_last()), l.last())
    }
}

/// What a successful refresh against listing `l` at time `now` establishes.
pub open spec fn refreshed(post: ThumbnailCache, l: Seq<VideoInfo>, now: u64) -> bool {
    &&& post.videos@ == merged_records(l)
    &&& post.last_refresh == now
    &&& post.initialized
}

proof fn lemma_insert_record_unique(s: Seq<VideoInfo>, v: VideoInfo)
    requires
        unique_ids(s),
    ensures
        unique_ids(insert_record(s, v)),
{
    let r = insert_record(s, v);
    if exists|i: int| 0 <= i < s.len() && s[i].id@ == v.id@ {
        let k = choose|i: int| 0 <= i < s.len() && s[i].id@ == v.id@;
        assert forall|i: int, j: int| 0 <= i < j < r.len() implies r[i].id@ != r[j].id@ by {
            if i != k && j != k {
                assert(r[i] == s[i] && r[j] == s[j]);
            } else if i == k {
                assert(r[i].id@ == s[k].id@ && r[j] == s[j]);
            } else {
                assert(r[j].id@ == s[k].id@ && r[i] == s[i]);
            }
        }
    } else {
        assert forall|i: int, j: int| 0 <= i < j < r.len() implies r[i].id@ != r[j].id@ by {
            if j == s.len() {
                assert(r[i] == s[i] && r[j] == v);
            } else {
                assert(r[i] == s[i] && r[j] == s[j]);
            }
        }
    }
}

/// Whether some record of `s` carries identifier `id`.
pub open spec fn has_id(s: Seq<VideoInfo>, id: Seq<char>) -> bool {
    exists|i: int| 0 <= i < s.len() && s[i].id@ == id
}

proof fn lemma_insert_record_has_id(s: Seq<VideoInfo>, v: VideoInfo, id: Seq<char>)
    ensures
        has_id(insert_record(s, v), id) <==> (has_id(s, id) || v.id@ == id),
{
    let r = insert_record(s, v);
    if exists|i: int| 0 <= i < s.len() && s[i].id@ == v.id@ {
        let k = choose|i: int| 0 <= i < s.len() && s[i].id@ == v.id@;
        assert(r == s.update(k, v));
        if has_id(r, id) {
            let i = choose|i: int| 0 <= i < r.len() && r[i].id@ == id;
            if i == k {
                assert(v.id@ == id);
            } else {
                assert(s[i].id@ == id);
            }
        }
        if v.id@ == id {
            assert(r[k].id@ == id);
        }
        if has_id(s, id) {
            let i = choose|i: int| 0 <= i < s.len() && s[i].id@ == id;
            if i == k {
                assert(r[k].id@ == v.id@ && v.id@ == s[k].id@);
            } else {
                assert(r[i].id@ == id);
            }
        }
    } else {
        assert(r == s.push(v));
        if has_id(r, id) {
            let i = choose|i: int| 0 <= i < r.len() && r[i].id@ == id;
            if i == s.len() {
                assert(v.id@ == id);
            } else {
                assert(s[i].id@ == id);
            }
        }
        if v.id@ == id {
            assert(r[s.len() as int].id@ == id);
        }
        if has_id(s, id) {
            let i = choose|i: int| 0 <= i < s.len() && s[i].id@ == id;
            assert(r[i].id@ == id);
        }
    }
}

/// A refreshed snapshot holds exactly the identifiers of the fresh store
/// listing: records for identifiers no longer listed are dropped, records
/// for newly listed identifiers appear.
pub proof fn lemma_refresh_tracks_store(l: Seq<VideoInfo>, id: Seq<char>)
    ensures
        has_id(merged_records(l), id) <==> has_id(l, id),
    decreases l.len(),
{
    if l.len() == 0 {
    } else {
        lemma_refresh_tracks_store(l.drop_last(), id);
        lemma_insert_record_has_id(merged_records(l.drop_last()), l.last(), id);
        assert(has_id(l, id) <==> (has_id(l.drop_last(), id) || l.last().id@ == id)) by {
            if has_id(l, id) {
                let i = choose|i: int| 0 <= i < l.len() && l[i].id@ == id;
                if i < l.len() - 1 {
                    assert(l.drop_last()[i].id@ == id);
                }
            }
            if has_id(l.drop_last(), id) {
                let i = choose|i: int|
                    0 <= i < l.drop_last().len() && l.drop_last()[i].id@ == id;
                assert(l[i].id@ == id);
            }
            if l.last().id@ == id {
                assert(l[l.len() - 1].id@ == id);
            }
        }
    }
}

proof fn lemma_insert_to_multiset(s: Seq<VideoInfo>, k: int, v: VideoInfo)
    requires
        0 <= k <= s.len(),
    ensures
        s.insert(k, v).to_multiset() == s.to_multiset().insert(v),
{
    broadcast use vstd::seq_lib::group_to_multiset_ensures;

    let t = s.insert(k, v);
    assert(t.remove(k) =~= s);
    assert(t[k] == v);
    assert(t.to_multiset().remove(v) =~= s.to_multiset());
    assert(t.contains(v));
    assert(t.to_multiset().count(v) > 0);
    assert(t.to_multiset() =~= t.to_multiset().remove(v).insert(v));
    assert(t.to_multiset() =~= s.to_multiset().insert(v));
}

/// The in-memory index of converted artifacts and their thumbnail state.
pub struct ThumbnailCache {
    pub videos: Vec<VideoInfo>,
    pub last_refresh: u64,
    pub initialized: bool,
}

impl ThumbnailCache {
    /// An empty snapshot stamped at the epoch, so the first read refreshes.
    pub fn new() -> (c: Self)
        ensures
            c.videos@ == Seq::<VideoInfo>::empty(),
            c.last_refresh == 0,
            !c.initialized,
            unique_ids(c.videos@),
    {
        ThumbnailCache { videos: Vec::new(), last_refresh: 0, initialized: false }
    }

    /// True when the snapshot must be rebuilt before serving a listing:
    /// never initialized, or older than the freshness window against the
    /// caller's clock reading `now` (milliseconds since the epoch).
    pub open spec fn needs_refresh_spec(self, now: u64) -> bool {
        ||| !self.initialized
        ||| now < self.last_refresh
        ||| now - self.last_refresh > REFRESH_WINDOW_MILLIS
    }

    /// Decides staleness against the caller's clock reading.
    pub fn needs_refresh(&self, now: u64) -> (r: bool)
        ensures
            r == self.needs_refresh_spec(now),
    {
        if !self.initialized {
            true
        } else if now < self.last_refresh {
            true
        } else {
            now - self.last_refresh > REFRESH_WINDOW_MILLIS
        }
    }

    /// Replaces the snapshot wholesale from a fresh store listing and stamps
    /// it, or — when the listing failed and none was handed in — keeps the
    /// prior snapshot and timestamp untouched, so the next read retries.
    pub fn refresh(&mut self, listing: Option<Vec<VideoInfo>>, now: u64)
        ensures
            listing matches Some(l) ==> refreshed(*final(self), l@, now) && unique_ids(
                final(self).videos@,
            ),
            listing is None ==> *final(self) == *old(self),
    {
        match listing {
            None => {},
            Some(l) => {
                self.videos = Vec::new();
                let n = l.len();
                proof {
                    assert(l@.take(0) =~= Seq::<VideoInfo>::empty());
                }
                let mut idx: usize = 0;
                while idx < n
                    invariant
                        idx <= n,
                        n == l@.len(),
                        self.videos@ == merged_records(l@.take(idx as int)),
                        unique_ids(self.videos@),
                    decreases n - idx,
                {
                    let v = l[idx].clone();
                    let ghost pre = self.videos@;
                    let m = self.videos.len();
                    let mut k: usize = 0;
                    let mut found = false;
                    while k < m
                        invariant
                            k <= m,
                            m == self.videos@.len(),
                            self.videos@ == pre,
                            idx < n ==> v == l@[idx as int],
                            forall|j: int| 0 <= j < k ==> pre[j].id@ != v.id@,
                            found ==> k < m && pre[k as int].id@ == v.id@,
                        ensures
                            found ==> k < m && pre[k as int].id@ == v.id@,
                            !found ==> forall|j: int| 0 <= j < m ==> pre[j].id@ != v.id@,
                        decreases m - k,
                    {
                        if crate::text::str_eq(self.videos[k].id.as_str(), v.id.as_str()) {
                            found = true;
                            break ;
                        }
                        k = k + 1;
                    }
                    proof {
                        assert(l@.take(idx + 1).drop_last() =~= l@.take(idx as int));
                        assert(l@.take(idx + 1).last() == l@[idx as int]);
                    }
                    if found {
                        proof {
                            let c = choose|i: int| 0 <= i < pre.len() && pre[i].id@ == v.id@;
                            if c != k {
                                assert(pre[c].id@ == pre[k as int].id@);
                                assert(false);
                            }
                        }
                        self.videos.remove(k);
                        self.videos.insert(k, v);
                        proof {
                            assert(pre.remove(k as int).insert(k as int, v) =~= pre.update(
                                k as int,
                                v,
                            ));
                            assert(self.videos@ == merged_records(l@.take(idx + 1)));
                        }
                    } else {
                        proof {
                            assert(!(exists|i: int| 0 <= i < pre.len() && pre[i].id@ == v.id@));
                        }
                        self.videos.push(v);
                        assert(self.videos@ == merged_records(l@.take(idx + 1)));
                    }
                    proof {
                        lemma_insert_record_unique(pre, l@[idx as int]);
                    }
                    idx = idx + 1;
                }
                proof {
                    assert(l@.take(n as int) =~= l@);
                }
                self.last_refresh = now;
                self.initialized = true;
            },
        }
    }

    /// The records of the snapshot ordered by creation time, newest first:
    /// the same records, sorted descending.
    pub fn list_sorted(&self) -> (r: Vec<VideoInfo>)
        ensures
            r@.to_multiset() == self.videos@.to_multiset(),
            forall|i: int, j: int| 0 <= i < j < r@.len() ==> r@[i].created_at
                >= r@[j].created_at,
    {
        broadcast use vstd::seq_lib::group_to_multiset_ensures;

        let mut out: Vec<VideoInfo> = Vec::new();
        let n = self.videos.len();
        proof {
            assert(self.videos@.take(0) =~= Seq::<VideoInfo>::empty());
            assert(Seq::<VideoInfo>::empty().to_multiset() =~= out@.to_multiset());
        }
        let mut idx: usize = 0;
        while idx < n
            invariant
                idx <= n,
                n == self.videos@.len(),
                out@.to_multiset() == self.videos@.take(idx as int).to_multiset(),
                forall|i: int, j: int| 0 <= i < j < out@.len() ==> out@[i].created_at
                    >= out@[j].created_at,
            decreases n - idx,
        {
            let v = self.videos[idx].clone();
            let ghost pre = out@;
            let mut k = out.len();
            while k > 0 && out[k - 1].created_at < v.created_at
                invariant
                    k <= out@.len(),
                    out@ == pre,
                    v == self.videos@[idx as int],
                    forall|j: int| k <= j < pre.len() ==> pre[j].created_at < v.created_at,
                decreases k,
            {
                k = k - 1;
            }
            out.insert(k, v);
            proof {
                broadcast use vstd::seq_lib::group_to_multiset_ensures;

                lemma_insert_to_multiset(pre, k as int, self.videos@[idx as int]);
                assert(self.videos@.take(idx + 1).drop_last() =~= self.videos@.take(idx as int));
                assert(self.videos@.take(idx + 1) =~= self.videos@.take(idx as int).push(
                    self.videos@[idx as int],
                ));
                assert(self.videos@.take(idx + 1).to_multiset() =~= self.videos@.take(
                    idx as int,
                ).to_multiset().insert(self.videos@[idx as int]));
                let post = out@;
                assert forall|i: int, j: int|
                    0 <= i < j < post.len() implies post[i].created_at >= post[j].created_at by {
                    if j < k {
                        assert(post[i] == pre[i] && post[j] == pre[j]);
                    } else if i > k {
                        assert(post[i] == pre[i - 1] && post[j] == pre[j - 1]);
                    } else if i == k && j > k {
                        assert(post[i] == v && post[j] == pre[j - 1]);
                    } else if j == k {
                        assert(post[j] == v && post[i] == pre[i]);
                        if k > 0 {
                            assert(pre[k - 1].created_at >= v.created_at);
                            assert(pre[i].created_at >= pre[k - 1].created_at);
                        }
                    } else {
                        assert(i < k && j > k);
                        assert(post[i] == pre[i] && post[j] == pre[j - 1]);
                        if k > 0 {
                            assert(pre[i].created_at >= pre[k - 1].created_at);
                            assert(pre[k - 1].created_at >= v.created_at);
                        }
                        assert(pre[j - 1].created_at < v.created_at);
                    }
                }
            }
            idx = idx + 1;
        }
        proof {
            assert(self.videos@.take(n as int) =~= self.videos@);
        }
        out
    }
}

/// Refreshing twice against the same store listing yields the same snapshot
/// — the same records with the same fields — apart from the refresh
/// timestamp.
pub proof fn lemma_refresh_idempotent(
    first: ThumbnailCache,
    second: ThumbnailCache,
    l: Seq<VideoInfo>,
    t1: u64,
    t2: u64,
)
    requires
        refreshed(first, l, t1),
        refreshed(second, l, t2),
    ensures
        second.videos@ == first.videos@,
        second.initialized == first.initialized,
{
}

/// A snapshot never refreshed always needs a refresh, whatever the clock
/// says.
pub proof fn lemma_new_needs_refresh(c: ThumbnailCache, now: u64)
    requires
        !c.initialized,
    ensures
        c.needs_refresh_spec(now),
{
}

/// Immediately after a refresh the snapshot is fresh, and it becomes stale
/// exactly when the freshness window has elapsed.
pub proof fn lemma_fresh_until_window(c: ThumbnailCache, l: Seq<VideoInfo>, t: u64, later: u64)
    requires
        refreshed(c, l, t),
        t <= later,
    ensures
        !c.needs_refresh_spec(t),
        c.needs_refresh_spec(later) <==> later - t > REFRESH_WINDOW_MILLIS,
{
}

} // verus!
