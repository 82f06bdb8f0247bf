//! The thumbnail generator and the store listing. Planning is verified
//! here: which records still need a thumbnail, where the still frame is
//! written, and which directory entries count as canonical artifacts. The
//! directory scan and the child process stay with the caller.
use crate::config::Config;
use crate::models::VideoInfo;
use crate::text::has_suffix;
use vstd::prelude::*;

verus! {

/// The directory holding generated thumbnails, under the store root.
pub open spec fn thumbs_dir_spec(cfg: Config) -> Seq<char> {
    cfg.converted_dir@ + "/thumbs"@
}

/// Where the thumbnail for `id` is written: `{thumbs-dir}/{id}.jpg`.
pub open spec fn thumb_path_spec(cfg: Config, id: Seq<char>) -> Seq<char> {
    thumbs_dir_spec(cfg) + "/"@ + id + ".jpg"@
}

/// The thumbnail location a record carries, relative to the served root.
pub open spec fn thumb_rel_spec(id: Seq<char>) -> Seq<char> {
    "thumbs/"@ + id + ".jpg"@
}

/// The directory whose presence the caller must ensure before thumbnails
/// are written.
pub fn thumbs_dir(cfg: &Config) -> (r: String)
    ensures
        r@ == thumbs_dir_spec(*cfg),
{
    let mut d = cfg.converted_dir.clone();
    d.append("/thumbs");
    d
}

/// The on-disk path of the thumbnail for `id`.
pub fn thumb_path(cfg: &Config, id: &str) -> (r: String)
    ensures
        r@ == thumb_path_spec(*cfg, id@),
{
    let mut p = thumbs_dir(cfg);
    p.append("/");
    p.append(id);
    p.append(".jpg");
    proof {
        assert(thumbs_dir_spec(*cfg) + "/"@ + id@ + ".jpg"@ =~= thumb_path_spec(*cfg, id@));
    }
    p
}

/// The record's relative thumbnail location, joined to the store root, is
/// exactly the path the generator writes: the gallery and the generator
/// agree on where a thumbnail lives.
pub proof fn lemma_thumb_served_path(cfg: Config, id: Seq<char>)
    ensures
        cfg.converted_dir@ + "/"@ + thumb_rel_spec(id) == thumb_path_spec(cfg, id),
{
    reveal_strlit("/thumbs");
    reveal_strlit("/");
    reveal_strlit("thumbs/");
    assert(cfg.converted_dir@ + "/"@ + ("thumbs/"@ + id + ".jpg"@) =~= cfg.converted_dir@
        + "/thumbs"@ + "/"@ + id + ".jpg"@);
}

/// One planned thumbnail generation.
pub struct ThumbnailJob {
    pub id: String,
    pub video_path: String,
    pub thumb_path: String,
}

/// The view of the job planned for record `v`.
pub open spec fn job_view_of(cfg: Config, v: VideoInfo) -> (Seq<char>, Seq<char>, Seq<char>) {
    (v.id@, cfg.converted_dir@ + "/"@ + v.filename@, thumb_path_spec(cfg, v.id@))
}

/// The jobs planned for the records of `vs` whose thumbnail file is absent
/// (`ex` holds, per record, whether its thumbnail already exists).
pub open spec fn thumb_jobs_view(cfg: Config, vs: Seq<VideoInfo>, ex: Seq<bool>) -> Seq<
    (Seq<char>, Seq<char>, Seq<char>),
>
    decreases vs.len(),
{
    if vs.len() == 0 || vs.len() != ex.len() {
        Seq::empty()
    } else {
        thumb_jobs_view(cfg, vs.drop_last(), ex.drop_last()) + (if ex.last() {
            Seq::empty()
        } else {
            seq![job_view_of(cfg, vs.last())]
        })
    }
}

/// Plans one generation pass: a job for every record without a thumbnail,
/// in listing order, and none for a record whose thumbnail file already
/// exists. Failures of one job are the caller's to isolate; the plan never
/// depends on another job's outcome.
pub fn plan_missing_thumbnails(cfg: &Config, videos: &Vec<VideoInfo>, thumb_exists: &Vec<bool>) -> (jobs:
    Vec<ThumbnailJob>)
    requires
        videos@.len() == thumb_exists@.len(),
    ensures
        jobs@.map_values(|j: ThumbnailJob| (j.id@, j.video_path@, j.thumb_path@))
            == thumb_jobs_view(*cfg, videos@, thumb_exists@),
{
    let mut jobs: Vec<ThumbnailJob> = Vec::new();
    let n = videos.len();
    proof {
        assert(videos@.take(0) =~= Seq::<VideoInfo>::empty());
        assert(thumb_exists@.take(0) =~= Seq::<bool>::empty());
        assert(jobs@.map_values(|j: ThumbnailJob| (j.id@, j.video_path@, j.thumb_path@))
            =~= thumb_jobs_view(*cfg, videos@.take(0), thumb_exists@.take(0)));
    }
    let mut i: usize = 0;
    while i < n
        invariant
            i <= n,
            n == videos@.len(),
            n == thumb_exists@.len(),
            jobs@.map_values(|j: ThumbnailJob| (j.id@, j.video_path@, j.thumb_path@))
                == thumb_jobs_view(*cfg, videos@.take(i as int), thumb_exists@.take(i as int)),
        decreases n - i,
    {
        let ghost pre = jobs@;
        proof {
            assert(videos@.take(i + 1).drop_last() =~= videos@.take(i as int));
            assert(thumb_exists@.take(i + 1).drop_last() =~= thumb_exists@.take(i as int));
            assert(videos@.take(i + 1).last() == videos@[i as int]);
            assert(thumb_exists@.take(i + 1).last() == thumb_exists@[i as int]);
        }
        if !thumb_exists[i] {
            let v = &videos[i];
            let mut video_path = cfg.converted_dir.clone();
            video_path.append("/");
            video_path.append(v.filename.as_str());
            let job = ThumbnailJob {
                id: v.id.clone(),
                video_path,
                thumb_path: thumb_path(cfg, v.id.as_str()),
            };
            jobs.push(job);
            proof {
                assert(jobs@.map_values(|j: ThumbnailJob| (j.id@, j.video_path@, j.thumb_path@))
                    =~= pre.map_values(|j: ThumbnailJob| (j.id@, j.video_path@, j.thumb_path@)).push(
                    job_view_of(*cfg, videos@[i as int]),
                ));
            }
        }
        proof {
            assert(jobs@.map_values(|j: ThumbnailJob| (j.id@, j.video_path@, j.thumb_path@))
                =~= thumb_jobs_view(*cfg, videos@.take(i + 1), thumb_exists@.take(i + 1)));
        }
        i = i + 1;
    }
    proof {
        assert(videos@.take(n as int) =~= videos@);
        assert(thumb_exists@.take(n as int) =~= thumb_exists@);
    }
    jobs
}

/// Every planned job belongs to a record whose thumbnail file is absent: a
/// record whose thumbnail already exists is skipped, on this pass as on
/// every later one.
pub proof fn lemma_thumbnails_skipped(cfg: Config, vs: Seq<VideoInfo>, ex: Seq<bool>)
    requires
        vs.len() == ex.len(),
    ensures
        forall|k: int|
            0 <= k < thumb_jobs_view(cfg, vs, ex).len() ==> exists|j: int|
                0 <= j < vs.len() && !ex[j] && #[trigger] thumb_jobs_view(cfg, vs, ex)[k]
                    == job_view_of(cfg, vs[j]),
    decreases vs.len(),
{
    if vs.len() == 0 {
    } else {
        lemma_thumbnails_skipped(cfg, vs.drop_last(), ex.drop_last());
        let jobs = thumb_jobs_view(cfg, vs, ex);
        let jobs0 = thumb_jobs_view(cfg, vs.drop_last(), ex.drop_last());
        assert forall|k: int|
            0 <= k < jobs.len() implies exists|j: int|
            0 <= j < vs.len() && !ex[j] && #[trigger] jobs[k] == job_view_of(cfg, vs[j]) by {
            if k < jobs0.len() {
                let j0 = choose|j: int|
                    0 <= j < vs.drop_last().len() && !ex.drop_last()[j] && jobs0[k] == job_view_of(
                        cfg,
                        vs.drop_last()[j],
                    );
                assert(jobs[k] == jobs0[k]);
                assert(0 <= j0 < vs.len() && !ex[j0] && jobs[k] == job_view_of(cfg, vs[j0]));
            } else {
                assert(!ex.last());
                assert(jobs[k] == job_view_of(cfg, vs[vs.len() - 1]));
                assert(!ex[vs.len() - 1]);
            }
        }
    }
}

/// The fixed argument list that extracts one still frame near the start of
/// the video, scaled to a bounded width.
pub open spec fn thumbnail_args_spec(video_path: Seq<char>, thumb_path: Seq<char>) -> Seq<
    Seq<char>,
> {
    seq![
        "-y"@,
        "-i"@,
        video_path,
        "-ss"@,
        "00:00:01"@,
        "-vframes"@,
        "1"@,
        "-vf"@,
        "scale=320:-1"@,
        "-q:v"@,
        "2"@,
        thumb_path,
    ]
}

/// Builds the transcoder argument list of one thumbnail extraction.
pub fn generate_thumbnail_command(video_path: &str, thumb_path: &str) -> (args: Vec<String>)
    ensures
        args.deep_view() == thumbnail_args_spec(video_path@, thumb_path@),
{
    let mut args: Vec<String> = Vec::new();
    args.push(String::from_str("-y"));
    args.push(String::from_str("-i"));
    args.push(String::from_str(video_path));
    args.push(String::from_str("-ss"));
    args.push(String::from_str("00:00:01"));
    args.push(String::from_str("-vframes"));
    args.push(String::from_str("1"));
    args.push(String::from_str("-vf"));
    args.push(String::from_str("scale=320:-1"));
    args.push(String::from_str("-q:v"));
    args.push(String::from_str("2"));
    args.push(String::from_str(thumb_path));
    proof {
        assert(args.deep_view() =~= thumbnail_args_spec(video_path@, thumb_path@));
    }
    args
}

/// A failed thumbnail extraction; never surfaced to the resolving caller.
pub struct ThumbnailFailed {
    pub stderr: String,
}

/// Interprets a finished thumbnail extraction. A failure carries the
/// captured standard error and is the caller's to report; it must not fail
/// the refresh that scheduled it.
pub fn thumbnail_outcome(exit_success: bool, stderr: &str) -> (r: Result<(), ThumbnailFailed>)
    ensures
        exit_success <==> r is Ok,
        r matches Err(e) ==> e.stderr@ == stderr@,
{
    if exit_success {
        Ok(())
    } else {
        Err(ThumbnailFailed { stderr: String::from_str(stderr) })
    }
}

/// A directory entry of the artifact store, as the caller read it: the
/// entry's filename, whether it is a directory, and its creation time in
/// milliseconds since the epoch.
pub struct StoreEntry {
    pub name: String,
    pub is_dir: bool,
    pub created_at: u64,
}

/// Which entries count as canonical artifacts: plain files named
/// `{stem}.mp4` with a non-empty stem.
pub open spec fn is_artifact_name(name: Seq<char>) -> bool {
    name.len() > 4 && name.subrange(name.len() - 4, name.len() as int) == ".mp4"@
}

/// The identifier of an artifact file: its name without the extension.
pub open spec fn artifact_id_of_name(name: Seq<char>) -> Seq<char> {
    name.subrange(0, name.len() - 4)
}

/// The view of the record built for one accepted entry.
pub open spec fn record_view_of(e: StoreEntry) -> (Seq<char>, Seq<char>, Seq<char>, u64) {
    (
        artifact_id_of_name(e.name@),
        e.name@,
        thumb_rel_spec(artifact_id_of_name(e.name@)),
        e.created_at,
    )
}

/// The view of one record.
pub open spec fn video_view(v: VideoInfo) -> (Seq<char>, Seq<char>, Seq<char>, u64) {
    (v.id@, v.filename@, v.thumbnail@, v.created_at)
}

/// The records a store listing yields: one per artifact entry, in
/// enumeration order; directories and other files are skipped.
pub open spec fn video_list_view(es: Seq<StoreEntry>) -> Seq<(Seq<char>, Seq<char>, Seq<char>, u64)>
    decreases es.len(),
{
    if es.len() == 0 {
        Seq::empty()
    } else {
        video_list_view(es.drop_last()) + (if !es.last().is_dir && is_artifact_name(
            es.last().name@,
        ) {
            seq![record_view_of(es.last())]
        } else {
            Seq::empty()
        })
    }
}

/// Builds the records of a store listing from the entries the caller
/// enumerated: skips directories and files without the canonical extension,
/// and derives identifier and thumbnail location from the filename.
pub fn get_video_list(entries: &Vec<StoreEntry>) -> (r: Vec<VideoInfo>)
    ensures
        r@.map_values(|v: VideoInfo| video_view(v)) == video_list_view(entries@),
{
    let mut r: Vec<VideoInfo> = Vec::new();
    let n = entries.len();
    proof {
        reveal_strlit(".mp4");
        assert(entries@.take(0) =~= Seq::<StoreEntry>::empty());
        assert(r@.map_values(|v: VideoInfo| video_view(v)) =~= video_list_view(entries@.take(0)));
    }
    let mut i: usize = 0;
    while i < n
        invariant
            i <= n,
            n == entries@.len(),
            r@.map_values(|v: VideoInfo| video_view(v)) == video_list_view(entries@.take(i as int)),
        decreases n - i,
    {
        let ghost pre = r@;
        proof {
            reveal_strlit(".mp4");
            assert(entries@.take(i + 1).drop_last() =~= entries@.take(i as int));
            assert(entries@.take(i + 1).last() == entries@[i as int]);
        }
        let e = &entries[i];
        let name_len = e.name.as_str().unicode_len();
        if !e.is_dir && name_len > 4 && has_suffix(e.name.as_str(), ".mp4") {
            let id = e.name.as_str().substring_char(0, name_len - 4);
            let mut thumbnail = String::from_str("thumbs/");
            thumbnail.append(id);
            thumbnail.append(".jpg");
            let v = VideoInfo {
                id: String::from_str(id),
                filename: e.name.clone(),
                thumbnail,
                created_at: e.created_at,
            };
            r.push(v);
            proof {
                assert(r@.map_values(|v: VideoInfo| video_view(v)) =~= pre.map_values(
                    |v: VideoInfo| video_view(v),
                ).push(record_view_of(entries@[i as int])));
            }
        } else {
            proof {
                assert(!(!entries@[i as int].is_dir && is_artifact_name(entries@[i as int].name@)));
            }
        }
        proof {
            assert(r@.map_values(|v: VideoInfo| video_view(v)) =~= video_list_view(entries@.take(
                i + 1,
            )));
        }
        i = i + 1;
    }
    proof {
        assert(entries@.take(n as int) =~= entries@);
    }
    r
}

} // verus!
