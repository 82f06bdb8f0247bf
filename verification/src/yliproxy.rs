//! The conversion cache: derives the identifier of a media reference, decides
//! cache hits, and plans and interprets the download and transcode steps of a
//! cache miss. The blocking work itself (HTTP fetch, child process, file
//! removal) is the caller's concern; every decision here is verified.
use crate::config::Config;
use crate::errors::ConversionError;
use crate::text::{
    before_first_dot, before_first_dot_of, last_segment, last_segment_of,
    lemma_before_first_dot_is_prefix, lemma_before_first_dot_no_dot, lemma_before_first_dot_stops,
    lemma_last_segment_after_slash, lemma_last_segment_no_slash, replace_all, replace_all_str,
    split_spaces, split_spaces_str,
};
use vstd::prelude::*;

verus! {

/// The identifier a reference maps to: the stem (up to the first '.') of its
/// last path segment. Empty when no identifier can be derived.
pub open spec fn id_of_url(url: Seq<char>) -> Seq<char> {
    before_first_dot(last_segment(url))
}

/// The filename of the canonical converted artifact for `id`.
pub open spec fn artifact_filename_spec(id: Seq<char>) -> Seq<char> {
    id + ".mp4"@
}

/// The public URL under which `name` is served: `{public_url}/{name}`.
pub open spec fn file_url_spec(cfg: Config, name: Seq<char>) -> Seq<char> {
    cfg.public_url@ + "/"@ + name
}

/// The canonical on-disk path of the converted artifact for `id`.
pub open spec fn artifact_path_spec(cfg: Config, id: Seq<char>) -> Seq<char> {
    cfg.converted_dir@ + "/"@ + artifact_filename_spec(id)
}

/// The public URL a resolve returns for `id`, on a cache hit as after a
/// successful conversion.
pub open spec fn hit_url_spec(cfg: Config, id: Seq<char>) -> Seq<char> {
    file_url_spec(cfg, artifact_filename_spec(id))
}

/// The filename under which a reference is downloaded: its last path
/// segment, with a fixed fallback when the reference ends in '/'.
pub open spec fn download_filename_spec(url: Seq<char>) -> Seq<char> {
    if last_segment(url).len() > 0 {
        last_segment(url)
    } else {
        "downloaded_file"@
    }
}

/// The temporary path a reference is downloaded to.
pub open spec fn download_path_spec(cfg: Config, url: Seq<char>) -> Seq<char> {
    cfg.download_dir@ + "/"@ + download_filename_spec(url)
}

/// The transcoder argument list: the template with `$INPUT` and `$OUTPUT`
/// substituted, split at whitespace.
pub open spec fn transcode_args_spec(template: Seq<char>, input: Seq<char>, output: Seq<char>) -> Seq<
    Seq<char>,
> {
    split_spaces(replace_all(replace_all(template, "$INPUT"@, input), "$OUTPUT"@, output))
}

/// A planned download: fetch `url` and write the body to `target_path`.
pub struct DownloadPlan {
    pub url: String,
    pub target_path: String,
}

/// A planned transcoder invocation.
pub struct TranscodeCommand {
    pub bin: String,
    pub args: Vec<String>,
    pub input_path: String,
    pub output_path: String,
}

/// The interpretation of a finished transcoder run: the resolve result, and
/// the files to remove so that no temporary input and no partial artifact
/// outlives a failed attempt.
pub struct TranscodeOutcome {
    pub result: Result<String, ConversionError>,
    pub remove_paths: Vec<String>,
}

pub struct YliProxy;

impl YliProxy {
    /// Derives the identifier of a media reference, or reports the reference
    /// malformed when no stem can be isolated.
    pub fn extract_id_from_url(url: &str) -> (r: Result<String, ConversionError>)
        ensures
            r is Ok <==> id_of_url(url@).len() > 0,
            r matches Ok(id) ==> id@ == id_of_url(url@),
            r matches Err(e) ==> e is MalformedReference,
    {
        let seg = last_segment_of(url);
        let stem = before_first_dot_of(seg);
        if stem.unicode_len() == 0 {
            Err(ConversionError::MalformedReference)
        } else {
            Ok(String::from_str(stem))
        }
    }

    /// The public URL under which a stored file is served.
    pub fn get_file_url(cfg: &Config, file_name: &str) -> (r: String)
        ensures
            r@ == file_url_spec(*cfg, file_name@),
    {
        let mut u = cfg.public_url.clone();
        u.append("/");
        u.append(file_name);
        u
    }

    /// The filename of the canonical converted artifact for `id`.
    pub fn artifact_filename(id: &str) -> (r: String)
        ensures
            r@ == artifact_filename_spec(id@),
    {
        let mut s = String::from_str(id);
        s.append(".mp4");
        s
    }

    /// The canonical on-disk path for `id`; the file need not exist. The
    /// existence check that decides a cache hit probes exactly this path.
    pub fn artifact_path(cfg: &Config, id: &str) -> (r: String)
        ensures
            r@ == artifact_path_spec(*cfg, id@),
    {
        let mut p = cfg.converted_dir.clone();
        p.append("/");
        p.append(id);
        p.append(".mp4");
        proof {
            assert(cfg.converted_dir@ + "/"@ + id@ + ".mp4"@ =~= cfg.converted_dir@ + "/"@ + (id@
                + ".mp4"@));
        }
        p
    }

    /// The cache-hit step: given whether the canonical artifact for `id` is
    /// present, returns its public URL without planning any download or
    /// transcode, or nothing on a miss.
    pub fn get_existing_file_url(cfg: &Config, id: &str, exists: bool) -> (r: Option<String>)
        ensures
            exists ==> (r matches Some(u) && u@ == hit_url_spec(*cfg, id@)),
            !exists ==> r is None,
    {
        if exists {
            let name = Self::artifact_filename(id);
            Some(Self::get_file_url(cfg, name.as_str()))
        } else {
            None
        }
    }

    /// Plans the download of a cache miss.
    pub fn plan_download(cfg: &Config, url: &str) -> (p: DownloadPlan)
        ensures
            p.url@ == url@,
            p.target_path@ == download_path_spec(*cfg, url@),
    {
        let name = last_segment_of(url);
        let mut target = cfg.download_dir.clone();
        target.append("/");
        if name.unicode_len() == 0 {
            target.append("downloaded_file");
        } else {
            target.append(name);
        }
        DownloadPlan { url: String::from_str(url), target_path: target }
    }

    /// Interprets the finished download: the temporary input path on an HTTP
    /// success, the download error carrying the status text otherwise.
    pub fn finish_download(plan: &DownloadPlan, http_ok: bool, status: &str) -> (r: Result<
        String,
        ConversionError,
    >)
        ensures
            http_ok ==> (r matches Ok(p) && p@ == plan.target_path@),
            !http_ok ==> (r matches Err(e) && e matches ConversionError::DownloadFailed(s)
                && s@ == status@),
    {
        if http_ok {
            Ok(plan.target_path.clone())
        } else {
            Err(ConversionError::DownloadFailed(String::from_str(status)))
        }
    }

    /// Plans the transcoder invocation for `id`: the configured binary, the
    /// argument template with `$INPUT`/`$OUTPUT` substituted and split at
    /// whitespace, and the canonical output path.
    pub fn convert_command(cfg: &Config, input_path: &str, id: &str) -> (c: TranscodeCommand)
        ensures
            c.bin@ == cfg.ffmpeg_bin@,
            c.input_path@ == input_path@,
            c.output_path@ == artifact_path_spec(*cfg, id@),
            c.args.deep_view() == transcode_args_spec(
                cfg.ffmpeg_args@,
                input_path@,
                artifact_path_spec(*cfg, id@),
            ),
    {
        let output_path = Self::artifact_path(cfg, id);
        let with_input = replace_all_str(cfg.ffmpeg_args.as_str(), "$INPUT", input_path);
        let with_output = replace_all_str(with_input.as_str(), "$OUTPUT", output_path.as_str());
        let args = split_spaces_str(with_output.as_str());
        TranscodeCommand {
            bin: cfg.ffmpeg_bin.clone(),
            args,
            input_path: String::from_str(input_path),
            output_path,
        }
    }

    /// Interprets the finished transcoder run. On success the canonical
    /// output path is the result and only the temporary input is removed; on
    /// failure the captured standard error is reported and the temporary
    /// input and the canonical output path are both removed, so that no
    /// partial artifact is ever served as a later cache hit. The removals
    /// never change the reported result.
    pub fn convert_outcome(cmd: &TranscodeCommand, exit_success: bool, stderr: &str) -> (o:
        TranscodeOutcome)
        ensures
            exit_success ==> (o.result matches Ok(p) && p@ == cmd.output_path@),
            !exit_success ==> (o.result matches Err(e) && e
                matches ConversionError::ConversionFailed(s) && s@ == stderr@),
            o.remove_paths.deep_view() == (if exit_success {
                seq![cmd.input_path@]
            } else {
                seq![cmd.input_path@, cmd.output_path@]
            }),
    {
        let mut remove_paths: Vec<String> = Vec::new();
        remove_paths.push(cmd.input_path.clone());
        if exit_success {
            proof {
                assert(remove_paths.deep_view() =~= seq![cmd.input_path@]);
            }
            TranscodeOutcome { result: Ok(cmd.output_path.clone()), remove_paths }
        } else {
            remove_paths.push(cmd.output_path.clone());
            proof {
                assert(remove_paths.deep_view() =~= seq![cmd.input_path@, cmd.output_path@]);
            }
            TranscodeOutcome {
                result: Err(ConversionError::ConversionFailed(String::from_str(stderr))),
                remove_paths,
            }
        }
    }
}

/// A derived identifier holds no '/' and no '.'.
pub proof fn lemma_id_chars(url: Seq<char>)
    ensures
        forall|j: int| 0 <= j < id_of_url(url).len() ==> id_of_url(url)[j] != '/',
        forall|j: int| 0 <= j < id_of_url(url).len() ==> id_of_url(url)[j] != '.',
{
    let seg = last_segment(url);
    let id = id_of_url(url);
    lemma_last_segment_no_slash(url);
    lemma_before_first_dot_no_dot(seg);
    lemma_before_first_dot_is_prefix(seg);
    assert forall|j: int| 0 <= j < id.len() implies id[j] != '/' by {
        assert(id[j] == seg.subrange(0, id.len() as int)[j]);
        assert(id[j] == seg[j]);
    }
}

/// Once a conversion for `id` has succeeded, a later resolve for the same
/// identifier hits the cache and serves the same public URL: the filename of
/// the canonical artifact path is `{id}.mp4`, so the URL built from the
/// transcoder's output equals the URL of the cache-hit step — which plans no
/// download and no transcode.
pub proof fn lemma_hit_url_idempotent(cfg: Config, id: Seq<char>)
    requires
        forall|j: int| 0 <= j < id.len() ==> id[j] != '/',
    ensures
        last_segment(artifact_path_spec(cfg, id)) == artifact_filename_spec(id),
        file_url_spec(cfg, last_segment(artifact_path_spec(cfg, id))) == hit_url_spec(cfg, id),
{
    let name = artifact_filename_spec(id);
    reveal_strlit(".mp4");
    reveal_strlit("/");
    assert(".mp4"@ =~= seq!['.', 'm', 'p', '4']);
    assert(forall|j: int| 0 <= j < name.len() ==> name[j] != '/');
    assert(artifact_path_spec(cfg, id) =~= cfg.converted_dir@ + seq!['/'] + name);
    lemma_last_segment_after_slash(cfg.converted_dir@, name);
}

/// Resolving the public URL of a converted artifact derives the same
/// identifier again: the URL's last segment is `{id}.mp4`, whose stem is
/// `id`.
pub proof fn lemma_url_round_trip(cfg: Config, id: Seq<char>)
    requires
        id.len() > 0,
        forall|j: int| 0 <= j < id.len() ==> id[j] != '/',
        forall|j: int| 0 <= j < id.len() ==> id[j] != '.',
    ensures
        id_of_url(hit_url_spec(cfg, id)) == id,
{
    let name = artifact_filename_spec(id);
    reveal_strlit(".mp4");
    reveal_strlit("/");
    assert(".mp4"@ =~= seq!['.', 'm', 'p', '4']);
    assert(forall|j: int| 0 <= j < name.len() ==> name[j] != '/');
    assert(hit_url_spec(cfg, id) =~= cfg.public_url@ + seq!['/'] + name);
    lemma_last_segment_after_slash(cfg.public_url@, name);
    lemma_before_first_dot_stops(id, ".mp4"@);
}

} // verus!
