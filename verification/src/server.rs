//! The managed `llama-server` backend: where its model files live, how the
//! download reports progress, how it is launched, and whether a running
//! server serves the configured model.
use vstd::prelude::*;
use crate::config::Config;
use crate::paths::{expand_tilde_in, expanded, home_dir, path_join, path_joined};
use crate::text::{
    chars_of, ends_with, push_decimal, push_str, replace, replace_str, same_text,
    texts, trim, trimmed, decimal,
};

verus! {

// ---------------------------------------------------------------- download progress

/// The progress code that means "no download, or its size is unknown".
pub const UNKNOWN_PERCENT: u8 = 255;

/// What a progress code reads as.
pub open spec fn reads_as(raw: u8) -> Option<u8> {
    if raw == UNKNOWN_PERCENT {
        None
    } else {
        Some(raw)
    }
}

/// The download progress, 0 to 100, or `None` when nothing is downloading or
/// its size is unknown (`download_percent`, from the stored code).
pub fn download_percent(raw: u8) -> (r: Option<u8>)
    ensures
        r == reads_as(raw),
{
    if raw == UNKNOWN_PERCENT {
        None
    } else {
        Some(raw)
    }
}

/// The progress code stored after `downloaded` bytes of `total`: the whole
/// percentage done, capped at 100; unknown without a total.
pub open spec fn percent_of(downloaded: u64, total: Option<u64>) -> int {
    match total {
        Some(t) => (if downloaded <= t { downloaded as int } else { t as int }) * 100 / (t as int),
        None => UNKNOWN_PERCENT as int,
    }
}

/// The progress code for `downloaded` bytes of `total`.
pub fn percent_code(downloaded: u64, total: Option<u64>) -> (r: u8)
    requires
        total matches Some(t) ==> t > 0 && (if downloaded <= t { downloaded as int } else { t as int }) * 100 <= u64::MAX,
    ensures
        r == percent_of(downloaded, total),
{
    match total {
        Some(t) => {
            let done = if downloaded <= t { downloaded } else { t };
            assert((done as int) * 100 / (t as int) <= 100) by (nonlinear_arith)
                requires
                    done <= t,
                    t > 0,
            ;
            ((done * 100) / t) as u8
        },
        None => UNKNOWN_PERCENT,
    }
}

/// With a known total, progress always reads as a percentage from 0 to 100;
/// without one it reads as unknown.
pub proof fn lemma_progress_reads_back(downloaded: u64, total: Option<u64>)
    requires
        total matches Some(t) ==> t > 0,
    ensures
        total is Some ==> 0 <= percent_of(downloaded, total) <= 100 && reads_as(
            percent_of(downloaded, total) as u8,
        ) == Some(percent_of(downloaded, total) as u8),
        total is None ==> reads_as(percent_of(downloaded, total) as u8) is None,
{
    if let Some(t) = total {
        let done: int = if downloaded <= t { downloaded as int } else { t as int };
        assert(0 <= done * 100 / (t as int) <= 100) by (nonlinear_arith)
            requires
                0 <= done <= t,
                t > 0,
        ;
    }
}

/// The `Range` header that resumes a download after `have` bytes; none for a fresh start.
pub open spec fn range_text(have: u64) -> Option<Seq<char>> {
    if have > 0 {
        Some("bytes="@ + decimal(have as nat) + "-"@)
    } else {
        None
    }
}

/// The `Range` header value for a download that already has `have` bytes.
pub fn range_header(have: u64) -> (r: Option<String>)
    ensures
        r matches Some(h) ==> range_text(have) == Some(h@),
        r is None ==> range_text(have) is None,
{
    if have > 0 {
        let mut s = String::new();
        push_str(&mut s, "bytes=");
        push_decimal(&mut s, have);
        push_str(&mut s, "-");
        Some(s)
    } else {
        None
    }
}

/// Where a download starts and its full size: a partial reply (`206`) resumes
/// after the `have` bytes on disk, anything else starts over; the total is
/// the reply's length plus what is kept, unknown when that is zero or absent.
pub open spec fn start_of(resuming: bool, have: u64, content_length: Option<u64>) -> (int, Option<int>) {
    let already: int = if resuming { have as int } else { 0 };
    (already, match content_length {
        Some(len) => if len + already > 0 { Some(len + already) } else { None },
        None => None,
    })
}

/// How a download proceeds given the server's reply: where it starts and the
/// full size it will reach.
pub fn download_start(resuming: bool, have: u64, content_length: Option<u64>) -> (r: (u64, Option<u64>))
    requires
        resuming ==> (content_length matches Some(len) ==> len + have <= u64::MAX),
    ensures
        r.0 == start_of(resuming, have, content_length).0,
        start_of(resuming, have, content_length).1 == match r.1 {
            Some(t) => Some(t as int),
            None => None,
        },
{
    let already = if resuming { have } else { 0 };
    let total = match content_length {
        Some(len) => {
            let t = len + already;
            if t > 0 { Some(t) } else { None }
        },
        None => None,
    };
    (already, total)
}

/// Where a model file is downloaded from.
pub open spec fn download_url_text(repo: Seq<char>, filename: Seq<char>) -> Seq<char> {
    "https://huggingface.co/"@ + repo + "/resolve/main/"@ + filename
}

/// The Hugging Face address of a model file.
pub fn download_url(repo: &str, filename: &str) -> (r: String)
    ensures
        r@ == download_url_text(repo@, filename@),
{
    let mut s = String::new();
    push_str(&mut s, "https://huggingface.co/");
    push_str(&mut s, repo);
    push_str(&mut s, "/resolve/main/");
    push_str(&mut s, filename);
    s
}

// ---------------------------------------------------------------- model files

/// The running server's model path names the configured file: the same path,
/// or one that ends with it.
pub open spec fn paths_match(running: Seq<char>, configured: Seq<char>) -> bool {
    running == configured || ends_with(running, configured)
}

/// Whether a running server's model is the configured one.
pub fn model_path_matches(running: &str, configured: &str) -> (r: bool)
    ensures
        r == paths_match(running@, configured@),
{
    if same_text(running, configured) {
        return true;
    }
    let v = chars_of(running);
    let p = chars_of(configured);
    assert(v@.subrange(0, v@.len() as int) =~= v@);
    crate::text::ends_with_in(&v, 0, v.len(), &p)
}

/// Whether a server reporting the model path `running` (none: the check
/// failed) serves the configured model.
pub fn serves_model(running: Option<&str>, configured: &str) -> (r: bool)
    ensures
        r == match running {
            Some(p) => paths_match(p@, configured@),
            None => false,
        },
{
    match running {
        Some(p) => model_path_matches(p, configured),
        None => false,
    }
}

/// The cache folder name of a Hugging Face repository: `models--` and the
/// repository with each `/` written `--`.
pub open spec fn repo_dir_text(repo: Seq<char>) -> Seq<char> {
    "models--"@ + replace(repo, "/"@, "--"@)
}

/// The cache folder name of a repository.
pub fn repo_dir_name(repo: &str) -> (r: String)
    ensures
        r@ == repo_dir_text(repo@),
{
    proof {
        reveal_strlit("/");
    }
    let mut s = String::new();
    push_str(&mut s, "models--");
    let dashed = replace_str(repo, "/", "--");
    push_str(&mut s, dashed.as_str());
    s
}

/// The folder holding the model snapshots of a repository, under the home
/// directory (the current directory without one).
pub open spec fn snapshots_text(repo: Seq<char>, home: Option<Seq<char>>) -> Seq<char> {
    let root = match home {
        Some(h) => h,
        None => "."@,
    };
    path_joined(path_joined(path_joined(root, ".cache/huggingface/hub"@), repo_dir_text(repo)), "snapshots"@)
}

/// The snapshot the app downloads into.
pub open spec fn snapshot_text(repo: Seq<char>, home: Option<Seq<char>>) -> Seq<char> {
    path_joined(snapshots_text(repo, home), "yappr"@)
}

/// The snapshots folder for a repository, given the home directory.
pub fn model_snapshots_in(repo: &str, home: Option<&str>) -> (r: String)
    ensures
        r@ == snapshots_text(repo@, match home {
            Some(h) => Some(h@),
            None => None,
        }),
{
    let root = match home {
        Some(h) => h,
        None => ".",
    };
    let hub = path_join(root, ".cache/huggingface/hub");
    let name = repo_dir_name(repo);
    let repo_dir = path_join(hub.as_str(), name.as_str());
    path_join(repo_dir.as_str(), "snapshots")
}

/// The snapshots folder of the configured model in the user's cache.
pub fn model_snapshots(cfg: &Config) -> (r: String)
    ensures
        exists|home: Option<Seq<char>>| r@ == snapshots_text(cfg.model.repo@, home),
{
    let home = home_dir();
    match &home {
        Some(h) => model_snapshots_in(cfg.model.repo.as_str(), Some(h.as_str())),
        None => model_snapshots_in(cfg.model.repo.as_str(), None),
    }
}

/// The snapshot folder the app downloads into.
pub fn model_snapshot_dir(cfg: &Config) -> (r: String)
    ensures
        exists|home: Option<Seq<char>>| r@ == snapshot_text(cfg.model.repo@, home),
{
    let base = model_snapshots(cfg);
    let r = path_join(base.as_str(), "yappr");
    proof {
        let h = choose|home: Option<Seq<char>>| base@ == snapshots_text(cfg.model.repo@, home);
        assert(r@ == snapshot_text(cfg.model.repo@, h));
    }
    r
}

/// A snapshot folder and which of the two model files it holds.
pub struct SnapshotEntry {
    pub root: String,
    pub has_weights: bool,
    pub has_mmproj: bool,
}

/// The model files found in the snapshot folders.
pub struct ModelPaths {
    pub weights: Option<String>,
    pub mmproj: Option<String>,
}

/// The last entry at or before `i` that has the file.
pub open spec fn last_having(entries: Seq<SnapshotEntry>, weights: bool, i: int) -> Option<int>
    decreases i + 1,
{
    if i < 0 {
        None
    } else if (if weights { entries[i].has_weights } else { entries[i].has_mmproj }) {
        Some(i)
    } else {
        last_having(entries, weights, i - 1)
    }
}

/// The path of a file in the last folder that holds it.
pub open spec fn found_file(entries: Seq<SnapshotEntry>, weights: bool, name: Seq<char>) -> Option<Seq<char>> {
    match last_having(entries, weights, entries.len() - 1) {
        Some(k) => Some(path_joined(entries[k].root@, name)),
        None => None,
    }
}

/// The weights and projector files among the snapshot folders; a later
/// folder wins over an earlier one.
pub fn model_paths_from(entries: &Vec<SnapshotEntry>, weights: &str, mmproj: &str) -> (r: ModelPaths)
    ensures
        r.weights matches Some(w) ==> found_file(entries@, true, weights@) == Some(w@),
        r.weights is None ==> found_file(entries@, true, weights@) is None,
        r.mmproj matches Some(m) ==> found_file(entries@, false, mmproj@) == Some(m@),
        r.mmproj is None ==> found_file(entries@, false, mmproj@) is None,
{
    let mut w: Option<String> = None;
    let mut m: Option<String> = None;
    let ghost mut wi: Option<int> = None;
    let ghost mut mi: Option<int> = None;
    let mut i: usize = 0;
    while i < entries.len()
        invariant
            i <= entries@.len(),
            wi == last_having(entries@, true, i - 1),
            mi == last_having(entries@, false, i - 1),
            w matches Some(x) ==> wi matches Some(k) && x@ == path_joined(entries@[k].root@, weights@),
            w is None ==> wi is None,
            m matches Some(x) ==> mi matches Some(k) && x@ == path_joined(entries@[k].root@, mmproj@),
            m is None ==> mi is None,
        decreases entries@.len() - i,
    {
        let e = &entries[i];
        if e.has_weights {
            w = Some(path_join(e.root.as_str(), weights));
            proof { wi = Some(i as int); }
        }
        if e.has_mmproj {
            m = Some(path_join(e.root.as_str(), mmproj));
            proof { mi = Some(i as int); }
        }
        i = i + 1;
    }
    ModelPaths { weights: w, mmproj: m }
}

impl ModelPaths {
    /// Both model files are present.
    pub fn complete(&self) -> (r: bool)
        ensures
            r == (self.weights is Some && self.mmproj is Some),
    {
        self.weights.is_some() && self.mmproj.is_some()
    }
}

/// The two model files to launch with, or which one is missing.
pub open spec fn launch_files_of(weights: Option<Seq<char>>, mmproj: Option<Seq<char>>) -> Result<(Seq<char>, Seq<char>), Seq<char>> {
    match weights {
        None => Err("model weights not found in Hugging Face cache; download the configured model"@),
        Some(w) => match mmproj {
            None => Err("audio mmproj not found in Hugging Face cache; download the configured model"@),
            Some(m) => Ok((w, m)),
        },
    }
}

pub open spec fn opt_view(o: Option<String>) -> Option<Seq<char>> {
    match o {
        Some(s) => Some(s@),
        None => None,
    }
}

pub open spec fn launch_view(r: Result<(String, String), String>) -> Result<(Seq<char>, Seq<char>), Seq<char>> {
    match r {
        Ok(f) => Ok((f.0@, f.1@)),
        Err(e) => Err(e@),
    }
}

/// The two model files to launch with, or which one is missing.
pub fn launch_files(paths: ModelPaths) -> (r: Result<(String, String), String>)
    ensures
        launch_view(r) == launch_files_of(opt_view(paths.weights), opt_view(paths.mmproj)),
{
    match paths.weights {
        None => Err("model weights not found in Hugging Face cache; download the configured model".to_string()),
        Some(w) => match paths.mmproj {
            None => Err("audio mmproj not found in Hugging Face cache; download the configured model".to_string()),
            Some(m) => Ok((w, m)),
        },
    }
}

// ---------------------------------------------------------------- launching

/// The `llama-server` arguments for the model files, context size, GPU
/// layers and port.
pub open spec fn server_args_text(weights: Seq<char>, mmproj: Seq<char>, ctx_size: Seq<char>, ngl: Seq<char>, port: u16) -> Seq<Seq<char>> {
    seq![
        "-m"@, weights, "--mmproj"@, mmproj, "-fa"@, "on"@, "--jinja"@, "-c"@, ctx_size, "-ngl"@, ngl,
        "--port"@, decimal(port as nat),
    ]
}

/// The command line of the managed server.
pub fn server_args(weights: &str, mmproj: &str, ctx_size: &str, ngl: &str, port: u16) -> (r: Vec<String>)
    ensures
        texts(r@) == server_args_text(weights@, mmproj@, ctx_size@, ngl@, port),
{
    let mut port_text = String::new();
    push_decimal(&mut port_text, port as u64);
    let r = vec![
        "-m".to_string(),
        weights.to_string(),
        "--mmproj".to_string(),
        mmproj.to_string(),
        "-fa".to_string(),
        "on".to_string(),
        "--jinja".to_string(),
        "-c".to_string(),
        ctx_size.to_string(),
        "-ngl".to_string(),
        ngl.to_string(),
        "--port".to_string(),
        port_text,
    ];
    assert(texts(r@) =~= server_args_text(weights@, mmproj@, ctx_size@, ngl@, port));
    r
}

/// Why the app will not use a server already on the port.
pub open spec fn port_taken_text(port: u16) -> Seq<char> {
    "port "@ + decimal(port as nat) + " already has a llama-server running with a different model; stop it before launching Yappr"@
}

/// The error for a server on the port that serves another model.
pub fn port_taken_error(port: u16) -> (r: String)
    ensures
        r@ == port_taken_text(port),
{
    let mut s = String::new();
    push_str(&mut s, "port ");
    push_decimal(&mut s, port as u64);
    push_str(&mut s, " already has a llama-server running with a different model; stop it before launching Yappr");
    s
}

/// Where the server's output goes: `/dev/null` with logging off, else the
/// server log, appended to.
pub fn server_log_path(logging_enabled: bool) -> (r: &'static str)
    ensures
        r@ == (if logging_enabled { "/tmp/yappr-llama-server.log"@ } else { "/dev/null"@ }),
{
    if logging_enabled {
        "/tmp/yappr-llama-server.log"
    } else {
        "/dev/null"
    }
}

/// A binary configured by path rather than `auto` (or left blank).
pub open spec fn explicit_binary(configured: Seq<char>) -> bool {
    configured != "auto"@ && trim(configured).len() > 0
}

/// Where to look for `llama-server`, in order: only the configured path when
/// one is given; else the bundled copy, then each `PATH` folder.
pub open spec fn binary_candidates_text(configured: Seq<char>, home: Option<Seq<char>>, path_dirs: Seq<Seq<char>>) -> Seq<Seq<char>> {
    if explicit_binary(configured) {
        seq![expanded(configured, home)]
    } else {
        seq![expanded("~/.yappr/bin/llama-server"@, home)] + path_dirs.map_values(
            |d: Seq<char>| path_joined(d, "llama-server"@),
        )
    }
}

/// The places to look for the server binary, given the home directory and
/// the `PATH` folders; the first that exists is used.
pub fn binary_candidates(configured: &str, home: Option<&str>, path_dirs: &Vec<String>) -> (r: Vec<String>)
    ensures
        texts(r@) == binary_candidates_text(configured@, match home {
            Some(h) => Some(h@),
            None => None,
        }, texts(path_dirs@)),
{
    let t = trimmed(configured);
    if !same_text(configured, "auto") && !t.as_str().is_empty() {
        let r = vec![expand_tilde_in(configured, home)];
        assert(texts(r@) =~= seq![r@[0]@]);
        return r;
    }
    let ghost dirs = texts(path_dirs@);
    let ghost h = match home {
        Some(h) => Some(h@),
        None => None,
    };
    let mut r: Vec<String> = Vec::new();
    r.push(expand_tilde_in("~/.yappr/bin/llama-server", home));
    let mut i: usize = 0;
    while i < path_dirs.len()
        invariant
            i <= path_dirs@.len(),
            dirs == texts(path_dirs@),
            texts(r@) == seq![expanded("~/.yappr/bin/llama-server"@, h)] + dirs.take(i as int).map_values(
                |d: Seq<char>| path_joined(d, "llama-server"@),
            ),
        decreases path_dirs@.len() - i,
    {
        let ghost before = texts(r@);
        r.push(path_join(path_dirs[i].as_str(), "llama-server"));
        assert(dirs.take(i + 1) =~= dirs.take(i as int).push(path_dirs@[i as int]@));
        assert(texts(r@) =~= before.push(path_joined(path_dirs@[i as int]@, "llama-server"@)));
        i = i + 1;
    }
    assert(dirs.take(path_dirs@.len() as int) =~= dirs);
    r
}

} // verus!
