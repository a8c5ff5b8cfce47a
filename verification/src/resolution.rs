//! The steps of resolving a model reference and of listing what a model
//! repository offers. Each step decides what to do next from what the
//! previous HTTP request gave; the caller performs the requests.

use vstd::prelude::*;
use vstd::string::StringExecFns;
use crate::cache::{clone_strings, fresh_list, stored, CacheContents, ListCache, CACHE_TTL_MS};
use crate::health::status_text;
use crate::health::status_display;
use crate::models::{opt_view, ResolvedModelDownload, ResolvedModelDownloadView};
use crate::resolver::{
    best_file_index, build_hf_auth_headers, direct_url_result, extract_filename_from_url,
    extract_ollama_tags_from_body, gguf_files, gguf_only, hf_auth_headers, hf_input_result,
    hf_repo_id_result, ollama_input, ollama_page_tags, ollama_repo_path, parse_hugging_face_input,
    parse_hugging_face_repo_id, parse_ollama_input, parse_ollama_repo_path, pick_best_gguf_file,
    resolve_direct_url, sanitize_error, sanitized, strings_view, url_file_name,
};
use crate::text::{
    after_last, after_last_chars, chars_eq, chars_of, contains, contains_chars, owned,
    replace_char, replace_char_exec, slice_range, starts_with, starts_with_chars, string_of, trim,
    trim_chars,
};

verus! {

/// What came of an HTTP request whose body is decoded as `T`.
pub enum Fetched<T> {
    /// The request could not be sent; the error's text.
    SendFailed(String),
    /// The server answered with this status, outside `200..300`; the body
    /// was not read.
    Status(u16),
    /// The body could not be read or decoded; the error's text.
    ReadFailed(String),
    /// The decoded body.
    Body(T),
}

/// A status that came from the server is a valid HTTP status code.
pub open spec fn status_in_range<T>(f: Fetched<T>) -> bool {
    f matches Fetched::Status(c) ==> 100 <= c <= 999
}

/// One layer of an Ollama image manifest.
pub struct OllamaLayer {
    pub media_type: String,
    pub digest: String,
}

pub open spec fn opt_str(t: Option<&str>) -> Option<Seq<char>> {
    match t {
        Some(s) => Some(s@),
        None => None,
    }
}

pub open spec fn strings_result(r: Result<Vec<String>, String>) -> Result<Seq<Seq<char>>, Seq<char>> {
    match r {
        Ok(v) => Ok(strings_view(v@)),
        Err(e) => Err(e@),
    }
}

pub open spec fn download_result(r: Result<ResolvedModelDownload, String>) -> Result<ResolvedModelDownloadView, Seq<char>> {
    match r {
        Ok(d) => Ok(d@),
        Err(e) => Err(e@),
    }
}

/// The list a decoded answer holds (none is an empty list).
pub open spec fn opt_strings(t: Option<Vec<String>>) -> Seq<Seq<char>> {
    match t {
        Some(v) => strings_view(v@),
        None => Seq::empty(),
    }
}

/// The Hugging Face API endpoint that describes `repo`.
pub open spec fn hf_api_url(repo: Seq<char>) -> Seq<char> {
    "https://huggingface.co/api/models/"@ + repo
}

/// The `Authorization` value that sends `token`, if there is one.
pub open spec fn bearer_header(token: Option<Seq<char>>) -> Option<Seq<char>> {
    match token {
        Some(t) => Some("Bearer "@ + t),
        None => None,
    }
}

/// The file names of a repository that a model-info answer gives, or the
/// error; errors that could quote the request are masked.
pub open spec fn siblings_result(f: Fetched<Option<Vec<String>>>) -> Result<Seq<Seq<char>>, Seq<char>> {
    match f {
        Fetched::SendFailed(e) => Err(sanitized("failed to fetch Hugging Face model info: "@ + e@)),
        Fetched::Status(c) => Err("Hugging Face API request failed with HTTP status "@ + status_text(c)),
        Fetched::ReadFailed(e) => Err(sanitized("failed to parse Hugging Face model response: "@ + e@)),
        Fetched::Body(t) => Ok(opt_strings(t)),
    }
}

/// The download of `file` from the Hugging Face repository `repo`.
pub open spec fn hf_download(repo: Seq<char>, file: Seq<char>, token: Option<Seq<char>>) -> ResolvedModelDownloadView {
    ResolvedModelDownloadView {
        download_url: "https://huggingface.co/"@ + repo + "/resolve/main/"@ + file + "?download=true"@,
        suggested_file_name: file,
        request_headers: hf_auth_headers(token),
    }
}

/// The best-scoring of a non-empty list of `.gguf` files.
pub open spec fn best_gguf(files: Seq<Seq<char>>) -> Seq<char> {
    files[best_file_index(files, files.len() as int)]
}

/// What a Hugging Face repository resolves to once its file list (or the
/// error that fetching it gave) is known: its best `.gguf` file.
pub open spec fn hf_finish_result(
    repo: Seq<char>,
    siblings: Result<Seq<Seq<char>>, Seq<char>>,
    token: Option<Seq<char>>,
) -> Result<ResolvedModelDownloadView, Seq<char>> {
    match siblings {
        Err(e) => Err(e),
        Ok(names) => {
            let g = gguf_only(names);
            if g.len() == 0 {
                Err("no .gguf files found in repository "@ + repo)
            } else {
                Ok(hf_download(repo, best_gguf(g), token))
            }
        },
    }
}

/// The request for the Hugging Face model info of `repo_id`: its URL and
/// the `Authorization` value.
fn siblings_request(repo_id: &str, token: Option<&str>) -> (r: (String, Option<String>))
    ensures
        r.0@ == hf_api_url(repo_id@),
        opt_view(r.1) == bearer_header(opt_str(token)),
{
    let mut url = owned("https://huggingface.co/api/models/");
    url.append(repo_id);
    let auth = match token {
        Some(t) => {
            let mut a = owned("Bearer ");
            a.append(t);
            Some(a)
        },
        None => None,
    };
    (url, auth)
}

fn hf_download_exec(repo: &str, file: String, token: Option<&str>) -> (r: ResolvedModelDownload)
    ensures
        r@ == hf_download(repo@, file@, opt_str(token)),
{
    let mut url = owned("https://huggingface.co/");
    url.append(repo);
    url.append("/resolve/main/");
    url.append(file.as_str());
    url.append("?download=true");
    let headers = build_hf_auth_headers(token);
    ResolvedModelDownload { download_url: url, suggested_file_name: file, request_headers: headers }
}

/// Resolves the Hugging Face repository `repo_id` once its file list (or
/// the error that fetching it gave) is known.
pub fn finish_hugging_face(
    repo_id: &str,
    siblings: Result<Vec<String>, String>,
    hf_token: Option<&str>,
) -> (r: Result<ResolvedModelDownload, String>)
    ensures
        download_result(r) == hf_finish_result(repo_id@, strings_result(siblings), opt_str(hf_token)),
{
    match siblings {
        Err(e) => Err(e),
        Ok(names) => {
            let g = gguf_files(&names);
            if g.len() == 0 {
                let mut m = owned("no .gguf files found in repository ");
                m.append(repo_id);
                Err(m)
            } else {
                let best = pick_best_gguf_file(&g);
                Ok(hf_download_exec(repo_id, best, hf_token))
            }
        },
    }
}

/// The `.gguf` files of a repository, from its file list (or the error
/// that fetching it gave).
pub fn gguf_listing(siblings: Result<Vec<String>, String>) -> (r: Result<Vec<String>, String>)
    ensures
        strings_result(r) == match strings_result(siblings) {
            Ok(names) => Ok(gguf_only(names)),
            Err(e) => Err::<Seq<Seq<char>>, Seq<char>>(e),
        },
{
    match siblings {
        Err(e) => Err(e),
        Ok(names) => Ok(gguf_files(&names)),
    }
}

/// The layer chosen for download, searching from `i`: the first whose
/// media type names a model or GGUF data.
pub open spec fn model_layer_from(ls: Seq<OllamaLayer>, i: int) -> Option<int>
    decreases ls.len() - i,
{
    if i < 0 || i >= ls.len() {
        None
    } else if contains(ls[i].media_type@, "model"@) || contains(ls[i].media_type@, "gguf"@) {
        Some(i)
    } else {
        model_layer_from(ls, i + 1)
    }
}

/// Index of the layer to download: the first model layer, or else the
/// first layer.
pub open spec fn chosen_layer(ls: Seq<OllamaLayer>) -> int {
    match model_layer_from(ls, 0) {
        Some(i) => i,
        None => 0,
    }
}

proof fn lemma_model_layer_from(ls: Seq<OllamaLayer>, i: int)
    requires
        0 <= i <= ls.len(),
    ensures
        match model_layer_from(ls, i) {
            Some(k) => i <= k < ls.len(),
            None => true,
        },
    decreases ls.len() - i,
{
    if i < ls.len() && !(contains(ls[i].media_type@, "model"@) || contains(ls[i].media_type@, "gguf"@)) {
        lemma_model_layer_from(ls, i + 1);
    }
}

/// At most the first twelve characters.
pub open spec fn first_twelve(s: Seq<char>) -> Seq<char> {
    if s.len() <= 12 {
        s
    } else {
        s.take(12)
    }
}

/// The Ollama registry URL of the manifest of `repo_path:tag`.
pub open spec fn manifest_url(repo_path: Seq<char>, tag: Seq<char>) -> Seq<char> {
    "https://registry.ollama.ai/v2/"@ + repo_path + "/manifests/"@ + tag
}

/// The manifest formats asked for.
pub open spec fn manifest_accept() -> Seq<Seq<char>> {
    seq![
        "application/vnd.docker.distribution.manifest.v2+json"@,
        "application/vnd.oci.image.manifest.v1+json"@,
    ]
}

/// The download of the blob `digest` of `repo_path:tag`; the file is named
/// after the repository, the tag and the start of the digest's hash.
pub open spec fn manifest_download(repo_path: Seq<char>, tag: Seq<char>, digest: Seq<char>) -> ResolvedModelDownloadView {
    ResolvedModelDownloadView {
        download_url: "https://registry.ollama.ai/v2/"@ + repo_path + "/blobs/"@ + digest,
        suggested_file_name: replace_char(repo_path, '/', '-') + "-"@ + tag + "-"@ + first_twelve(
            after_last(digest, ':'),
        ) + ".gguf"@,
        request_headers: None,
    }
}

/// What an Ollama model resolves to from the answer to its manifest
/// request.
pub open spec fn manifest_result(
    repo_path: Seq<char>,
    tag: Seq<char>,
    f: Fetched<Option<Vec<OllamaLayer>>>,
) -> Result<ResolvedModelDownloadView, Seq<char>> {
    match f {
        Fetched::SendFailed(e) => Err("failed to fetch Ollama manifest: "@ + e@),
        Fetched::Status(c) => Err("Ollama manifest request failed with HTTP status "@ + status_text(c)),
        Fetched::ReadFailed(e) => Err("failed to parse Ollama manifest: "@ + e@),
        Fetched::Body(layers) => {
            let ls = match layers {
                Some(v) => v@,
                None => Seq::empty(),
            };
            if ls.len() == 0 {
                Err("Ollama manifest contains no layers"@)
            } else {
                Ok(manifest_download(repo_path, tag, ls[chosen_layer(ls)].digest@))
            }
        },
    }
}

fn chosen_layer_exec(ls: &Vec<OllamaLayer>) -> (i: usize)
    requires
        ls@.len() > 0,
    ensures
        i == chosen_layer(ls@),
        i < ls@.len(),
{
    let model = chars_of("model");
    let gguf = chars_of("gguf");
    let mut i: usize = 0;
    while i < ls.len()
        invariant
            0 <= i <= ls@.len(),
            model@ == "model"@,
            gguf@ == "gguf"@,
            model_layer_from(ls@, 0) == model_layer_from(ls@, i as int),
        decreases ls@.len() - i,
    {
        let mt = chars_of(ls[i].media_type.as_str());
        if contains_chars(mt.as_slice(), model.as_slice()) || contains_chars(mt.as_slice(), gguf.as_slice()) {
            return i;
        }
        i = i + 1;
    }
    0
}

fn manifest_download_exec(repo_path: &str, tag: &str, digest: &str) -> (r: ResolvedModelDownload)
    ensures
        r@ == manifest_download(repo_path@, tag@, digest@),
{
    let mut url = owned("https://registry.ollama.ai/v2/");
    url.append(repo_path);
    url.append("/blobs/");
    url.append(digest);
    let d = chars_of(digest);
    let hash = after_last_chars(d.as_slice(), ':');
    let prefix = if hash.len() <= 12 {
        hash
    } else {
        let p = slice_range(hash.as_slice(), 0, 12);
        assert(p@ =~= hash@.take(12));
        p
    };
    let rp = chars_of(repo_path);
    let safe = replace_char_exec(rp.as_slice(), '/', '-');
    let mut name = string_of(safe.as_slice());
    name.append("-");
    name.append(tag);
    name.append("-");
    let ps = string_of(prefix.as_slice());
    name.append(ps.as_str());
    name.append(".gguf");
    ResolvedModelDownload { download_url: url, suggested_file_name: name, request_headers: None }
}

/// Resolves the Ollama model `repo_path:tag` from the answer to its
/// manifest request.
pub fn finish_ollama(repo_path: &str, tag: &str, fetched: Fetched<Option<Vec<OllamaLayer>>>) -> (r: Result<ResolvedModelDownload, String>)
    requires
        status_in_range(fetched),
    ensures
        download_result(r) == manifest_result(repo_path@, tag@, fetched),
{
    match fetched {
        Fetched::SendFailed(e) => {
            let mut m = owned("failed to fetch Ollama manifest: ");
            m.append(e.as_str());
            Err(m)
        },
        Fetched::Status(c) => {
            let mut m = owned("Ollama manifest request failed with HTTP status ");
            let st = status_display(c);
            m.append(st.as_str());
            Err(m)
        },
        Fetched::ReadFailed(e) => {
            let mut m = owned("failed to parse Ollama manifest: ");
            m.append(e.as_str());
            Err(m)
        },
        Fetched::Body(layers) => {
            let ls = match layers {
                Some(v) => v,
                None => Vec::new(),
            };
            if ls.len() == 0 {
                Err(owned("Ollama manifest contains no layers"))
            } else {
                proof {
                    lemma_model_layer_from(ls@, 0);
                }
                let i = chosen_layer_exec(&ls);
                Ok(manifest_download_exec(repo_path, tag, ls[i].digest.as_str()))
            }
        },
    }
}


/// The Ollama registry URL that lists the tags of `repo_path`.
pub open spec fn registry_tags_url(repo_path: Seq<char>) -> Seq<char> {
    "https://registry.ollama.ai/v2/"@ + repo_path + "/tags/list"@
}

/// The ollama.com page that lists the tags of `repo_path`.
pub open spec fn library_tags_url(repo_path: Seq<char>) -> Seq<char> {
    "https://ollama.com/"@ + repo_path + "/tags"@
}

/// What a resolution starts with, before any request.
pub enum ResolvePlan {
    /// The answer, without any request.
    Done(Result<ResolvedModelDownloadView, Seq<char>>),
    /// The file list of this Hugging Face repository is needed.
    Siblings(Seq<char>),
    /// The manifest of this Ollama repository path and tag is needed.
    Manifest(Seq<char>, Seq<char>),
}

/// How Hugging Face input is resolved: an absolute URL is taken as it is;
/// `owner/repo::file` names the file; `owner/repo` needs the file list.
pub open spec fn hf_plan(input: Seq<char>, token: Option<Seq<char>>) -> ResolvePlan {
    let t = trim(input);
    if starts_with(t, "http://"@) || starts_with(t, "https://"@) {
        ResolvePlan::Done(
            Ok(
                ResolvedModelDownloadView {
                    download_url: t,
                    suggested_file_name: match url_file_name(t) {
                        Some(n) => n,
                        None => "model.gguf"@,
                    },
                    request_headers: hf_auth_headers(token),
                },
            ),
        )
    } else {
        match hf_input_result(t) {
            Err(e) => ResolvePlan::Done(Err(e)),
            Ok((repo, Some(file))) => ResolvePlan::Done(Ok(hf_download(repo, file, token))),
            Ok((repo, None)) => ResolvePlan::Siblings(repo),
        }
    }
}

/// How a model reference from `source` is resolved.
pub open spec fn resolve_plan(source: Seq<char>, input: Seq<char>, token: Option<Seq<char>>) -> ResolvePlan {
    if source == "Direct URL"@ {
        ResolvePlan::Done(direct_url_result(input))
    } else if source == "Hugging Face"@ {
        hf_plan(input, token)
    } else if source == "Ollama Library"@ {
        ResolvePlan::Manifest(ollama_input(input).0, ollama_input(input).1)
    } else {
        ResolvePlan::Done(Err("unknown source: "@ + source))
    }
}

/// The next step of a resolution.
pub enum ResolveNext {
    /// Resolved, or refused.
    Done(Result<ResolvedModelDownload, String>),
    /// The file list of `repo_id` is needed: GET `url`, sending the
    /// `Authorization` value if there is one, hand the answer to
    /// `receive_siblings`, then call `finish_hugging_face`.
    FetchSiblings { repo_id: String, url: String, authorization: Option<String> },
    /// The manifest of `repo_path:tag` is needed: GET `url`, accepting the
    /// media types `accept`, then call `finish_ollama`.
    FetchManifest { repo_path: String, tag: String, url: String, accept: Vec<String> },
}

/// The next step of listing the `.gguf` files of a Hugging Face repository.
pub enum ListNext {
    /// Listed, or refused.
    Done(Result<Vec<String>, String>),
    /// The file list of `repo_id` is needed: GET `url`, sending the
    /// `Authorization` value if there is one, hand the answer to
    /// `receive_siblings`, then call `gguf_listing`.
    FetchSiblings { repo_id: String, url: String, authorization: Option<String> },
}

/// The next step of listing the tags of an Ollama model.
pub enum TagsNext {
    /// Listed, or refused.
    Done(Result<Vec<String>, String>),
    /// GET `url`, the registry's tag list, decode the tag names, and hand
    /// the answer to `receive_registry_tags`.
    FetchRegistry { repo_path: String, url: String },
    /// GET `url`, the tags page of the library, read its text, and hand the
    /// answer to `receive_library_tags`.
    FetchLibrary { repo_path: String, url: String, registry_status: u16 },
}

/// Resolves model references and lists what repositories offer, keeping
/// fetched lists for a few minutes.
pub struct ModelResolverService {
    ollama_cache: ListCache,
    hf_cache: ListCache,
}

fn manifest_accept_exec() -> (r: Vec<String>)
    ensures
        strings_view(r@) == manifest_accept(),
{
    let mut r: Vec<String> = Vec::new();
    r.push(owned("application/vnd.docker.distribution.manifest.v2+json"));
    r.push(owned("application/vnd.oci.image.manifest.v1+json"));
    assert(strings_view(r@) =~= manifest_accept());
    r
}

fn same_str(a: &str, b: &str) -> (r: bool)
    ensures
        r == (a@ == b@),
{
    let x = chars_of(a);
    let y = chars_of(b);
    chars_eq(x.as_slice(), y.as_slice())
}

impl ModelResolverService {
    pub closed spec fn wf(&self) -> bool {
        self.ollama_cache.wf() && self.hf_cache.wf()
    }

    /// The tag lists kept, by Ollama repository path.
    pub closed spec fn ollama_lists(&self) -> CacheContents {
        self.ollama_cache@
    }

    /// The file lists kept, by Hugging Face repository.
    pub closed spec fn hf_lists(&self) -> CacheContents {
        self.hf_cache@
    }

    pub fn new() -> (s: ModelResolverService)
        ensures
            s.wf(),
            s.ollama_lists() == CacheContents::empty(),
            s.hf_lists() == CacheContents::empty(),
    {
        ModelResolverService { ollama_cache: ListCache::new(), hf_cache: ListCache::new() }
    }

    /// Takes in the answer to the file-list request for `repo_id`: the file
    /// names, which are kept for later, or the error.
    pub fn receive_siblings(&mut self, repo_id: &str, fetched: Fetched<Option<Vec<String>>>, now_ms: u64) -> (r: Result<Vec<String>, String>)
        requires
            old(self).wf(),
            status_in_range(fetched),
            now_ms <= u64::MAX - CACHE_TTL_MS,
        ensures
            final(self).wf(),
            strings_result(r) == siblings_result(fetched),
            final(self).ollama_lists() == old(self).ollama_lists(),
            final(self).hf_lists() == match siblings_result(fetched) {
                Ok(names) => stored(old(self).hf_lists(), repo_id@, names, now_ms),
                Err(_) => old(self).hf_lists(),
            },
    {
        match fetched {
            Fetched::SendFailed(e) => {
                let mut m = owned("failed to fetch Hugging Face model info: ");
                m.append(e.as_str());
                Err(sanitize_error(m.as_str()))
            },
            Fetched::Status(c) => {
                let mut m = owned("Hugging Face API request failed with HTTP status ");
                let st = status_display(c);
                m.append(st.as_str());
                Err(m)
            },
            Fetched::ReadFailed(e) => {
                let mut m = owned("failed to parse Hugging Face model response: ");
                m.append(e.as_str());
                Err(sanitize_error(m.as_str()))
            },
            Fetched::Body(t) => {
                let ghost expected = opt_strings(t);
                let names = match t {
                    Some(v) => v,
                    None => Vec::new(),
                };
                assert(strings_view(names@) =~= expected);
                let copy = clone_strings(&names);
                self.hf_cache.store(owned(repo_id), copy, now_ms);
                Ok(names)
            },
        }
    }

    /// The start of a resolution of `input` from `source` (`Direct URL`,
    /// `Hugging Face` or `Ollama Library`) at time `now_ms`.
    pub fn resolve(&self, source: &str, input: &str, hf_token: Option<&str>, now_ms: u64) -> (r: ResolveNext)
        requires
            self.wf(),
        ensures
            match resolve_plan(source@, input@, opt_str(hf_token)) {
                ResolvePlan::Done(res) => r matches ResolveNext::Done(x) && download_result(x) == res,
                ResolvePlan::Siblings(repo) => match fresh_list(self.hf_lists(), repo, now_ms) {
                    Some(names) => r matches ResolveNext::Done(x) && download_result(x) == hf_finish_result(
                        repo,
                        Ok(names),
                        opt_str(hf_token),
                    ),
                    None => r matches ResolveNext::FetchSiblings { repo_id, url, authorization } && repo_id@
                        == repo && url@ == hf_api_url(repo) && opt_view(authorization) == bearer_header(
                        opt_str(hf_token),
                    ),
                },
                ResolvePlan::Manifest(rp, tag) => r matches ResolveNext::FetchManifest {
                    repo_path,
                    tag: t,
                    url,
                    accept,
                } && repo_path@ == rp && t@ == tag && url@ == manifest_url(rp, tag) && strings_view(accept@)
                    == manifest_accept(),
            },
    {
        if same_str(source, "Direct URL") {
            ResolveNext::Done(resolve_direct_url(input))
        } else if same_str(source, "Hugging Face") {
            self.resolve_hugging_face(input, hf_token, now_ms)
        } else if same_str(source, "Ollama Library") {
            let (repo_path, tag) = parse_ollama_input(input);
            let mut url = owned("https://registry.ollama.ai/v2/");
            url.append(repo_path.as_str());
            url.append("/manifests/");
            url.append(tag.as_str());
            ResolveNext::FetchManifest { repo_path, tag, url, accept: manifest_accept_exec() }
        } else {
            let mut m = owned("unknown source: ");
            m.append(source);
            ResolveNext::Done(Err(m))
        }
    }

    fn resolve_hugging_face(&self, input: &str, hf_token: Option<&str>, now_ms: u64) -> (r: ResolveNext)
        requires
            self.wf(),
        ensures
            match hf_plan(input@, opt_str(hf_token)) {
                ResolvePlan::Done(res) => r matches ResolveNext::Done(x) && download_result(x) == res,
                ResolvePlan::Siblings(repo) => match fresh_list(self.hf_lists(), repo, now_ms) {
                    Some(names) => r matches ResolveNext::Done(x) && download_result(x) == hf_finish_result(
                        repo,
                        Ok(names),
                        opt_str(hf_token),
                    ),
                    None => r matches ResolveNext::FetchSiblings { repo_id, url, authorization } && repo_id@
                        == repo && url@ == hf_api_url(repo) && opt_view(authorization) == bearer_header(
                        opt_str(hf_token),
                    ),
                },
                ResolvePlan::Manifest(..) => false,
            },
    {
        let v = chars_of(input);
        let tv = trim_chars(v.as_slice());
        let t = string_of(tv.as_slice());
        let http = chars_of("http://");
        let https = chars_of("https://");
        if starts_with_chars(tv.as_slice(), http.as_slice()) || starts_with_chars(tv.as_slice(), https.as_slice()) {
            let file_name = match extract_filename_from_url(t.as_str()) {
                Some(n) => n,
                None => owned("model.gguf"),
            };
            let headers = build_hf_auth_headers(hf_token);
            return ResolveNext::Done(
                Ok(ResolvedModelDownload { download_url: t, suggested_file_name: file_name, request_headers: headers }),
            );
        }
        match parse_hugging_face_input(t.as_str()) {
            Err(e) => ResolveNext::Done(Err(e)),
            Ok((repo, Some(file))) => ResolveNext::Done(Ok(hf_download_exec(repo.as_str(), file, hf_token))),
            Ok((repo, None)) => {
                match self.hf_cache.lookup(&repo, now_ms) {
                    Some(names) => ResolveNext::Done(finish_hugging_face(repo.as_str(), Ok(names), hf_token)),
                    None => {
                        let (url, authorization) = siblings_request(repo.as_str(), hf_token);
                        ResolveNext::FetchSiblings { repo_id: repo, url, authorization }
                    },
                }
            },
        }
    }

    /// The start of listing the `.gguf` files of the Hugging Face
    /// repository named by `input`, at time `now_ms`.
    pub fn list_hugging_face_gguf_files(&self, input: &str, token: Option<&str>, now_ms: u64) -> (r: ListNext)
        requires
            self.wf(),
        ensures
            match hf_repo_id_result(input@) {
                Err(e) => r matches ListNext::Done(Err(m)) && m@ == e,
                Ok(repo) => match fresh_list(self.hf_lists(), repo, now_ms) {
                    Some(names) => r matches ListNext::Done(Ok(v)) && strings_view(v@) == gguf_only(names),
                    None => r matches ListNext::FetchSiblings { repo_id, url, authorization } && repo_id@ == repo
                        && url@ == hf_api_url(repo) && opt_view(authorization) == bearer_header(opt_str(token)),
                },
            },
    {
        match parse_hugging_face_repo_id(input) {
            Err(e) => ListNext::Done(Err(e)),
            Ok(repo) => {
                match self.hf_cache.lookup(&repo, now_ms) {
                    Some(names) => ListNext::Done(Ok(gguf_files(&names))),
                    None => {
                        let (url, authorization) = siblings_request(repo.as_str(), token);
                        ListNext::FetchSiblings { repo_id: repo, url, authorization }
                    },
                }
            },
        }
    }

    /// The start of listing the tags of the Ollama model named by `input`,
    /// at time `now_ms`.
    pub fn list_ollama_tags(&self, input: &str, now_ms: u64) -> (r: TagsNext)
        requires
            self.wf(),
        ensures
            match fresh_list(self.ollama_lists(), ollama_repo_path(input@), now_ms) {
                Some(tags) => r matches TagsNext::Done(Ok(v)) && strings_view(v@) == tags,
                None => r matches TagsNext::FetchRegistry { repo_path, url } && repo_path@ == ollama_repo_path(
                    input@,
                ) && url@ == registry_tags_url(ollama_repo_path(input@)),
            },
    {
        let repo_path = parse_ollama_repo_path(input);
        match self.ollama_cache.lookup(&repo_path, now_ms) {
            Some(tags) => TagsNext::Done(Ok(tags)),
            None => {
                let mut url = owned("https://registry.ollama.ai/v2/");
                url.append(repo_path.as_str());
                url.append("/tags/list");
                TagsNext::FetchRegistry { repo_path, url }
            },
        }
    }

    /// Takes in the answer of the registry to the tag-list request for
    /// `repo_path`: the tags, kept for later; or, when the registry refused,
    /// the request of the library's tags page.
    pub fn receive_registry_tags(&mut self, repo_path: &str, fetched: Fetched<Option<Vec<String>>>, now_ms: u64) -> (r: TagsNext)
        requires
            old(self).wf(),
            now_ms <= u64::MAX - CACHE_TTL_MS,
        ensures
            final(self).wf(),
            final(self).hf_lists() == old(self).hf_lists(),
            match fetched {
                Fetched::SendFailed(e) => r matches TagsNext::Done(Err(m)) && m@ == "failed to fetch Ollama tags: "@
                    + e@ && final(self).ollama_lists() == old(self).ollama_lists(),
                Fetched::Status(c) => r matches TagsNext::FetchLibrary { repo_path: p, url, registry_status } && p@
                    == repo_path@ && url@ == library_tags_url(repo_path@) && registry_status == c
                    && final(self).ollama_lists() == old(self).ollama_lists(),
                Fetched::ReadFailed(e) => r matches TagsNext::Done(Err(m)) && m@
                    == "failed to parse Ollama tags response: "@ + e@ && final(self).ollama_lists() == old(
                    self,
                ).ollama_lists(),
                Fetched::Body(t) => r matches TagsNext::Done(Ok(v)) && strings_view(v@) == opt_strings(t)
                    && final(self).ollama_lists() == stored(
                    old(self).ollama_lists(),
                    repo_path@,
                    opt_strings(t),
                    now_ms,
                ),
            },
    {
        match fetched {
            Fetched::SendFailed(e) => {
                let mut m = owned("failed to fetch Ollama tags: ");
                m.append(e.as_str());
                TagsNext::Done(Err(m))
            },
            Fetched::Status(c) => {
                let mut url = owned("https://ollama.com/");
                url.append(repo_path);
                url.append("/tags");
                TagsNext::FetchLibrary { repo_path: owned(repo_path), url, registry_status: c }
            },
            Fetched::ReadFailed(e) => {
                let mut m = owned("failed to parse Ollama tags response: ");
                m.append(e.as_str());
                TagsNext::Done(Err(m))
            },
            Fetched::Body(t) => {
                let ghost expected = opt_strings(t);
                let tags = match t {
                    Some(v) => v,
                    None => Vec::new(),
                };
                assert(strings_view(tags@) =~= expected);
                let copy = clone_strings(&tags);
                self.ollama_cache.store(owned(repo_path), copy, now_ms);
                TagsNext::Done(Ok(tags))
            },
        }
    }

    /// Takes in the answer to the request of the library's tags page for
    /// `repo_path`, made after the registry answered `registry_status`: the
    /// tags linked from the page, kept for later, or the error.
    pub fn receive_library_tags(
        &mut self,
        repo_path: &str,
        registry_status: u16,
        fetched: Fetched<String>,
        now_ms: u64,
    ) -> (r: Result<Vec<String>, String>)
        requires
            old(self).wf(),
            100 <= registry_status <= 999,
            status_in_range(fetched),
            now_ms <= u64::MAX - CACHE_TTL_MS,
        ensures
            final(self).wf(),
            final(self).hf_lists() == old(self).hf_lists(),
            match fetched {
                Fetched::SendFailed(e) => strings_result(r) == Err::<Seq<Seq<char>>, Seq<char>>(
                    "failed to fetch Ollama tags page: "@ + e@,
                ) && final(self).ollama_lists() == old(self).ollama_lists(),
                Fetched::Status(c) => strings_result(r) == Err::<Seq<Seq<char>>, Seq<char>>(
                    "Ollama tags request failed with HTTP status "@ + status_text(registry_status)
                        + " (registry) and "@ + status_text(c) + " (library)"@,
                ) && final(self).ollama_lists() == old(self).ollama_lists(),
                Fetched::ReadFailed(e) => strings_result(r) == Err::<Seq<Seq<char>>, Seq<char>>(
                    "failed to read Ollama tags page: "@ + e@,
                ) && final(self).ollama_lists() == old(self).ollama_lists(),
                Fetched::Body(body) => if ollama_page_tags(body@, repo_path@).len() == 0 {
                    strings_result(r) == Err::<Seq<Seq<char>>, Seq<char>>(
                        "Ollama tags page did not contain any tags"@,
                    ) && final(self).ollama_lists() == old(self).ollama_lists()
                } else {
                    strings_result(r) == Ok::<Seq<Seq<char>>, Seq<char>>(ollama_page_tags(body@, repo_path@))
                        && final(self).ollama_lists() == stored(
                        old(self).ollama_lists(),
                        repo_path@,
                        ollama_page_tags(body@, repo_path@),
                        now_ms,
                    )
                },
            },
    {
        match fetched {
            Fetched::SendFailed(e) => {
                let mut m = owned("failed to fetch Ollama tags page: ");
                m.append(e.as_str());
                Err(m)
            },
            Fetched::Status(c) => {
                let mut m = owned("Ollama tags request failed with HTTP status ");
                let a = status_display(registry_status);
                m.append(a.as_str());
                m.append(" (registry) and ");
                let b = status_display(c);
                m.append(b.as_str());
                m.append(" (library)");
                Err(m)
            },
            Fetched::ReadFailed(e) => {
                let mut m = owned("failed to read Ollama tags page: ");
                m.append(e.as_str());
                Err(m)
            },
            Fetched::Body(body) => {
                let tags = extract_ollama_tags_from_body(body.as_str(), repo_path);
                if tags.len() == 0 {
                    Err(owned("Ollama tags page did not contain any tags"))
                } else {
                    let copy = clone_strings(&tags);
                    self.ollama_cache.store(owned(repo_path), copy, now_ms);
                    Ok(tags)
                }
            },
        }
    }
}

} // verus!
