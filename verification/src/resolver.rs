//! Resolution of model references (a direct URL, a Hugging Face repository
//! or an Ollama library model) into a download.

use vstd::prelude::*;
use vstd::string::StringExecFns;
use crate::models::{ResolvedModelDownload, ResolvedModelDownloadView, headers_view};
use crate::text::{starts_with, starts_with_chars, chars_eq, find_chars, concat, contains_chars, ends_with, ends_with_chars, is_ascii_alnum, is_whitespace, is_ws, occurs_at, slice_range, after_first, after_last, after_last_chars, before_first, before_first_chars, chars_of, contains, find_from, has_char, has_char_exec, lemma_find_from, owned, split_once_chars, string_of, strip_prefix, strip_prefix_chars, trim, trim_chars};

verus! {

/// The file name at the end of a URL: the last path segment before any
/// query string, trimmed, when it is not blank and has an extension.
pub open spec fn url_file_name(url: Seq<char>) -> Option<Seq<char>> {
    let path = before_first(url, "?"@);
    let segment = trim(after_last(path, '/'));
    if segment.len() == 0 || !has_char(segment, '.') {
        None
    } else {
        Some(segment)
    }
}

pub fn extract_filename_from_url(url: &str) -> (r: Option<String>)
    ensures
        match r {
            Some(s) => url_file_name(url@) == Some(s@),
            None => url_file_name(url@) is None,
        },
{
    let v = chars_of(url);
    let q = chars_of("?");
    let path = before_first_chars(v.as_slice(), q.as_slice());
    let seg = after_last_chars(path.as_slice(), '/');
    let t = trim_chars(seg.as_slice());
    if t.len() == 0 || !has_char_exec(t.as_slice(), '.') {
        None
    } else {
        Some(string_of(t.as_slice()))
    }
}

/// The error for Hugging Face input that is not `owner/repo`.
pub open spec fn hf_input_error(repo: Seq<char>) -> Seq<char> {
    "invalid Hugging Face input: expected 'owner/repo' format, got '"@ + repo + "'"@
}

fn hf_input_error_exec(repo: &str) -> (r: String)
    ensures
        r@ == hf_input_error(repo@),
{
    let mut e = owned("invalid Hugging Face input: expected 'owner/repo' format, got '");
    e.append(repo);
    e.append("'");
    e
}

/// The repository part of Hugging Face input: the trimmed input, or the
/// trimmed part before `::` when there is one.
pub open spec fn hf_repo_part(input: Seq<char>) -> Seq<char> {
    let t = trim(input);
    if contains(t, "::"@) {
        trim(before_first(t, "::"@))
    } else {
        t
    }
}

proof fn lemma_contains_find(s: Seq<char>, p: Seq<char>)
    ensures
        contains(s, p) <==> find_from(s, p, 0) is Some,
{
    lemma_find_from(s, p, 0);
}

/// What `parse_hugging_face_repo_id` returns for `input`.
pub open spec fn hf_repo_id_result(input: Seq<char>) -> Result<Seq<char>, Seq<char>> {
    let repo = hf_repo_part(input);
    if has_char(repo, '/') {
        Ok(repo)
    } else {
        Err(hf_input_error(repo))
    }
}

/// What `parse_hugging_face_input` returns for `input`.
pub open spec fn hf_input_result(input: Seq<char>) -> Result<(Seq<char>, Option<Seq<char>>), Seq<char>> {
    let t = trim(input);
    if contains(t, "::"@) {
        let repo = trim(before_first(t, "::"@));
        let file = trim(after_first(t, "::"@)->0);
        if !has_char(repo, '/') {
            Err(hf_input_error(repo))
        } else if file.len() == 0 {
            Ok((repo, None))
        } else {
            Ok((repo, Some(file)))
        }
    } else if !has_char(t, '/') {
        Err(hf_input_error(t))
    } else {
        Ok((t, None))
    }
}

/// Splits trimmed input at its first `::`: the trimmed parts before and
/// after, or `None` when there is no `::`.
fn split_hf_input(input: &str) -> (r: (Vec<char>, Option<Vec<char>>))
    ensures
        r.0@ == hf_repo_part(input@),
        contains(trim(input@), "::"@) ==> (r.1 matches Some(f) && f@ == trim(after_first(trim(input@), "::"@)->0)),
        !contains(trim(input@), "::"@) ==> r.1 is None,
{
    let v = chars_of(input);
    let t = trim_chars(v.as_slice());
    let sep = chars_of("::");
    proof {
        lemma_contains_find(t@, sep@);
    }
    match split_once_chars(t.as_slice(), sep.as_slice()) {
        Some((a, b)) => {
            let repo = trim_chars(a.as_slice());
            let file = trim_chars(b.as_slice());
            (repo, Some(file))
        },
        None => (t, None),
    }
}

/// The `owner/repo` id named by Hugging Face input (`owner/repo` or
/// `owner/repo::file`).
pub fn parse_hugging_face_repo_id(input: &str) -> (r: Result<String, String>)
    ensures
        match hf_repo_id_result(input@) {
            Ok(repo) => r matches Ok(s) && s@ == repo,
            Err(msg) => r matches Err(e) && e@ == msg,
        },
{
    let (repo, _) = split_hf_input(input);
    let repo_s = string_of(repo.as_slice());
    if !has_char_exec(repo.as_slice(), '/') {
        return Err(hf_input_error_exec(repo_s.as_str()));
    }
    Ok(repo_s)
}

/// The repository and, if given, the file named by Hugging Face input.
pub fn parse_hugging_face_input(input: &str) -> (r: Result<(String, Option<String>), String>)
    ensures
        match hf_input_result(input@) {
            Ok((repo, file)) => r matches Ok((rs, fs)) && rs@ == repo && match fs {
                Some(f) => file == Some(f@),
                None => file is None,
            },
            Err(msg) => r matches Err(e) && e@ == msg,
        },
{
    let (repo, file) = split_hf_input(input);
    let repo_s = string_of(repo.as_slice());
    if !has_char_exec(repo.as_slice(), '/') {
        return Err(hf_input_error_exec(repo_s.as_str()));
    }
    match file {
        Some(f) => {
            if f.len() == 0 {
                Ok((repo_s, None))
            } else {
                Ok((repo_s, Some(string_of(f.as_slice()))))
            }
        },
        None => Ok((repo_s, None)),
    }
}

/// Both Hugging Face parsers name the same repository and refuse the same
/// input with the same message.
pub proof fn law_hf_parsers_agree(input: Seq<char>)
    ensures
        hf_repo_id_result(input) == match hf_input_result(input) {
            Ok((repo, _)) => Ok(repo),
            Err(e) => Err::<Seq<char>, Seq<char>>(e),
        },
{
}

/// Ollama input with a leading `https://ollama.com/library/` or
/// `ollama.com/library/` removed, after trimming.
pub open spec fn ollama_stripped(input: Seq<char>) -> Seq<char> {
    let t = trim(input);
    match strip_prefix(t, "https://ollama.com/library/"@) {
        Some(r) => r,
        None => match strip_prefix(t, "ollama.com/library/"@) {
            Some(r) => r,
            None => t,
        },
    }
}

/// A bare model name lives in the `library` namespace.
pub open spec fn namespaced(repo: Seq<char>) -> Seq<char> {
    if has_char(repo, '/') {
        repo
    } else {
        "library/"@ + repo
    }
}

/// The repository path named by Ollama input, without any tag.
pub open spec fn ollama_repo_path(input: Seq<char>) -> Seq<char> {
    namespaced(before_first(ollama_stripped(input), ":"@))
}

/// What `parse_ollama_input` returns: the repository path and the tag
/// (what follows the first `:`, or `latest`).
pub open spec fn ollama_input(input: Seq<char>) -> (Seq<char>, Seq<char>) {
    let s = ollama_stripped(input);
    match after_first(s, ":"@) {
        Some(tag) => (namespaced(before_first(s, ":"@)), tag),
        None => (namespaced(s), "latest"@),
    }
}

fn strip_ollama_prefix(input: &str) -> (r: Vec<char>)
    ensures
        r@ == ollama_stripped(input@),
{
    let v = chars_of(input);
    let t = trim_chars(v.as_slice());
    let long = chars_of("https://ollama.com/library/");
    let short = chars_of("ollama.com/library/");
    match strip_prefix_chars(t.as_slice(), long.as_slice()) {
        Some(r) => r,
        None => match strip_prefix_chars(t.as_slice(), short.as_slice()) {
            Some(r) => r,
            None => t,
        },
    }
}

fn namespaced_exec(repo: &[char]) -> (r: String)
    ensures
        r@ == namespaced(repo@),
{
    if has_char_exec(repo, '/') {
        string_of(repo)
    } else {
        let mut s = owned("library/");
        let rs = string_of(repo);
        s.append(rs.as_str());
        s
    }
}

pub fn parse_ollama_repo_path(input: &str) -> (r: String)
    ensures
        r@ == ollama_repo_path(input@),
{
    let s = strip_ollama_prefix(input);
    let colon = chars_of(":");
    let repo = before_first_chars(s.as_slice(), colon.as_slice());
    namespaced_exec(repo.as_slice())
}

/// The repository path and the tag named by Ollama input.
pub fn parse_ollama_input(input: &str) -> (r: (String, String))
    ensures
        (r.0@, r.1@) == ollama_input(input@),
{
    let s = strip_ollama_prefix(input);
    let colon = chars_of(":");
    match split_once_chars(s.as_slice(), colon.as_slice()) {
        Some((repo, tag)) => (namespaced_exec(repo.as_slice()), string_of(tag.as_slice())),
        None => (namespaced_exec(s.as_slice()), owned("latest")),
    }
}

/// The repository path that `parse_ollama_input` gives is the one that
/// `parse_ollama_repo_path` gives.
pub proof fn law_ollama_parsers_agree(input: Seq<char>)
    ensures
        ollama_input(input).0 == ollama_repo_path(input),
{
}


/// Characters that may appear in an Ollama tag.
pub open spec fn is_tag_char(c: char) -> bool {
    is_ascii_alnum(c) || c == '.' || c == '-' || c == '_'
}

/// End of the run of tag characters that starts at `i`.
pub open spec fn tag_end(s: Seq<char>, i: int) -> int
    decreases s.len() - i,
{
    if 0 <= i < s.len() && is_tag_char(s[i]) {
        tag_end(s, i + 1)
    } else {
        i
    }
}

proof fn lemma_tag_end(s: Seq<char>, i: int)
    requires
        0 <= i <= s.len(),
    ensures
        i <= tag_end(s, i) <= s.len(),
    decreases s.len() - i,
{
    if i < s.len() && is_tag_char(s[i]) {
        lemma_tag_end(s, i + 1);
    }
}

/// The tags found in an Ollama tags page, scanning from `index` with the
/// tags `acc` already found: after each occurrence of `needle`, the run of
/// tag characters that follows is a tag, kept once, in the order first met;
/// the scan goes on after the needle.
pub open spec fn tags_scan(body: Seq<char>, needle: Seq<char>, index: int, acc: Seq<Seq<char>>) -> Seq<Seq<char>>
    decreases body.len() + 1 - index,
{
    if needle.len() == 0 || index < 0 || index > body.len() {
        acc
    } else {
        match find_from(body, needle, index) {
            None => acc,
            Some(pos) => if pos < index || pos + needle.len() > body.len() {
                acc
            } else {
                let start = pos + needle.len();
                let end = tag_end(body, start);
                let tag = body.subrange(start, end);
                tags_scan(body, needle, start, if end > start && !acc.contains(tag) { acc.push(tag) } else { acc })
            },
        }
    }
}

/// The tags of `repo_path` linked from an Ollama tags page: the runs of
/// tag characters after each `/<repo_path>:`, without repetition.
pub open spec fn ollama_page_tags(body: Seq<char>, repo_path: Seq<char>) -> Seq<Seq<char>> {
    tags_scan(body, "/"@ + repo_path + ":"@, 0, Seq::empty())
}

proof fn lemma_tags_scan_keeps(body: Seq<char>, needle: Seq<char>, index: int, acc: Seq<Seq<char>>, t: Seq<char>)
    requires
        acc.contains(t),
    ensures
        tags_scan(body, needle, index, acc).contains(t),
    decreases body.len() + 1 - index,
{
    if needle.len() == 0 || index < 0 || index > body.len() {
    } else {
        match find_from(body, needle, index) {
            None => {},
            Some(pos) => if pos < index || pos + needle.len() > body.len() {
            } else {
                let start = pos + needle.len();
                let end = tag_end(body, start);
                let tag = body.subrange(start, end);
                let acc2 = if end > start && !acc.contains(tag) { acc.push(tag) } else { acc };
                assert(acc2.contains(t)) by {
                    if end > start && !acc.contains(tag) {
                        let k = choose|k: int| 0 <= k < acc.len() && acc[k] == t;
                        assert(acc2[k] == t);
                    }
                }
                lemma_tags_scan_keeps(body, needle, start, acc2, t);
            },
        }
    }
}

/// Two occurrences of a needle whose last character occurs nowhere else in
/// it do not overlap.
proof fn lemma_no_overlap(body: Seq<char>, needle: Seq<char>, a: int, b: int)
    requires
        needle.len() > 0,
        forall|k: int| 0 <= k < needle.len() - 1 ==> #[trigger] needle[k] != needle[needle.len() - 1],
        occurs_at(body, needle, a),
        occurs_at(body, needle, b),
        a < b,
    ensures
        a + needle.len() <= b,
{
    if b < a + needle.len() {
        let p = a + needle.len() - 1;
        assert(body.subrange(a, a + needle.len())[p - a] == body[p]);
        assert(body.subrange(b, b + needle.len())[p - b] == body[p]);
        assert(needle[p - b] == needle[needle.len() - 1]);
    }
}

proof fn lemma_tags_scan_complete(body: Seq<char>, needle: Seq<char>, index: int, acc: Seq<Seq<char>>, i: int)
    requires
        needle.len() > 0,
        forall|k: int| 0 <= k < needle.len() - 1 ==> #[trigger] needle[k] != needle[needle.len() - 1],
        0 <= index <= i,
        occurs_at(body, needle, i),
        tag_end(body, i + needle.len()) > i + needle.len(),
    ensures
        tags_scan(body, needle, index, acc).contains(
            body.subrange(i + needle.len(), tag_end(body, i + needle.len())),
        ),
    decreases body.len() + 1 - index,
{
    let want = body.subrange(i + needle.len(), tag_end(body, i + needle.len()));
    lemma_find_from(body, needle, index);
    let pos = find_from(body, needle, index)->0;
    assert(pos <= i);
    let start = pos + needle.len();
    let end = tag_end(body, start);
    let tag = body.subrange(start, end);
    let acc2 = if end > start && !acc.contains(tag) { acc.push(tag) } else { acc };
    assert(tags_scan(body, needle, index, acc) == tags_scan(body, needle, start, acc2));
    if pos == i {
        assert(acc2.contains(want)) by {
            if !(end > start && !acc.contains(tag)) {
                assert(acc.contains(tag));
            } else {
                assert(acc2[acc.len() as int] == tag);
            }
        }
        lemma_tags_scan_keeps(body, needle, start, acc2, want);
    } else {
        lemma_no_overlap(body, needle, pos, i);
        lemma_tags_scan_complete(body, needle, start, acc2, i);
    }
}

/// `t` is a non-empty run of tag characters that follows an occurrence of
/// `needle` in `body`.
pub open spec fn linked_tag(body: Seq<char>, needle: Seq<char>, t: Seq<char>) -> bool {
    exists|i: int|
        #![trigger occurs_at(body, needle, i)]
        occurs_at(body, needle, i) && tag_end(body, i + needle.len()) > i + needle.len() && t == body.subrange(
            i + needle.len(),
            tag_end(body, i + needle.len()),
        )
}

proof fn lemma_tags_scan_sound(body: Seq<char>, needle: Seq<char>, index: int, acc: Seq<Seq<char>>)
    requires
        forall|k: int| 0 <= k < acc.len() ==> linked_tag(body, needle, #[trigger] acc[k]),
    ensures
        forall|k: int|
            0 <= k < tags_scan(body, needle, index, acc).len() ==> linked_tag(
                body,
                needle,
                #[trigger] tags_scan(body, needle, index, acc)[k],
            ),
    decreases body.len() + 1 - index,
{
    if needle.len() == 0 || index < 0 || index > body.len() {
    } else {
        lemma_find_from(body, needle, index);
        match find_from(body, needle, index) {
            None => {},
            Some(pos) => if pos < index || pos + needle.len() > body.len() {
            } else {
                let start = pos + needle.len();
                lemma_tag_end(body, start);
                let end = tag_end(body, start);
                let tag = body.subrange(start, end);
                let acc2 = if end > start && !acc.contains(tag) { acc.push(tag) } else { acc };
                assert forall|k: int| 0 <= k < acc2.len() implies linked_tag(body, needle, #[trigger] acc2[k]) by {
                    if k == acc.len() {
                        assert(occurs_at(body, needle, pos));
                    } else {
                        assert(acc2[k] == acc[k]);
                    }
                }
                lemma_tags_scan_sound(body, needle, start, acc2);
                assert(tags_scan(body, needle, index, acc) == tags_scan(body, needle, start, acc2));
            },
        }
    }
}

/// Every tag returned is linked from the page: a non-empty run of tag
/// characters that follows an occurrence of `/<repo_path>:`.
pub proof fn law_every_tag_is_linked(body: Seq<char>, repo_path: Seq<char>, k: int)
    requires
        0 <= k < ollama_page_tags(body, repo_path).len(),
    ensures
        linked_tag(body, "/"@ + repo_path + ":"@, ollama_page_tags(body, repo_path)[k]),
{
    lemma_tags_scan_sound(body, "/"@ + repo_path + ":"@, 0, Seq::empty());
}

/// Every tag linked from the page is found: wherever `/<repo_path>:` occurs
/// and a non-empty run of tag characters follows it, that run is among the
/// tags returned. (A repository path with a `:` could let occurrences of
/// the needle overlap, and the scan, which resumes after each occurrence,
/// would skip the inner one; such paths are left out.)
pub proof fn law_every_linked_tag_found(body: Seq<char>, repo_path: Seq<char>, i: int)
    requires
        !has_char(repo_path, ':'),
        occurs_at(body, "/"@ + repo_path + ":"@, i),
        tag_end(body, i + repo_path.len() + 2) > i + repo_path.len() + 2,
    ensures
        ollama_page_tags(body, repo_path).contains(
            body.subrange(i + repo_path.len() + 2, tag_end(body, i + repo_path.len() + 2)),
        ),
{
    reveal_strlit("/");
    reveal_strlit(":");
    let needle = "/"@ + repo_path + ":"@;
    assert(needle.len() == repo_path.len() + 2);
    assert forall|k: int| 0 <= k < needle.len() - 1 implies #[trigger] needle[k] != needle[needle.len() - 1] by {
        if k == 0 {
            assert(needle[0] == '/');
        } else {
            assert(needle[k] == repo_path[k - 1]);
        }
    }
    assert(i >= 0);
    lemma_tags_scan_complete(body, needle, 0, Seq::empty(), i);
}


proof fn lemma_tags_scan_distinct(body: Seq<char>, needle: Seq<char>, index: int, acc: Seq<Seq<char>>)
    requires
        acc.no_duplicates(),
        forall|i: int| 0 <= i < acc.len() ==> #[trigger] acc[i].len() > 0,
    ensures
        tags_scan(body, needle, index, acc).no_duplicates(),
        forall|i: int|
            0 <= i < tags_scan(body, needle, index, acc).len() ==> #[trigger] tags_scan(
                body,
                needle,
                index,
                acc,
            )[i].len() > 0,
    decreases body.len() + 1 - index,
{
    if needle.len() == 0 || index < 0 || index > body.len() {
    } else {
        match find_from(body, needle, index) {
            None => {},
            Some(pos) => {
                if pos < index || pos + needle.len() > body.len() {
                } else {
                    let start = pos + needle.len();
                    let end = tag_end(body, start);
                    let tag = body.subrange(start, end);
                    lemma_tag_end(body, start);
                    if end > start && !acc.contains(tag) {
                        let next = acc.push(tag);
                        assert forall|i: int, j: int| 0 <= i < j < next.len() implies next[i] != next[j] by {
                            if j == acc.len() {
                                assert(next[i] == acc[i]);
                            }
                        }
                        assert forall|i: int| 0 <= i < next.len() implies #[trigger] next[i].len() > 0 by {
                            if i < acc.len() {
                                assert(next[i] == acc[i]);
                            }
                        }
                        lemma_tags_scan_distinct(body, needle, start, next);
                    } else {
                        lemma_tags_scan_distinct(body, needle, start, acc);
                    }
                }
            },
        }
    }
}

/// The tags read from a page are never empty and each appears once.
pub proof fn law_page_tags_distinct(body: Seq<char>, repo_path: Seq<char>)
    ensures
        ollama_page_tags(body, repo_path).no_duplicates(),
        forall|i: int|
            0 <= i < ollama_page_tags(body, repo_path).len() ==> #[trigger] ollama_page_tags(body, repo_path)[i].len()
                > 0,
{
    lemma_tags_scan_distinct(body, "/"@ + repo_path + ":"@, 0, Seq::empty());
}

pub open spec fn strings_view(v: Seq<String>) -> Seq<Seq<char>> {
    v.map_values(|s: String| s@)
}

pub open spec fn char_vecs_view(v: Seq<Vec<char>>) -> Seq<Seq<char>> {
    v.map_values(|s: Vec<char>| s@)
}

fn strings_of(v: &Vec<Vec<char>>) -> (r: Vec<String>)
    ensures
        strings_view(r@) == char_vecs_view(v@),
{
    let mut r: Vec<String> = Vec::new();
    let mut i: usize = 0;
    while i < v.len()
        invariant
            0 <= i <= v@.len(),
            strings_view(r@) == char_vecs_view(v@.take(i as int)),
        decreases v@.len() - i,
    {
        r.push(string_of(v[i].as_slice()));
        proof {
            assert(char_vecs_view(v@.take(i + 1)) =~= char_vecs_view(v@.take(i as int)).push(v@[i as int]@));
            assert(strings_view(r@) =~= strings_view(r@.drop_last()).push(r@.last()@));
        }
        i = i + 1;
    }
    assert(v@.take(v@.len() as int) =~= v@);
    r
}

fn seen_before(acc: &Vec<Vec<char>>, tag: &[char]) -> (b: bool)
    ensures
        b == char_vecs_view(acc@).contains(tag@),
{
    let mut i: usize = 0;
    while i < acc.len()
        invariant
            0 <= i <= acc@.len(),
            forall|j: int| 0 <= j < i ==> acc@[j]@ != tag@,
        decreases acc@.len() - i,
    {
        if chars_eq(acc[i].as_slice(), tag) {
            assert(char_vecs_view(acc@)[i as int] == tag@);
            return true;
        }
        i = i + 1;
    }
    assert forall|j: int| 0 <= j < char_vecs_view(acc@).len() implies char_vecs_view(acc@)[j] != tag@ by {
        assert(char_vecs_view(acc@)[j] == acc@[j]@);
    }
    false
}

/// The tags of `repo_path` linked from the HTML of an Ollama tags page.
pub fn extract_ollama_tags_from_body(body: &str, repo_path: &str) -> (r: Vec<String>)
    ensures
        strings_view(r@) == ollama_page_tags(body@, repo_path@),
{
    let b = chars_of(body);
    let slash = chars_of("/");
    let rp = chars_of(repo_path);
    let colon = chars_of(":");
    let n1 = concat(slash.as_slice(), rp.as_slice());
    let needle = concat(n1.as_slice(), colon.as_slice());
    proof {
        reveal_strlit("/");
        reveal_strlit(":");
        assert(needle@.len() >= 2);
    }
    let mut acc: Vec<Vec<char>> = Vec::new();
    let mut index: usize = 0;
    proof {
        assert(char_vecs_view(acc@) =~= Seq::<Seq<char>>::empty());
    }
    loop
        invariant
            b@ == body@,
            needle@ == "/"@ + repo_path@ + ":"@,
            needle@.len() >= 2,
            0 <= index <= b@.len(),
            ollama_page_tags(body@, repo_path@) == tags_scan(b@, needle@, index as int, char_vecs_view(acc@)),
        decreases b@.len() + 1 - index,
    {
        match find_chars(b.as_slice(), needle.as_slice(), index) {
            None => {
                return strings_of(&acc);
            },
            Some(pos) => {
                let blen = b.len();
                assert(pos + needle@.len() <= blen);
                let ghost old_acc = char_vecs_view(acc@);
                let start = pos + needle.len();
                let mut end = start;
                proof {
                    lemma_tag_end(b@, start as int);
                }
                while end < b.len() && (is_ascii_alnum_exec(b[end]) || b[end] == '.' || b[end] == '-' || b[end] == '_')
                    invariant
                        start <= end <= b@.len(),
                        tag_end(b@, start as int) == tag_end(b@, end as int),
                    decreases b@.len() - end,
                {
                    end = end + 1;
                }
                let ghost tagv = b@.subrange(start as int, end as int);
                if end > start {
                    let tag = slice_range(b.as_slice(), start, end);
                    if !seen_before(&acc, tag.as_slice()) {
                        acc.push(tag);
                        proof {
                            assert(char_vecs_view(acc@) =~= old_acc.push(tagv));
                        }
                    }
                }
                proof {
                    let new_acc = if end > start && !old_acc.contains(tagv) { old_acc.push(tagv) } else { old_acc };
                    assert(char_vecs_view(acc@) == new_acc);
                    assert(tags_scan(b@, needle@, index as int, old_acc) == tags_scan(b@, needle@, start as int, new_acc));
                }
                index = start;
            },
        }
    }
}

/// `char::is_ascii_alphanumeric`.
pub fn is_ascii_alnum_exec(c: char) -> (b: bool)
    ensures
        b == is_ascii_alnum(c),
{
    ('0' <= c && c <= '9') || ('a' <= c && c <= 'z') || ('A' <= c && c <= 'Z')
}

/// The headers that authenticate a Hugging Face download with `token`.
pub open spec fn hf_auth_headers(token: Option<Seq<char>>) -> Option<Seq<(Seq<char>, Seq<char>)>> {
    match token {
        Some(t) => Some(seq![("Authorization"@, "Bearer "@ + t)]),
        None => None,
    }
}

pub fn build_hf_auth_headers(token: Option<&str>) -> (r: Option<Vec<(String, String)>>)
    ensures
        headers_view(r) == hf_auth_headers(
            match token {
                Some(t) => Some(t@),
                None => None,
            },
        ),
{
    match token {
        Some(t) => {
            let mut value = owned("Bearer ");
            value.append(t);
            let mut v: Vec<(String, String)> = Vec::new();
            v.push((owned("Authorization"), value));
            proof {
                let hv = v@.map_values(|p: (String, String)| (p.0@, p.1@));
                assert(hv =~= seq![("Authorization"@, "Bearer "@ + t@)]);
            }
            Some(v)
        },
        None => None,
    }
}

/// First index at or after `i` of a character that ends a token: whitespace
/// or a double quote.
pub open spec fn token_end(s: Seq<char>, i: int) -> Option<int>
    decreases s.len() - i,
{
    if i < 0 || i >= s.len() {
        None
    } else if is_ws(s[i]) || s[i] == '"' {
        Some(i)
    } else {
        token_end(s, i + 1)
    }
}

proof fn lemma_token_end(s: Seq<char>, i: int)
    requires
        0 <= i,
    ensures
        match token_end(s, i) {
            Some(e) => i <= e < s.len() && (is_ws(s[e]) || s[e] == '"') && forall|j: int|
                i <= j < e ==> !(is_ws(s[j]) || s[j] == '"'),
            None => forall|j: int| i <= j < s.len() ==> !(is_ws(s[j]) || s[j] == '"'),
        },
    decreases s.len() - i,
{
    if i < s.len() && !(is_ws(s[i]) || s[i] == '"') {
        lemma_token_end(s, i + 1);
    }
}

/// The rest of `msg` from `start` with every bearer token masked: each
/// `Bearer ` is kept and the token after it, which ends at whitespace, a
/// double quote or the end, becomes `***`.
pub open spec fn masked_from(msg: Seq<char>, start: int) -> Seq<char>
    decreases msg.len() - start,
{
    if start < 0 || start > msg.len() {
        Seq::empty()
    } else {
        match find_from(msg, "Bearer "@, start) {
            None => msg.skip(start),
            Some(idx) => {
                let k = idx + "Bearer "@.len();
                if idx < start || k > msg.len() {
                    msg.skip(start)
                } else {
                    msg.subrange(start, k) + "***"@ + match token_end(msg, k) {
                        Some(e) => if start < e <= msg.len() {
                            masked_from(msg, e)
                        } else {
                            Seq::empty()
                        },
                        None => Seq::empty(),
                    }
                }
            },
        }
    }
}

/// A message with every bearer token replaced by `***`.
pub open spec fn sanitized(msg: Seq<char>) -> Seq<char> {
    masked_from(msg, 0)
}

/// Masks the bearer tokens in an error message.
pub fn sanitize_error(msg: &str) -> (r: String)
    ensures
        r@ == sanitized(msg@),
{
    let m = chars_of(msg);
    let bearer = chars_of("Bearer ");
    let stars = chars_of("***");
    proof {
        reveal_strlit("Bearer ");
    }
    let mut out: Vec<char> = Vec::new();
    let mut start: usize = 0;
    loop
        invariant
            m@ == msg@,
            bearer@ == "Bearer "@,
            stars@ == "***"@,
            bearer@.len() == 7,
            0 <= start <= m@.len(),
            out@ + masked_from(m@, start as int) == masked_from(m@, 0),
        decreases m@.len() - start,
    {
        proof {
            lemma_find_from(m@, bearer@, start as int);
        }
        match find_chars(m.as_slice(), bearer.as_slice(), start) {
            None => {
                let tail = slice_range(m.as_slice(), start, m.len());
                assert(tail@ =~= m@.skip(start as int));
                let done = concat(out.as_slice(), tail.as_slice());
                return string_of(done.as_slice());
            },
            Some(idx) => {
                let k = idx + bearer.len();
                let head = slice_range(m.as_slice(), start, k);
                let with_head = concat(out.as_slice(), head.as_slice());
                let masked = concat(with_head.as_slice(), stars.as_slice());
                let mut e = k;
                proof {
                    lemma_token_end(m@, k as int);
                }
                while e < m.len() && !(is_whitespace(m[e]) || m[e] == '"')
                    invariant
                        k <= e <= m@.len(),
                        token_end(m@, k as int) == token_end(m@, e as int),
                    decreases m@.len() - e,
                {
                    e = e + 1;
                }
                let ghost before = masked_from(m@, start as int);
                if e < m.len() {
                    assert(token_end(m@, k as int) == Some(e as int));
                    assert(before == m@.subrange(start as int, k as int) + "***"@ + masked_from(m@, e as int));
                    assert(out@ + before =~= masked@ + masked_from(m@, e as int));
                    out = masked;
                    start = e;
                } else {
                    assert(token_end(m@, k as int) is None);
                    assert(before == m@.subrange(start as int, k as int) + "***"@ + Seq::<char>::empty());
                    assert(masked@ =~= out@ + before);
                    return string_of(masked.as_slice());
                }
            },
        }
    }
}

proof fn lemma_masked_from_masks(msg: Seq<char>, start: int)
    requires
        0 <= start <= msg.len(),
    ensures
        forall|i: int| #[trigger]
            occurs_at(masked_from(msg, start), "Bearer "@, i) ==> occurs_at(
                masked_from(msg, start),
                "***"@,
                i + 7,
            ),
    decreases msg.len() - start,
{
    let b = "Bearer "@;
    reveal_strlit("Bearer ");
    reveal_strlit("***");
    lemma_find_from(msg, b, start);
    let out = masked_from(msg, start);
    match find_from(msg, b, start) {
        None => {
            assert forall|i: int| #[trigger] occurs_at(out, b, i) implies occurs_at(out, "***"@, i + 7) by {
                assert(out.subrange(i, i + 7) =~= msg.subrange(start + i, start + i + 7));
                assert(occurs_at(msg, b, start + i));
            }
        },
        Some(idx) => {
            let k = idx + 7;
            let a = msg.subrange(start, k);
            let rest = match token_end(msg, k) {
                Some(e) => if start < e <= msg.len() { masked_from(msg, e) } else { Seq::<char>::empty() },
                None => Seq::<char>::empty(),
            };
            lemma_token_end(msg, k);
            match token_end(msg, k) {
                Some(e) => {
                    lemma_masked_from_masks(msg, e);
                },
                None => {},
            }
            assert(out == a + "***"@ + rest);
            let alen = a.len() as int;
            assert forall|i: int| #[trigger] occurs_at(out, b, i) implies occurs_at(out, "***"@, i + 7) by {
                assert(out.subrange(i, i + 7) == b);
                assert(out[i] == b[0]);
                if i + 7 <= alen {
                    assert(out.subrange(i, i + 7) =~= msg.subrange(start + i, start + i + 7));
                    assert(occurs_at(msg, b, start + i));
                    if start + i < idx {
                    }
                    assert(start + i == idx);
                    assert(out.subrange(i + 7, i + 10) =~= "***"@);
                } else if i < alen {
                    assert(out[alen] == '*');
                    assert(out.subrange(i, i + 7)[alen - i] == out[alen]);
                    assert(b[alen - i] != '*');
                } else if i < alen + 3 {
                    assert(out[i] == '*');
                } else {
                    let j = i - alen - 3;
                    assert(rest.subrange(j, j + 7) =~= out.subrange(i, i + 7));
                    assert(occurs_at(rest, b, j));
                    assert(occurs_at(rest, "***"@, j + 7));
                    assert(rest.subrange(j + 7, j + 10) =~= out.subrange(i + 7, i + 10));
                }
            }
        },
    }
}

/// No bearer token survives masking: every `Bearer ` in a masked message
/// is followed by `***`.
pub proof fn law_every_token_masked(msg: Seq<char>)
    ensures
        forall|i: int| #[trigger]
            occurs_at(sanitized(msg), "Bearer "@, i) ==> occurs_at(sanitized(msg), "***"@, i + 7),
{
    lemma_masked_from_masks(msg, 0);
}

/// The upper-case form of a string, as `str::to_uppercase` computes it
/// (full Unicode case mapping, independent of locale).
pub uninterp spec fn uppercase(s: Seq<char>) -> Seq<char>;

/// Trusted: `str::to_uppercase`, whose result is a fixed function of the
/// string.
#[verifier::external_body]
fn to_uppercase(s: &str) -> (r: String)
    ensures
        r@ == uppercase(s@),
{
    s.to_uppercase()
}

/// The score of an already upper-cased file name: the best-known
/// quantization it names (`Q4_K_M` 100, `Q5_K_M` 90, `Q4_0` 80, `Q8_0` 70),
/// plus 5 for an instruction-tuned model.
pub open spec fn score_of_upper(u: Seq<char>) -> int {
    (if contains(u, "Q4_K_M"@) {
        100int
    } else if contains(u, "Q5_K_M"@) {
        90int
    } else if contains(u, "Q4_0"@) {
        80int
    } else if contains(u, "Q8_0"@) {
        70int
    } else {
        0int
    }) + (if contains(u, "INSTRUCT"@) { 5int } else { 0int })
}

/// How well a `.gguf` file name suits a default download: the score of its
/// upper-case form, so that case does not matter.
pub open spec fn gguf_score(name: Seq<char>) -> int {
    score_of_upper(uppercase(name))
}

/// The quantization points of an upper-cased name (its score without the
/// 5-point instruction bonus): 100 exactly when it names `Q4_K_M`; else 90
/// exactly when it names `Q5_K_M`; else 80 for `Q4_0`; else 70 for `Q8_0`;
/// and none when it names none of these four (so `Q4_K_S`, `Q6_K` and the
/// like score nothing). The bonus is 5 exactly when it names `INSTRUCT`.
pub proof fn law_quantization_points(u: Seq<char>)
    ensures
        ({
            let bonus = if contains(u, "INSTRUCT"@) { 5int } else { 0int };
            let points = score_of_upper(u) - bonus;
            &&& (points == 100 <==> contains(u, "Q4_K_M"@))
            &&& (points == 90 <==> !contains(u, "Q4_K_M"@) && contains(u, "Q5_K_M"@))
            &&& (points == 80 <==> !contains(u, "Q4_K_M"@) && !contains(u, "Q5_K_M"@) && contains(u, "Q4_0"@))
            &&& (points == 70 <==> !contains(u, "Q4_K_M"@) && !contains(u, "Q5_K_M"@) && !contains(u, "Q4_0"@)
                && contains(u, "Q8_0"@))
            &&& (points == 0 <==> !contains(u, "Q4_K_M"@) && !contains(u, "Q5_K_M"@) && !contains(u, "Q4_0"@)
                && !contains(u, "Q8_0"@))
        }),
{
}

/// Scores a file name that is already in upper case.
pub fn score_upper(upper: &str) -> (r: i32)
    ensures
        r as int == score_of_upper(upper@),
{
    let u = chars_of(upper);
    let q4km = chars_of("Q4_K_M");
    let q5km = chars_of("Q5_K_M");
    let q40 = chars_of("Q4_0");
    let q80 = chars_of("Q8_0");
    let instruct = chars_of("INSTRUCT");
    let mut score: i32 = 0;
    if contains_chars(u.as_slice(), q4km.as_slice()) {
        score = score + 100;
    } else if contains_chars(u.as_slice(), q5km.as_slice()) {
        score = score + 90;
    } else if contains_chars(u.as_slice(), q40.as_slice()) {
        score = score + 80;
    } else if contains_chars(u.as_slice(), q80.as_slice()) {
        score = score + 70;
    }
    if contains_chars(u.as_slice(), instruct.as_slice()) {
        score = score + 5;
    }
    score
}

/// Scores a file name, whatever its case.
pub fn score_gguf_file(name: &str) -> (r: i32)
    ensures
        r as int == gguf_score(name@),
{
    let upper = to_uppercase(name);
    score_upper(upper.as_str())
}

/// Index of the best-scoring file among the first `n`: the last one with
/// the highest score, as `Iterator::max_by_key` picks it.
pub open spec fn best_file_index(fs: Seq<Seq<char>>, n: int) -> int
    decreases n,
{
    if n <= 1 {
        0
    } else {
        let b = best_file_index(fs, n - 1);
        if gguf_score(fs[n - 1]) >= gguf_score(fs[b]) {
            n - 1
        } else {
            b
        }
    }
}

/// The best file wins over every other: no file scores higher.
pub proof fn law_best_file_is_best(fs: Seq<Seq<char>>, n: int)
    requires
        1 <= n <= fs.len(),
    ensures
        0 <= best_file_index(fs, n) < n,
        forall|j: int| 0 <= j < n ==> gguf_score(fs[best_file_index(fs, n)]) >= gguf_score(#[trigger] fs[j]),
    decreases n,
{
    if n > 1 {
        law_best_file_is_best(fs, n - 1);
    }
}

/// The file to download from a repository: the best-scoring one.
pub fn pick_best_gguf_file(files: &Vec<String>) -> (r: String)
    requires
        files@.len() > 0,
    ensures
        r@ == strings_view(files@)[best_file_index(strings_view(files@), files@.len() as int)],
{
    let ghost fs = strings_view(files@);
    let mut best: usize = 0;
    let mut best_score = score_gguf_file(files[0].as_str());
    let mut i: usize = 1;
    while i < files.len()
        invariant
            fs == strings_view(files@),
            fs.len() == files@.len(),
            1 <= i <= files@.len(),
            best as int == best_file_index(fs, i as int),
            0 <= best < i,
            best_score as int == gguf_score(fs[best as int]),
        decreases files@.len() - i,
    {
        let sc = score_gguf_file(files[i].as_str());
        assert(fs[i as int] == files@[i as int]@);
        if sc >= best_score {
            best = i;
            best_score = sc;
        }
        i = i + 1;
    }
    assert(fs[best as int] == files@[best as int]@);
    files[best].clone()
}

/// The names in a list that end with `.gguf`, in order.
pub open spec fn gguf_only(names: Seq<Seq<char>>) -> Seq<Seq<char>> {
    names.filter(|n: Seq<char>| ends_with(n, ".gguf"@))
}

pub fn gguf_files(names: &Vec<String>) -> (r: Vec<String>)
    ensures
        strings_view(r@) == gguf_only(strings_view(names@)),
{
    let ghost all = strings_view(names@);
    let ghost pred = |n: Seq<char>| ends_with(n, ".gguf"@);
    let ext = chars_of(".gguf");
    let mut r: Vec<String> = Vec::new();
    let mut i: usize = 0;
    proof {
        assert(all.take(0).filter(pred) =~= Seq::<Seq<char>>::empty());
        assert(strings_view(r@) =~= Seq::<Seq<char>>::empty());
    }
    while i < names.len()
        invariant
            all == strings_view(names@),
            all.len() == names@.len(),
            pred == (|n: Seq<char>| ends_with(n, ".gguf"@)),
            ext@ == ".gguf"@,
            0 <= i <= names@.len(),
            strings_view(r@) == all.take(i as int).filter(pred),
        decreases names@.len() - i,
    {
        let v = chars_of(names[i].as_str());
        let keep = ends_with_chars(v.as_slice(), ext.as_slice());
        proof {
            assert(all[i as int] == names@[i as int]@);
            all.take(i as int).lemma_filter_push(all[i as int], pred);
            assert(all.take(i as int).push(all[i as int]) =~= all.take(i + 1));
        }
        if keep {
            r.push(names[i].clone());
            proof {
                assert(strings_view(r@) =~= strings_view(r@.drop_last()).push(r@.last()@));
            }
        }
        i = i + 1;
    }
    assert(all.take(names@.len() as int) =~= all);
    r
}

/// What a direct URL resolves to: the trimmed URL, its file name (or
/// `model.gguf`), and no headers; anything but HTTP(S) is refused.
pub open spec fn direct_url_result(input: Seq<char>) -> Result<ResolvedModelDownloadView, Seq<char>> {
    let url = trim(input);
    if !(starts_with(url, "http://"@) || starts_with(url, "https://"@)) {
        Err("URL must start with http:// or https://"@)
    } else {
        Ok(ResolvedModelDownloadView {
            download_url: url,
            suggested_file_name: match url_file_name(url) {
                Some(n) => n,
                None => "model.gguf"@,
            },
            request_headers: None,
        })
    }
}

pub fn resolve_direct_url(input: &str) -> (r: Result<ResolvedModelDownload, String>)
    ensures
        match direct_url_result(input@) {
            Ok(d) => r matches Ok(x) && x@ == d,
            Err(msg) => r matches Err(e) && e@ == msg,
        },
{
    let v = chars_of(input);
    let t = trim_chars(v.as_slice());
    let http = chars_of("http://");
    let https = chars_of("https://");
    if !starts_with_chars(t.as_slice(), http.as_slice()) && !starts_with_chars(t.as_slice(), https.as_slice()) {
        return Err(owned("URL must start with http:// or https://"));
    }
    let url = string_of(t.as_slice());
    let file_name = match extract_filename_from_url(url.as_str()) {
        Some(n) => n,
        None => owned("model.gguf"),
    };
    Ok(ResolvedModelDownload { download_url: url, suggested_file_name: file_name, request_headers: None })
}

} // verus!
