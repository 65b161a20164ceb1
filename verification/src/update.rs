//! Release addresses and installer checks for self-update.
use crate::text::{
    chars_of, contains_char, contains_chars, contains_seq, ends_with, occurs_at, owned, push_all,
    matches_at, slice_range, starts_with, strip_end_char, strip_end_char_vec, strip_start_char,
    strip_start_char_vec, string_from_chars, trim_bounds, trim_seq,
};
use vstd::prelude::*;

verus! {

broadcast use vstd::string::group_string_axioms;

/// An installer offered by a release.
#[derive(Clone, Debug)]
pub struct UpdateAsset {
    pub name: String,
    pub download_url: String,
}

/// The latest release.
#[derive(Clone, Debug)]
pub struct LatestReleaseInfo {
    pub tag_name: String,
    pub release_url: String,
    pub installer_asset: Option<UpdateAsset>,
}

/// Where a downloaded installer was saved.
#[derive(Clone, Debug)]
pub struct UpdateDownloadResult {
    pub file_path: String,
    pub file_name: String,
    pub bytes: u64,
}

/// The page that redirects to the latest release.
pub fn release_latest_url() -> (r: String)
    ensures
        r@ == "https://github.com/YiZhanSuDaShui/mini-todo/releases/latest"@,
{
    owned("https://github.com/YiZhanSuDaShui/mini-todo/releases/latest")
}

/// The download address of a release file.
pub open spec fn download_url_of(tag: Seq<char>, file: Seq<char>) -> Seq<char> {
    "https://github.com/YiZhanSuDaShui/mini-todo/releases/download/"@ + tag + seq!['/'] + file
}

/// The download address of the file `file_name` of the release `tag_name`.
pub fn release_download_url(tag_name: &str, file_name: &str) -> (r: String)
    ensures
        r@ == download_url_of(tag_name@, file_name@),
{
    let mut v = chars_of("https://github.com/YiZhanSuDaShui/mini-todo/releases/download/");
    let t = chars_of(tag_name);
    push_all(&mut v, t.as_slice());
    v.push('/');
    let f = chars_of(file_name);
    push_all(&mut v, f.as_slice());
    let r = string_from_chars(v.as_slice());
    assert(r@ =~= download_url_of(tag_name@, file_name@));
    r
}

/// The first position where `p` occurs in `s`.
#[verifier::opaque]
pub open spec fn first_occurrence(s: Seq<char>, p: Seq<char>) -> Option<int> {
    if contains_seq(s, p) {
        Some(choose|i: int| occurs_at(s, p, i) && forall|j: int| 0 <= j < i ==> !occurs_at(s, p, j))
    } else {
        None
    }
}

/// The text before the first `?` or `#` (all of it when there is neither).
pub open spec fn before_query(s: Seq<char>) -> Seq<char> {
    if exists|i: int| 0 <= i < s.len() && (s[i] == '?' || s[i] == '#') {
        s.take(
            choose|i: int|
                0 <= i < s.len() && (s[i] == '?' || s[i] == '#') && forall|j: int|
                    0 <= j < i ==> s[j] != '?' && s[j] != '#',
        )
    } else {
        s
    }
}

/// What follows the release marker, up to any `?` or `#`, trimmed and
/// without trailing slashes.
pub open spec fn tag_text(tail: Seq<char>) -> Seq<char> {
    strip_end_char(trim_seq(before_query(tail)), '/')
}

/// The tag a release page address names: the text after the first
/// `/releases/tag/`, up to any `?` or `#`, trimmed and without trailing
/// slashes; none when that is empty or the marker is missing.
pub open spec fn tag_of_release_url(url: Seq<char>) -> Option<Seq<char>> {
    match first_occurrence(url, "/releases/tag/"@) {
        None => None,
        Some(i) => {
            let t = tag_text(url.skip(i + 14));
            if t.len() == 0 {
                None
            } else {
                Some(t)
            }
        },
    }
}

/// The first occurrence is the one with none before it.
proof fn lemma_first_occurrence_at(s: Seq<char>, p: Seq<char>, i: int)
    requires
        occurs_at(s, p, i),
        forall|j: int| 0 <= j < i ==> !occurs_at(s, p, j),
    ensures
        first_occurrence(s, p) == Some(i),
{
    reveal(first_occurrence);
    assert(contains_seq(s, p));
    let k = choose|k: int| occurs_at(s, p, k) && forall|j: int| 0 <= j < k ==> !occurs_at(s, p, j);
    assert(occurs_at(s, p, k));
    if k < i {
        assert(!occurs_at(s, p, k));
    }
    if k > i {
        assert(!occurs_at(s, p, i));
    }
}

fn find_marker(v: &[char], p: &[char]) -> (r: Option<usize>)
    ensures
        match r {
            Some(i) => first_occurrence(v@, p@) == Some(i as int) && i + p@.len() <= v@.len(),
            None => first_occurrence(v@, p@) is None,
        },
{
    let mut i: usize = 0;
    while i < v.len()
        invariant
            i <= v@.len(),
            forall|k: int| 0 <= k < i ==> !occurs_at(v@, p@, k),
        decreases v@.len() - i,
    {
        if matches_at(v, p, i) {
            proof {
                lemma_first_occurrence_at(v@, p@, i as int);
            }
            return Some(i);
        }
        i = i + 1;
    }
    if matches_at(v, p, i) {
        proof {
            lemma_first_occurrence_at(v@, p@, i as int);
        }
        return Some(i);
    }
    proof {
        reveal(first_occurrence);
        assert forall|k: int| !occurs_at(v@, p@, k) by {
            if k > i && occurs_at(v@, p@, k) {
                assert(k + p@.len() <= v@.len());
            }
        }
    }
    None
}

fn cut_before_query(v: &[char]) -> (r: Vec<char>)
    ensures
        r@ == before_query(v@),
{
    let mut i: usize = 0;
    while i < v.len()
        invariant
            i <= v@.len(),
            forall|j: int| 0 <= j < i ==> v@[j] != '?' && v@[j] != '#',
        decreases v@.len() - i,
    {
        if v[i] == '?' || v[i] == '#' {
            proof {
                let k = choose|k: int|
                    0 <= k < v@.len() && (v@[k] == '?' || v@[k] == '#') && forall|j: int|
                        0 <= j < k ==> v@[j] != '?' && v@[j] != '#';
                if k < i {
                } else if k > i {
                }
                assert(k == i);
            }
            let r = slice_range(v, 0, i);
            assert(r@ =~= v@.take(i as int));
            return r;
        }
        i = i + 1;
    }
    let r = slice_range(v, 0, v.len());
    assert(r@ =~= v@);
    r
}

fn tag_chars(tail: &[char]) -> (r: Vec<char>)
    ensures
        r@ == tag_text(tail@),
{
    let head = cut_before_query(tail);
    let (a, b) = trim_bounds(head.as_slice());
    let trimmed = slice_range(head.as_slice(), a, b);
    strip_end_char_vec(trimmed.as_slice(), '/')
}

/// The tag named by the address of a release page, if any.
pub fn parse_tag_from_release_url(url: &str) -> (r: Option<String>)
    ensures
        match r {
            Some(t) => tag_of_release_url(url@) == Some(t@),
            None => tag_of_release_url(url@) is None,
        },
{
    let v = chars_of(url);
    let marker = chars_of("/releases/tag/");
    proof {
        reveal_strlit("/releases/tag/");
    }
    let found = find_marker(v.as_slice(), marker.as_slice());
    match found {
        None => None,
        Some(i) => {
            let n = v.len();
            assert(marker@.len() == 14);
            let tail = slice_range(v.as_slice(), i + marker.len(), n);
            assert(tail@ =~= v@.skip(i + 14));
            let t = tag_chars(tail.as_slice());
            if t.len() == 0 {
                None
            } else {
                Some(string_from_chars(t.as_slice()))
            }
        },
    }
}

/// The installer name for a release tag (`v` prefixes dropped).
pub open spec fn installer_name_of(tag: Seq<char>) -> Seq<char> {
    "mini-todo_"@ + strip_start_char(tag, 'v') + "_x64-setup.exe"@
}

/// The Windows x64 installer of a release.
pub fn windows_installer_asset(tag_name: &str) -> (r: Option<UpdateAsset>)
    ensures
        r matches Some(a) && a.name@ == installer_name_of(tag_name@) && a.download_url@
            == download_url_of(tag_name@, installer_name_of(tag_name@)),
{
    let t = chars_of(tag_name);
    let version = strip_start_char_vec(t.as_slice(), 'v');
    let mut v = chars_of("mini-todo_");
    push_all(&mut v, version.as_slice());
    let suffix = chars_of("_x64-setup.exe");
    push_all(&mut v, suffix.as_slice());
    let name = string_from_chars(v.as_slice());
    assert(name@ =~= installer_name_of(tag_name@));
    let download_url = release_download_url(tag_name, name.as_str());
    Some(UpdateAsset { name, download_url })
}

/// Why an installer request is refused, if it is.
pub open spec fn installer_request_error(url: Seq<char>, file: Seq<char>) -> Option<Seq<char>> {
    if !"https://github.com/YiZhanSuDaShui/mini-todo/releases/download/"@.is_prefix_of(url) {
        Some("安装包下载地址不属于 Mini Todo Release"@)
    } else if file.contains('/') || file.contains('\\') || contains_seq(file, ".."@) {
        Some("安装包文件名不安全"@)
    } else if !"_x64-setup.exe"@.is_suffix_of(file) {
        Some("当前只支持下载 Windows x64 安装包"@)
    } else {
        None
    }
}

/// Accepts only release downloads of this project whose file name is a
/// plain Windows x64 installer name.
pub fn ensure_safe_installer_request(download_url: &str, file_name: &str) -> (r: Result<(), String>)
    ensures
        match installer_request_error(download_url@, file_name@) {
            Some(e) => r matches Err(m) && m@ == e,
            None => r is Ok,
        },
{
    let u = chars_of(download_url);
    let prefix = chars_of("https://github.com/YiZhanSuDaShui/mini-todo/releases/download/");
    if !starts_with(u.as_slice(), prefix.as_slice()) {
        return Err(owned("安装包下载地址不属于 Mini Todo Release"));
    }
    let f = chars_of(file_name);
    let dots = chars_of("..");
    if contains_char(f.as_slice(), '/') || contains_char(f.as_slice(), '\\') || contains_chars(
        f.as_slice(),
        dots.as_slice(),
    ) {
        return Err(owned("安装包文件名不安全"));
    }
    let suffix = chars_of("_x64-setup.exe");
    if !ends_with(f.as_slice(), suffix.as_slice()) {
        return Err(owned("当前只支持下载 Windows x64 安装包"));
    }
    Ok(())
}

/// No two dots stand next to each other.
pub open spec fn no_double_dot(s: Seq<char>) -> bool {
    forall|i: int| 0 <= i < s.len() - 1 ==> !(#[trigger] s[i] == '.' && s[i + 1] == '.')
}

/// A tag with no slash, backslash or double dot yields an installer that
/// the download check accepts.
pub proof fn lemma_installer_asset_is_safe(tag: Seq<char>)
    requires
        !tag.contains('/'),
        !tag.contains('\\'),
        no_double_dot(tag),
    ensures
        installer_request_error(
            download_url_of(tag, installer_name_of(tag)),
            installer_name_of(tag),
        ) is None,
{
    reveal_strlit("https://github.com/YiZhanSuDaShui/mini-todo/releases/download/");
    reveal_strlit("mini-todo_");
    reveal_strlit("_x64-setup.exe");
    reveal_strlit("..");
    let p = "https://github.com/YiZhanSuDaShui/mini-todo/releases/download/"@;
    let ver = strip_start_char(tag, 'v');
    lemma_strip_start_is_suffix(tag, 'v');
    let k = choose|k: int| 0 <= k <= tag.len() && ver == tag.skip(k);
    let a = "mini-todo_"@;
    let b = "_x64-setup.exe"@;
    let name = installer_name_of(tag);
    let url = download_url_of(tag, name);
    assert(p.is_prefix_of(url)) by {
        assert forall|i: int| 0 <= i < p.len() implies p[i] == url[i] by {}
    }
    assert(b.is_suffix_of(name)) by {
        assert forall|i: int| 0 <= i < b.len() implies b[i] == name[name.len() - b.len() + i] by {}
    }
    assert forall|i: int| 0 <= i < name.len() implies name[i] != '/' && name[i] != '\\' by {
        if a.len() <= i < a.len() + ver.len() {
            assert(name[i] == tag[k + i - a.len()]);
        }
    }
    assert(!contains_seq(name, ".."@)) by {
        if contains_seq(name, ".."@) {
            let i = choose|i: int| occurs_at(name, ".."@, i);
            assert(name.subrange(i, i + 2)[0] == name[i]);
            assert(name.subrange(i, i + 2)[1] == name[i + 1]);
            assert(name[i] == '.' && name[i + 1] == '.');
            if a.len() <= i && i + 1 < a.len() + ver.len() {
                assert(name[i] == tag[k + i - a.len()]);
                assert(name[i + 1] == tag[k + i + 1 - a.len()]);
                assert(tag[k + i - a.len()] == '.' && tag[k + i - a.len() + 1] == '.');
            }
        }
    }
}

/// What `strip_start_char` leaves is a suffix.
proof fn lemma_strip_start_is_suffix(s: Seq<char>, c: char)
    ensures
        exists|k: int| 0 <= k <= s.len() && strip_start_char(s, c) == s.skip(k),
    decreases s.len(),
{
    if s.len() > 0 && s[0] == c {
        lemma_strip_start_is_suffix(s.drop_first(), c);
        let k = choose|k: int| 0 <= k <= s.drop_first().len() && strip_start_char(s.drop_first(), c) == s.drop_first().skip(k);
        assert(s.drop_first().skip(k) =~= s.skip(k + 1));
    } else {
        assert(s.skip(0) =~= s);
    }
}

} // verus!
