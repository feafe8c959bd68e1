//! Where the offline bundle is downloaded from: the GitHub release URL for
//! the platform, the mirror proxies in front of it, the choice of the
//! fastest mirror, and the resumption of an interrupted download.
use vstd::prelude::*;
use crate::number::{decimal_chars, decimal_string};
use crate::text::{push_str_chars, string_of};

verus! {

broadcast use vstd::string::group_string_axioms;

/// The number of GitHub mirror proxies.
pub const PROXY_COUNT: usize = 5;

/// The GitHub mirror proxies, in order of preference.
pub open spec fn proxy_spec(i: int) -> Seq<char> {
    if i == 0 {
        "https://ghproxy.monkeyray.net/"@
    } else if i == 1 {
        "https://gh.xxooo.cf/"@
    } else if i == 2 {
        "https://fastgit.cc/"@
    } else if i == 3 {
        "https://ghproxy.cxkpro.top/"@
    } else {
        "https://gh.idayer.com/"@
    }
}

/// Mirror proxy number `i`.
pub fn ghproxy(i: usize) -> (p: String)
    requires
        i < PROXY_COUNT,
    ensures
        p@ == proxy_spec(i as int),
{
    if i == 0 {
        "https://ghproxy.monkeyray.net/".to_string()
    } else if i == 1 {
        "https://gh.xxooo.cf/".to_string()
    } else if i == 2 {
        "https://fastgit.cc/".to_string()
    } else if i == 3 {
        "https://ghproxy.cxkpro.top/".to_string()
    } else {
        "https://gh.idayer.com/".to_string()
    }
}

/// The platform name used in bundle file names.
pub open spec fn bundle_os(os: Seq<char>) -> Seq<char> {
    if os == "windows"@ {
        "windows"@
    } else if os == "macos"@ {
        "macos"@
    } else {
        "linux"@
    }
}

/// The architecture name used in bundle file names.
pub open spec fn bundle_arch(arch: Seq<char>) -> Seq<char> {
    if arch == "aarch64"@ {
        "arm64"@
    } else {
        "x64"@
    }
}

/// The GitHub release URL of the bundle for a platform (`os` and `arch` as
/// `std::env::consts` names them; a Windows build gets a zip archive, the
/// others a gzipped tar archive).
pub open spec fn base_github_url(os: Seq<char>, arch: Seq<char>, windows_build: bool) -> Seq<char> {
    "https://github.com/icepie/openclaw-manager/releases/download/dev/openclaw-bundle-"@
        + bundle_os(os) + "-"@ + bundle_arch(arch) + "."@ + (if windows_build {
        "zip"@
    } else {
        "tar.gz"@
    })
}

/// The release URL names the operating system (`windows`, `macos`, else
/// `linux`), then the architecture, which depends on the architecture
/// alone (`arm64` for `aarch64`, `x64` for anything else, whatever the
/// operating system), then the archive kind (`zip` for a Windows build,
/// else `tar.gz`).
pub proof fn law_release_url_parts(os: Seq<char>, arch: Seq<char>, windows_build: bool)
    ensures
        base_github_url(os, arch, windows_build)
            == "https://github.com/icepie/openclaw-manager/releases/download/dev/openclaw-bundle-"@
            + (if os == "windows"@ {
            "windows"@
        } else if os == "macos"@ {
            "macos"@
        } else {
            "linux"@
        }) + "-"@ + (if arch == "aarch64"@ {
            "arm64"@
        } else {
            "x64"@
        }) + "."@ + (if windows_build {
            "zip"@
        } else {
            "tar.gz"@
        }),
{
}

/// The start of every release URL, before the operating system's name.
pub open spec fn release_url_start() -> Seq<char> {
    "https://github.com/icepie/openclaw-manager/releases/download/dev/openclaw-bundle-"@
}

/// Two platforms with the same architecture and archive kind get release
/// URLs that end alike: everything after the operating system's name is the
/// same, so the architecture part cannot depend on the operating system.
pub proof fn law_release_url_arch_independent_of_os(
    os1: Seq<char>,
    os2: Seq<char>,
    arch: Seq<char>,
    windows_build: bool,
)
    ensures
        base_github_url(os1, arch, windows_build).take(
            (release_url_start().len() + bundle_os(os1).len()) as int,
        ) == release_url_start() + bundle_os(os1),
        base_github_url(os1, arch, windows_build).skip(
            (release_url_start().len() + bundle_os(os1).len()) as int,
        ) == base_github_url(os2, arch, windows_build).skip(
            (release_url_start().len() + bundle_os(os2).len()) as int,
        ),
{
    let tail = "-"@ + bundle_arch(arch) + "."@ + (if windows_build {
        "zip"@
    } else {
        "tar.gz"@
    });
    let u1 = base_github_url(os1, arch, windows_build);
    let u2 = base_github_url(os2, arch, windows_build);
    assert(u1 =~= (release_url_start() + bundle_os(os1)) + tail);
    assert(u2 =~= (release_url_start() + bundle_os(os2)) + tail);
    assert(u1.take((release_url_start().len() + bundle_os(os1).len()) as int) =~= release_url_start()
        + bundle_os(os1));
    assert(u1.skip((release_url_start().len() + bundle_os(os1).len()) as int) =~= tail);
    assert(u2.skip((release_url_start().len() + bundle_os(os2).len()) as int) =~= tail);
}

/// The GitHub release URL of the bundle for a platform.
pub fn get_base_github_url(os: &str, arch: &str, windows_build: bool) -> (u: String)
    ensures
        u@ == base_github_url(os@, arch@, windows_build),
{
    let o = os.to_string();
    let a = arch.to_string();
    let mut v: Vec<char> = Vec::new();
    push_str_chars(
        &mut v,
        "https://github.com/icepie/openclaw-manager/releases/download/dev/openclaw-bundle-",
    );
    if o == "windows".to_string() {
        push_str_chars(&mut v, "windows");
    } else if o == "macos".to_string() {
        push_str_chars(&mut v, "macos");
    } else {
        push_str_chars(&mut v, "linux");
    }
    push_str_chars(&mut v, "-");
    if a == "aarch64".to_string() {
        push_str_chars(&mut v, "arm64");
    } else {
        push_str_chars(&mut v, "x64");
    }
    push_str_chars(&mut v, ".");
    if windows_build {
        push_str_chars(&mut v, "zip");
    } else {
        push_str_chars(&mut v, "tar.gz");
    }
    string_of(&v)
}

/// `proxy` in front of `url`.
fn proxied(proxy: &str, url: &str) -> (r: String)
    ensures
        r@ == proxy@ + url@,
{
    let mut v: Vec<char> = Vec::new();
    push_str_chars(&mut v, proxy);
    push_str_chars(&mut v, url);
    string_of(&v)
}

/// The default download URL of the bundle for a platform: the release URL
/// behind the first mirror proxy.
pub fn get_bundle_download_url(os: &str, arch: &str, windows_build: bool) -> (u: String)
    ensures
        u@ == proxy_spec(0) + base_github_url(os@, arch@, windows_build),
{
    let base = get_base_github_url(os, arch, windows_build);
    let p = ghproxy(0);
    proxied(p.as_str(), base.as_str())
}

/// The URL to probe or download through mirror proxy `i`.
pub fn proxied_url(i: usize, base_url: &str) -> (u: String)
    requires
        i < PROXY_COUNT,
    ensures
        u@ == proxy_spec(i as int) + base_url@,
{
    let p = ghproxy(i);
    proxied(p.as_str(), base_url)
}

/// A probe of a mirror counts where it answered below 400: its latency.
pub fn proxy_latency(status: u16, latency_ms: u128) -> (r: Option<u128>)
    ensures
        status < 400 ==> r == Some(latency_ms),
        status >= 400 ==> r is None,
{
    if status < 400 {
        Some(latency_ms)
    } else {
        None
    }
}

/// The mirror with the lowest latency among those that answered, the
/// earliest one on a tie; none where none answered.
pub open spec fn fastest(ls: Seq<Option<u128>>) -> Option<int>
    decreases ls.len(),
{
    if ls.len() == 0 {
        None
    } else {
        let prev = fastest(ls.drop_last());
        match ls.last() {
            Some(l) => match prev {
                None => Some(ls.len() - 1),
                Some(j) => if l < ls[j]->0 {
                    Some(ls.len() - 1)
                } else {
                    Some(j)
                },
            },
            None => prev,
        }
    }
}

/// The mirror chosen: the fastest one, else the first.
pub open spec fn chosen_proxy(ls: Seq<Option<u128>>) -> int {
    match fastest(ls) {
        Some(i) => i,
        None => 0,
    }
}

/// The URL of the fastest mirror, given the latency of each mirror in
/// order (none for one that failed or answered 400 or above); the first
/// mirror where none answered.
pub fn select_fastest_proxy(base_url: &str, latencies: &Vec<Option<u128>>) -> (u: String)
    requires
        latencies@.len() == PROXY_COUNT,
    ensures
        u@ == proxy_spec(chosen_proxy(latencies@)) + base_url@,
{
    let mut best: Option<usize> = None;
    let mut best_latency: u128 = 0;
    let mut i: usize = 0;
    proof {
        assert(latencies@.take(0) =~= Seq::<Option<u128>>::empty());
    }
    while i < latencies.len()
        invariant
            i <= latencies.len(),
            latencies@.len() == PROXY_COUNT,
            match best {
                Some(b) => fastest(latencies@.take(i as int)) == Some(b as int) && b < i
                    && latencies@[b as int] == Some(best_latency),
                None => fastest(latencies@.take(i as int)) is None,
            },
        decreases latencies.len() - i,
    {
        proof {
            assert(latencies@.take(i + 1).drop_last() =~= latencies@.take(i as int));
            assert(latencies@.take(i + 1).last() == latencies@[i as int]);
            if let Some(b) = best {
                assert(latencies@.take(i + 1)[b as int] == latencies@[b as int]);
            }
        }
        match latencies[i] {
            Some(l) => {
                match best {
                    None => {
                        best = Some(i);
                        best_latency = l;
                    },
                    Some(_) => {
                        if l < best_latency {
                            best = Some(i);
                            best_latency = l;
                        }
                    },
                }
            },
            None => {},
        }
        i = i + 1;
    }
    proof {
        assert(latencies@.take(latencies@.len() as int) =~= latencies@);
    }
    let idx = match best {
        Some(b) => b,
        None => 0,
    };
    proxied_url(idx, base_url)
}

/// The chosen mirror answered, and no mirror that answered was faster; and
/// every mirror before it either did not answer or was slower.
pub proof fn law_fastest_is_minimal(ls: Seq<Option<u128>>)
    ensures
        fastest(ls) matches Some(b) ==> ({
            &&& 0 <= b < ls.len()
            &&& ls[b] is Some
            &&& forall|k: int| 0 <= k < ls.len() && ls[k] is Some ==> ls[b]->0 <= ls[k]->0
            &&& forall|k: int| 0 <= k < b && ls[k] is Some ==> ls[b]->0 < ls[k]->0
        }),
        fastest(ls) is None ==> forall|k: int| 0 <= k < ls.len() ==> ls[k] is None,
    decreases ls.len(),
{
    if ls.len() > 0 {
        let p = ls.drop_last();
        law_fastest_is_minimal(p);
        assert forall|k: int| 0 <= k < p.len() implies p[k] == ls[k] by {}
    }
}

// ---------------------------------------------------------------------------
// Resuming a download
// ---------------------------------------------------------------------------

/// The `Range` header that resumes a download after `resume_from` bytes;
/// none for a fresh download.
pub fn range_header(resume_from: u64) -> (h: Option<String>)
    ensures
        resume_from == 0 ==> h is None,
        resume_from > 0 ==> (h matches Some(s) && s@ == "bytes="@ + decimal_string(
            resume_from as nat,
        ) + "-"@),
{
    if resume_from == 0 {
        None
    } else {
        let mut v: Vec<char> = Vec::new();
        push_str_chars(&mut v, "bytes=");
        let d = decimal_chars(resume_from);
        crate::text::append_chars(&mut v, &d);
        push_str_chars(&mut v, "-");
        Some(string_of(&v))
    }
}

/// How the answer to a download request is written.
#[derive(Debug, Clone, Copy)]
pub struct DownloadPlan {
    /// Append to the partial file (a resumed download) rather than start it over.
    pub append: bool,
    /// The byte count the progress starts from.
    pub start: u64,
    /// The size of the whole file, where the answer tells.
    pub total: Option<u64>,
}

/// Whether an HTTP status is a success (2xx).
pub open spec fn status_success(status: u16) -> bool {
    200 <= status < 300
}

/// The answer resumes the download: a partial file existed and the server
/// answered 206 Partial Content.
pub open spec fn resumes(resume_from: u64, status: u16) -> bool {
    resume_from > 0 && status == 206
}

/// The plan for writing the answer to a download request, given the bytes
/// already on disk, the status and the announced length; none where the
/// status is not a success.
pub fn download_plan(resume_from: u64, status: u16, content_length: Option<u64>) -> (r: Option<
    DownloadPlan,
>)
    requires
        resumes(resume_from, status) && content_length is Some ==> content_length->0 + resume_from
            <= u64::MAX,
    ensures
        !status_success(status) ==> r is None,
        status_success(status) ==> (r matches Some(p) && {
            &&& p.append == resumes(resume_from, status)
            &&& p.start == (if p.append {
                resume_from
            } else {
                0
            })
            &&& p.total == (match content_length {
                Some(len) => Some(
                    (if p.append {
                        (len + resume_from) as u64
                    } else {
                        len
                    }),
                ),
                None => None,
            })
        }),
{
    if !(200 <= status && status < 300) {
        return None;
    }
    let append = resume_from > 0 && status == 206;
    let total = match content_length {
        Some(len) => {
            if append {
                Some(len + resume_from)
            } else {
                Some(len)
            }
        },
        None => None,
    };
    Some(DownloadPlan { append, start: if append { resume_from } else { 0 }, total })
}

/// The error for a download answered with a status that is no success,
/// given the status as the HTTP client prints it (such as `404 Not Found`).
pub fn download_status_error(status: &str) -> (m: String)
    ensures
        m@ == "下载失败，HTTP "@ + status@,
{
    let mut v: Vec<char> = Vec::new();
    push_str_chars(&mut v, "下载失败，HTTP ");
    push_str_chars(&mut v, status);
    string_of(&v)
}

} // verus!
