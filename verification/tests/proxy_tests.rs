use openclaw_manager::proxy::{
    download_plan, download_status_error, get_base_github_url, get_bundle_download_url, ghproxy, proxied_url,
    proxy_latency, range_header, select_fastest_proxy, PROXY_COUNT,
};

const BASE: &str = "https://github.com/icepie/openclaw-manager/releases/download/dev/openclaw-bundle-";

#[test]
fn mirror_list() {
    assert_eq!(PROXY_COUNT, 5);
    assert_eq!(ghproxy(0), "https://ghproxy.monkeyray.net/");
    assert_eq!(ghproxy(1), "https://gh.xxooo.cf/");
    assert_eq!(ghproxy(2), "https://fastgit.cc/");
    assert_eq!(ghproxy(3), "https://ghproxy.cxkpro.top/");
    assert_eq!(ghproxy(4), "https://gh.idayer.com/");
}

#[test]
fn release_urls_per_platform() {
    assert_eq!(get_base_github_url("windows", "x86_64", true), format!("{}windows-x64.zip", BASE));
    assert_eq!(get_base_github_url("macos", "aarch64", false), format!("{}macos-arm64.tar.gz", BASE));
    assert_eq!(get_base_github_url("linux", "x86_64", false), format!("{}linux-x64.tar.gz", BASE));
    assert_eq!(get_base_github_url("freebsd", "riscv64", false), format!("{}linux-x64.tar.gz", BASE));
}

#[test]
fn default_download_url_uses_first_mirror() {
    assert_eq!(
        get_bundle_download_url("linux", "aarch64", false),
        format!("https://ghproxy.monkeyray.net/{}linux-arm64.tar.gz", BASE)
    );
    assert_eq!(proxied_url(2, "u"), "https://fastgit.cc/u");
}

#[test]
fn probe_latency_counts_below_400() {
    assert_eq!(proxy_latency(200, 15), Some(15));
    assert_eq!(proxy_latency(302, 7), Some(7));
    assert_eq!(proxy_latency(399, 7), Some(7));
    assert_eq!(proxy_latency(400, 7), None);
    assert_eq!(proxy_latency(503, 1), None);
}

#[test]
fn fastest_mirror_is_chosen() {
    let l = vec![Some(300), None, Some(120), Some(200), None];
    assert_eq!(select_fastest_proxy("u", &l), "https://fastgit.cc/u");
}

#[test]
fn tie_keeps_the_earlier_mirror() {
    let l = vec![None, Some(50), None, Some(50), Some(60)];
    assert_eq!(select_fastest_proxy("u", &l), "https://gh.xxooo.cf/u");
}

#[test]
fn no_mirror_answered_uses_first() {
    let l = vec![None, None, None, None, None];
    assert_eq!(select_fastest_proxy("u", &l), "https://ghproxy.monkeyray.net/u");
}

#[test]
fn last_mirror_can_win() {
    let l = vec![Some(9), Some(8), Some(7), Some(6), Some(5)];
    assert_eq!(select_fastest_proxy("u", &l), "https://gh.idayer.com/u");
}

#[test]
fn resume_header() {
    assert_eq!(range_header(0), None);
    assert_eq!(range_header(1024), Some("bytes=1024-".to_string()));
}

#[test]
fn download_plans() {
    assert!(download_plan(0, 404, Some(10)).is_none());
    assert!(download_plan(0, 301, None).is_none());
    let p = download_plan(0, 200, Some(10)).unwrap();
    assert!(!p.append);
    assert_eq!(p.start, 0);
    assert_eq!(p.total, Some(10));
    let p = download_plan(100, 206, Some(50)).unwrap();
    assert!(p.append);
    assert_eq!(p.start, 100);
    assert_eq!(p.total, Some(150));
    // the server ignored the range: start over
    let p = download_plan(100, 200, Some(500)).unwrap();
    assert!(!p.append);
    assert_eq!(p.start, 0);
    assert_eq!(p.total, Some(500));
    let p = download_plan(100, 206, None).unwrap();
    assert!(p.append);
    assert_eq!(p.total, None);
}

#[test]
fn download_status_error_message() {
    assert_eq!(download_status_error("404 Not Found"), "下载失败，HTTP 404 Not Found");
}
