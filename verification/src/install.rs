//! The install and uninstall batch rules: where an archive is downloaded
//! from, where it is extracted to, and the fail-fast outcome of a batch. The
//! downloads themselves are the caller's outside work; the rules here are
//! pure and verified.

use vstd::prelude::*;
use vstd::string::*;

use crate::FontError;

verus! {

/// The repository the release archives are published under.
pub open spec fn spec_repo_base() -> Seq<char> {
    "https://github.com/ryanoasis/nerd-fonts"@
}

/// The metadata API of that repository.
pub open spec fn spec_api_base() -> Seq<char> {
    "https://api.github.com/repos/ryanoasis/nerd-fonts"@
}

/// The URL of the latest-release metadata resource.
pub fn releases_url() -> (r: String)
    ensures
        r@ == spec_api_base() + "/releases/latest"@,
{
    let mut s = "https://api.github.com/repos/ryanoasis/nerd-fonts".to_owned();
    s.append("/releases/latest");
    s
}

/// The URL of the patched-fonts listing at the master reference.
pub fn catalog_url() -> (r: String)
    ensures
        r@ == spec_api_base() + "/contents/patched-fonts?ref=master"@,
{
    let mut s = "https://api.github.com/repos/ryanoasis/nerd-fonts".to_owned();
    s.append("/contents/patched-fonts?ref=master");
    s
}

/// The archive URL for one font at one release tag.
pub open spec fn spec_download_url(tag: Seq<char>, font: Seq<char>) -> Seq<char> {
    spec_repo_base() + "/releases/download/"@ + tag + "/"@ + font + ".tar.xz"@
}

/// Build the archive download URL for `font` at release `tag`.
pub fn download_url(tag: &str, font: &str) -> (r: String)
    ensures
        r@ == spec_download_url(tag@, font@),
{
    let mut s = "https://github.com/ryanoasis/nerd-fonts".to_owned();
    s.append("/releases/download/");
    s.append(tag);
    s.append("/");
    s.append(font);
    s.append(".tar.xz");
    s
}

/// The destination of one font under the platform directory: one immediate
/// child entry bearing the font's name.
pub open spec fn spec_dest_path(dir: Seq<char>, font: Seq<char>) -> Seq<char> {
    if dir.len() > 0 && dir[dir.len() - 1] == '/' {
        dir + font
    } else {
        dir + "/"@ + font
    }
}

/// Join the platform directory and a font name into the font's own path.
pub fn dest_path(dir: &str, font: &str) -> (r: String)
    ensures
        r@ == spec_dest_path(dir@, font@),
{
    let n = dir.unicode_len();
    if n > 0 && dir.get_char(n - 1) == '/' {
        dir.to_owned().concat(font)
    } else {
        let mut s = dir.to_owned();
        s.append("/");
        s.concat(font)
    }
}

/// One pending download-and-extract: which font, from where, to where.
pub struct InstallStep {
    pub font: String,
    pub url: String,
    pub dest: String,
}

/// Lay out an install batch: one step per selected font, in selection order,
/// all at the same release tag. An empty selection plans zero steps.
pub fn plan_install(fonts: &Vec<String>, tag: &str, dir: &str) -> (r: Vec<InstallStep>)
    ensures
        r@.len() == fonts@.len(),
        forall|i: int|
            0 <= i < fonts@.len() ==> (#[trigger] r@[i]).font@ == fonts@[i]@ && r@[i].url@
                == spec_download_url(tag@, fonts@[i]@) && r@[i].dest@ == spec_dest_path(
                dir@,
                fonts@[i]@,
            ),
{
    let mut steps: Vec<InstallStep> = Vec::new();
    let mut i: usize = 0;
    while i < fonts.len()
        invariant
            0 <= i <= fonts@.len(),
            steps@.len() == i,
            forall|j: int|
                0 <= j < i ==> (#[trigger] steps@[j]).font@ == fonts@[j]@ && steps@[j].url@
                    == spec_download_url(tag@, fonts@[j]@) && steps@[j].dest@ == spec_dest_path(
                    dir@,
                    fonts@[j]@,
                ),
        decreases fonts@.len() - i,
    {
        let font = fonts[i].clone();
        let url = download_url(tag, font.as_str());
        let dest = dest_path(dir, font.as_str());
        steps.push(InstallStep { font, url, dest });
        i += 1;
    }
    steps
}

/// Lay out an uninstall batch: the path to remove for each selected font, in
/// selection order. Removal of an absent entry is the caller's success case,
/// so the plan needs no knowledge of what is present.
pub fn plan_uninstall(fonts: &Vec<String>, dir: &str) -> (r: Vec<String>)
    ensures
        r@.len() == fonts@.len(),
        forall|i: int|
            0 <= i < fonts@.len() ==> (#[trigger] r@[i])@ == spec_dest_path(dir@, fonts@[i]@),
{
    let mut paths: Vec<String> = Vec::new();
    let mut i: usize = 0;
    while i < fonts.len()
        invariant
            0 <= i <= fonts@.len(),
            paths@.len() == i,
            forall|j: int| 0 <= j < i ==> (#[trigger] paths@[j])@ == spec_dest_path(dir@, fonts@[j]@),
        decreases fonts@.len() - i,
    {
        paths.push(dest_path(dir, fonts[i].as_str()));
        i += 1;
    }
    paths
}

/// How many downloads succeed before the first failure: the length of the
/// longest all-successful prefix of the outcomes.
pub open spec fn ok_prefix_len(ok: Seq<bool>) -> int
    decreases ok.len(),
{
    if ok.len() == 0 {
        0
    } else if !ok[0] {
        0
    } else {
        1 + ok_prefix_len(ok.skip(1))
    }
}

/// The fail-fast law: when the download of the font at position `k` fails
/// and every earlier one succeeded, exactly the fonts before position `k`
/// were installed — and, when every download succeeded, all of them were.
pub proof fn lemma_ok_prefix_len_unique(ok: Seq<bool>, k: int)
    requires
        0 <= k <= ok.len(),
        forall|j: int| 0 <= j < k ==> ok[j],
        k < ok.len() ==> !ok[k],
    ensures
        ok_prefix_len(ok) == k,
    decreases k,
{
    if k == 0 {
    } else {
        assert(ok[0]);
        lemma_ok_prefix_len_unique(ok.skip(1), k - 1);
    }
}

/// What one batch invocation did: the fonts whose archives were retrieved
/// and extracted, and the failure that stopped the batch, if one did.
pub struct InstallReport {
    pub installed: Vec<String>,
    pub failed: Option<FontError>,
}

/// Summarise a batch from the per-font download outcomes: the fonts before
/// the first failure were installed, the batch stopped at the first failure
/// and reports a network error naming the failing font, and later fonts were
/// never attempted.
pub fn install_outcome(fonts: &Vec<String>, ok: &Vec<bool>) -> (r: InstallReport)
    requires
        ok@.len() == fonts@.len(),
    ensures
        r.installed@.len() == ok_prefix_len(ok@),
        forall|j: int| 0 <= j < r.installed@.len() ==> (#[trigger] r.installed@[j])@ == fonts@[j]@,
        ok_prefix_len(ok@) < fonts@.len() ==> (r.failed matches Some(FontError::Network(f))
            && f@ == fonts@[ok_prefix_len(ok@)]@),
        ok_prefix_len(ok@) == fonts@.len() ==> r.failed is None,
{
    let mut installed: Vec<String> = Vec::new();
    let mut i: usize = 0;
    while i < fonts.len() && ok[i]
        invariant
            0 <= i <= fonts@.len(),
            ok@.len() == fonts@.len(),
            installed@.len() == i,
            forall|j: int| 0 <= j < i ==> ok@[j],
            forall|j: int| 0 <= j < i ==> (#[trigger] installed@[j])@ == fonts@[j]@,
        decreases fonts@.len() - i,
    {
        installed.push(fonts[i].clone());
        i += 1;
    }
    proof {
        lemma_ok_prefix_len_unique(ok@, i as int);
    }
    if i < fonts.len() {
        let failing = fonts[i].clone();
        InstallReport { installed, failed: Some(FontError::Network(failing)) }
    } else {
        InstallReport { installed, failed: None }
    }
}

} // verus!
