//! Releases, and the choice of the asset to download from one.

use vstd::prelude::*;

use crate::config::{InstallKind, UpdaterConfig};
use crate::error::{UpdateError, UpdateErrorView};
use crate::platform::{asset_file_name, asset_name, Platform};
use crate::text::{ascii_lower, eq_ignore_ascii_case, same_ignoring_case, to_chars};

verus! {

/// A file that a release offers.
#[derive(Debug)]
pub struct ReleaseAsset {
    /// Its file name.
    pub name: String,
    /// Where to get it.
    pub browser_download_url: String,
}

/// A release, as far as the updater looks at it.
#[derive(Debug)]
pub struct GithubRelease {
    /// The tag it was made from.
    pub tag_name: String,
    /// Its notes.
    pub body: Option<String>,
    /// Its files.
    pub assets: Option<Vec<ReleaseAsset>>,
}

/// [`ReleaseAsset`] with its texts as sequences of characters.
pub struct AssetView {
    pub name: Seq<char>,
    pub url: Seq<char>,
}

/// [`GithubRelease`] with its texts as sequences of characters. No list of files and no notes
/// count as empty ones.
pub struct ReleaseView {
    pub tag_name: Seq<char>,
    pub notes: Seq<char>,
    pub assets: Seq<AssetView>,
}

impl View for ReleaseAsset {
    type V = AssetView;

    open spec fn view(&self) -> AssetView {
        AssetView { name: self.name@, url: self.browser_download_url@ }
    }
}

/// A list of files with their texts as sequences of characters.
pub open spec fn asset_views(assets: Seq<ReleaseAsset>) -> Seq<AssetView> {
    Seq::new(assets.len(), |i: int| assets[i]@)
}

impl View for GithubRelease {
    type V = ReleaseView;

    open spec fn view(&self) -> ReleaseView {
        ReleaseView {
            tag_name: self.tag_name@,
            notes: match self.body {
                Some(body) => body@,
                None => ""@,
            },
            assets: match self.assets {
                Some(assets) => asset_views(assets@),
                None => Seq::empty(),
            },
        }
    }
}

/// Where to get the file of the given name, whatever its case; the last one counts.
pub open spec fn url_of(assets: Seq<AssetView>, name: Seq<char>) -> Option<Seq<char>>
    decreases assets.len(),
{
    if assets.len() == 0 {
        None
    } else if same_ignoring_case(assets.last().name, name) {
        Some(assets.last().url)
    } else {
        url_of(assets.drop_last(), name)
    }
}

/// Where to get the file of the given name and its signature, if both are there.
pub open spec fn pair_of(assets: Seq<AssetView>, name: Seq<char>) -> Option<(Seq<char>, Seq<char>)> {
    match (url_of(assets, name), url_of(assets, name + ".minisig"@)) {
        (Some(download), Some(signature)) => Some((download, signature)),
        _ => None,
    }
}

/// A pair of strings as sequences of characters.
pub open spec fn pair_view(pair: (String, String)) -> (Seq<char>, Seq<char>) {
    (pair.0@, pair.1@)
}

/// Looks for a file and its signature by the file's name.
pub fn find_pair(name: &str, assets: &[ReleaseAsset]) -> (pair: Option<(String, String)>)
    ensures
        pair is Some == pair_of(asset_views(assets@), name@) is Some,
        pair matches Some(p) ==> pair_of(asset_views(assets@), name@) == Some(pair_view(p)),
{
    let signature_name = String::from(name).concat(".minisig");
    let base = to_chars(name);
    let sig = to_chars(signature_name.as_str());
    proof {
        reveal_strlit(".minisig");
    }
    let mut download_url: Option<String> = None;
    let mut sig_url: Option<String> = None;
    let ghost views = asset_views(assets@);
    let mut i: usize = 0;
    while i < assets.len()
        invariant
            i <= assets@.len(),
            views == asset_views(assets@),
            base@ == name@,
            sig@ == name@ + ".minisig"@,
            sig@.len() > base@.len(),
            download_url is Some == url_of(views.take(i as int), base@) is Some,
            sig_url is Some == url_of(views.take(i as int), sig@) is Some,
            download_url matches Some(u) ==> url_of(views.take(i as int), base@) == Some(u@),
            sig_url matches Some(u) ==> url_of(views.take(i as int), sig@) == Some(u@),
        decreases assets@.len() - i,
    {
        assert(views.take(i + 1).drop_last() =~= views.take(i as int));
        let asset = &assets[i];
        let file = to_chars(asset.name.as_str());
        if eq_ignore_ascii_case(file.as_slice(), base.as_slice()) {
            download_url = Some(asset.browser_download_url.clone());
        } else if eq_ignore_ascii_case(file.as_slice(), sig.as_slice()) {
            sig_url = Some(asset.browser_download_url.clone());
        }
        i += 1;
    }
    assert(views.take(views.len() as int) =~= views);
    match (download_url, sig_url) {
        (Some(d), Some(s)) => Some((d, s)),
        _ => None,
    }
}

/// The name of an asset without a suffix: `{app_name}_setup.exe` for an installer and
/// `{app_name}.zip` otherwise.
pub open spec fn plain_name(app_name: Seq<char>, is_installer: bool) -> Seq<char> {
    if is_installer {
        app_name + "_setup.exe"@
    } else {
        app_name + ".zip"@
    }
}

/// Looks for an app's installer or zip archive and its signature.
pub fn pick_asset_pair(app_name: &str, is_installer: bool, assets: &[ReleaseAsset]) -> (pair:
    Option<(String, String)>)
    ensures
        pair is Some == pair_of(asset_views(assets@), plain_name(app_name@, is_installer)) is Some,
        pair matches Some(p) ==> pair_of(
            asset_views(assets@),
            plain_name(app_name@, is_installer),
        ) == Some(pair_view(p)),
{
    let base = if is_installer {
        String::from(app_name).concat("_setup.exe")
    } else {
        String::from(app_name).concat(".zip")
    };
    find_pair(base.as_str(), assets)
}

/// Where to get the update that a release has for an app, and its signature, or why it has none.
pub open spec fn required_pair(
    platform: Platform,
    config: UpdaterConfig,
    release: ReleaseView,
) -> Result<(Seq<char>, Seq<char>), UpdateErrorView> {
    if release.assets.len() == 0 {
        Err(
            UpdateErrorView::NoDownload(
                "Latest release does not include downloadable assets."@,
            ),
        )
    } else {
        match pair_of(release.assets, asset_name(platform, config)) {
            Some(pair) => Ok(pair),
            None => Err(
                UpdateErrorView::NoDownload(
                    "Update is available but no matching download asset or signature was found."@,
                ),
            ),
        }
    }
}

/// Finds the update that a release has for the app.
pub fn require_asset_pair(
    platform: Platform,
    config: &UpdaterConfig,
    release: &GithubRelease,
) -> (pair: Result<(String, String), UpdateError>)
    ensures
        pair matches Ok(p) ==> required_pair(platform, *config, release@) == Ok::<
            _,
            UpdateErrorView,
        >(pair_view(p)),
        pair matches Err(e) ==> required_pair(platform, *config, release@) == Err::<
            (Seq<char>, Seq<char>),
            _,
        >(e@),
{
    match &release.assets {
        Some(list) if list.len() > 0 => {
            let name = asset_file_name(platform, config);
            match find_pair(name.as_str(), list.as_slice()) {
                Some(pair) => Ok(pair),
                None => Err(
                    UpdateError::NoDownload(
                        String::from(
                            "Update is available but no matching download asset or signature was found.",
                        ),
                    ),
                ),
            }
        },
        _ => Err(
            UpdateError::NoDownload(
                String::from("Latest release does not include downloadable assets."),
            ),
        ),
    }
}

/// A file of a name is found exactly when the list has one, whatever its case; what is found is one
/// of those.
pub proof fn law_found_when_listed(assets: Seq<AssetView>, name: Seq<char>)
    ensures
        url_of(assets, name) is Some <==> exists|i: int|
            0 <= i < assets.len() && same_ignoring_case(#[trigger] assets[i].name, name),
        url_of(assets, name) matches Some(url) ==> exists|i: int|
            0 <= i < assets.len() && same_ignoring_case(#[trigger] assets[i].name, name)
                && assets[i].url == url,
    decreases assets.len(),
{
    if assets.len() > 0 {
        let rest = assets.drop_last();
        law_found_when_listed(rest, name);
        if same_ignoring_case(assets.last().name, name) {
            assert(same_ignoring_case(assets[assets.len() - 1].name, name));
        } else {
            if exists|i: int|
                0 <= i < assets.len() && same_ignoring_case(#[trigger] assets[i].name, name) {
                let i = choose|i: int|
                    0 <= i < assets.len() && same_ignoring_case(#[trigger] assets[i].name, name);
                assert(rest[i] == assets[i]);
                assert(same_ignoring_case(rest[i].name, name));
            }
            if url_of(rest, name) is Some {
                let i = choose|i: int|
                    0 <= i < rest.len() && same_ignoring_case(#[trigger] rest[i].name, name)
                        && rest[i].url == url_of(rest, name)->0;
                assert(assets[i] == rest[i]);
            }
        }
    }
}

/// Whether two lists of files differ at most in the case of the names.
pub open spec fn same_files(a: Seq<AssetView>, b: Seq<AssetView>) -> bool {
    a.len() == b.len() && forall|i: int|
        0 <= i < a.len() ==> same_ignoring_case((#[trigger] a[i]).name, b[i].name) && a[i].url
            == b[i].url
}

/// The case of the file names makes no difference to what is found.
pub proof fn law_case_of_names_is_ignored(
    a: Seq<AssetView>,
    b: Seq<AssetView>,
    name: Seq<char>,
)
    requires
        same_files(a, b),
    ensures
        url_of(a, name) == url_of(b, name),
        pair_of(a, name) == pair_of(b, name),
{
    lemma_case_of_names(a, b, name);
    lemma_case_of_names(a, b, name + ".minisig"@);
}

proof fn lemma_case_of_names(a: Seq<AssetView>, b: Seq<AssetView>, name: Seq<char>)
    requires
        same_files(a, b),
    ensures
        url_of(a, name) == url_of(b, name),
    decreases a.len(),
{
    if a.len() > 0 {
        let n = a.len() - 1;
        assert(same_ignoring_case(a[n].name, b[n].name));
        lemma_same_case_transfers(a.last().name, b.last().name, name);
        assert forall|i: int| 0 <= i < n implies same_ignoring_case(
            (#[trigger] a.drop_last()[i]).name,
            b.drop_last()[i].name,
        ) && a.drop_last()[i].url == b.drop_last()[i].url by {
            assert(a.drop_last()[i] == a[i]);
        }
        lemma_case_of_names(a.drop_last(), b.drop_last(), name);
    }
}

proof fn lemma_same_case_transfers(a: Seq<char>, b: Seq<char>, name: Seq<char>)
    requires
        same_ignoring_case(a, b),
    ensures
        same_ignoring_case(a, name) == same_ignoring_case(b, name),
{
    if same_ignoring_case(a, name) {
        assert forall|i: int| 0 <= i < b.len() implies ascii_lower(#[trigger] b[i]) == ascii_lower(
            name[i],
        ) by {
            assert(ascii_lower(a[i]) == ascii_lower(b[i]));
        }
    }
    if same_ignoring_case(b, name) {
        assert forall|i: int| 0 <= i < a.len() implies ascii_lower(#[trigger] a[i]) == ascii_lower(
            name[i],
        ) by {
            assert(ascii_lower(b[i]) == ascii_lower(name[i]));
        }
    }
}

/// Whether at most one file of a list has the given name, whatever its case.
pub open spec fn at_most_one(assets: Seq<AssetView>, name: Seq<char>) -> bool {
    forall|i: int, j: int|
        0 <= i < assets.len() && 0 <= j < assets.len() && same_ignoring_case(
            (#[trigger] assets[i]).name,
            name,
        ) && same_ignoring_case((#[trigger] assets[j]).name, name) ==> i == j
}

/// Whether no file of a list has the given name, whatever its case.
pub open spec fn has_none(assets: Seq<AssetView>, name: Seq<char>) -> bool {
    forall|i: int| 0 <= i < assets.len() ==> !same_ignoring_case((#[trigger] assets[i]).name, name)
}

/// Whether `b` has the files of `a`, in any order, and those of `others`.
pub open spec fn has_files_of(b: Seq<AssetView>, a: Seq<AssetView>, others: Seq<AssetView>) -> bool {
    b.to_multiset() == a.to_multiset().add(others.to_multiset())
}

/// Where the file and the signature that are looked for are each listed at most once, neither the
/// order of the list nor any files of other names make a difference to what is found.
pub proof fn law_order_of_files_is_ignored(
    a: Seq<AssetView>,
    others: Seq<AssetView>,
    b: Seq<AssetView>,
    name: Seq<char>,
)
    requires
        has_files_of(b, a, others),
        at_most_one(a, name),
        at_most_one(a, name + ".minisig"@),
        has_none(others, name),
        has_none(others, name + ".minisig"@),
    ensures
        pair_of(b, name) == pair_of(a, name),
{
    lemma_order_of_files(a, others, b, name);
    lemma_order_of_files(a, others, b, name + ".minisig"@);
}

proof fn lemma_order_of_files(
    a: Seq<AssetView>,
    others: Seq<AssetView>,
    b: Seq<AssetView>,
    name: Seq<char>,
)
    requires
        has_files_of(b, a, others),
        at_most_one(a, name),
        has_none(others, name),
    ensures
        url_of(b, name) == url_of(a, name),
{
    law_found_when_listed(a, name);
    law_found_when_listed(b, name);
    a.to_multiset_ensures();
    b.to_multiset_ensures();
    others.to_multiset_ensures();
    if url_of(a, name) is Some {
        let i = choose|i: int|
            0 <= i < a.len() && same_ignoring_case(#[trigger] a[i].name, name) && a[i].url
                == url_of(a, name)->0;
        assert(a.contains(a[i]));
        assert(b.to_multiset().count(a[i]) > 0);
        let k = choose|k: int| 0 <= k < b.len() && b[k] == a[i];
        assert(same_ignoring_case(b[k].name, name));
    }
    if url_of(b, name) is Some {
        let k = choose|k: int|
            0 <= k < b.len() && same_ignoring_case(#[trigger] b[k].name, name) && b[k].url
                == url_of(b, name)->0;
        assert(b.contains(b[k]));
        assert(!others.contains(b[k]));
        assert(b.to_multiset().count(b[k]) > 0);
        assert(others.to_multiset().count(b[k]) == 0);
        assert(a.to_multiset().count(b[k]) > 0);
        let m = choose|m: int| 0 <= m < a.len() && a[m] == b[k];
        assert(same_ignoring_case(a[m].name, name));
        let i = choose|i: int|
            0 <= i < a.len() && same_ignoring_case(#[trigger] a[i].name, name) && a[i].url
                == url_of(a, name)->0;
        assert(i == m);
    }
}

/// On Windows, an app without suffixes is looked for under its plain name.
pub proof fn law_plain_name_without_suffix(config: UpdaterConfig)
    requires
        config.suffix() == ""@,
    ensures
        asset_name(Platform::Windows, config) == plain_name(
            config.app_name@,
            config.install_kind == InstallKind::Installer,
        ),
{
    reveal_strlit("");
    reveal_strlit(".");
    reveal_strlit("_setup");
    reveal_strlit("exe");
    reveal_strlit("zip");
    reveal_strlit("_setup.exe");
    reveal_strlit(".zip");
    assert(asset_name(Platform::Windows, config) =~= plain_name(
        config.app_name@,
        config.install_kind == InstallKind::Installer,
    ));
}

/// Of several files of one name the last counts, and files of other names do not.
pub proof fn law_last_of_a_name_counts(
    before: Seq<AssetView>,
    file: AssetView,
    after: Seq<AssetView>,
    name: Seq<char>,
)
    requires
        same_ignoring_case(file.name, name),
        has_none(after, name),
    ensures
        url_of(before + seq![file] + after, name) == Some(file.url),
    decreases after.len(),
{
    let all = before + seq![file] + after;
    if after.len() == 0 {
        assert(all.last() == file);
    } else {
        let init = after.drop_last();
        assert forall|i: int| 0 <= i < init.len() implies !same_ignoring_case(
            (#[trigger] init[i]).name,
            name,
        ) by {
            assert(init[i] == after[i]);
        }
        law_last_of_a_name_counts(before, file, init, name);
        assert(all.drop_last() =~= before + seq![file] + init);
        assert(all.last() == after[after.len() - 1]);
    }
}

/// A file is found together with its signature or not at all: the two URLs are those of the file and
/// of the file of that name with `.minisig`, in this order.
pub proof fn law_files_come_with_signatures(
    assets: Seq<AssetView>,
    name: Seq<char>,
    download: Seq<char>,
    signature: Seq<char>,
)
    ensures
        pair_of(assets, name) == Some((download, signature)) <==> url_of(assets, name) == Some(
            download,
        ) && url_of(assets, name + ".minisig"@) == Some(signature),
        pair_of(assets, name) is None <==> url_of(assets, name) is None || url_of(
            assets,
            name + ".minisig"@,
        ) is None,
{
}

/// A release is seen as it is: its tag, its notes, and its files with their names and URLs, in their
/// order. What is missing counts as empty.
pub proof fn law_releases_are_seen_as_they_are(release: GithubRelease)
    ensures
        release@.tag_name == release.tag_name@,
        release.body matches Some(body) ==> release@.notes == body@,
        release.body is None ==> release@.notes.len() == 0,
        release.assets matches Some(files) ==> {
            &&& release@.assets.len() == files@.len()
            &&& forall|i: int|
                #![trigger release@.assets[i]]
                0 <= i < files@.len() ==> release@.assets[i].name == files@[i].name@
                    && release@.assets[i].url == files@[i].browser_download_url@
        },
        release.assets is None ==> release@.assets.len() == 0,
{
    reveal_strlit("");
}

/// A release that lists nothing is told apart from one that lists nothing for the app, and what is
/// listed for the app is found under the name of its asset.
pub proof fn law_what_a_release_has_for_an_app(
    platform: Platform,
    config: UpdaterConfig,
    release: ReleaseView,
    download: Seq<char>,
    signature: Seq<char>,
)
    ensures
        release.assets.len() == 0 ==> required_pair(platform, config, release) == Err::<
            (Seq<char>, Seq<char>),
            _,
        >(
            UpdateErrorView::NoDownload("Latest release does not include downloadable assets."@),
        ),
        release.assets.len() > 0 && pair_of(release.assets, asset_name(platform, config)) is None
            ==> required_pair(platform, config, release) == Err::<(Seq<char>, Seq<char>), _>(
            UpdateErrorView::NoDownload(
                "Update is available but no matching download asset or signature was found."@,
            ),
        ),
        pair_of(release.assets, asset_name(platform, config)) == Some((download, signature))
            ==> required_pair(platform, config, release) == Ok::<_, UpdateErrorView>(
            (download, signature),
        ),
{
    law_found_when_listed(release.assets, asset_name(platform, config));
}

/// A pair of URLs is seen as it is.
pub proof fn law_pairs_are_seen_as_they_are(pair: (String, String), file: ReleaseAsset)
    ensures
        pair_view(pair).0 == pair.0@,
        pair_view(pair).1 == pair.1@,
        file@.name == file.name@,
        file@.url == file.browser_download_url@,
{
}

} // verus!
