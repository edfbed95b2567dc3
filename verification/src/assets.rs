use vstd::prelude::*;

use crate::text::starts_with;

verus! {

/// The assets built into the program, by their paths.
pub open spec fn spec_asset_paths() -> Seq<&'static str> {
    seq![
        "brand/gnil-fm.svg",
        "icons/folder-closed.svg",
        "icons/folder-open.svg",
        "icons/folder-favorite.svg",
        "icons/folder-symlink.svg",
        "icons/folder-readonly.svg",
        "icons/folder-downloads.svg",
        "icons/folder-pictures.svg",
        "icons/folder-documents.svg",
        "icons/folder-videos.svg",
        "icons/folder-music.svg",
        "icons/folder-desktop.svg",
        "icons/file-generic.svg",
        "icons/file-code.svg",
        "icons/file-text.svg",
        "icons/file-image.svg",
        "icons/file-document.svg",
        "icons/file-archive.svg",
        "icons/file-media.svg",
        "icons/empty-state.svg",
        "icons/trash-empty.svg",
        "icons/trash.svg",
        "icons/device-usb.svg",
        "icons/device-drive.svg",
        "icons/device-eject.svg",
        "icons/place-home.svg",
        "icons/place-downloads.svg",
        "icons/place-pictures.svg",
        "icons/place-documents.svg",
        "icons/place-videos.svg",
        "icons/place-music.svg",
        "icons/place-desktop.svg",
        "icons/action-close.svg",
        "icons/action-back.svg",
        "icons/action-forward.svg",
        "icons/action-up.svg",
        "icons/settings-appearance.svg",
        "icons/settings-keymap.svg",
        "icons/settings-file-view.svg",
        "icons/settings-performance.svg",
    ]
}

/// The paths of the built-in assets.
pub fn asset_paths() -> (paths: &'static [&'static str])
    ensures
        paths@ == spec_asset_paths(),
{
    let paths: &'static [&'static str] = &[
        "brand/gnil-fm.svg",
        "icons/folder-closed.svg",
        "icons/folder-open.svg",
        "icons/folder-favorite.svg",
        "icons/folder-symlink.svg",
        "icons/folder-readonly.svg",
        "icons/folder-downloads.svg",
        "icons/folder-pictures.svg",
        "icons/folder-documents.svg",
        "icons/folder-videos.svg",
        "icons/folder-music.svg",
        "icons/folder-desktop.svg",
        "icons/file-generic.svg",
        "icons/file-code.svg",
        "icons/file-text.svg",
        "icons/file-image.svg",
        "icons/file-document.svg",
        "icons/file-archive.svg",
        "icons/file-media.svg",
        "icons/empty-state.svg",
        "icons/trash-empty.svg",
        "icons/trash.svg",
        "icons/device-usb.svg",
        "icons/device-drive.svg",
        "icons/device-eject.svg",
        "icons/place-home.svg",
        "icons/place-downloads.svg",
        "icons/place-pictures.svg",
        "icons/place-documents.svg",
        "icons/place-videos.svg",
        "icons/place-music.svg",
        "icons/place-desktop.svg",
        "icons/action-close.svg",
        "icons/action-back.svg",
        "icons/action-forward.svg",
        "icons/action-up.svg",
        "icons/settings-appearance.svg",
        "icons/settings-keymap.svg",
        "icons/settings-file-view.svg",
        "icons/settings-performance.svg",
    ];
    assert(paths@ =~= spec_asset_paths());
    paths
}

/// The first `n` asset paths that lie in `folder`, each without the folder
/// and its separator.
pub open spec fn listed(paths: Seq<&'static str>, folder: Seq<char>, n: int) -> Seq<Seq<char>>
    decreases n,
{
    if n <= 0 {
        Seq::empty()
    } else {
        let prefix = folder + seq!['/'];
        listed(paths, folder, n - 1) + if starts_with(paths[n - 1]@, prefix) {
            seq![paths[n - 1]@.skip(prefix.len() as int)]
        } else {
            Seq::empty()
        }
    }
}

/// The source of the program's built-in assets.
pub struct Assets;

impl Assets {
    /// The names of the built-in assets in `folder`, in registry order.
    pub fn list(&self, folder: &str) -> (names: Vec<String>)
        ensures
            names@.map_values(|n: String| n@) == listed(spec_asset_paths(), folder@, spec_asset_paths().len() as int),
    {
        let paths = asset_paths();
        let mut prefix = String::from_str(folder);
        prefix.append("/");
        proof {
            reveal_strlit("/");
        }
        assert(prefix@ =~= folder@ + seq!['/']);
        let plen = prefix.unicode_len();
        let mut names: Vec<String> = Vec::new();
        let mut i: usize = 0;
        while i < paths.len()
            invariant
                paths@ == spec_asset_paths(),
                prefix@ == folder@ + seq!['/'],
                plen == prefix@.len(),
                i <= paths@.len(),
                names@.map_values(|n: String| n@) == listed(paths@, folder@, i as int),
            decreases paths@.len() - i,
        {
            let path = paths[i];
            let ghost prev = names@;
            if crate::clipboard::starts_with_text(path, prefix.as_str()) {
                names.push(String::from_str(path.substring_char(plen, path.unicode_len())));
                assert(path@.subrange(plen as int, path@.len() as int) =~= path@.skip(plen as int));
                assert(names@.map_values(|n: String| n@) =~= prev.map_values(|n: String| n@).push(path@.skip(plen as int)));
            }
            i += 1;
        }
        names
    }
}

} // verus!
