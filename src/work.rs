//! The manifest of a work and the assets it names.
use vstd::prelude::*;
use vstd::string::*;
use crate::jsonp::{jsonp_name, with_jsonp_suffix};

verus! {

/// The 3D model of a work.
pub struct Model {
    pub file_url: String,
    pub material_base_url: String,
    pub material_textures: Vec<String>,
    pub model_type: i64,
}

/// The panoramas of a work.
pub struct Panorama {
    pub count: i64,
    pub list: Vec<PanoramaItem>,
}

/// One panorama: six cube faces, each relative to the work's base URL.
pub struct PanoramaItem {
    pub back: String,
    pub derived_id: Option<i64>,
    pub down: String,
    pub front: String,
    pub index: i64,
    pub left: String,
    pub right: String,
    pub tiles: Option<Vec<i64>>,
    pub up: String,
}

/// The asset-bearing part of a work's manifest.
pub struct Work {
    pub base_url: String,
    pub model: Model,
    pub panorama: Panorama,
    pub picture_url: String,
    pub title_picture_url: String,
}

/// One asset to fetch: where from, and where to, relative to the job's
/// `origin` directory.
pub struct DownloadEntry {
    pub url: String,
    pub path: String,
}

/// The faces of a panorama, in download order.
pub open spec fn item_faces(it: PanoramaItem) -> Seq<Seq<char>> {
    seq![it.right@, it.left@, it.front@, it.back@, it.up@, it.down@]
}

pub open spec fn face_count(w: Work) -> int {
    6 * w.panorama.list@.len() as int
}

/// Face `k` of all panoramas together, in download order.
pub open spec fn face_at(w: Work, k: int) -> Seq<char> {
    item_faces(w.panorama.list@[k / 6])[k % 6]
}

pub open spec fn texture_at(w: Work, t: int) -> Seq<char> {
    w.model.material_textures@[t]@
}

/// The number of assets of a work.
pub open spec fn asset_count(w: Work) -> int {
    3 + face_count(w) + w.model.material_textures@.len()
}

/// The name of asset `k`: its path relative to its base, as the manifest
/// gives it (a fixed name for the two pictures).
pub open spec fn asset_name(w: Work, k: int) -> Seq<char> {
    if k == 0 {
        "picture.jpg"@
    } else if k == 1 {
        "title_picture.jpg"@
    } else if k < 2 + face_count(w) {
        face_at(w, k - 2)
    } else if k == 2 + face_count(w) {
        w.model.file_url@
    } else {
        texture_at(w, k - 3 - face_count(w))
    }
}

/// What stands before an asset's name in its stored path: the texture base
/// for textures, nothing for the others.
pub open spec fn asset_prefix(w: Work, k: int) -> Seq<char> {
    if k <= 2 + face_count(w) {
        Seq::empty()
    } else {
        w.model.material_base_url@
    }
}

/// Where asset `k` is stored, relative to the job's `origin` directory.
pub open spec fn asset_path(w: Work, k: int) -> Seq<char> {
    asset_prefix(w, k) + asset_name(w, k)
}

/// Where asset `k` is fetched from.
pub open spec fn asset_url(w: Work, k: int) -> Seq<char> {
    if k == 0 {
        w.picture_url@
    } else if k == 1 {
        w.title_picture_url@
    } else {
        w.base_url@ + asset_path(w, k)
    }
}

/// The manifest field that refers to asset `k`.
pub open spec fn asset_ref(w: Work, k: int) -> Seq<char> {
    if k == 0 {
        w.picture_url@
    } else if k == 1 {
        w.title_picture_url@
    } else if k < 2 + face_count(w) {
        face_at(w, k - 2)
    } else if k == 2 + face_count(w) {
        w.model.file_url@
    } else {
        texture_at(w, k - 3 - face_count(w))
    }
}

/// `list` is the download list of `w`: asset `k` at position `k`.
pub open spec fn is_download_list(w: Work, list: Seq<DownloadEntry>) -> bool {
    &&& list.len() == asset_count(w)
    &&& forall|k: int|
        0 <= k < list.len() ==> #[trigger] list[k].url@ == asset_url(w, k) && list[k].path@
            == asset_path(w, k)
}

/// `j` is `w` with every asset reference replaced by the name of its preview
/// file, `<name>.<k>.jsonp` for asset `k`, all else kept.
pub open spec fn is_jsonp_work(w: Work, j: Work) -> bool {
    &&& j.panorama.list@.len() == w.panorama.list@.len()
    &&& j.model.material_textures@.len() == w.model.material_textures@.len()
    &&& forall|k: int|
        0 <= k < asset_count(w) ==> #[trigger] asset_ref(j, k) == jsonp_name(
            asset_name(w, k),
            k as nat,
        )
    &&& j.base_url@ == w.base_url@
    &&& j.model.material_base_url@ == w.model.material_base_url@
    &&& j.model.model_type == w.model.model_type
    &&& j.panorama.count == w.panorama.count
    &&& forall|i: int|
        0 <= i < w.panorama.list@.len() ==> #[trigger] same_passthrough(
            j.panorama.list@[i],
            w.panorama.list@[i],
        )
}

/// The fields of a panorama that packaging carries through unchanged.
pub open spec fn same_passthrough(a: PanoramaItem, b: PanoramaItem) -> bool {
    &&& a.index == b.index
    &&& a.derived_id == b.derived_id
    &&& match (a.tiles, b.tiles) {
        (Some(x), Some(y)) => x@ == y@,
        (None, None) => true,
        _ => false,
    }
}

/// The preview file that the download list stores for asset `k` is the one
/// that the rewritten manifest refers to at `k`: both carry the index `k`.
/// Textures are referred to relative to the texture base, which stands
/// before the reference in the stored path.
pub proof fn lemma_download_and_jsonp_indices_agree(
    w: Work,
    list: Seq<DownloadEntry>,
    j: Work,
)
    requires
        is_download_list(w, list),
        is_jsonp_work(w, j),
    ensures
        list.len() == asset_count(j),
        forall|k: int|
            0 <= k < list.len() ==> jsonp_name(#[trigger] list[k].path@, k as nat)
                == asset_prefix(w, k) + asset_ref(j, k),
{
    assert forall|k: int| 0 <= k < list.len() implies jsonp_name(#[trigger] list[k].path@, k as nat)
        == asset_prefix(w, k) + asset_ref(j, k) by {
        assert(asset_ref(j, k) == jsonp_name(asset_name(w, k), k as nat));
        assert(list[k].url@ == asset_url(w, k));
        assert(list[k].path@ == asset_prefix(w, k) + asset_name(w, k));
        assert(jsonp_name(list[k].path@, k as nat) =~= asset_prefix(w, k) + jsonp_name(
            asset_name(w, k),
            k as nat,
        ));
    }
}

proof fn lemma_face_index(j: int, f: int)
    requires
        0 <= j,
        0 <= f < 6,
    ensures
        (6 * j + f) / 6 == j,
        (6 * j + f) % 6 == f,
{
    vstd::arithmetic::div_mod::lemma_fundamental_div_mod_converse(6 * j + f, 6, j, f);
}

impl Work {
    /// The base URL followed by `suffix`.
    pub fn with_base_url(&self, suffix: &str) -> (r: String)
        ensures
            r@ == self.base_url@ + suffix@,
    {
        let mut full_url = self.base_url.clone();
        full_url.append(suffix);
        full_url
    }

    /// The texture base URL followed by `suffix`.
    pub fn with_model_base_url(&self, suffix: &str) -> (r: String)
        ensures
            r@ == self.model.material_base_url@ + suffix@,
    {
        let mut full_url = self.model.material_base_url.clone();
        full_url.append(suffix);
        full_url
    }

    /// Every asset of the work, in download order: the picture, the title
    /// picture, the six faces of each panorama (right, left, front, back, up,
    /// down), the model file, then the textures.
    pub fn get_download_list(&self) -> (r: Vec<DownloadEntry>)
        requires
            asset_count(*self) <= usize::MAX,
        ensures
            is_download_list(*self, r@),
    {
        let ghost w = *self;
        let mut download: Vec<DownloadEntry> = Vec::new();
        proof {
            reveal_strlit("picture.jpg");
            reveal_strlit("title_picture.jpg");
        }
        download.push(
            DownloadEntry { url: self.picture_url.clone(), path: "picture.jpg".to_owned() },
        );
        download.push(
            DownloadEntry {
                url: self.title_picture_url.clone(),
                path: "title_picture.jpg".to_owned(),
            },
        );
        let n = self.panorama.list.len();
        let mut j: usize = 0;
        while j < n
            invariant
                n == w.panorama.list@.len(),
                w == *self,
                asset_count(w) <= usize::MAX,
                j <= n,
                download@.len() == 2 + 6 * j,
                forall|k: int|
                    0 <= k < download@.len() ==> #[trigger] download@[k].url@ == asset_url(w, k)
                        && download@[k].path@ == asset_path(w, k),
            decreases n - j,
        {
            let item = &self.panorama.list[j];
            proof {
                assert forall|f: int| 0 <= f < 6 implies face_at(w, 6 * j + f) == item_faces(
                    *item,
                )[f] by {
                    lemma_face_index(j as int, f);
                }
            }
            let faces = [&item.right, &item.left, &item.front, &item.back, &item.up, &item.down];
            let mut f: usize = 0;
            while f < 6
                invariant
                    n == w.panorama.list@.len(),
                    w == *self,
                    j < n,
                    *item == w.panorama.list@[j as int],
                    faces@ == seq![&item.right, &item.left, &item.front, &item.back, &item.up, &item.down],
                    f <= 6,
                    forall|g: int| 0 <= g < 6 ==> face_at(w, 6 * j + g) == item_faces(*item)[g],
                    download@.len() == 2 + 6 * j + f,
                    forall|k: int|
                        0 <= k < download@.len() ==> #[trigger] download@[k].url@ == asset_url(
                            w,
                            k,
                        ) && download@[k].path@ == asset_path(w, k),
                decreases 6 - f,
            {
                let face = faces[f];
                assert(face@ == item_faces(*item)[f as int]);
                download.push(DownloadEntry { url: self.with_base_url(face.as_str()), path: face.clone() });
                f = f + 1;
            }
            j = j + 1;
        }
        let model_path = self.model.file_url.clone();
        download.push(
            DownloadEntry { url: self.with_base_url(model_path.as_str()), path: model_path },
        );
        let m = self.model.material_textures.len();
        let mut t: usize = 0;
        while t < m
            invariant
                m == w.model.material_textures@.len(),
                n == w.panorama.list@.len(),
                w == *self,
                t <= m,
                download@.len() == 3 + 6 * n + t,
                forall|k: int|
                    0 <= k < download@.len() ==> #[trigger] download@[k].url@ == asset_url(w, k)
                        && download@[k].path@ == asset_path(w, k),
            decreases m - t,
        {
            let path = self.with_model_base_url(self.model.material_textures[t].as_str());
            let url = self.with_base_url(path.as_str());
            download.push(DownloadEntry { url, path });
            t = t + 1;
        }
        assert(download@.len() == asset_count(w));
        assert forall|k: int| 0 <= k < download@.len() implies #[trigger] download@[k].url@
            == asset_url(w, k) && download@[k].path@ == asset_path(w, k) by {}
        assert(is_download_list(w, download@));
        download
    }
    /// The manifest of the preview bundle: every asset reference replaced by
    /// the name of its preview file, with the index of its download entry.
    pub fn get_jsonp_work(&self) -> (r: Work)
        requires
            asset_count(*self) <= usize::MAX,
        ensures
            is_jsonp_work(*self, r),
    {
        let ghost w = *self;
        proof {
            reveal_strlit("picture.jpg");
            reveal_strlit("title_picture.jpg");
        }
        let picture_url = with_jsonp_suffix("picture.jpg", 0);
        let title_picture_url = with_jsonp_suffix("title_picture.jpg", 1);
        let n = self.panorama.list.len();
        let mut items: Vec<PanoramaItem> = Vec::new();
        let mut j: usize = 0;
        while j < n
            invariant
                n == w.panorama.list@.len(),
                w == *self,
                asset_count(w) <= usize::MAX,
                j <= n,
                items@.len() == j,
                forall|i: int, f: int|
                    0 <= i < j && 0 <= f < 6 ==> #[trigger] item_faces(items@[i])[f] == jsonp_name(
                        item_faces(w.panorama.list@[i])[f],
                        (2 + 6 * i + f) as nat,
                    ),
                forall|i: int|
                    0 <= i < j ==> #[trigger] same_passthrough(items@[i], w.panorama.list@[i]),
            decreases n - j,
        {
            let item = &self.panorama.list[j];
            let base = 2 + 6 * j;
            let new_item = PanoramaItem {
                right: with_jsonp_suffix(item.right.as_str(), base),
                left: with_jsonp_suffix(item.left.as_str(), base + 1),
                front: with_jsonp_suffix(item.front.as_str(), base + 2),
                back: with_jsonp_suffix(item.back.as_str(), base + 3),
                up: with_jsonp_suffix(item.up.as_str(), base + 4),
                down: with_jsonp_suffix(item.down.as_str(), base + 5),
                derived_id: item.derived_id,
                index: item.index,
                tiles: copy_tiles(&item.tiles),
            };
            items.push(new_item);
            proof {
                assert forall|i: int, f: int|
                    0 <= i < j + 1 && 0 <= f < 6 implies #[trigger] item_faces(items@[i])[f]
                    == jsonp_name(item_faces(w.panorama.list@[i])[f], (2 + 6 * i + f) as nat) by {
                    if i == j {
                        if f == 0 {
                        } else if f == 1 {
                        } else if f == 2 {
                        } else if f == 3 {
                        } else if f == 4 {
                        } else {
                        }
                    }
                }
            }
            j = j + 1;
        }
        let m = self.model.material_textures.len();
        let mut textures: Vec<String> = Vec::new();
        let mut t: usize = 0;
        while t < m
            invariant
                m == w.model.material_textures@.len(),
                n == w.panorama.list@.len(),
                w == *self,
                asset_count(w) <= usize::MAX,
                t <= m,
                textures@.len() == t,
                forall|i: int|
                    0 <= i < t ==> #[trigger] textures@[i]@ == jsonp_name(
                        texture_at(w, i),
                        (3 + 6 * n + i) as nat,
                    ),
            decreases m - t,
        {
            textures.push(
                with_jsonp_suffix(self.model.material_textures[t].as_str(), 3 + 6 * n + t),
            );
            t = t + 1;
        }
        let r = Work {
            base_url: self.base_url.clone(),
            model: Model {
                file_url: with_jsonp_suffix(self.model.file_url.as_str(), 2 + 6 * n),
                material_base_url: self.model.material_base_url.clone(),
                material_textures: textures,
                model_type: self.model.model_type,
            },
            panorama: Panorama { count: self.panorama.count, list: items },
            picture_url,
            title_picture_url,
        };
        proof {
            assert forall|k: int| 0 <= k < asset_count(w) implies #[trigger] asset_ref(r, k)
                == jsonp_name(asset_name(w, k), k as nat) by {
                if 2 <= k < 2 + face_count(w) {
                    let x = k - 2;
                    vstd::arithmetic::div_mod::lemma_fundamental_div_mod(x, 6);
                    let i = x / 6;
                    let f = x % 6;
                    assert(0 <= f < 6);
                    assert(0 <= i < n) by (nonlinear_arith)
                        requires x == 6 * i + f, 0 <= x < 6 * n, 0 <= f < 6;
                    assert(item_faces(r.panorama.list@[i])[f] == jsonp_name(
                        item_faces(w.panorama.list@[i])[f],
                        (2 + 6 * i + f) as nat,
                    ));
                }
            }
        }
        r
    }
}

fn copy_tiles(tiles: &Option<Vec<i64>>) -> (r: Option<Vec<i64>>)
    ensures
        match (r, *tiles) {
            (Some(x), Some(y)) => x@ == y@,
            (None, None) => true,
            _ => false,
        },
{
    match tiles {
        None => None,
        Some(v) => {
            let mut out: Vec<i64> = Vec::new();
            let mut i: usize = 0;
            while i < v.len()
                invariant
                    i <= v@.len(),
                    out@ == v@.subrange(0, i as int),
                decreases v@.len() - i,
            {
                out.push(v[i]);
                i = i + 1;
                assert(out@ =~= v@.subrange(0, i as int));
            }
            assert(out@ =~= v@);
            Some(out)
        },
    }
}

} // verus!
