use work_packager::work::{Model, Panorama, PanoramaItem, Work};

fn item(faces: [&str; 6], index: i64) -> PanoramaItem {
    PanoramaItem {
        front: faces[0].to_string(),
        back: faces[1].to_string(),
        left: faces[2].to_string(),
        right: faces[3].to_string(),
        up: faces[4].to_string(),
        down: faces[5].to_string(),
        derived_id: Some(index * 10),
        index,
        tiles: Some(vec![1, 2, index]),
    }
}

fn sample(textures: Vec<&str>, items: Vec<PanoramaItem>) -> Work {
    Work {
        base_url: "http://h/".to_string(),
        model: Model {
            file_url: "m.bin".to_string(),
            material_base_url: "mat/".to_string(),
            material_textures: textures.into_iter().map(String::from).collect(),
            model_type: 2,
        },
        panorama: Panorama { count: items.len() as i64, list: items },
        picture_url: "http://h/p.jpg".to_string(),
        title_picture_url: "http://h/t.jpg".to_string(),
    }
}

#[test]
fn one_panorama_no_textures() {
    // faces given as front, back, left, right, up, down
    let w = sample(vec![], vec![item(["c.jpg", "d.jpg", "b.jpg", "a.jpg", "e.jpg", "f.jpg"], 0)]);
    let list = w.get_download_list();
    let got: Vec<(String, String)> = list.iter().map(|e| (e.url.clone(), e.path.clone())).collect();
    let want: Vec<(String, String)> = vec![
        ("http://h/p.jpg", "picture.jpg"),
        ("http://h/t.jpg", "title_picture.jpg"),
        ("http://h/a.jpg", "a.jpg"),
        ("http://h/b.jpg", "b.jpg"),
        ("http://h/c.jpg", "c.jpg"),
        ("http://h/d.jpg", "d.jpg"),
        ("http://h/e.jpg", "e.jpg"),
        ("http://h/f.jpg", "f.jpg"),
        ("http://h/m.bin", "m.bin"),
    ]
    .into_iter()
    .map(|(a, b)| (a.to_string(), b.to_string()))
    .collect();
    assert_eq!(got, want);

    let j = w.get_jsonp_work();
    assert_eq!(j.picture_url, "picture.jpg.0.jsonp");
    assert_eq!(j.title_picture_url, "title_picture.jpg.1.jsonp");
    let p = &j.panorama.list[0];
    assert_eq!(p.right, "a.jpg.2.jsonp");
    assert_eq!(p.left, "b.jpg.3.jsonp");
    assert_eq!(p.front, "c.jpg.4.jsonp");
    assert_eq!(p.back, "d.jpg.5.jsonp");
    assert_eq!(p.up, "e.jpg.6.jsonp");
    assert_eq!(p.down, "f.jpg.7.jsonp");
    assert_eq!(j.model.file_url, "m.bin.8.jsonp");
    assert_eq!(j.base_url, "http://h/");
    assert_eq!(p.tiles, Some(vec![1, 2, 0]));
    assert_eq!(p.derived_id, Some(0));
}

#[test]
fn textures_use_the_material_base() {
    let w = sample(
        vec!["t0.png", "t1.png"],
        vec![
            item(["1", "2", "3", "4", "5", "6"], 0),
            item(["7", "8", "9", "10", "11", "12"], 1),
        ],
    );
    let list = w.get_download_list();
    assert_eq!(list.len(), 2 + 12 + 1 + 2);
    assert_eq!(list[14].url, "http://h/m.bin");
    assert_eq!(list[15].url, "http://h/mat/t0.png");
    assert_eq!(list[15].path, "mat/t0.png");
    assert_eq!(list[16].path, "mat/t1.png");
    assert_eq!(list[8].path, "10");
    let j = w.get_jsonp_work();
    assert_eq!(j.model.material_textures, vec!["t0.png.15.jsonp", "t1.png.16.jsonp"]);
    assert_eq!(j.model.material_base_url, "mat/");
    assert_eq!(j.panorama.list[1].right, "10.8.jsonp");
    assert_eq!(j.panorama.list[1].index, 1);
    assert_eq!(j.panorama.count, 2);
    assert_eq!(j.model.model_type, 2);
}

#[test]
fn preview_files_match_manifest_references() {
    let w = sample(vec!["x.png"], vec![item(["f", "b", "l", "r", "u", "d"], 0)]);
    let list = w.get_download_list();
    let j = w.get_jsonp_work();
    let mut refs = vec![j.picture_url.clone(), j.title_picture_url.clone()];
    let p = &j.panorama.list[0];
    refs.extend([&p.right, &p.left, &p.front, &p.back, &p.up, &p.down].iter().map(|s| s.to_string()));
    refs.push(j.model.file_url.clone());
    for t in &j.model.material_textures {
        refs.push(format!("{}{}", j.model.material_base_url, t));
    }
    assert_eq!(refs.len(), list.len());
    for (k, e) in list.iter().enumerate() {
        assert_eq!(work_packager::jsonp::with_jsonp_suffix(&e.path, k), refs[k]);
    }
}

#[test]
fn empty_work_has_three_assets() {
    let w = sample(vec![], vec![]);
    assert_eq!(w.get_download_list().len(), 3);
    assert_eq!(w.model_archive_url(), "http://h/src_model.tar");
    assert_eq!(w.pano_archive_url(), "http://h/src_pano.tar");
    assert_eq!(w.with_model_base_url("q"), "mat/q");
}
