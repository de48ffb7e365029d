use ssbh_editor::thumbnail::{
    checkerboard_pixels, default_thumbnail_source, model_thumbnail_source, plan_thumbnails,
};
use ssbh_editor::{TextureDimension, TextureFooter, ThumbnailCandidate, ThumbnailSource, ViewDimension};

const FOOTER: TextureFooter = TextureFooter { width: 128, height: 64, depth: 1, layer_count: 6 };

#[test]
fn plain_2d_is_native() {
    assert_eq!(ThumbnailSource::Native, model_thumbnail_source(ViewDimension::D2, &FOOTER));
}

#[test]
fn cube_is_drawn_down() {
    assert_eq!(
        ThumbnailSource::RenderTo2d { dimension: ViewDimension::Cube, width: 128, height: 64, depth: 1 },
        model_thumbnail_source(ViewDimension::Cube, &FOOTER)
    );
}

#[test]
fn replace_cubemap_is_drawn_as_cube() {
    assert_eq!(
        ThumbnailSource::RenderTo2d { dimension: ViewDimension::Cube, width: 64, height: 64, depth: 1 },
        default_thumbnail_source(&"#replace_cubemap".to_string())
    );
    assert_eq!(ThumbnailSource::Native, default_thumbnail_source(&"/common/shader/sfxpbs/default_white".to_string()));
}

#[test]
fn plan_skips_failed_and_missing_textures() {
    let files = vec![
        ThumbnailCandidate { file_name: "a_col.nutexb".to_string(), footer: Some(FOOTER), view: Some(ViewDimension::D2) },
        ThumbnailCandidate { file_name: "broken.nutexb".to_string(), footer: None, view: Some(ViewDimension::D2) },
        ThumbnailCandidate { file_name: "missing.nutexb".to_string(), footer: Some(FOOTER), view: None },
        ThumbnailCandidate { file_name: "z_cube.nutexb".to_string(), footer: Some(FOOTER), view: Some(ViewDimension::CubeArray) },
    ];
    let jobs = plan_thumbnails(&files);
    assert_eq!(2, jobs.len());
    assert_eq!("a_col.nutexb", jobs[0].file_name);
    assert_eq!(ThumbnailSource::Native, jobs[0].source);
    assert_eq!(TextureDimension::Texture2d, jobs[0].dimension);
    assert_eq!("z_cube.nutexb", jobs[1].file_name);
    assert_eq!(TextureDimension::TextureCube, jobs[1].dimension);
}

#[test]
fn checkerboard_alternates_black_and_color() {
    assert_eq!(
        vec![0, 0, 0, 255, 10, 20, 30, 40, 10, 20, 30, 40, 0, 0, 0, 255],
        checkerboard_pixels([10, 20, 30, 40])
    );
}

#[test]
fn one_corrupt_texture_among_three() {
    let good = |name: &str| ThumbnailCandidate {
        file_name: name.to_string(),
        footer: Some(FOOTER),
        view: Some(ViewDimension::D2),
    };
    let files = vec![
        good("a.nutexb"),
        ThumbnailCandidate { file_name: "corrupt.nutexb".to_string(), footer: None, view: Some(ViewDimension::D2) },
        good("b.nutexb"),
        good("c.nutexb"),
    ];
    let names: Vec<String> = plan_thumbnails(&files).into_iter().map(|j| j.file_name).collect();
    assert_eq!(vec!["a.nutexb", "b.nutexb", "c.nutexb"], names);
}
