use vstd::prelude::*;

use crate::texture::{view_dimension, TextureDimension, TextureFooter, ViewDimension};

verus! {

/// Width and height of a thumbnail drawn from a texture that is not plain 2D.
pub const THUMBNAIL_SIZE: u32 = 64;

/// The built-in texture that is always shown as a cube map.
pub open spec fn replace_cubemap_name() -> Seq<char> {
    seq!['#', 'r', 'e', 'p', 'l', 'a', 'c', 'e', '_', 'c', 'u', 'b', 'e', 'm', 'a', 'p']
}

/// How a thumbnail is made from a GPU texture.
#[derive(Debug, Clone, Copy, PartialEq, Eq, Structural)]
pub enum ThumbnailSource {
    /// The texture is shown as it is: it is plain 2D.
    Native,
    /// The texture, of this view dimension and size, is first drawn into a
    /// square 2D RGBA texture of `THUMBNAIL_SIZE` pixels.
    RenderTo2d { dimension: ViewDimension, width: u32, height: u32, depth: u32 },
}

/// A plain 2D texture is shown as it is; any other is drawn down to 2D.
pub open spec fn model_source(dimension: ViewDimension, footer: TextureFooter) -> ThumbnailSource {
    if dimension == ViewDimension::D2 {
        ThumbnailSource::Native
    } else {
        ThumbnailSource::RenderTo2d {
            dimension,
            width: footer.width,
            height: footer.height,
            depth: footer.depth,
        }
    }
}

/// How the thumbnail of a texture of a folder is made.
pub fn model_thumbnail_source(dimension: ViewDimension, footer: &TextureFooter) -> (r:
    ThumbnailSource)
    ensures
        r == model_source(dimension, *footer),
{
    match dimension {
        ViewDimension::D2 => ThumbnailSource::Native,
        _ => ThumbnailSource::RenderTo2d {
            dimension,
            width: footer.width,
            height: footer.height,
            depth: footer.depth,
        },
    }
}

/// How the thumbnail of a built-in texture is made: the replacement cube map
/// is drawn down from a cube of `THUMBNAIL_SIZE` pixels whatever its view
/// dimension; every other built-in texture is shown as it is.
pub fn default_thumbnail_source(name: &String) -> (r: ThumbnailSource)
    ensures
        name@ == replace_cubemap_name() ==> r == (ThumbnailSource::RenderTo2d {
            dimension: ViewDimension::Cube,
            width: THUMBNAIL_SIZE,
            height: THUMBNAIL_SIZE,
            depth: 1,
        }),
        name@ != replace_cubemap_name() ==> r == ThumbnailSource::Native,
{
    let cubemap = String::from_str("#replace_cubemap");
    proof {
        reveal_strlit("#replace_cubemap");
    }
    assert(cubemap@ =~= replace_cubemap_name());
    if *name == cubemap {
        ThumbnailSource::RenderTo2d {
            dimension: ViewDimension::Cube,
            width: THUMBNAIL_SIZE,
            height: THUMBNAIL_SIZE,
            depth: 1,
        }
    } else {
        ThumbnailSource::Native
    }
}

/// A texture file of a folder as thumbnailing sees it: its footer if it
/// decoded, and the view dimension of its GPU texture if the folder's render
/// model holds one of that name.
#[derive(Debug, Clone)]
pub struct ThumbnailCandidate {
    pub file_name: String,
    pub footer: Option<TextureFooter>,
    pub view: Option<ViewDimension>,
}

/// One thumbnail to make.
#[derive(Debug, Clone)]
pub struct ThumbnailJob {
    pub file_name: String,
    pub source: ThumbnailSource,
    pub dimension: TextureDimension,
}

pub open spec fn job_for(c: ThumbnailCandidate) -> Option<(Seq<char>, ThumbnailSource, TextureDimension)> {
    match (c.footer, c.view) {
        (Some(footer), Some(view)) => Some((c.file_name@, model_source(view, footer), view_dimension(view))),
        _ => None,
    }
}

/// The thumbnails of a folder, in file order: one for each texture that both
/// decoded and has a GPU texture; the others are skipped.
pub open spec fn planned_jobs(files: Seq<ThumbnailCandidate>) -> Seq<(Seq<char>, ThumbnailSource, TextureDimension)>
    decreases files.len(),
{
    if files.len() == 0 {
        Seq::empty()
    } else {
        let prev = planned_jobs(files.drop_last());
        match job_for(files.last()) {
            Some(j) => prev.push(j),
            None => prev,
        }
    }
}

/// Planning a list in two parts plans each part in turn.
pub proof fn lemma_planned_jobs_append(a: Seq<ThumbnailCandidate>, b: Seq<ThumbnailCandidate>)
    ensures
        planned_jobs(a + b) == planned_jobs(a) + planned_jobs(b),
    decreases b.len(),
{
    if b.len() == 0 {
        assert(a + b =~= a);
        assert(planned_jobs(a) + planned_jobs(b) =~= planned_jobs(a));
    } else {
        lemma_planned_jobs_append(a, b.drop_last());
        assert((a + b).drop_last() =~= a + b.drop_last());
        assert((a + b).last() == b.last());
        match job_for(b.last()) {
            Some(j) => {
                assert(planned_jobs(a) + planned_jobs(b.drop_last()).push(j) =~= (planned_jobs(a)
                    + planned_jobs(b.drop_last())).push(j));
            },
            None => {},
        }
    }
}

/// A texture file that failed to decode gets no thumbnail and changes nothing
/// for the files around it.
pub proof fn lemma_undecoded_texture_skipped(
    before: Seq<ThumbnailCandidate>,
    corrupt: ThumbnailCandidate,
    after: Seq<ThumbnailCandidate>,
)
    requires
        corrupt.footer.is_none(),
    ensures
        planned_jobs(before + seq![corrupt] + after) == planned_jobs(before) + planned_jobs(after),
{
    lemma_planned_jobs_append(before + seq![corrupt], after);
    lemma_planned_jobs_append(before, seq![corrupt]);
    let single = seq![corrupt];
    assert(single.drop_last() =~= Seq::<ThumbnailCandidate>::empty());
    assert(single.last() == corrupt);
    assert(job_for(corrupt).is_none());
    assert(planned_jobs(Seq::<ThumbnailCandidate>::empty()) =~= Seq::empty());
    assert(planned_jobs(single) =~= Seq::empty());
    assert(planned_jobs(before) + planned_jobs(seq![corrupt]) =~= planned_jobs(before));
}

/// Every texture that decoded and has a GPU texture gets a thumbnail, in file
/// order.
pub proof fn lemma_decoded_textures_planned(files: Seq<ThumbnailCandidate>)
    requires
        forall|i: int|
            0 <= i < files.len() ==> (#[trigger] files[i]).footer.is_some()
                && files[i].view.is_some(),
    ensures
        planned_jobs(files).len() == files.len(),
        forall|i: int|
            0 <= i < files.len() ==> (#[trigger] planned_jobs(files)[i]).0 == files[i].file_name@,
    decreases files.len(),
{
    if files.len() > 0 {
        let prev = files.drop_last();
        assert forall|i: int| 0 <= i < prev.len() implies (#[trigger] prev[i]).footer.is_some()
            && prev[i].view.is_some() by {
            assert(prev[i] == files[i]);
        }
        lemma_decoded_textures_planned(prev);
        assert(files.last() == files[files.len() - 1]);
        assert forall|i: int| 0 <= i < files.len() implies (#[trigger] planned_jobs(files)[i]).0
            == files[i].file_name@ by {
            if i < files.len() - 1 {
                assert(prev[i] == files[i]);
            }
        }
    }
}

/// With one texture that failed to decode among `n` that decoded, all found
/// on the GPU, the plan holds exactly the `n` decoded ones, in file order.
pub proof fn lemma_one_corrupt_texture(
    before: Seq<ThumbnailCandidate>,
    corrupt: ThumbnailCandidate,
    after: Seq<ThumbnailCandidate>,
)
    requires
        corrupt.footer.is_none(),
        forall|i: int|
            0 <= i < before.len() ==> (#[trigger] before[i]).footer.is_some()
                && before[i].view.is_some(),
        forall|i: int|
            0 <= i < after.len() ==> (#[trigger] after[i]).footer.is_some()
                && after[i].view.is_some(),
    ensures
        ({
            let jobs = planned_jobs(before + seq![corrupt] + after);
            let decoded = before + after;
            &&& jobs.len() == decoded.len()
            &&& forall|i: int| 0 <= i < jobs.len() ==> (#[trigger] jobs[i]).0 == decoded[i].file_name@
        }),
{
    let decoded = before + after;
    lemma_undecoded_texture_skipped(before, corrupt, after);
    lemma_planned_jobs_append(before, after);
    assert forall|i: int| 0 <= i < decoded.len() implies (#[trigger] decoded[i]).footer.is_some()
        && decoded[i].view.is_some() by {
        if i < before.len() {
            assert(decoded[i] == before[i]);
        } else {
            assert(decoded[i] == after[i - before.len()]);
        }
    }
    lemma_decoded_textures_planned(decoded);
}

pub open spec fn job_view(j: ThumbnailJob) -> (Seq<char>, ThumbnailSource, TextureDimension) {
    (j.file_name@, j.source, j.dimension)
}

/// Plans the thumbnails of one folder's textures.
pub fn plan_thumbnails(files: &Vec<ThumbnailCandidate>) -> (r: Vec<ThumbnailJob>)
    ensures
        r@.map_values(|j: ThumbnailJob| job_view(j)) == planned_jobs(files@),
{
    let mut jobs: Vec<ThumbnailJob> = Vec::new();
    let mut i: usize = 0;
    while i < files.len()
        invariant
            i <= files@.len(),
            jobs@.map_values(|j: ThumbnailJob| job_view(j)) == planned_jobs(files@.subrange(0, i as int)),
        decreases files@.len() - i,
    {
        let c = &files[i];
        assert(files@.subrange(0, i + 1).drop_last() =~= files@.subrange(0, i as int));
        match (c.footer, c.view) {
            (Some(footer), Some(view)) => {
                let source = model_thumbnail_source(view, &footer);
                let dimension = TextureDimension::from(view);
                jobs.push(ThumbnailJob { file_name: c.file_name.clone(), source, dimension });
            },
            _ => {},
        }
        i = i + 1;
        assert(jobs@.map_values(|j: ThumbnailJob| job_view(j)) =~= planned_jobs(files@.subrange(0, i as int)));
    }
    assert(files@.subrange(0, files@.len() as int) =~= files@);
    jobs
}

/// The 2 by 2 RGBA pixels of a placeholder texture: opaque black in the top
/// left and bottom right, the given color in the other two.
pub open spec fn checkerboard(color: Seq<u8>) -> Seq<u8> {
    seq![0u8, 0u8, 0u8, 255u8] + color + color + seq![0u8, 0u8, 0u8, 255u8]
}

/// The pixels of a checkerboard placeholder texture, row by row.
pub fn checkerboard_pixels(color: [u8; 4]) -> (r: Vec<u8>)
    ensures
        r@ == checkerboard(color@),
{
    let mut r: Vec<u8> = Vec::new();
    r.push(0);
    r.push(0);
    r.push(0);
    r.push(255);
    r.push(color[0]);
    r.push(color[1]);
    r.push(color[2]);
    r.push(color[3]);
    r.push(color[0]);
    r.push(color[1]);
    r.push(color[2]);
    r.push(color[3]);
    r.push(0);
    r.push(0);
    r.push(0);
    r.push(255);
    assert(r@ =~= checkerboard(color@));
    r
}

} // verus!
