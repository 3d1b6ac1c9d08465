use vstd::prelude::*;

verus! {

/// The image file extensions that the indexer knows.
#[derive(Clone, Copy, Debug, PartialEq, Eq, Structural)]
pub enum ImageExtension {
    Jpg,
    Jpeg,
    Png,
    Apng,
    Gif,
    Bmp,
    Tiff,
    Webp,
    Svg,
    Ico,
    Heic,
    Heics,
    Heif,
    Heifs,
    Hif,
    Avif,
    Avci,
    Avcs,
    Dng,
    Raw,
}

/// Whether the metadata decoder can read files with this extension.
pub open spec fn extractable(e: ImageExtension) -> bool {
    match e {
        ImageExtension::Tiff | ImageExtension::Dng | ImageExtension::Jpeg | ImageExtension::Jpg
        | ImageExtension::Heif | ImageExtension::Heifs | ImageExtension::Heic
        | ImageExtension::Avif | ImageExtension::Avcs | ImageExtension::Avci | ImageExtension::Hif
        | ImageExtension::Png | ImageExtension::Webp => true,
        _ => false,
    }
}

/// Every image extension, in declaration order.
pub open spec fn every_image_extension() -> Seq<ImageExtension> {
    seq![
        ImageExtension::Jpg,
        ImageExtension::Jpeg,
        ImageExtension::Png,
        ImageExtension::Apng,
        ImageExtension::Gif,
        ImageExtension::Bmp,
        ImageExtension::Tiff,
        ImageExtension::Webp,
        ImageExtension::Svg,
        ImageExtension::Ico,
        ImageExtension::Heic,
        ImageExtension::Heics,
        ImageExtension::Heif,
        ImageExtension::Heifs,
        ImageExtension::Hif,
        ImageExtension::Avif,
        ImageExtension::Avci,
        ImageExtension::Avcs,
        ImageExtension::Dng,
        ImageExtension::Raw,
    ]
}

/// The extractable extensions of `s`, in order.
pub open spec fn extractable_of(s: Seq<ImageExtension>) -> Seq<ImageExtension>
    decreases s.len(),
{
    if s.len() == 0 {
        seq![]
    } else {
        let rest = extractable_of(s.drop_last());
        if extractable(s.last()) {
            rest.push(s.last())
        } else {
            rest
        }
    }
}

/// Whether the metadata decoder can read files with this extension.
pub fn can_extract_media_data_for_image(image_extension: &ImageExtension) -> (r: bool)
    ensures
        r == extractable(*image_extension),
{
    match image_extension {
        ImageExtension::Tiff | ImageExtension::Dng | ImageExtension::Jpeg | ImageExtension::Jpg
        | ImageExtension::Heif | ImageExtension::Heifs | ImageExtension::Heic
        | ImageExtension::Avif | ImageExtension::Avcs | ImageExtension::Avci | ImageExtension::Hif
        | ImageExtension::Png | ImageExtension::Webp => true,
        _ => false,
    }
}

/// Every image extension, in declaration order.
pub fn all_image_extensions() -> (r: Vec<ImageExtension>)
    ensures
        r@ == every_image_extension(),
{
    let r = vec![
        ImageExtension::Jpg,
        ImageExtension::Jpeg,
        ImageExtension::Png,
        ImageExtension::Apng,
        ImageExtension::Gif,
        ImageExtension::Bmp,
        ImageExtension::Tiff,
        ImageExtension::Webp,
        ImageExtension::Svg,
        ImageExtension::Ico,
        ImageExtension::Heic,
        ImageExtension::Heics,
        ImageExtension::Heif,
        ImageExtension::Heifs,
        ImageExtension::Hif,
        ImageExtension::Avif,
        ImageExtension::Avci,
        ImageExtension::Avcs,
        ImageExtension::Dng,
        ImageExtension::Raw,
    ];
    assert(r@ =~= every_image_extension());
    r
}

/// The image extensions whose files the metadata decoder can read, in
/// declaration order: the table that the candidate query filters on.
pub fn filtered_image_extensions() -> (r: Vec<ImageExtension>)
    ensures
        r@ == extractable_of(every_image_extension()),
{
    let all = all_image_extensions();
    let mut out: Vec<ImageExtension> = Vec::new();
    let mut i: usize = 0;
    while i < all.len()
        invariant
            i <= all@.len(),
            out@ == extractable_of(all@.subrange(0, i as int)),
        decreases all@.len() - i,
    {
        proof {
            assert(all@.subrange(0, i + 1).drop_last() =~= all@.subrange(0, i as int));
        }
        if can_extract_media_data_for_image(&all[i]) {
            out.push(all[i]);
        }
        i += 1;
    }
    proof {
        assert(all@.subrange(0, all@.len() as int) =~= all@);
    }
    out
}

} // verus!
