use vstd::prelude::*;

use crate::camera_id::CameraIdentifier;
use crate::config::FeatureDetectionMethod;
use crate::data2d::bits_finite;
use crate::data2d::f64_bits_is_finite;
use crate::data2d::Data2dRow;
use crate::errors::ProcessError;
use crate::frame_data::FrameFormat;
use crate::frame_data::FrameItem;
use crate::frame_data::ImageValue;
use crate::merge::images_renderable;
use crate::merge::SyncedPictures;
use crate::peek2::Peek2;

verus! {

/// PNG encoding of a tightly packed 8-bit image: `channels` is 1 for
/// monochrome and 3 for RGB. The encoding is a function of the pixel
/// data and dimensions alone.
pub uninterp spec fn png_of(channels: int, width: int, height: int, data: Seq<u8>) -> Seq<u8>;

/// Relies on `image`'s `PngEncoder` (through `ImageEncoder::write_image`):
/// encodes a tightly packed 8-bit buffer of the given dimensions as PNG.
/// The result depends on the pixel data, dimensions and color layout
/// alone. With the exact buffer the precondition demands, the encoder's
/// only error paths are a zero width or height; writing into a `Vec`
/// cannot fail, so encoding succeeds whenever both dimensions are
/// positive.
#[verifier::external_body]
fn encode_png(channels: u8, width: u32, height: u32, data: &Vec<u8>) -> (r: Result<Vec<u8>, ()>)
    requires
        channels == 1 || channels == 3,
        data@.len() == channels as int * width as int * height as int,
    ensures
        r is Ok ==> r->Ok_0@ == png_of(channels as int, width as int, height as int, data@),
        width >= 1 && height >= 1 ==> r is Ok,
{
    let color = if channels == 1 {
        image::ExtendedColorType::L8
    } else {
        image::ExtendedColorType::Rgb8
    };
    let mut out: Vec<u8> = Vec::new();
    let enc = image::codecs::png::PngEncoder::new(&mut out);
    match image::ImageEncoder::write_image(enc, data.as_slice(), width, height, color) {
        Ok(()) => Ok(out),
        Err(_) => Err(()),
    }
}

/// The PNG encoding of a decoded frame.
pub open spec fn png_of_image(img: ImageValue) -> Seq<u8> {
    png_of(img.format.spec_channels(), img.width as int, img.height as int, img.data@)
}

/// A camera's render template: its canonical name, the first-frame PNG
/// snapshot, and the frame dimensions. Created once per camera at
/// startup and reused as the base of every moment's output record.
pub struct PerCamRender {
    pub best_name: String,
    pub frame0_png_buf: Vec<u8>,
    pub width: u32,
    pub height: u32,
}

impl PerCamRender {
    /// Build the render template from a movie camera's first decoded
    /// frame.
    pub fn from_reader(cam_id: &CameraIdentifier, reader: &Peek2<FrameItem>) -> (r: Result<
        PerCamRender,
        ProcessError,
    >)
        requires
            reader.remaining().len() > 0,
            reader.remaining()[0].image is Some,
            reader.remaining()[0].image->0.wf(),
        ensures
            match r {
                Ok(p) => {
                    let img = reader.remaining()[0].image->0;
                    &&& p.best_name@ == cam_id@.best_name()
                    &&& p.width == img.width
                    &&& p.height == img.height
                    &&& p.frame0_png_buf@ == png_of_image(img)
                },
                Err(e) => e == ProcessError::PngEncodingFailed,
            },
            reader.remaining()[0].image->0.width >= 1 && reader.remaining()[0].image->0.height >= 1
                ==> r is Ok,
    {
        let best_name = cam_id.best_name();
        let first = match reader.peek1() {
            Some(f) => f,
            None => {
                return Err(ProcessError::PngEncodingFailed);
            },
        };
        let img = match &first.image {
            Some(img) => img,
            None => {
                return Err(ProcessError::PngEncodingFailed);
            },
        };
        let channels = img.format.channels();
        match encode_png(channels, img.width, img.height, &img.data) {
            Ok(png) => Ok(
                PerCamRender {
                    best_name,
                    frame0_png_buf: png,
                    width: img.width,
                    height: img.height,
                },
            ),
            Err(_) => Err(ProcessError::PngEncodingFailed),
        }
    }

    /// Build the render template for an archive-only camera: a blank
    /// all-zero monochrome image of the camera's recorded resolution,
    /// since no real image source exists.
    pub fn from_braidz(cam_id_str: &String, width: u32, height: u32) -> (r: Result<
        PerCamRender,
        ProcessError,
    >)
        requires
            width as int * height as int <= usize::MAX,
        ensures
            match r {
                Ok(p) => {
                    &&& p.best_name@ == cam_id_str@
                    &&& p.width == width
                    &&& p.height == height
                    &&& p.frame0_png_buf@ == png_of(
                        1,
                        width as int,
                        height as int,
                        Seq::new((width as int * height as int) as nat, |i: int| 0u8),
                    )
                },
                Err(e) => e == ProcessError::PngEncodingFailed,
            },
            width >= 1 && height >= 1 ==> r is Ok,
    {
        let n: usize = (width as usize) * (height as usize);
        let data: Vec<u8> = vec![0u8; n];
        proof {
            assert(data@ =~= Seq::new((width as int * height as int) as nat, |i: int| 0u8));
        }
        match encode_png(1, width, height, &data) {
            Ok(png) => Ok(
                PerCamRender {
                    best_name: cam_id_str.clone(),
                    frame0_png_buf: png,
                    width,
                    height,
                },
            ),
            Err(_) => Err(ProcessError::PngEncodingFailed),
        }
    }

    /// Start a fresh per-moment working record from this template.
    pub fn new_render_data(&self, cam_index: usize, pts_micros: i64) -> (r: PerCamRenderFrame)
        ensures
            r.cam_index == cam_index,
            r.width == self.width,
            r.height == self.height,
            r.png_buf is None,
            r.points@.len() == 0,
            r.pts_micros == pts_micros,
    {
        PerCamRenderFrame {
            cam_index,
            width: self.width,
            height: self.height,
            png_buf: None,
            points: Vec::new(),
            pts_micros,
        }
    }
}

/// One camera's working record for one moment: the index of the camera's
/// template in the roster, the template dimensions, the freshly encoded
/// image for this moment if one exists, the accepted 2D points as IEEE
/// 754 bit-pattern pairs, and the moment timestamp. Created fresh each
/// moment and discarded after the output sinks accept it.
pub struct PerCamRenderFrame {
    pub cam_index: usize,
    pub width: u32,
    pub height: u32,
    pub png_buf: Option<Vec<u8>>,
    pub points: Vec<(u64, u64)>,
    pub pts_micros: i64,
}

impl PerCamRenderFrame {
    /// Encode this moment's decoded image as PNG and attach it.
    pub fn set_original_image(&mut self, image: &ImageValue) -> (r: Result<(), ProcessError>)
        requires
            image.wf(),
        ensures
            final(self).cam_index == old(self).cam_index,
            final(self).width == old(self).width,
            final(self).height == old(self).height,
            final(self).points == old(self).points,
            final(self).pts_micros == old(self).pts_micros,
            match r {
                Ok(_) => final(self).png_buf is Some && final(self).png_buf->0@ == png_of_image(
                    *image,
                ),
                Err(e) => e == ProcessError::PngEncodingFailed && final(self).png_buf == old(
                    self,
                ).png_buf,
            },
            image.width >= 1 && image.height >= 1 ==> r is Ok,
    {
        let channels = image.format.channels();
        match encode_png(channels, image.width, image.height, &image.data) {
            Ok(png) => {
                self.png_buf = Some(png);
                Ok(())
            },
            Err(_) => Err(ProcessError::PngEncodingFailed),
        }
    }

    /// Append one accepted 2D point.
    pub fn append_2d_point(&mut self, x_bits: u64, y_bits: u64)
        ensures
            final(self).cam_index == old(self).cam_index,
            final(self).width == old(self).width,
            final(self).height == old(self).height,
            final(self).png_buf == old(self).png_buf,
            final(self).pts_micros == old(self).pts_micros,
            final(self).points@ == old(self).points@.push((x_bits, y_bits)),
    {
        self.points.push((x_bits, y_bits));
    }
}

/// One camera of the roster: its resolved identity and its render
/// template. The per-camera cursor lives with the merge engine, so the
/// identity and template stay reusable for every moment.
pub struct CameraSource {
    pub cam_id: CameraIdentifier,
    pub per_cam_render: PerCamRender,
}

/// The 2D points fusion accepts from a camera's detection rows: the
/// coordinates pass through unmodified, and any row whose coordinate is
/// not a finite real number is skipped; the remaining rows still
/// contribute.
pub open spec fn accepted_points(rows: Seq<Data2dRow>) -> Seq<(u64, u64)>
    decreases rows.len(),
{
    if rows.len() == 0 {
        Seq::empty()
    } else {
        accepted_points(rows.drop_last()) + (if f64_bits_is_finite(rows.last().x_bits)
            && f64_bits_is_finite(rows.last().y_bits) {
            seq![(rows.last().x_bits, rows.last().y_bits)]
        } else {
            Seq::empty()
        })
    }
}

/// What fusion guarantees of its output, camera by camera: the render
/// record carries the camera's roster index and template dimensions, the
/// moment timestamp of the camera's entry, the accepted 2D points of the
/// camera's detection rows, and the PNG encoding of the camera's image
/// exactly when one was selected.
#[verifier::opaque]
pub open spec fn fusion_output_matches(
    synced: SyncedPictures,
    sources: Seq<CameraSource>,
    frames: Seq<PerCamRenderFrame>,
) -> bool {
    &&& frames.len() == sources.len()
    &&& forall|i: int|
        0 <= i < frames.len() ==> {
            let pic = synced.camera_pictures@[i];
            let f = #[trigger] frames[i];
            &&& f.cam_index == i
            &&& f.width == sources[i].per_cam_render.width
            &&& f.height == sources[i].per_cam_render.height
            &&& f.pts_micros == pic.timestamp_micros
            &&& f.points@ == accepted_points(pic.this_cam_this_frame@)
            &&& (match pic.image {
                Some(img) => f.png_buf is Some && f.png_buf->0@ == png_of_image(img),
                None => f.png_buf is None,
            })
        }
}

/// Per-moment fusion: for each camera of the roster, in roster order,
/// start a render record from the camera's template at the moment's
/// timestamp, attach the PNG encoding of the camera's image when one was
/// selected, and append the accepted 2D points of the camera's detection
/// rows. Pure per moment: no state is carried across moments.
pub fn gather_frame_data(
    synced_data: &SyncedPictures,
    sources: &Vec<CameraSource>,
    method: &FeatureDetectionMethod,
) -> (r: Result<Vec<PerCamRenderFrame>, ProcessError>)
    requires
        synced_data.camera_pictures@.len() == sources@.len(),
        forall|i: int|
            0 <= i < synced_data.camera_pictures@.len() && (#[trigger] synced_data.camera_pictures@[i]).image is Some
                ==> synced_data.camera_pictures@[i].image->0.wf(),
    ensures
        match r {
            Ok(frames) => fusion_output_matches(*synced_data, sources@, frames@),
            Err(e) => e == ProcessError::PngEncodingFailed,
        },
        images_renderable(*synced_data) ==> r is Ok,
{
    proof {
        reveal(fusion_output_matches);
    }
    let n_pics = synced_data.camera_pictures.len();
    let mut all_cam_render_data: Vec<PerCamRenderFrame> = Vec::new();
    let mut i: usize = 0;
    while i < n_pics
        invariant
            n_pics == synced_data.camera_pictures@.len(),
            n_pics == sources@.len(),
            forall|k: int|
                0 <= k < n_pics && (#[trigger] synced_data.camera_pictures@[k]).image is Some
                    ==> synced_data.camera_pictures@[k].image->0.wf(),
            i <= n_pics,
            all_cam_render_data@.len() == i,
            forall|k: int|
                0 <= k < i ==> {
                    let pic = synced_data.camera_pictures@[k];
                    let f = #[trigger] all_cam_render_data@[k];
                    &&& f.cam_index == k
                    &&& f.width == sources@[k].per_cam_render.width
                    &&& f.height == sources@[k].per_cam_render.height
                    &&& f.pts_micros == pic.timestamp_micros
                    &&& f.points@ == accepted_points(pic.this_cam_this_frame@)
                    &&& (match pic.image {
                        Some(img) => f.png_buf is Some && f.png_buf->0@ == png_of_image(img),
                        None => f.png_buf is None,
                    })
                },
        decreases n_pics - i,
    {
        let per_cam = &synced_data.camera_pictures[i];
        let mut cam_render_data = sources[i].per_cam_render.new_render_data(
            i,
            per_cam.timestamp_micros,
        );
        match &per_cam.image {
            Some(pic) => {
                match cam_render_data.set_original_image(pic) {
                    Ok(_) => {},
                    Err(e) => {
                        return Err(e);
                    },
                }
            },
            None => {},
        }
        let rows = &per_cam.this_cam_this_frame;
        let mut j: usize = 0;
        proof {
            assert(rows@.take(0) =~= Seq::<Data2dRow>::empty());
        }
        while j < rows.len()
            invariant
                rows@ == synced_data.camera_pictures@[i as int].this_cam_this_frame@,
                j <= rows@.len(),
                cam_render_data.points@ == accepted_points(rows@.take(j as int)),
                cam_render_data.cam_index == i,
                cam_render_data.width == sources@[i as int].per_cam_render.width,
                cam_render_data.height == sources@[i as int].per_cam_render.height,
                cam_render_data.pts_micros == synced_data.camera_pictures@[i as int].timestamp_micros,
                i < synced_data.camera_pictures@.len(),
                i < sources@.len(),
                (match synced_data.camera_pictures@[i as int].image {
                    Some(img) => cam_render_data.png_buf is Some && cam_render_data.png_buf->0@
                        == png_of_image(img),
                    None => cam_render_data.png_buf is None,
                }),
            decreases rows@.len() - j,
        {
            let row = rows[j];
            match method {
                FeatureDetectionMethod::CopyExisting => {
                    if bits_finite(row.x_bits) && bits_finite(row.y_bits) {
                        cam_render_data.append_2d_point(row.x_bits, row.y_bits);
                    }
                },
            }
            proof {
                let pfx = rows@.take(j as int + 1);
                assert(pfx.drop_last() =~= rows@.take(j as int));
                assert(pfx.last() == rows@[j as int]);
            }
            j += 1;
        }
        proof {
            assert(rows@.take(rows@.len() as int) =~= rows@);
        }
        all_cam_render_data.push(cam_render_data);
        i += 1;
    }
    Ok(all_cam_render_data)
}

} // verus!
