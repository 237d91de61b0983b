//! Scenes, and what each pixel of their image shows.

use vstd::prelude::*;
use crate::camera::Camera;
use crate::color::{over_background, spec_background, spec_over_background, Color};
use crate::image_buffer::{grid, image_pixels, image_size, Image};
use crate::sphere::Sphere;
use crate::trace::PixelTrace;
use rayon::iter::{IntoParallelRefIterator, ParallelIterator};

verus! {

/// A camera and the spheres it looks at.
#[derive(Debug)]
pub struct Scene {
    pub camera: Camera,
    pub spheres: Vec<Sphere>,
}

/// The image of `width` by `height` pixels that the traces give: pixel
/// `(x, y)` shows the colour of trace `y * width + x`, the traces being
/// numbered along the rows from the top row down.
pub open spec fn spec_render(width: int, height: int, traces: Seq<PixelTrace>) -> Map<
    (int, int),
    Color,
> {
    Map::new(
        |p: (int, int)| grid(width, height).contains(p),
        |p: (int, int)| traces[p.1 * width + p.0].spec_color(p.0, p.1),
    )
}

/// The image that shows the background at every pixel.
pub open spec fn spec_backdrop(width: int, height: int) -> Map<(int, int), Color> {
    Map::new(
        |p: (int, int)| grid(width, height).contains(p),
        |p: (int, int)| spec_background(p.0, p.1),
    )
}

/// rayon's `par_iter`, `map` and `collect`: the traces are handed out to
/// worker threads, each is answered by `PixelTrace::shown`, and the answers
/// are gathered in the order of the traces.
#[verifier::external_body]
fn shown_in_parallel(traces: &Vec<PixelTrace>) -> (answers: Vec<Option<Color>>)
    ensures
        answers@ == traces@.map_values(|trace: PixelTrace| trace.spec_shown()),
{
    traces.par_iter().map(|trace| trace.shown()).collect()
}

/// The traces are numbered along the rows: the one of pixel `(x, y)` has a
/// number of its own below `width * height`.
proof fn lemma_index_in_range(width: int, height: int, x: int, y: int)
    requires
        0 <= x < width,
        0 <= y < height,
    ensures
        0 <= y * width <= y * width + x < width * height <= 3 * width * height,
{
    assert(y * width >= 0) by (nonlinear_arith)
        requires
            0 <= y,
            0 <= width,
    ;
    assert((y + 1) * width <= height * width) by (nonlinear_arith)
        requires
            y + 1 <= height,
            0 <= width,
    ;
    assert((y + 1) * width == y * width + width) by (nonlinear_arith);
    assert(height * width == width * height) by (nonlinear_arith);
    assert(width * height <= 3 * width * height) by (nonlinear_arith)
        requires
            0 <= width,
            0 <= height,
    ;
}

/// An image filled with the colours that the traces show is the render of
/// the traces.
proof fn lemma_filled_is_render(
    width: int,
    height: int,
    traces: Seq<PixelTrace>,
    answers: Seq<Option<Color>>,
    pixels: Map<(int, int), Color>,
)
    requires
        0 <= width,
        0 <= height,
        traces.len() == width * height,
        answers.len() == traces.len(),
        forall|j: int| 0 <= j < traces.len() ==> answers[j] == traces[j].spec_shown(),
        pixels.dom() == grid(width, height),
        forall|x: int, y: int|
            0 <= x < width && 0 <= y < height ==> #[trigger] pixels[(x, y)]
                == spec_over_background(answers[y * width + x], x, y),
    ensures
        pixels == spec_render(width, height, traces),
{
    assert forall|p: (int, int)| grid(width, height).contains(p) implies pixels[p] == spec_render(
        width,
        height,
        traces,
    )[p] by {
        lemma_index_in_range(width, height, p.0, p.1);
        assert(pixels[(p.0, p.1)] == pixels[p]);
    }
    assert(pixels =~= spec_render(width, height, traces));
}

impl Scene {
    /// That a trace has one entry for each object of the scene.
    pub open spec fn fits(self, trace: PixelTrace) -> bool {
        trace.roots@.len() == self.spheres@.len()
    }

    /// That `traces` holds one trace for each pixel of a `width` by `height`
    /// image of this scene, and that an image of that size can be held.
    pub open spec fn traced(self, width: int, height: int, traces: Seq<PixelTrace>) -> bool {
        &&& traces.len() == width * height
        &&& 3 * width * height <= isize::MAX
        &&& forall|i: int| 0 <= i < traces.len() ==> self.fits(#[trigger] traces[i])
    }

    /// That `img` is the image of `width` by `height` pixels that the traces
    /// give.
    pub open spec fn is_render(
        self,
        width: int,
        height: int,
        traces: Seq<PixelTrace>,
        img: Image,
    ) -> bool {
        &&& image_size(img) == (width, height)
        &&& image_pixels(img) == spec_render(width, height, traces)
    }

    /// A scene with the given camera and no objects.
    pub fn new(camera: Camera) -> (scene: Scene)
        ensures
            scene.camera == camera,
            scene.spheres@.len() == 0,
    {
        Scene { camera, spheres: Vec::new() }
    }

    /// Whether `traces` holds one trace for each pixel of a `width` by
    /// `height` image of this scene, and an image of that size can be held:
    /// what [`Scene::render`] and [`Scene::render_single_core`] ask for.
    pub fn is_traced(&self, width: u32, height: u32, traces: &Vec<PixelTrace>) -> (ok: bool)
        ensures
            ok == self.traced(width as int, height as int, traces@),
    {
        assert(3 * width * height == 3 * (width * height)) by (nonlinear_arith);
        assert(0 <= width * height <= 0xffff_ffff * 0xffff_ffff) by (nonlinear_arith)
            requires
                0 <= width <= 0xffff_ffff,
                0 <= height <= 0xffff_ffff,
        ;
        let pixels: u128 = (width as u128) * (height as u128);
        if 3 * pixels > isize::MAX as u128 || traces.len() as u128 != pixels {
            return false;
        }
        let mut i: usize = 0;
        while i < traces.len()
            invariant
                i <= traces@.len(),
                forall|j: int| 0 <= j < i ==> self.fits(#[trigger] traces@[j]),
            decreases traces@.len() - i,
        {
            if traces[i].roots.len() != self.spheres.len() {
                return false;
            }
            i += 1;
        }
        true
    }

    /// The colour of the pixel at `(x, y)`, from what was found along its
    /// ray: the colour of the nearest hit, or the background where the ray
    /// hits nothing. In a scene without objects that is always the
    /// background.
    pub fn render_pixel(&self, x: u32, y: u32, trace: &PixelTrace) -> (c: Color)
        requires
            self.fits(*trace),
        ensures
            c == trace.spec_color(x as int, y as int),
            self.spheres@.len() == 0 ==> c == spec_background(x as int, y as int),
    {
        trace.color(x, y)
    }

    /// The image in which pixel `(x, y)` shows answer `y * width + x` over the
    /// background.
    fn fill(width: u32, height: u32, answers: &Vec<Option<Color>>) -> (img: Image)
        requires
            answers@.len() == width * height,
            3 * width * height <= isize::MAX,
        ensures
            image_size(img) == (width as int, height as int),
            image_pixels(img).dom() == grid(width as int, height as int),
            forall|x: int, y: int|
                0 <= x < width && 0 <= y < height ==> #[trigger] image_pixels(img)[(x, y)]
                    == spec_over_background(answers@[y * width + x], x, y),
    {
        let mut img: Image = Image::blank(width, height);
        let mut y: u32 = 0;
        while y < height
            invariant
                y <= height,
                answers@.len() == width * height,
                3 * width * height <= isize::MAX,
                image_size(img) == (width as int, height as int),
                image_pixels(img).dom() == grid(width as int, height as int),
                forall|a: int, b: int|
                    0 <= a < width && 0 <= b < y ==> #[trigger] image_pixels(img)[(a, b)]
                        == spec_over_background(answers@[b * width + a], a, b),
            decreases height - y,
        {
            let mut x: u32 = 0;
            while x < width
                invariant
                    x <= width,
                    y < height,
                    answers@.len() == width * height,
                    3 * width * height <= isize::MAX,
                    image_size(img) == (width as int, height as int),
                    image_pixels(img).dom() == grid(width as int, height as int),
                    forall|a: int, b: int|
                        0 <= a < width && (0 <= b < y || (b == y && a < x))
                            ==> #[trigger] image_pixels(img)[(a, b)] == spec_over_background(
                            answers@[b * width + a],
                            a,
                            b,
                        ),
                decreases width - x,
            {
                proof {
                    lemma_index_in_range(width as int, height as int, x as int, y as int);
                }
                let row: usize = (y as usize) * (width as usize);
                let index: usize = row + (x as usize);
                let color: Color = over_background(answers[index], x, y);
                let ghost before = image_pixels(img);
                img.put(x, y, color);
                proof {
                    assert(image_pixels(img).dom() =~= before.dom());
                }
                x += 1;
            }
            y += 1;
        }
        img
    }

    /// Renders the scene on the calling thread: the image of `width` by
    /// `height` pixels in which each pixel shows what its trace gives, the
    /// colour of the nearest hit on its ray or the background. The traces
    /// are resolved one after the other, along the rows from the top row
    /// down.
    pub fn render_single_core(&self, width: u32, height: u32, traces: &Vec<PixelTrace>) -> (img:
        Image)
        requires
            self.traced(width as int, height as int, traces@),
        ensures
            self.is_render(width as int, height as int, traces@, img),
            self.spheres@.len() == 0 ==> image_pixels(img) == spec_backdrop(
                width as int,
                height as int,
            ),
    {
        let mut answers: Vec<Option<Color>> = Vec::new();
        let mut i: usize = 0;
        while i < traces.len()
            invariant
                i <= traces@.len(),
                answers@.len() == i,
                forall|j: int| 0 <= j < i ==> answers@[j] == traces@[j].spec_shown(),
            decreases traces@.len() - i,
        {
            answers.push(traces[i].shown());
            i += 1;
        }
        let img: Image = Self::fill(width, height, &answers);
        proof {
            lemma_filled_is_render(
                width as int,
                height as int,
                traces@,
                answers@,
                image_pixels(img),
            );
            if self.spheres@.len() == 0 {
                lemma_empty_scene_renders_backdrop(*self, width as int, height as int, traces@);
            }
        }
        img
    }

    /// Renders the scene on rayon's worker threads: the same image as
    /// [`Scene::render_single_core`], with the pixels resolved in no
    /// particular order.
    pub fn render(&self, width: u32, height: u32, traces: &Vec<PixelTrace>) -> (img: Image)
        requires
            self.traced(width as int, height as int, traces@),
        ensures
            self.is_render(width as int, height as int, traces@, img),
            self.spheres@.len() == 0 ==> image_pixels(img) == spec_backdrop(
                width as int,
                height as int,
            ),
    {
        let answers: Vec<Option<Color>> = shown_in_parallel(traces);
        let img: Image = Self::fill(width, height, &answers);
        proof {
            lemma_filled_is_render(
                width as int,
                height as int,
                traces@,
                answers@,
                image_pixels(img),
            );
            if self.spheres@.len() == 0 {
                lemma_empty_scene_renders_backdrop(*self, width as int, height as int, traces@);
            }
        }
        img
    }
}

/// A scene without objects renders to the background alone: every pixel
/// `(x, y)` shows `spec_background(x, y)`.
pub proof fn lemma_empty_scene_renders_backdrop(
    scene: Scene,
    width: int,
    height: int,
    traces: Seq<PixelTrace>,
)
    requires
        0 <= width,
        0 <= height,
        scene.traced(width, height, traces),
        scene.spheres@.len() == 0,
    ensures
        spec_render(width, height, traces) == spec_backdrop(width, height),
{
    assert forall|p: (int, int)| grid(width, height).contains(p) implies spec_render(
        width,
        height,
        traces,
    )[p] == spec_backdrop(width, height)[p] by {
        lemma_index_in_range(width, height, p.0, p.1);
        let trace = traces[p.1 * width + p.0];
        assert(scene.fits(trace));
        assert(trace.roots@.len() == 0);
    }
    assert(spec_render(width, height, traces) =~= spec_backdrop(width, height));
}

/// The two ways to render give the same image: whatever each of them
/// returns for one scene, one size and one set of traces has the same size
/// and the same colour at every pixel.
pub proof fn lemma_render_paths_agree(
    scene: Scene,
    width: int,
    height: int,
    traces: Seq<PixelTrace>,
    sequential: Image,
    parallel: Image,
)
    requires
        scene.is_render(width, height, traces, sequential),
        scene.is_render(width, height, traces, parallel),
    ensures
        image_size(sequential) == image_size(parallel),
        image_pixels(sequential) == image_pixels(parallel),
{
}

} // verus!
