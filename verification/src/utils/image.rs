//! The derivative pipeline: which files one upload produces, which of them are
//! tracked until the owning operation commits, and which are removed when a
//! write fails or the operation ends without committing.
use vstd::prelude::*;
use vstd::string::*;
use crate::utils::text::{dotless, lemma_stem_len, stem, stem_of};

verus! {

/// The encoding of one derivative file.
#[derive(Debug, Clone, Copy, PartialEq, Eq, Structural)]
pub enum Encoding {
    Png,
    Jpeg,
    Webp,
}

/// One file that an upload produces: where it goes, how it is encoded, and
/// the box that the picture is fitted into.
#[derive(Debug, Clone, PartialEq)]
pub struct Derivative {
    pub path: String,
    pub encoding: Encoding,
    pub width: u32,
    pub height: u32,
}

/// A derivative as contracts see it.
pub struct DerivativeSpec {
    pub path: Seq<char>,
    pub encoding: Encoding,
    pub width: u32,
    pub height: u32,
}

impl View for Derivative {
    type V = DerivativeSpec;

    open spec fn view(&self) -> DerivativeSpec {
        DerivativeSpec {
            path: self.path@,
            encoding: self.encoding,
            width: self.width,
            height: self.height,
        }
    }
}

/// File extension of the raster derivatives: PNG keeps an alpha channel, an
/// opaque picture becomes JPEG.
pub open spec fn raster_extension(has_alpha: bool) -> Seq<char> {
    if has_alpha {
        "png"@
    } else {
        "jpg"@
    }
}

/// Encoding of the raster derivatives.
pub open spec fn raster_encoding(has_alpha: bool) -> Encoding {
    if has_alpha {
        Encoding::Png
    } else {
        Encoding::Jpeg
    }
}

/// The derivatives of one tier, raster first, in the directory `dir`.
pub open spec fn tier(
    dir: Seq<char>,
    name: Seq<char>,
    has_alpha: bool,
    bounds: Option<(u32, u32)>,
    with_webp: bool,
) -> Seq<DerivativeSpec> {
    match bounds {
        None => Seq::empty(),
        Some(size) => {
            let raster = DerivativeSpec {
                path: dir + name + "."@ + raster_extension(has_alpha),
                encoding: raster_encoding(has_alpha),
                width: size.0,
                height: size.1,
            };
            let webp = DerivativeSpec {
                path: dir + name + ".webp"@,
                encoding: Encoding::Webp,
                width: size.0,
                height: size.1,
            };
            if with_webp {
                seq![raster, webp]
            } else {
                seq![raster]
            }
        },
    }
}

/// Every derivative of one upload in the order in which it is written: mobile
/// raster, mobile WebP, desktop raster, desktop WebP. A tier without bounds
/// is left out, and so are the WebP files where they are not wanted.
pub open spec fn planned(
    name: Seq<char>,
    has_alpha: bool,
    max_mobile: Option<(u32, u32)>,
    max_desktop: Option<(u32, u32)>,
    with_webp: bool,
) -> Seq<DerivativeSpec> {
    tier("./uploads/mobile/"@, name, has_alpha, max_mobile, with_webp) + tier(
        "./uploads/"@,
        name,
        has_alpha,
        max_desktop,
        with_webp,
    )
}

/// The paths of a sequence of derivatives.
pub open spec fn paths_of(plan: Seq<DerivativeSpec>) -> Seq<Seq<char>> {
    Seq::new(plan.len(), |i: int| plan[i].path)
}

/// The views of a vector of texts.
pub open spec fn texts(v: Seq<String>) -> Seq<Seq<char>> {
    Seq::new(v.len(), |i: int| v[i]@)
}

/// The views of a vector of derivatives.
pub open spec fn plan_view(v: Seq<Derivative>) -> Seq<DerivativeSpec> {
    Seq::new(v.len(), |i: int| v[i]@)
}

fn push_tier(
    plan: &mut Vec<Derivative>,
    dir: &str,
    name: &str,
    has_alpha: bool,
    bounds: Option<(u32, u32)>,
    with_webp: bool,
)
    ensures
        plan_view(final(plan)@) == plan_view(old(plan)@) + tier(
            dir@,
            name@,
            has_alpha,
            bounds,
            with_webp,
        ),
{
    let ghost before = plan_view(plan@);
    match bounds {
        None => {
            assert(plan_view(plan@) =~= before + tier(dir@, name@, has_alpha, bounds, with_webp));
        },
        Some(size) => {
            let mut path = String::from_str(dir);
            path.append(name);
            path.append(".");
            path.append(
                if has_alpha {
                    "png"
                } else {
                    "jpg"
                },
            );
            let encoding = if has_alpha {
                Encoding::Png
            } else {
                Encoding::Jpeg
            };
            plan.push(Derivative { path, encoding, width: size.0, height: size.1 });
            if with_webp {
                let mut path = String::from_str(dir);
                path.append(name);
                path.append(".webp");
                plan.push(
                    Derivative { path, encoding: Encoding::Webp, width: size.0, height: size.1 },
                );
            }
            assert(plan_view(plan@) =~= before + tier(dir@, name@, has_alpha, bounds, with_webp));
        },
    }
}

/// Lists the files to write for one upload, in writing order.
pub fn derivatives(
    name: &str,
    has_alpha: bool,
    max_mobile: Option<(u32, u32)>,
    max_desktop: Option<(u32, u32)>,
    with_webp: bool,
) -> (plan: Vec<Derivative>)
    ensures
        plan_view(plan@) == planned(name@, has_alpha, max_mobile, max_desktop, with_webp),
{
    let mut plan: Vec<Derivative> = Vec::new();
    assert(plan_view(plan@) =~= Seq::<DerivativeSpec>::empty());
    push_tier(&mut plan, "./uploads/mobile/", name, has_alpha, max_mobile, with_webp);
    push_tier(&mut plan, "./uploads/", name, has_alpha, max_desktop, with_webp);
    plan
}

/// What one upload asks of the pipeline: the base name of its files, the box
/// of each tier, and whether WebP files are wanted.
#[derive(Debug, Clone, PartialEq)]
pub struct UploadRequest {
    pub name: String,
    pub max_mobile: Option<(u32, u32)>,
    pub max_desktop: Option<(u32, u32)>,
    pub with_webp: bool,
}

impl UploadRequest {
    /// The files that the upload writes for a picture with or without alpha
    /// channel, in writing order.
    pub open spec fn planned(self, has_alpha: bool) -> Seq<DerivativeSpec> {
        planned(self.name@, has_alpha, self.max_mobile, self.max_desktop, self.with_webp)
    }

    /// Lists the files to write for the upload, in writing order.
    pub fn plan(&self, has_alpha: bool) -> (plan: Vec<Derivative>)
        ensures
            plan_view(plan@) == self.planned(has_alpha),
    {
        derivatives(
            self.name.as_str(),
            has_alpha,
            self.max_mobile,
            self.max_desktop,
            self.with_webp,
        )
    }
}

/// The name under which an upload is registered: base name and raster extension.
pub fn stored_name(name: &str, has_alpha: bool) -> (r: String)
    ensures
        r@ == name@ + "."@ + raster_extension(has_alpha),
{
    let mut r = String::from_str(name);
    r.append(".");
    r.append(
        if has_alpha {
            "png"
        } else {
            "jpg"
        },
    );
    r
}

/// The four files on disk that belong to a registered file, given the path
/// that its record stores: the raster and the WebP file of the mobile tier,
/// then those of the desktop tier.
pub open spec fn family_of(path: Seq<char>) -> Seq<Seq<char>> {
    seq![
        "./uploads/mobile/"@ + path,
        "./uploads/mobile/"@ + stem_of(path) + ".webp"@,
        "./uploads/"@ + path,
        "./uploads/"@ + stem_of(path) + ".webp"@,
    ]
}

/// The files on disk of several registered files, record by record.
pub open spec fn families_of(paths: Seq<Seq<char>>) -> Seq<Seq<char>>
    decreases paths.len(),
{
    if paths.len() == 0 {
        Seq::empty()
    } else {
        families_of(paths.drop_last()) + family_of(paths.last())
    }
}

/// Appends the four files of one registered file to a removal list.
pub fn push_family(list: &mut Vec<String>, path: &str)
    ensures
        texts(final(list)@) == texts(old(list)@) + family_of(path@),
{
    let ghost before = texts(list@);
    let name = stem(path);
    let mut mobile = String::from_str("./uploads/mobile/");
    mobile.append(path);
    let mut mobile_webp = String::from_str("./uploads/mobile/");
    mobile_webp.append(name.as_str());
    mobile_webp.append(".webp");
    let mut desktop = String::from_str("./uploads/");
    desktop.append(path);
    let mut desktop_webp = String::from_str("./uploads/");
    desktop_webp.append(name.as_str());
    desktop_webp.append(".webp");
    list.push(mobile);
    list.push(mobile_webp);
    list.push(desktop);
    list.push(desktop_webp);
    assert(texts(list@) =~= before + family_of(path@));
}

/// The files that a pipeline tracks after an upload of which `written` files
/// were written: with every file of the plan written, the plan is added to
/// what was tracked before; after a failed write nothing is added.
pub open spec fn tracked_after(before: Seq<Seq<char>>, plan: Seq<Seq<char>>, written: nat) -> Seq<
    Seq<char>,
> {
    if written >= plan.len() {
        before + plan
    } else {
        before
    }
}

/// The files that a failed upload wrote and that are removed at once: the
/// first `written` files of the plan. A complete upload removes nothing.
pub open spec fn taken_back(plan: Seq<Seq<char>>, written: nat) -> Seq<Seq<char>> {
    if written >= plan.len() {
        Seq::empty()
    } else {
        plan.take(written as int)
    }
}

/// The files written by the uploads of one operation that has not committed yet.
pub struct Uploader {
    files: Vec<String>,
}

impl View for Uploader {
    type V = Seq<Seq<char>>;

    /// The tracked paths, oldest first.
    closed spec fn view(&self) -> Seq<Seq<char>> {
        texts(self.files@)
    }
}

impl Uploader {
    /// A pipeline that tracks nothing.
    pub fn new() -> (r: Uploader)
        ensures
            r@ == Seq::<Seq<char>>::empty(),
    {
        let r = Uploader { files: Vec::new() };
        assert(r@ =~= Seq::<Seq<char>>::empty());
        r
    }

    /// Records how the writes of one upload went. `written` counts the files
    /// of the plan that were written before the first failure. Where
    /// every file of the plan was written, all of them are tracked from now on.
    /// Where a write failed, nothing new is tracked and the error lists the files
    /// that this upload did write: they are to be removed at once.
    pub fn handle(
        &mut self,
        name: &str,
        has_alpha: bool,
        max_mobile: Option<(u32, u32)>,
        max_desktop: Option<(u32, u32)>,
        with_webp: bool,
        written: usize,
    ) -> (r: Result<(), Vec<String>>)
        ensures
            ({
                let plan = paths_of(planned(name@, has_alpha, max_mobile, max_desktop, with_webp));
                &&& r is Ok <==> written >= plan.len()
                &&& r is Err ==> texts(r->Err_0@) == taken_back(plan, written as nat)
                &&& final(self)@ == tracked_after(old(self)@, plan, written as nat)
            }),
    {
        let plan = derivatives(name, has_alpha, max_mobile, max_desktop, with_webp);
        let ghost paths = paths_of(planned(name@, has_alpha, max_mobile, max_desktop, with_webp));
        let ghost before = self@;
        let failed = written < plan.len();
        let limit = if failed {
            written
        } else {
            plan.len()
        };
        let mut done: Vec<String> = Vec::new();
        let mut i: usize = 0;
        while i < limit
            invariant
                i <= limit <= plan@.len(),
                plan_view(plan@) == planned(name@, has_alpha, max_mobile, max_desktop, with_webp),
                texts(done@) == paths.take(i as int),
                paths == paths_of(planned(name@, has_alpha, max_mobile, max_desktop, with_webp)),
            decreases limit - i,
        {
            let ghost earlier = texts(done@);
            done.push(String::from_str(plan[i].path.as_str()));
            proof {
                assert(plan_view(plan@)[i as int] == plan@[i as int]@);
                assert(paths[i as int] == plan@[i as int].path@);
                assert(texts(done@) =~= earlier.push(plan@[i as int].path@));
                assert(paths.take(i + 1) =~= paths.take(i as int).push(paths[i as int]));
            }
            i += 1;
        }
        if failed {
            Err(done)
        } else {
            self.files.append(&mut done);
            proof {
                assert(paths.take(limit as int) =~= paths);
                assert(self@ =~= before + paths);
            }
            Ok(())
        }
    }

    /// Tracks a file that was written elsewhere.
    pub fn attach(&mut self, path: &str)
        ensures
            final(self)@ == old(self)@.push(path@),
    {
        let ghost before = self@;
        self.files.push(String::from_str(path));
        assert(self@ =~= before.push(path@));
    }

    /// Commits: the tracked files are permanent and are tracked no longer.
    pub fn clear(&mut self)
        ensures
            final(self)@ == Seq::<Seq<char>>::empty(),
    {
        self.files.clear();
        assert(self@ =~= Seq::<Seq<char>>::empty());
    }

    /// Ends the pipeline's scope: hands out every tracked file for removal and
    /// tracks nothing afterwards. After `clear` this hands out nothing.
    pub fn release(&mut self) -> (r: Vec<String>)
        ensures
            texts(r@) == old(self)@,
            final(self)@ == Seq::<Seq<char>>::empty(),
    {
        let mut r: Vec<String> = Vec::new();
        let ghost before = self@;
        r.append(&mut self.files);
        proof {
            assert(texts(r@) =~= before);
            assert(self@ =~= Seq::<Seq<char>>::empty());
        }
        r
    }

    /// Number of tracked files.
    pub fn len(&self) -> (r: usize)
        ensures
            r == self@.len(),
    {
        self.files.len()
    }

    /// The tracked file at position `i`.
    pub fn path(&self, i: usize) -> (r: &str)
        requires
            i < self@.len(),
        ensures
            r@ == self@[i as int],
    {
        self.files[i].as_str()
    }
}

/// A failed upload leaves nothing behind: each file that it wrote before the
/// failure is among those taken back, nothing else is, and the pipeline
/// tracks what it tracked before.
pub proof fn lemma_failed_upload_is_taken_back(
    before: Seq<Seq<char>>,
    plan: Seq<Seq<char>>,
    written: nat,
    k: int,
)
    requires
        written < plan.len(),
        0 <= k < plan.len(),
    ensures
        tracked_after(before, plan, written) == before,
        taken_back(plan, written).len() == written,
        k < written ==> taken_back(plan, written).contains(plan[k]),
        k < written ==> taken_back(plan, written)[k] == plan[k],
{
    if k < written {
        assert(plan.take(written as int)[k] == plan[k]);
    }
}

/// A pipeline that is released without a commit hands out every file that
/// its uploads wrote: after a complete upload each file of the plan is
/// tracked, and it stays tracked through whatever complete or failed upload
/// comes next.
pub proof fn lemma_release_covers(
    before: Seq<Seq<char>>,
    plan: Seq<Seq<char>>,
    next: Seq<Seq<char>>,
    written: nat,
    k: int,
)
    requires
        0 <= k < plan.len(),
    ensures
        tracked_after(before, plan, plan.len()).contains(plan[k]),
        tracked_after(tracked_after(before, plan, plan.len()), next, written).contains(plan[k]),
{
    let once = tracked_after(before, plan, plan.len());
    assert(once[before.len() + k] == plan[k]);
    let twice = tracked_after(once, next, written);
    assert(twice[before.len() + k] == plan[k]);
}

/// The registry and the pipeline agree: for an upload with both tiers and
/// WebP, whose base name holds no dot, the files that belong to the name it is
/// registered under are exactly the files that the pipeline wrote, in the same
/// order. Removing a registered file therefore removes what was written for it.
pub proof fn lemma_family_is_what_was_written(
    name: Seq<char>,
    has_alpha: bool,
    mobile: (u32, u32),
    desktop: (u32, u32),
)
    requires
        dotless(name),
    ensures
        family_of(name + "."@ + raster_extension(has_alpha)) == paths_of(
            planned(name, has_alpha, Some(mobile), Some(desktop), true),
        ),
{
    reveal_strlit(".");
    let stored = name + "."@ + raster_extension(has_alpha);
    assert forall|j: int| 0 <= j < name.len() implies stored[j] != '.' by {
        assert(stored[j] == name[j]);
    }
    assert(stored[name.len() as int] == '.');
    lemma_stem_len(stored, name.len());
    assert(stem_of(stored) =~= name);
    let family = family_of(stored);
    let plan = paths_of(planned(name, has_alpha, Some(mobile), Some(desktop), true));
    assert(plan.len() == 4);
    assert(family[0] =~= plan[0]);
    assert(family[1] =~= plan[1]);
    assert(family[2] =~= plan[2]);
    assert(family[3] =~= plan[3]);
    assert(family =~= plan);
}

} // verus!
