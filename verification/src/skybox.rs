use vstd::prelude::*;

verus! {

/// Where one of the six skybox side images stands in loading.
#[derive(Debug)]
pub enum SkyboxPart {
    /// No image was asked for on this side yet.
    Missing,
    /// The image is known to the asset server but not being loaded.
    NotLoaded,
    /// The image is being loaded.
    Loading,
    /// The image is loaded.
    Loaded,
    /// Loading failed, with the loader's message.
    Failed(String),
    /// The asset server knows nothing of the image.
    Unknown,
}

/// Why the skybox could not be assembled.
#[derive(Debug)]
pub enum SkyboxError {
    /// A side image failed to load, with the loader's message.
    LoadFailed(String),
    /// The asset server has no load state for a side image.
    NoLoadState,
    /// A side image is not available.
    SideImagesNotFound,
    /// A side image holds no pixel data.
    NoImageData,
}

/// Whether one side counts as loaded, or the error it raises.
pub open spec fn part_loaded(part: SkyboxPart) -> Result<bool, SkyboxError> {
    match part {
        SkyboxPart::Missing => Ok(false),
        SkyboxPart::NotLoaded => Ok(false),
        SkyboxPart::Loading => Ok(false),
        SkyboxPart::Loaded => Ok(true),
        SkyboxPart::Failed(message) => Err(SkyboxError::LoadFailed(message)),
        SkyboxPart::Unknown => Err(SkyboxError::NoLoadState),
    }
}

/// Whether all sides are loaded; the error of the first side (in order) that
/// raises one otherwise.
pub open spec fn parts_loaded(parts: Seq<SkyboxPart>) -> Result<bool, SkyboxError>
    decreases parts.len(),
{
    if parts.len() == 0 {
        Ok(true)
    } else {
        match part_loaded(parts[0]) {
            Err(e) => Err(e),
            Ok(here) => match parts_loaded(parts.drop_first()) {
                Err(e) => Err(e),
                Ok(rest) => Ok(here && rest),
            },
        }
    }
}

/// The skybox counts as loaded exactly when every side is loaded; it fails
/// exactly when some side failed to load or has no known state.
pub proof fn lemma_loaded_iff_every_side_loaded(parts: Seq<SkyboxPart>)
    ensures
        (parts_loaded(parts) == Ok::<bool, SkyboxError>(true)) <==> (forall|i: int| 0 <= i < parts.len() ==> #[trigger] parts[i] is Loaded),
        parts_loaded(parts) is Err <==> exists|i: int| 0 <= i < parts.len() && (#[trigger] parts[i] is Failed || parts[i] is Unknown),
    decreases parts.len(),
{
    if parts.len() > 0 {
        let rest = parts.drop_first();
        lemma_loaded_iff_every_side_loaded(rest);
        assert forall|i: int| 0 < i < parts.len() implies #[trigger] parts[i] == rest[i - 1] by {}
        if (forall|i: int| 0 <= i < parts.len() ==> #[trigger] parts[i] is Loaded) {
            assert(parts[0] is Loaded);
            assert forall|i: int| 0 <= i < rest.len() implies #[trigger] rest[i] is Loaded by {
                assert(parts[i + 1] is Loaded);
            }
        }
        if parts_loaded(parts) == Ok::<bool, SkyboxError>(true) {
            assert forall|i: int| 0 <= i < parts.len() implies #[trigger] parts[i] is Loaded by {
                if i > 0 {
                    assert(rest[i - 1] is Loaded);
                }
            }
        }
        if exists|i: int| 0 <= i < parts.len() && (#[trigger] parts[i] is Failed || parts[i] is Unknown) {
            let i = choose|i: int| 0 <= i < parts.len() && (#[trigger] parts[i] is Failed || parts[i] is Unknown);
            if i > 0 {
                assert(rest[i - 1] is Failed || rest[i - 1] is Unknown);
            }
        }
        if parts_loaded(parts) is Err {
            if !(parts[0] is Failed || parts[0] is Unknown) {
                let j = choose|j: int| 0 <= j < rest.len() && (#[trigger] rest[j] is Failed || rest[j] is Unknown);
                assert(parts[j + 1] is Failed || parts[j + 1] is Unknown);
            }
        }
    }
}

/// Whether every side image of the skybox is loaded. The first side (in
/// order) whose load failed or whose state is unknown makes it fail instead.
pub fn is_skybox_parts_loaded(parts: &Vec<SkyboxPart>) -> (result: Result<bool, SkyboxError>)
    ensures
        result == parts_loaded(parts@),
{
    let mut i = parts.len();
    let mut rest: Result<bool, SkyboxError> = Ok(true);
    while i > 0
        invariant
            0 <= i <= parts@.len(),
            rest == parts_loaded(parts@.skip(i as int)),
        decreases i,
    {
        i = i - 1;
        let here: Result<bool, SkyboxError> = match &parts[i] {
            SkyboxPart::Missing => Ok(false),
            SkyboxPart::NotLoaded => Ok(false),
            SkyboxPart::Loading => Ok(false),
            SkyboxPart::Loaded => Ok(true),
            SkyboxPart::Failed(message) => Err(SkyboxError::LoadFailed(message.clone())),
            SkyboxPart::Unknown => Err(SkyboxError::NoLoadState),
        };
        assert(parts@.skip(i as int).drop_first() =~= parts@.skip(i + 1));
        rest = match here {
            Err(e) => Err(e),
            Ok(loaded) => match rest {
                Err(e) => Err(e),
                Ok(others) => Ok(loaded && others),
            },
        };
    }
    assert(parts@.skip(0) =~= parts@);
    rest
}

/// One loaded side image of the skybox.
#[derive(Debug)]
pub struct SkyboxSide {
    /// Width of the image in pixels.
    pub width: u32,
    /// The pixel data, when the image holds it.
    pub data: Option<Vec<u8>>,
}

/// The six sides stacked into one image.
#[derive(Debug)]
pub struct StitchedSkybox {
    pub width: u32,
    pub height: u32,
    pub data: Vec<u8>,
}

/// The concatenation of a sequence of byte strings.
pub open spec fn concat_all(parts: Seq<Seq<u8>>) -> Seq<u8>
    decreases parts.len(),
{
    if parts.len() == 0 {
        Seq::empty()
    } else {
        concat_all(parts.drop_last()) + parts.last()
    }
}

/// The pixel data of every side, in order (meaningful when all sides hold
/// data).
pub open spec fn side_data(sides: Seq<Option<SkyboxSide>>) -> Seq<Seq<u8>> {
    sides.map_values(|side: Option<SkyboxSide>| side.unwrap().data.unwrap()@)
}

/// Stacks the side images (left, right, top, bottom, back, front) into one
/// image as wide as the first side and six times as tall, holding the sides'
/// pixel data one after the other. Fails when a side image is not available,
/// or else when one holds no data.
pub fn stitch_skybox(sides: &Vec<Option<SkyboxSide>>) -> (result: Result<StitchedSkybox, SkyboxError>)
    requires
        sides@.len() > 0 && (forall|i: int| 0 <= i < sides@.len() ==> #[trigger] sides@[i] is Some)
            ==> sides@[0].unwrap().width * 6 <= u32::MAX,
    ensures
        (sides@.len() == 0 || exists|i: int| 0 <= i < sides@.len() && #[trigger] sides@[i] is None)
            ==> result matches Err(SkyboxError::SideImagesNotFound),
        (sides@.len() > 0 && (forall|i: int| 0 <= i < sides@.len() ==> #[trigger] sides@[i] is Some)) ==> {
            if exists|i: int| 0 <= i < sides@.len() && (#[trigger] sides@[i]).unwrap().data is None {
                result matches Err(SkyboxError::NoImageData)
            } else {
                result matches Ok(stitched) && {
                    &&& stitched.width == sides@[0].unwrap().width
                    &&& stitched.height == sides@[0].unwrap().width * 6
                    &&& stitched.data@ == concat_all(side_data(sides@))
                }
            }
        },
{
    let mut i: usize = 0;
    while i < sides.len()
        invariant
            0 <= i <= sides@.len(),
            forall|j: int| 0 <= j < i ==> #[trigger] sides@[j] is Some,
        decreases sides@.len() - i,
    {
        if sides[i].is_none() {
            return Err(SkyboxError::SideImagesNotFound);
        }
        i = i + 1;
    }
    if sides.len() == 0 {
        return Err(SkyboxError::SideImagesNotFound);
    }
    let width = match &sides[0] {
        Some(side) => side.width,
        None => return Err(SkyboxError::SideImagesNotFound),
    };
    let height = width * 6;
    let mut data: Vec<u8> = Vec::new();
    let mut k: usize = 0;
    while k < sides.len()
        invariant
            0 <= k <= sides@.len(),
            forall|j: int| 0 <= j < sides@.len() ==> #[trigger] sides@[j] is Some,
            forall|j: int| 0 <= j < k ==> (#[trigger] sides@[j]).unwrap().data is Some,
            data@ == concat_all(side_data(sides@.take(k as int))),
        decreases sides@.len() - k,
    {
        let side = match &sides[k] {
            Some(side) => side,
            None => return Err(SkyboxError::SideImagesNotFound),
        };
        let bytes = match &side.data {
            Some(bytes) => bytes,
            None => {
                proof {
                    assert(sides@[k as int].unwrap().data is None);
                }
                return Err(SkyboxError::NoImageData);
            },
        };
        let ghost before = data@;
        let mut b: usize = 0;
        while b < bytes.len()
            invariant
                0 <= b <= bytes@.len(),
                data@ == before + bytes@.take(b as int),
            decreases bytes@.len() - b,
        {
            data.push(bytes[b]);
            assert(bytes@.take(b + 1) =~= bytes@.take(b as int).push(bytes@[b as int]));
            b = b + 1;
        }
        proof {
            assert(bytes@.take(bytes@.len() as int) =~= bytes@);
            let prefix = side_data(sides@.take(k + 1));
            assert(prefix.drop_last() =~= side_data(sides@.take(k as int)));
            assert(prefix.last() == bytes@);
        }
        k = k + 1;
    }
    proof {
        assert(sides@.take(sides@.len() as int) =~= sides@);
        assert forall|j: int| 0 <= j < sides@.len() implies (#[trigger] sides@[j]).unwrap().data is Some by {}
    }
    Ok(StitchedSkybox { width, height, data })
}

} // verus!
