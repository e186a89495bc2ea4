use vstd::prelude::*;

use vstd::string::StringSliceAdditionalSpecFns;
use vstd::utf8::encode_utf8;
use vstd::utf8::is_char_boundary;
use vstd::utf8::is_leading_byte_width_1;
use vstd::utf8::length_of_first_scalar;
use vstd::utf8::pop_first_scalar;
use vstd::utf8::valid_first_scalar;
use vstd::utf8::valid_utf8;

verus! {

/// Identity of a camera known from a movie file: the file name (without
/// directory), the camera name given in configuration, the title embedded
/// in the movie metadata, the camera name extracted from the file-name
/// pattern, and the movie's first-frame timestamp in microseconds since
/// the UNIX epoch.
pub struct MovieCamId {
    pub filename: String,
    pub cfg_name: Option<String>,
    pub title: Option<String>,
    pub cam_from_filename: Option<String>,
    pub frame0_time_micros: i64,
}

/// Mathematical value of a [`MovieCamId`].
pub struct MovieCamIdV {
    pub filename: Seq<char>,
    pub cfg_name: Option<Seq<char>>,
    pub title: Option<Seq<char>>,
    pub cam_from_filename: Option<Seq<char>>,
    pub frame0_time_micros: int,
}

impl View for MovieCamId {
    type V = MovieCamIdV;

    open spec fn view(&self) -> MovieCamIdV {
        MovieCamIdV {
            filename: self.filename@,
            cfg_name: match self.cfg_name {
                Some(s) => Some(s@),
                None => None,
            },
            title: match self.title {
                Some(s) => Some(s@),
                None => None,
            },
            cam_from_filename: match self.cam_from_filename {
                Some(s) => Some(s@),
                None => None,
            },
            frame0_time_micros: self.frame0_time_micros as int,
        }
    }
}

/// Identity of a camera known from the detection archive: its id string
/// and the archive's numeric camera-number join key.
pub struct BraidzCamId {
    pub cam_id_str: String,
    pub camn: u32,
}

/// Mathematical value of a [`BraidzCamId`].
pub struct BraidzCamIdV {
    pub cam_id_str: Seq<char>,
    pub camn: u32,
}

impl View for BraidzCamId {
    type V = BraidzCamIdV;

    open spec fn view(&self) -> BraidzCamIdV {
        BraidzCamIdV { cam_id_str: self.cam_id_str@, camn: self.camn }
    }
}

/// A camera's identity: known only from a movie file, only from the
/// archive, or from both after resolution paired them.
pub enum CameraIdentifier {
    MovieOnly(MovieCamId),
    BraidzOnly(BraidzCamId),
    Both(MovieCamId, BraidzCamId),
}

/// Mathematical value of a [`CameraIdentifier`].
pub enum CameraIdentifierV {
    MovieOnly(MovieCamIdV),
    BraidzOnly(BraidzCamIdV),
    Both(MovieCamIdV, BraidzCamIdV),
}

impl View for CameraIdentifier {
    type V = CameraIdentifierV;

    open spec fn view(&self) -> CameraIdentifierV {
        match self {
            CameraIdentifier::MovieOnly(m) => CameraIdentifierV::MovieOnly(m@),
            CameraIdentifier::BraidzOnly(b) => CameraIdentifierV::BraidzOnly(b@),
            CameraIdentifier::Both(m, b) => CameraIdentifierV::Both(m@, b@),
        }
    }
}

impl MovieCamIdV {
    /// The movie camera's raw name: the embedded title if present, else
    /// the name extracted from the file-name pattern, else nothing.
    pub open spec fn raw_name(&self) -> Option<Seq<char>> {
        match self.title {
            Some(t) => Some(t),
            None => match self.cam_from_filename {
                Some(c) => Some(c),
                None => None,
            },
        }
    }

    /// The canonical display name: configured name, else embedded title,
    /// else file name.
    pub open spec fn best_name(&self) -> Seq<char> {
        match self.cfg_name {
            Some(c) => c,
            None => match self.title {
                Some(t) => t,
                None => self.filename,
            },
        }
    }
}

impl MovieCamId {
    /// The movie camera's raw name, used to match archive camera ids.
    pub fn raw_name(&self) -> (r: Option<String>)
        ensures
            match r {
                Some(s) => self@.raw_name() == Some(s@),
                None => self@.raw_name() is None,
            },
    {
        match &self.title {
            Some(t) => Some(t.clone()),
            None => match &self.cam_from_filename {
                Some(c) => Some(c.clone()),
                None => None,
            },
        }
    }
}

impl CameraIdentifierV {
    /// The canonical display name of the camera, by priority: configured
    /// name, then embedded title, then file name; for archive-involved
    /// identities without a movie, the archive id string.
    pub open spec fn best_name(&self) -> Seq<char> {
        match self {
            CameraIdentifierV::MovieOnly(m) => m.best_name(),
            CameraIdentifierV::Both(m, _) => m.best_name(),
            CameraIdentifierV::BraidzOnly(b) => b.cam_id_str,
        }
    }
}

impl CameraIdentifier {
    /// The canonical display name of the camera.
    pub fn best_name(&self) -> (r: String)
        ensures
            r@ == self@.best_name(),
    {
        match self {
            CameraIdentifier::MovieOnly(m) | CameraIdentifier::Both(m, _) => {
                match &m.cfg_name {
                    Some(c) => c.clone(),
                    None => match &m.title {
                        Some(t) => t.clone(),
                        None => m.filename.clone(),
                    },
                }
            },
            CameraIdentifier::BraidzOnly(b) => b.cam_id_str.clone(),
        }
    }

    /// The archive's numeric join key for this camera, when the archive
    /// knows it.
    pub fn camn(&self) -> (r: Option<u32>)
        ensures
            r == match self {
                CameraIdentifier::MovieOnly(_) => None::<u32>,
                CameraIdentifier::BraidzOnly(b) => Some(b.camn),
                CameraIdentifier::Both(_, b) => Some(b.camn),
            },
    {
        match self {
            CameraIdentifier::MovieOnly(_) => None,
            CameraIdentifier::BraidzOnly(b) => Some(b.camn),
            CameraIdentifier::Both(_, b) => Some(b.camn),
        }
    }

    /// The first-frame timestamp of the underlying movie, in microseconds.
    /// Archive-only identities carry no movie timing.
    pub fn frame0_time(&self) -> (r: i64)
        requires
            !(self is BraidzOnly),
        ensures
            match self {
                CameraIdentifier::MovieOnly(m) => r == m.frame0_time_micros,
                CameraIdentifier::Both(m, _) => r == m.frame0_time_micros,
                CameraIdentifier::BraidzOnly(_) => false,
            },
    {
        match self {
            CameraIdentifier::MovieOnly(m) | CameraIdentifier::Both(m, _) => m.frame0_time_micros,
            CameraIdentifier::BraidzOnly(_) => 0,
        }
    }
}

/// An ASCII decimal digit as a byte.
pub open spec fn is_digit_byte(b: u8) -> bool {
    '0' as u8 <= b <= '9' as u8
}

/// The movie file-name stem pattern: `movie` followed by an 8-digit date,
/// an underscore, a 6-digit time, an underscore, and the raw camera name
/// (possibly empty).
pub open spec fn movie_stem_matches(s: Seq<u8>) -> bool {
    &&& s.len() >= 21
    &&& s[0] == 'm' as u8
    &&& s[1] == 'o' as u8
    &&& s[2] == 'v' as u8
    &&& s[3] == 'i' as u8
    &&& s[4] == 'e' as u8
    &&& (forall|i: int| 5 <= i < 13 ==> is_digit_byte(#[trigger] s[i]))
    &&& s[13] == '_' as u8
    &&& (forall|i: int| 14 <= i < 20 ==> is_digit_byte(#[trigger] s[i]))
    &&& s[20] == '_' as u8
}

/// In a valid UTF-8 byte sequence, the position just after an all-ASCII
/// prefix is a character boundary.
proof fn lemma_ascii_prefix_is_char_boundary(bytes: Seq<u8>, n: int)
    requires
        valid_utf8(bytes),
        0 <= n <= bytes.len(),
        forall|i: int| 0 <= i < n ==> #[trigger] bytes[i] < 0x80,
    ensures
        is_char_boundary(bytes, n),
    decreases n,
{
    if n > 0 {
        assert(valid_first_scalar(bytes));
        assert(is_leading_byte_width_1(bytes[0]));
        assert(length_of_first_scalar(bytes) == 1);
        let rest = pop_first_scalar(bytes);
        assert(rest =~= bytes.skip(1));
        lemma_ascii_prefix_is_char_boundary(rest, n - 1);
        assert(is_char_boundary(bytes, n));
    }
}

/// Check that every byte of `b` in `[start, end)` is an ASCII digit.
fn all_digit_bytes(b: &[u8], start: usize, end: usize) -> (r: bool)
    requires
        start <= end <= b@.len(),
    ensures
        r == forall|i: int| start <= i < end ==> is_digit_byte(#[trigger] b@[i]),
{
    let mut j = start;
    while j < end
        invariant
            start <= j <= end <= b@.len(),
            forall|i: int| start <= i < j ==> is_digit_byte(#[trigger] b@[i]),
        decreases end - j,
    {
        let c = b[j];
        if !((('0' as u8) <= c && c <= ('9' as u8))) {
            return false;
        }
        j += 1;
    }
    true
}

/// Extract the raw camera name from a movie file-name stem of the form
/// `movie<8-digit-date>_<6-digit-time>_<raw-name>`; nothing when the stem
/// does not match the pattern.
pub fn parse_cam_from_filename(stem: &str) -> (r: Option<String>)
    ensures
        r is Some <==> movie_stem_matches(stem.spec_bytes()),
        r is Some ==> encode_utf8(r->0@) == stem.spec_bytes().subrange(
            21,
            stem.spec_bytes().len() as int,
        ),
{
    let b = stem.as_bytes();
    if b.len() < 21 {
        return None;
    }
    if !(b[0] == ('m' as u8) && b[1] == ('o' as u8) && b[2] == ('v' as u8) && b[3] == ('i' as u8) && b[4] == ('e' as u8)) {
        return None;
    }
    if !all_digit_bytes(b, 5, 13) {
        return None;
    }
    if b[13] != ('_' as u8) {
        return None;
    }
    if !all_digit_bytes(b, 14, 20) {
        return None;
    }
    if b[20] != ('_' as u8) {
        return None;
    }
    proof {
        vstd::utf8::encode_utf8_valid_utf8(stem@);
        assert(forall|i: int| 0 <= i < 21 ==> #[trigger] stem.spec_bytes()[i] < 0x80);
        lemma_ascii_prefix_is_char_boundary(stem.spec_bytes(), 21);
    }
    let (_, rest) = stem.split_at(21);
    Some(rest.to_owned())
}

/// A raw name equals the archive camera's id at index `j`.
pub open spec fn name_matches_at(b: Seq<BraidzCamIdV>, nm: Option<Seq<char>>, j: int) -> bool {
    0 <= j < b.len() && nm is Some && b[j].cam_id_str == nm->0
}

/// Index of the first archive camera whose id string equals the given raw
/// name, if any.
pub open spec fn first_match(b: Seq<BraidzCamIdV>, nm: Option<Seq<char>>) -> Option<int>
    decreases b.len(),
{
    if b.len() == 0 {
        None
    } else if nm is Some && b[0].cam_id_str == nm->0 {
        Some(0)
    } else {
        match first_match(b.skip(1), nm) {
            Some(j) => Some(j + 1),
            None => None,
        }
    }
}

/// `first_match` names a matching index that no smaller index precedes,
/// and `None` means no index matches.
pub proof fn lemma_first_match_characterization(b: Seq<BraidzCamIdV>, nm: Option<Seq<char>>)
    ensures
        match first_match(b, nm) {
            Some(j) => name_matches_at(b, nm, j) && forall|k: int|
                0 <= k < j ==> !name_matches_at(b, nm, k),
            None => forall|k: int| 0 <= k < b.len() ==> !name_matches_at(b, nm, k),
        },
    decreases b.len(),
{
    if b.len() > 0 {
        let rest = b.skip(1);
        lemma_first_match_characterization(rest, nm);
        assert(rest.len() == b.len() - 1);
        if nm is Some && b[0].cam_id_str == nm->0 {
            assert(first_match(b, nm) == Some(0int));
        } else {
            assert(!name_matches_at(b, nm, 0));
            match first_match(rest, nm) {
                Some(j) => {
                    assert(first_match(b, nm) == Some(j + 1));
                    assert(rest[j] == b[j + 1]);
                    assert(name_matches_at(b, nm, j + 1));
                    assert forall|k: int| 0 <= k < j + 1 implies !name_matches_at(b, nm, k) by {
                        if k > 0 {
                            assert(!name_matches_at(rest, nm, k - 1));
                            assert(rest[k - 1] == b[k]);
                        }
                    }
                },
                None => {
                    assert(first_match(b, nm) is None);
                    assert forall|k: int| 0 <= k < b.len() implies !name_matches_at(b, nm, k) by {
                        if k > 0 {
                            assert(!name_matches_at(rest, nm, k - 1));
                            assert(rest[k - 1] == b[k]);
                        }
                    }
                },
            }
        }
    }
}

/// The view of an optional name.
pub open spec fn spec_name_view(nm: Option<String>) -> Option<Seq<char>> {
    match nm {
        Some(s) => Some(s@),
        None => None,
    }
}

/// The views of a roster of archive cameras.
pub open spec fn braidz_views(b: Seq<BraidzCamId>) -> Seq<BraidzCamIdV> {
    b.map_values(|c: BraidzCamId| c@)
}

/// The views of a roster of movie cameras.
pub open spec fn movie_views(v: Seq<MovieCamId>) -> Seq<MovieCamIdV> {
    v.map_values(|m: MovieCamId| m@)
}

/// The views of a resolved roster.
pub open spec fn ident_views(v: Seq<CameraIdentifier>) -> Seq<CameraIdentifierV> {
    v.map_values(|c: CameraIdentifier| c@)
}

/// Find the first archive camera whose id string equals the raw name.
fn find_first_match(b: &Vec<BraidzCamId>, nm: &Option<String>) -> (r: Option<usize>)
    ensures
        match r {
            Some(u) => first_match(braidz_views(b@), spec_name_view(*nm)) == Some(u as int),
            None => first_match(braidz_views(b@), spec_name_view(*nm)) is None,
        },
{
    proof {
        lemma_first_match_characterization(braidz_views(b@), spec_name_view(*nm));
    }
    let name = match nm {
        Some(s) => s,
        None => {
            return None;
        },
    };
    let mut j: usize = 0;
    while j < b.len()
        invariant
            j <= b@.len(),
            *nm is Some && (*nm)->0@ == name@,
            forall|k: int| 0 <= k < j ==> !name_matches_at(braidz_views(b@), spec_name_view(*nm), k),
        decreases b@.len() - j,
    {
        if b[j].cam_id_str.eq(name) {
            proof {
                lemma_first_match_characterization(braidz_views(b@), spec_name_view(*nm));
                assert(braidz_views(b@)[j as int] == b@[j as int]@);
                assert(name_matches_at(braidz_views(b@), spec_name_view(*nm), j as int));
            }
            return Some(j);
        }
        proof {
            assert(braidz_views(b@)[j as int] == b@[j as int]@);
        }
        j += 1;
    }
    None
}

/// One movie camera after resolution: paired with the first archive
/// camera whose id equals its raw name, or left movie-only.
pub open spec fn spec_resolve_movie(m: MovieCamIdV, b: Seq<BraidzCamIdV>) -> CameraIdentifierV {
    match first_match(b, m.raw_name()) {
        Some(j) => CameraIdentifierV::Both(m, b[j]),
        None => CameraIdentifierV::MovieOnly(m),
    }
}

/// The resolved camera roster: a left join of the movie roster with the
/// archive roster, keyed on exact raw-name equality; when no movie
/// cameras exist, every archive camera stands alone.
pub open spec fn spec_resolve(video: Seq<MovieCamIdV>, braidz: Option<Seq<BraidzCamIdV>>) -> Seq<
    CameraIdentifierV,
> {
    if video.len() > 0 {
        let b = match braidz {
            Some(b) => b,
            None => Seq::empty(),
        };
        video.map_values(|m: MovieCamIdV| spec_resolve_movie(m, b))
    } else {
        match braidz {
            Some(bs) => bs.map_values(|b: BraidzCamIdV| CameraIdentifierV::BraidzOnly(b)),
            None => Seq::empty(),
        }
    }
}

/// The view of an optional archive roster.
pub open spec fn braidz_opt_views(b: Option<Vec<BraidzCamId>>) -> Option<Seq<BraidzCamIdV>> {
    match b {
        Some(v) => Some(braidz_views(v@)),
        None => None,
    }
}

/// Merge the movie-camera roster with the archive roster into the final
/// camera roster. Each movie camera whose raw name exactly equals an
/// archive camera's id string (case-sensitive, no fuzzy matching) becomes
/// a combined identity; unmatched movie cameras stay movie-only. When no
/// movie cameras were given, every archive camera becomes an archive-only
/// identity. With neither input the roster is empty, which callers treat
/// as nothing to do, not as an error.
pub fn resolve_cameras(video: Vec<MovieCamId>, braidz: Option<Vec<BraidzCamId>>) -> (r: Vec<
    CameraIdentifier,
>)
    ensures
        ident_views(r@) == spec_resolve(movie_views(video@), braidz_opt_views(braidz)),
{
    let ghost video0 = movie_views(video@);
    let ghost bopt = braidz_opt_views(braidz);
    if video.len() > 0 {
        let b: Vec<BraidzCamId> = match braidz {
            Some(b) => b,
            None => Vec::new(),
        };
        let ghost bv = braidz_views(b@);
        proof {
            assert(spec_resolve(video0, bopt) =~= video0.map_values(
                |m: MovieCamIdV| spec_resolve_movie(m, bv),
            ));
        }
        let mut rest = video;
        let mut out: Vec<CameraIdentifier> = Vec::new();
        while rest.len() > 0
            invariant
                bv == braidz_views(b@),
                movie_views(rest@) =~= video0.skip(out@.len() as int),
                out@.len() <= video0.len(),
                ident_views(out@) =~= video0.take(out@.len() as int).map_values(
                    |m: MovieCamIdV| spec_resolve_movie(m, bv),
                ),
            decreases rest.len(),
        {
            let ghost i = out@.len() as int;
            let ghost prev = rest@;
            let m = rest.remove(0);
            proof {
                assert(movie_views(prev).len() == prev.len());
                assert(video0.skip(i).len() == video0.len() - i);
                assert(video0.skip(i + 1).len() == video0.len() - i - 1);
                assert(m == prev[0]);
                assert(movie_views(prev)[0] == prev[0]@);
                assert(m@ == video0.skip(i)[0]);
                assert(m@ == video0[i]);
                assert(rest@ =~= prev.skip(1));
                assert forall|k: int| 0 <= k < rest@.len() implies #[trigger] movie_views(rest@)[k]
                    == video0.skip(i + 1)[k] by {
                    assert(movie_views(rest@)[k] == rest@[k]@);
                    assert(rest@[k] == prev[k + 1]);
                    assert(movie_views(prev)[k + 1] == prev[k + 1]@);
                    assert(movie_views(prev)[k + 1] == video0.skip(i)[k + 1]);
                    assert(video0.skip(i)[k + 1] == video0[i + 1 + k]);
                    assert(video0.skip(i + 1)[k] == video0[i + 1 + k]);
                }
                assert(movie_views(rest@) =~= video0.skip(i + 1));
            }
            let nm = m.raw_name();
            let ident = match find_first_match(&b, &nm) {
                Some(j) => {
                    proof {
                        assert(spec_name_view(nm) == m@.raw_name());
                        lemma_first_match_characterization(bv, m@.raw_name());
                    }
                    let bc = BraidzCamId { cam_id_str: b[j].cam_id_str.clone(), camn: b[j].camn };
                    proof {
                        assert(bc@ == bv[j as int]);
                    }
                    CameraIdentifier::Both(m, bc)
                },
                None => {
                    proof {
                        assert(spec_name_view(nm) == m@.raw_name());
                    }
                    CameraIdentifier::MovieOnly(m)
                },
            };
            proof {
                assert(ident@ == spec_resolve_movie(video0[i], bv));
            }
            let ghost prev_out = out@;
            out.push(ident);
            proof {
                let f = |mv: MovieCamIdV| spec_resolve_movie(mv, bv);
                assert(video0.take(i + 1).len() == i + 1);
                assert(video0.take(i).len() == i);
                assert(video0.take(i + 1).map_values(f).len() == i + 1);
                assert(video0.take(i).map_values(f).len() == i);
                assert(ident_views(out@).len() == out@.len());
                assert(ident_views(prev_out).len() == prev_out.len());
                assert(out@ =~= prev_out.push(ident));
                assert forall|k: int| 0 <= k < out@.len() implies #[trigger] ident_views(out@)[k]
                    == video0.take(i + 1).map_values(f)[k] by {
                    assert(ident_views(out@)[k] == out@[k]@);
                    assert(video0.take(i + 1).map_values(f)[k] == f(video0.take(i + 1)[k]));
                    assert(video0.take(i + 1)[k] == video0[k]);
                    if k < i {
                        assert(out@[k] == prev_out[k]);
                        assert(ident_views(prev_out)[k] == prev_out[k]@);
                        assert(ident_views(prev_out)[k] == video0.take(i).map_values(f)[k]);
                        assert(video0.take(i).map_values(f)[k] == f(video0.take(i)[k]));
                        assert(video0.take(i)[k] == video0[k]);
                    } else {
                        assert(out@[k] == ident);
                    }
                }
                assert(ident_views(out@) =~= video0.take(i + 1).map_values(f));
            }
        }
        proof {
            assert(video0.take(video0.len() as int) =~= video0);
        }
        out
    } else {
        match braidz {
            Some(bs) => {
                let ghost bsv = braidz_views(bs@);
                let mut rest = bs;
                let mut out: Vec<CameraIdentifier> = Vec::new();
                while rest.len() > 0
                    invariant
                        braidz_views(rest@) =~= bsv.skip(out@.len() as int),
                        out@.len() <= bsv.len(),
                        ident_views(out@) =~= bsv.take(out@.len() as int).map_values(
                            |b: BraidzCamIdV| CameraIdentifierV::BraidzOnly(b),
                        ),
                    decreases rest.len(),
                {
                    let ghost i = out@.len() as int;
                    let ghost prev = rest@;
                    let bc = rest.remove(0);
                    proof {
                        assert(braidz_views(prev).len() == prev.len());
                        assert(bsv.skip(i).len() == bsv.len() - i);
                        assert(bsv.skip(i + 1).len() == bsv.len() - i - 1);
                        assert(bc == prev[0]);
                        assert(braidz_views(prev)[0] == prev[0]@);
                        assert(bc@ == bsv.skip(i)[0]);
                        assert(bc@ == bsv[i]);
                        assert(rest@ =~= prev.skip(1));
                        assert forall|k: int| 0 <= k < rest@.len() implies #[trigger] braidz_views(
                            rest@,
                        )[k] == bsv.skip(i + 1)[k] by {
                            assert(braidz_views(rest@)[k] == rest@[k]@);
                            assert(rest@[k] == prev[k + 1]);
                            assert(braidz_views(prev)[k + 1] == prev[k + 1]@);
                            assert(braidz_views(prev)[k + 1] == bsv.skip(i)[k + 1]);
                            assert(bsv.skip(i)[k + 1] == bsv[i + 1 + k]);
                            assert(bsv.skip(i + 1)[k] == bsv[i + 1 + k]);
                        }
                        assert(braidz_views(rest@) =~= bsv.skip(i + 1));
                    }
                    let ghost prev_out = out@;
                    let ident = CameraIdentifier::BraidzOnly(bc);
                    out.push(ident);
                    proof {
                        let g = |b: BraidzCamIdV| CameraIdentifierV::BraidzOnly(b);
                        assert(bsv.take(i + 1).len() == i + 1);
                        assert(bsv.take(i).len() == i);
                        assert(bsv.take(i + 1).map_values(g).len() == i + 1);
                        assert(bsv.take(i).map_values(g).len() == i);
                        assert(ident_views(out@).len() == out@.len());
                        assert(ident_views(prev_out).len() == prev_out.len());
                        assert(out@ =~= prev_out.push(ident));
                        assert forall|k: int| 0 <= k < out@.len() implies #[trigger] ident_views(
                            out@,
                        )[k] == bsv.take(i + 1).map_values(g)[k] by {
                            assert(ident_views(out@)[k] == out@[k]@);
                            assert(bsv.take(i + 1).map_values(g)[k] == g(bsv.take(i + 1)[k]));
                            assert(bsv.take(i + 1)[k] == bsv[k]);
                            if k < i {
                                assert(out@[k] == prev_out[k]);
                                assert(ident_views(prev_out)[k] == prev_out[k]@);
                                assert(ident_views(prev_out)[k] == bsv.take(i).map_values(g)[k]);
                                assert(bsv.take(i).map_values(g)[k] == g(bsv.take(i)[k]));
                                assert(bsv.take(i)[k] == bsv[k]);
                            } else {
                                assert(out@[k] == ident);
                            }
                        }
                        assert(ident_views(out@) =~= bsv.take(i + 1).map_values(g));
                    }
                }
                proof {
                    assert(bsv.take(bsv.len() as int) =~= bsv);
                }
                out
            },
            None => Vec::new(),
        }
    }
}

/// Camera-identity resolution is a pure join: the merged roster is a
/// function of the two input rosters alone, so resolving the same pair
/// twice yields identical results.
pub proof fn lemma_resolver_pure(
    video: Seq<MovieCamIdV>,
    braidz: Option<Seq<BraidzCamIdV>>,
    r1: Seq<CameraIdentifierV>,
    r2: Seq<CameraIdentifierV>,
)
    requires
        r1 == spec_resolve(video, braidz),
        r2 == spec_resolve(video, braidz),
    ensures
        r1 == r2,
{
}

} // verus!
