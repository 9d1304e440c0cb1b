use vstd::prelude::*;
use vstd::string::StringSliceAdditionalSpecFns;
use crate::apng::{apng_result_spec, load_apng};
use crate::gif::{gif_result_spec, load_gif};
use crate::types::{AnimationInfo, AnimError, Frame, sum_delays};

verus! {

// ---------------------------------------------------------------------------
// Format dispatch. The decoder is chosen by the file extension alone,
// case-insensitively; file contents are never inspected for dispatch. The
// extension is read as a byte sequence: the bytes of a path after the last
// `.` of its file name, where a `.` opening the file name starts no
// extension. Multi-byte characters never collide with these ASCII bytes.
// ---------------------------------------------------------------------------

/// The decoder a path's extension selects.
#[derive(Clone, Copy, Debug, PartialEq, Eq, Structural)]
pub enum AnimFormat {
    /// `gif`: the GIF decoder.
    Gif,
    /// `png` or `apng`: the animated-PNG decoder.
    Apng,
    /// Anything else: no decoder.
    Unknown,
}

/// Path and letter bytes, by their ASCII codes.
pub const SLASH: u8 = 47;
pub const BACKSLASH: u8 = 92;
pub const DOT: u8 = 46;
pub const UPPER_A: u8 = 65;
pub const UPPER_Z: u8 = 90;
pub const LOW_A: u8 = 97;
pub const LOW_F: u8 = 102;
pub const LOW_G: u8 = 103;
pub const LOW_I: u8 = 105;
pub const LOW_N: u8 = 110;
pub const LOW_P: u8 = 112;

/// Whether a path byte separates path components.
pub open spec fn is_sep_byte(c: u8) -> bool {
    c == SLASH || c == BACKSLASH
}

/// An ASCII byte lowered to its lower-case form.
pub open spec fn lower_byte(c: u8) -> u8 {
    if UPPER_A <= c <= UPPER_Z {
        (c + 32) as u8
    } else {
        c
    }
}

/// The position right after the last path separator: where the file name
/// starts.
pub open spec fn last_sep_end(s: Seq<u8>) -> int
    decreases s.len(),
{
    if s.len() == 0 {
        0
    } else if is_sep_byte(s.last()) {
        s.len() as int
    } else {
        last_sep_end(s.drop_last())
    }
}

/// The position of the last `.` strictly after position `lo`, or -1 if
/// there is none.
pub open spec fn last_dot_after(s: Seq<u8>, lo: int) -> int
    decreases s.len(),
{
    if s.len() == 0 || s.len() <= lo + 1 {
        -1
    } else if s.last() == DOT {
        s.len() - 1
    } else {
        last_dot_after(s.drop_last(), lo)
    }
}

/// The path's extension, lower-cased: the bytes after the last `.` of the
/// file name, empty when the file name has no extension.
pub open spec fn ext_lower(s: Seq<u8>) -> Seq<u8> {
    let d = last_dot_after(s, last_sep_end(s));
    if d < 0 {
        Seq::empty()
    } else {
        Seq::new((s.len() - d - 1) as nat, |i: int| lower_byte(s[d + 1 + i]))
    }
}

/// The decoder the path's extension selects, case-insensitively.
pub open spec fn format_of(s: Seq<u8>) -> AnimFormat {
    let e = ext_lower(s);
    if e == seq![LOW_G, LOW_I, LOW_F] {
        AnimFormat::Gif
    } else if e == seq![LOW_P, LOW_N, LOW_G] || e == seq![LOW_A, LOW_P, LOW_N, LOW_G] {
        AnimFormat::Apng
    } else {
        AnimFormat::Unknown
    }
}

/// A separator at `d` followed by none: the file name starts at `d + 1`.
proof fn lemma_sep_end_at(s: Seq<u8>, d: int)
    requires
        0 <= d < s.len(),
        is_sep_byte(s[d]),
        forall|j: int| d < j < s.len() ==> !is_sep_byte(s[j]),
    ensures
        last_sep_end(s) == d + 1,
    decreases s.len(),
{
    if d < s.len() - 1 {
        assert forall|j: int| 0 <= j < s.len() - 1 implies s.drop_last()[j] == s[j] by {}
        lemma_sep_end_at(s.drop_last(), d);
    }
}

/// No separator anywhere: the file name starts at the front.
proof fn lemma_sep_end_none(s: Seq<u8>)
    requires
        forall|j: int| 0 <= j < s.len() ==> !is_sep_byte(s[j]),
    ensures
        last_sep_end(s) == 0,
    decreases s.len(),
{
    if s.len() > 0 {
        assert forall|j: int| 0 <= j < s.len() - 1 implies s.drop_last()[j] == s[j] by {}
        lemma_sep_end_none(s.drop_last());
    }
}

/// A dot at `d` past `lo` with none after it is the extension dot.
proof fn lemma_dot_at(s: Seq<u8>, lo: int, d: int)
    requires
        0 <= d,
        lo < d < s.len(),
        s[d] == DOT,
        forall|j: int| d < j < s.len() ==> s[j] != DOT,
    ensures
        last_dot_after(s, lo) == d,
    decreases s.len(),
{
    if d < s.len() - 1 {
        assert forall|j: int| 0 <= j < s.len() - 1 implies s.drop_last()[j] == s[j] by {}
        lemma_dot_at(s.drop_last(), lo, d);
    }
}

/// No dot past `lo`: the file name has no extension.
proof fn lemma_dot_none(s: Seq<u8>, lo: int)
    requires
        0 <= lo,
        forall|j: int| lo < j < s.len() ==> s[j] != DOT,
    ensures
        last_dot_after(s, lo) == -1,
    decreases s.len(),
{
    if s.len() > 0 && s.len() > lo + 1 {
        assert forall|j: int| 0 <= j < s.len() - 1 implies s.drop_last()[j] == s[j] by {}
        lemma_dot_none(s.drop_last(), lo);
    }
}

/// Where the path's file name starts: right after its last separator.
fn find_sep_end(b: &[u8]) -> (r: usize)
    ensures
        r == last_sep_end(b@),
        r <= b@.len(),
{
    let n = b.len();
    let mut i = n;
    while i > 0
        invariant
            i <= n,
            n == b@.len(),
            forall|j: int| i <= j < n ==> !is_sep_byte(b@[j]),
        decreases i,
    {
        i = i - 1;
        if b[i] == SLASH || b[i] == BACKSLASH {
            proof {
                lemma_sep_end_at(b@, i as int);
            }
            return i + 1;
        }
    }
    proof {
        lemma_sep_end_none(b@);
    }
    0
}

/// The position of the extension dot past `lo`, if the file name has one.
fn find_dot_after(b: &[u8], lo: usize) -> (r: Option<usize>)
    requires
        lo <= b@.len(),
    ensures
        r matches Some(d) ==> d == last_dot_after(b@, lo as int) && lo < d < b@.len(),
        r is None ==> last_dot_after(b@, lo as int) == -1,
{
    let n = b.len();
    if lo >= n {
        return None;
    }
    let mut i = n;
    while i > lo + 1
        invariant
            lo < n,
            lo + 1 <= i <= n || i == n,
            n == b@.len(),
            forall|j: int| i <= j < n ==> b@[j] != DOT,
        decreases i,
    {
        i = i - 1;
        if b[i] == DOT {
            proof {
                lemma_dot_at(b@, lo as int, i as int);
            }
            return Some(i);
        }
    }
    proof {
        lemma_dot_none(b@, lo as int);
    }
    None
}

/// The path's extension, lower-cased, as owned bytes.
fn ext_lower_bytes(b: &[u8]) -> (e: Vec<u8>)
    ensures
        e@ == ext_lower(b@),
{
    let n = b.len();
    let lo = find_sep_end(b);
    match find_dot_after(b, lo) {
        None => {
            let out: Vec<u8> = Vec::new();
            proof {
                assert(out@ =~= ext_lower(b@));
            }
            out
        },
        Some(d) => {
            let mut out: Vec<u8> = Vec::new();
            let mut i = d + 1;
            while i < n
                invariant
                    d + 1 <= i <= n,
                    n == b@.len(),
                    (d as int) == last_dot_after(b@, last_sep_end(b@)),
                    0 <= d < n,
                    out@.len() == i - d - 1,
                    forall|k: int| 0 <= k < out@.len() ==> out@[k] == lower_byte(b@[d + 1 + k]),
                decreases n - i,
            {
                let c = b[i];
                if UPPER_A <= c && c <= UPPER_Z {
                    out.push(c + 32);
                } else {
                    out.push(c);
                }
                i = i + 1;
            }
            proof {
                assert(out@ =~= ext_lower(b@));
            }
            out
        },
    }
}

/// The decoder the path's extension selects, case-insensitively.
pub fn animation_format(path: &str) -> (f: AnimFormat)
    ensures
        f == format_of(path.spec_bytes()),
{
    let b = path.as_bytes();
    let e = ext_lower_bytes(b);
    if e.len() == 3 && e[0] == LOW_G && e[1] == LOW_I && e[2] == LOW_F {
        proof {
            assert(e@ =~= seq![LOW_G, LOW_I, LOW_F]);
        }
        AnimFormat::Gif
    } else if e.len() == 3 && e[0] == LOW_P && e[1] == LOW_N && e[2] == LOW_G {
        proof {
            assert(e@ =~= seq![LOW_P, LOW_N, LOW_G]);
        }
        AnimFormat::Apng
    } else if e.len() == 4 && e[0] == LOW_A && e[1] == LOW_P && e[2] == LOW_N
        && e[3] == LOW_G {
        proof {
            assert(e@ =~= seq![LOW_A, LOW_P, LOW_N, LOW_G]);
        }
        AnimFormat::Apng
    } else {
        proof {
            lemma_ext_matches_nothing(e@);
        }
        AnimFormat::Unknown
    }
}

/// A byte sequence that fails all three literal comparisons is none of the
/// three recognized extensions.
proof fn lemma_ext_matches_nothing(e: Seq<u8>)
    requires
        !(e.len() == 3 && e[0] == LOW_G && e[1] == LOW_I && e[2] == LOW_F),
        !(e.len() == 3 && e[0] == LOW_P && e[1] == LOW_N && e[2] == LOW_G),
        !(e.len() == 4 && e[0] == LOW_A && e[1] == LOW_P && e[2] == LOW_N && e[3] == LOW_G),
    ensures
        e != seq![LOW_G, LOW_I, LOW_F],
        e != seq![LOW_P, LOW_N, LOW_G],
        e != seq![LOW_A, LOW_P, LOW_N, LOW_G],
{
    if e == seq![LOW_G, LOW_I, LOW_F] {
        assert(e.len() == 3 && e[0] == LOW_G && e[1] == LOW_I && e[2] == LOW_F);
    }
    if e == seq![LOW_P, LOW_N, LOW_G] {
        assert(e.len() == 3 && e[0] == LOW_P && e[1] == LOW_N && e[2] == LOW_G);
    }
    if e == seq![LOW_A, LOW_P, LOW_N, LOW_G] {
        assert(e.len() == 4 && e[0] == LOW_A && e[1] == LOW_P && e[2] == LOW_N && e[3] == LOW_G);
    }
}

// ---------------------------------------------------------------------------
// The decode entry point.
// ---------------------------------------------------------------------------

/// Decodes an animation from a file's raw bytes, choosing the decoder by
/// the path's extension alone, case-insensitively: `gif` goes to the GIF
/// decoder, `png` and `apng` to the animated-PNG decoder, and exactly every
/// other path fails with `UnsupportedFormat`. On the two decode paths the
/// full loader contract holds of the result: each failure kind comes
/// exactly from its named condition of the bytes, and well-formed bytes
/// decode successfully into exactly the codec-determined frames.
///
/// On success the summary's frame count equals the number of frames, its
/// duration is the exact sum of the frames' delays, and at least one frame
/// is returned.
pub fn load_animation(path: &str, data: Vec<u8>) -> (r: Result<(AnimationInfo, Vec<Frame>), AnimError>)
    ensures
        (r == Err::<(AnimationInfo, Vec<Frame>), AnimError>(AnimError::UnsupportedFormat))
            <==> format_of(path.spec_bytes()) is Unknown,
        format_of(path.spec_bytes()) is Gif ==> gif_result_spec(data@, r),
        format_of(path.spec_bytes()) is Apng ==> apng_result_spec(data@, r),
        r matches Ok(ok) ==> {
            &&& ok.1@.len() >= 1
            &&& ok.0.frame_count == ok.1@.len()
            &&& ok.0.duration == sum_delays(ok.1@)
            &&& forall|i: int| #![trigger ok.1@[i]] 0 <= i < ok.1@.len() ==> ok.1@[i].wf()
            &&& ok.0.width == ok.1@[0].width as u16
            &&& ok.0.height == ok.1@[0].height as u16
        },
{
    match animation_format(path) {
        AnimFormat::Gif => load_gif(data),
        AnimFormat::Apng => load_apng(data),
        AnimFormat::Unknown => Err(AnimError::UnsupportedFormat),
    }
}

} // verus!
