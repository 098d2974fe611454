//! Stream selection and mapping: each input stream is either carried into
//! the output under a dense output ordinal assigned in input order, or
//! skipped.  This core carries video streams only.

use vstd::prelude::*;

verus! {

/// The media type of an input stream, as the container reports it.
#[derive(Clone, Copy, Debug, PartialEq, Eq, Structural)]
pub enum MediaKind {
    Video,
    Audio,
    Subtitle,
    Other,
}

/// The number of video streams among the first `upto` entries of `kinds`.
pub open spec fn video_count(kinds: Seq<MediaKind>, upto: int) -> nat
    recommends
        0 <= upto <= kinds.len(),
    decreases upto when upto >= 0
{
    if upto <= 0 {
        0
    } else {
        video_count(kinds, upto - 1) + (if kinds[upto - 1] is Video {
            1nat
        } else {
            0nat
        })
    }
}

/// The prefix video count never exceeds the prefix length.
pub proof fn lemma_video_count_le(kinds: Seq<MediaKind>, upto: int)
    requires
        0 <= upto <= kinds.len(),
    ensures
        video_count(kinds, upto) <= upto,
    decreases upto,
{
    if upto > 0 {
        lemma_video_count_le(kinds, upto - 1);
    }
}

/// The prefix video count is monotone in the prefix length.
pub proof fn lemma_video_count_mono(kinds: Seq<MediaKind>, u1: int, u2: int)
    requires
        0 <= u1 <= u2 <= kinds.len(),
    ensures
        video_count(kinds, u1) <= video_count(kinds, u2),
    decreases u2 - u1,
{
    if u1 < u2 {
        lemma_video_count_mono(kinds, u1 + 1, u2);
    }
}

/// Per input-stream ordinal, either the output ordinal that carries the
/// stream or a skip mark.
pub struct StreamMapping {
    pub slots: Vec<Option<usize>>,
}

impl StreamMapping {
    /// The mapping is the one the stream kinds dictate: video streams get
    /// the dense output ordinals in input order, everything else is skipped.
    pub open spec fn matches_kinds(self, kinds: Seq<MediaKind>) -> bool {
        &&& self.slots@.len() == kinds.len()
        &&& forall|i: int|
            0 <= i < kinds.len() ==> self.slots@[i] == (if kinds[i] is Video {
                Some(video_count(kinds, i) as usize)
            } else {
                None::<usize>
            })
    }

    /// Builds the mapping for the given stream kinds.
    pub fn build(kinds: &Vec<MediaKind>) -> (r: StreamMapping)
        ensures
            r.matches_kinds(kinds@),
    {
        let n = kinds.len();
        let mut slots: Vec<Option<usize>> = Vec::new();
        let mut next: usize = 0;
        let mut i: usize = 0;
        while i < n
            invariant
                0 <= i <= n == kinds@.len(),
                slots@.len() == i,
                next == video_count(kinds@, i as int),
                forall|t: int|
                    0 <= t < i ==> slots@[t] == (if kinds@[t] is Video {
                        Some(video_count(kinds@, t) as usize)
                    } else {
                        None::<usize>
                    }),
            decreases n - i,
        {
            proof {
                lemma_video_count_le(kinds@, i as int);
            }
            match kinds[i] {
                MediaKind::Video => {
                    slots.push(Some(next));
                    next = next + 1;
                },
                _ => {
                    slots.push(None);
                },
            }
            i = i + 1;
        }
        StreamMapping { slots }
    }

    /// The number of input streams the mapping covers.
    pub fn len(&self) -> (r: usize)
        ensures
            r == self.slots@.len(),
    {
        self.slots.len()
    }

    /// Looks up where packets of input stream `ist` go: the output ordinal,
    /// or nothing when the stream is skipped.
    pub fn output_index(&self, ist: usize) -> (r: Option<usize>)
        requires
            ist < self.slots@.len(),
        ensures
            r == self.slots@[ist as int],
    {
        self.slots[ist]
    }
}

/// The first position from `i` on that is a video stream with prefix video
/// count `o`, or the length of `kinds` when there is none.
pub open spec fn vp_from(kinds: Seq<MediaKind>, i: int, o: int) -> int
    recommends
        0 <= i <= kinds.len(),
    decreases kinds.len() - i when 0 <= i <= kinds.len()
{
    if i >= kinds.len() {
        kinds.len() as int
    } else if kinds[i] is Video && video_count(kinds, i) == o {
        i
    } else {
        vp_from(kinds, i + 1, o)
    }
}

/// The input index of the video stream that carries output ordinal `o`.
pub open spec fn video_position(kinds: Seq<MediaKind>, o: int) -> int {
    vp_from(kinds, 0, o)
}

/// Positions that do not carry ordinal `o` do not move its video position.
proof fn lemma_vp_skip(kinds: Seq<MediaKind>, j: int, i: int, o: int)
    requires
        0 <= j <= i <= kinds.len(),
        forall|k: int| j <= k < i ==> !(kinds[k] is Video && video_count(kinds, k) == o),
    ensures
        vp_from(kinds, j, o) == vp_from(kinds, i, o),
    decreases i - j,
{
    if j < i {
        lemma_vp_skip(kinds, j + 1, i, o);
    }
}

/// A video stream at input index `i` is the one found for its own prefix
/// video count: the ordinal-to-position lookup inverts the assignment.
pub proof fn lemma_video_position(kinds: Seq<MediaKind>, i: int)
    requires
        0 <= i < kinds.len(),
        kinds[i] is Video,
    ensures
        video_position(kinds, video_count(kinds, i) as int) == i,
{
    let o = video_count(kinds, i) as int;
    assert forall|k: int| 0 <= k < i implies !(kinds[k] is Video && video_count(kinds, k) == o) by {
        if kinds[k] is Video {
            lemma_video_count_mono(kinds, k + 1, i);
        }
    }
    lemma_vp_skip(kinds, 0, i, o);
}

/// Output ordinal `o` is assigned to some input stream of the mapping.
pub open spec fn ordinal_taken(m: StreamMapping, o: int) -> bool {
    exists|i: int| 0 <= i < m.slots@.len() && #[trigger] m.slots@[i] == Some(o as usize)
}

/// The mapping carries exactly the video streams, assigns distinct output
/// ordinals in increasing input order, and uses every ordinal below the
/// video count: a dense, order-preserving assignment.
pub proof fn lemma_mapping_dense(m: StreamMapping, kinds: Seq<MediaKind>)
    requires
        m.matches_kinds(kinds),
        kinds.len() <= usize::MAX,
    ensures
        forall|i: int| 0 <= i < kinds.len() ==> ((#[trigger] m.slots@[i]) is Some <==> kinds[i] is Video),
        forall|i: int, j: int|
            0 <= i < j < kinds.len() && m.slots@[i] is Some && m.slots@[j] is Some
                ==> (#[trigger] m.slots@[i]).unwrap() < (#[trigger] m.slots@[j]).unwrap(),
        forall|o: int| 0 <= o < video_count(kinds, kinds.len() as int) ==> #[trigger] ordinal_taken(m, o),
{
    assert forall|i: int, j: int|
        0 <= i < j < kinds.len() && m.slots@[i] is Some && m.slots@[j] is Some implies (
    #[trigger] m.slots@[i]).unwrap() < (#[trigger] m.slots@[j]).unwrap() by {
        lemma_video_count_mono(kinds, i + 1, j);
        lemma_video_count_le(kinds, i);
        lemma_video_count_le(kinds, j);
        lemma_video_count_mono(kinds, j, kinds.len() as int);
    }
    assert forall|o: int| 0 <= o < video_count(kinds, kinds.len() as int) implies #[trigger] ordinal_taken(m, o) by {
        lemma_ordinal_hit(kinds, kinds.len() as int, o);
        let i = choose|i: int| 0 <= i < kinds.len() && kinds[i] is Video && video_count(kinds, i) == o;
        lemma_video_count_le(kinds, i);
        assert(m.slots@[i] == Some(o as usize));
    }
}

/// Every ordinal below the prefix video count is taken at some video
/// position inside the prefix.
proof fn lemma_ordinal_hit(kinds: Seq<MediaKind>, upto: int, o: int)
    requires
        0 <= upto <= kinds.len(),
        0 <= o < video_count(kinds, upto),
    ensures
        exists|i: int| 0 <= i < upto && kinds[i] is Video && video_count(kinds, i) == o,
    decreases upto,
{
    if upto > 0 {
        if kinds[upto - 1] is Video && video_count(kinds, upto - 1) == o {
            assert(0 <= upto - 1 < upto && kinds[upto - 1] is Video && video_count(
                kinds,
                upto - 1,
            ) == o);
        } else {
            lemma_ordinal_hit(kinds, upto - 1, o);
            let i = choose|i: int|
                0 <= i < upto - 1 && kinds[i] is Video && video_count(kinds, i) == o;
            assert(0 <= i < upto && kinds[i] is Video && video_count(kinds, i) == o);
        }
    }
}

} // verus!
