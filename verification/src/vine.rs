use vstd::prelude::*;

use crate::screen_map::{bevy_of_tiled, PixelPoint, ScreenMap};
use crate::text::{chars_of, str_eq, string_of};

verus! {

/// The pictures a vine is drawn with.
#[derive(Debug, Clone, Copy, PartialEq, Eq, Structural)]
pub enum VineTexture {
    /// The bud that appears first.
    Bud,
    /// The root, at the top.
    Root,
    /// The end under the root alone.
    RootEnd,
    /// A chunk leaning left.
    Left,
    /// The end under a chunk leaning right.
    LeftEnd,
    /// A chunk leaning right.
    Right,
    /// The end under a chunk leaning left.
    RightEnd,
}

/// A vine that grows once an enigma is solved: where its root is (game
/// coordinates), how many chunks it grows, and the enigma.
#[derive(Debug)]
pub struct VineData {
    pub pos: PixelPoint,
    pub size: usize,
    pub associated_enigma: String,
}

/// The Tiled position of the root and the size of the vine of an enigma.
pub open spec fn vine_table(enigma: Seq<char>) -> Option<(int, int, nat)> {
    if enigma == "story100-03"@ {
        Some((7272, 42, 35))
    } else if enigma == "story101-03"@ {
        Some((12568, 1538, 31))
    } else {
        None
    }
}

/// The vine that grows when the enigma `enigma` is solved, on the map `m`:
/// its root in game coordinates and its size.
pub open spec fn vine_spec(enigma: Seq<char>, m: crate::screen_map::MapView) -> Option<((int, int), nat)> {
    match vine_table(enigma) {
        Some((x, y, size)) => Some((bevy_of_tiled(m, x, y), size)),
        None => None,
    }
}

/// The vine that grows when `enigma` is solved, if any.
pub fn vine_data_for(enigma: &str, map: &ScreenMap) -> (r: Option<VineData>)
    ensures
        match vine_spec(enigma@, map@) {
            Some((p, size)) => r matches Some(v) && (v.pos.x as int, v.pos.y as int) == p && v.size
                == size && v.associated_enigma@ == enigma@,
            None => r is None,
        },
{
    if str_eq(enigma, "story100-03") {
        let pos = map.tiled_to_bevy_coord(PixelPoint { x: 7272, y: 42 });
        Some(VineData { pos, size: 35, associated_enigma: string_of(&chars_of(enigma)) })
    } else if str_eq(enigma, "story101-03") {
        let pos = map.tiled_to_bevy_coord(PixelPoint { x: 12568, y: 1538 });
        Some(VineData { pos, size: 31, associated_enigma: string_of(&chars_of(enigma)) })
    } else {
        None
    }
}

/// What a tick of growth does to a vine, from the number of chunks of the
/// vine drawn so far (`None` when none is drawn yet).
#[derive(Debug, Clone, Copy, PartialEq, Eq, Structural)]
pub enum VineStep {
    /// The bud appears.
    Bud,
    /// The vine is fully grown and stays as it is.
    Keep,
    /// The vine is drawn again with this number of chunks.
    Grow(usize),
}

/// The number of chunks after a tick: a bud (no chunk) appears first, then
/// one chunk is added at each tick until the vine has its full size.
pub open spec fn grown(current: Option<nat>, size: nat) -> Option<nat> {
    match current {
        None => Some(0),
        Some(c) => if c >= size {
            Some(c)
        } else {
            Some(c + 1)
        },
    }
}

/// A tick of growth of a vine of `size` chunks.
pub fn vine_step(current: Option<usize>, size: usize) -> (r: VineStep)
    ensures
        match current {
            None => r == VineStep::Bud,
            Some(c) => if c >= size {
                r == VineStep::Keep
            } else {
                r == VineStep::Grow((c + 1) as usize)
            },
        },
{
    match current {
        None => VineStep::Bud,
        Some(c) => if c >= size {
            VineStep::Keep
        } else {
            VineStep::Grow(c + 1)
        },
    }
}

/// The number of chunks after `k` ticks from no vine.
pub open spec fn chunks_after(size: nat, k: nat) -> Option<nat>
    decreases k,
{
    if k == 0 {
        None
    } else {
        grown(chunks_after(size, (k - 1) as nat), size)
    }
}

/// A vine shows its bud at the first tick, then gains one chunk per tick
/// until it has its full size, and then stays as it is.
pub proof fn lemma_vine_grows_to_size(size: nat, k: nat)
    ensures
        chunks_after(size, k + 1) == Some(if k <= size {
            k
        } else {
            size
        }),
    decreases k,
{
    assert(chunks_after(size, 0) == None::<nat>);
    if k > 0 {
        lemma_vine_grows_to_size(size, (k - 1) as nat);
        assert(chunks_after(size, k + 1) == grown(chunks_after(size, k), size));
    }
}

/// How a vine with some chunks is drawn: the pieces under the root, each
/// with its vertical offset below the root (in pixels, negative downwards),
/// and its collider (a thin box) as the vertical offset of its center and
/// its half height.
#[derive(Debug)]
pub struct VineLayout {
    pub root: VineTexture,
    pub pieces: Vec<(VineTexture, i64)>,
    pub collider_center_y: i64,
    pub collider_half_height: i64,
}

/// The offset below the root of the piece that comes `i`-th under it: the
/// root is 24 pixels high and each chunk 16.
pub open spec fn piece_offset(i: int) -> int {
    -16 * i - 24
}

/// The chunk that comes `i`-th under the root: right and left in turn.
pub open spec fn chunk_piece(i: int) -> (VineTexture, int) {
    (
        if i % 2 == 0 {
            VineTexture::Right
        } else {
            VineTexture::Left
        },
        piece_offset(i),
    )
}

/// The pieces under the root of a vine of `count` chunks: the chunks, right
/// and left in turn from the top, each one chunk lower, then the end that
/// matches the last chunk. A vine of no chunk has its own end.
pub open spec fn pieces_spec(count: nat) -> Seq<(VineTexture, int)> {
    if count == 0 {
        seq![(VineTexture::RootEnd, piece_offset(0))]
    } else {
        Seq::new(count, |i: int| chunk_piece(i)).push(
            (
                if count % 2 == 0 {
                    VineTexture::LeftEnd
                } else {
                    VineTexture::RightEnd
                },
                piece_offset(count as int),
            ),
        )
    }
}

/// The collider of a vine of `count` chunks: the vertical offset of its
/// center and its half height (it covers the root, the chunks and the end).
/// A vine of no chunk has a box of its own, as high as the 32 pixels of a
/// bud.
pub open spec fn collider_spec(count: nat) -> (int, int) {
    if count == 0 {
        (-8, 16)
    } else {
        (-((16 * count + 8) / 2), ((16 * count + 24 + 16) / 2) as int)
    }
}

/// The pieces as mathematical values.
pub open spec fn pieces_view(v: Seq<(VineTexture, i64)>) -> Seq<(VineTexture, int)> {
    Seq::new(v.len(), |i: int| (v[i].0, v[i].1 as int))
}

/// How a vine of `count` chunks is drawn.
pub fn vine_layout(count: usize) -> (l: VineLayout)
    requires
        count <= 0x1_0000_0000,
    ensures
        l.root == VineTexture::Root,
        pieces_view(l.pieces@) == pieces_spec(count as nat),
        (l.collider_center_y as int, l.collider_half_height as int) == collider_spec(count as nat),
{
    let mut pieces: Vec<(VineTexture, i64)> = Vec::new();
    if count == 0 {
        pieces.push((VineTexture::RootEnd, -24));
        assert(pieces_view(pieces@) =~= pieces_spec(0));
        return VineLayout { root: VineTexture::Root, pieces, collider_center_y: -8, collider_half_height: 16 };
    }
    for i in 0..count
        invariant
            count <= 0x1_0000_0000,
            pieces_view(pieces@) == Seq::new(i as nat, |k: int| chunk_piece(k)),
    {
        let t = if i % 2 == 0 {
            VineTexture::Right
        } else {
            VineTexture::Left
        };
        let ii: i64 = i as i64;
        let y = 0 - 16 * ii - 24;
        assert(pieces_view(pieces@).len() == i);
        let ghost before = pieces@;
        pieces.push((t, y));
        assert(pieces_view(pieces@)[i as int] == chunk_piece(i as int));
        assert forall|k: int| 0 <= k < i implies pieces_view(pieces@)[k] == chunk_piece(k) by {
            assert(pieces@[k] == before[k]);
            assert(pieces_view(before)[k] == chunk_piece(k));
        }
        assert(pieces_view(pieces@) =~= Seq::new((i + 1) as nat, |k: int| chunk_piece(k)));
    }
    let end = if count % 2 == 0 {
        VineTexture::LeftEnd
    } else {
        VineTexture::RightEnd
    };
    let c = count as i64;
    assert(c == count && c <= 0x1_0000_0000);
    pieces.push((end, 0 - 16 * c - 24));
    assert(pieces_view(pieces@) =~= pieces_spec(count as nat));
    VineLayout {
        root: VineTexture::Root,
        pieces,
        collider_center_y: -((16 * c + 8) / 2),
        collider_half_height: (16 * c + 24 + 16) / 2,
    }
}

} // verus!
