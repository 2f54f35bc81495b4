use std::ops::Range;
use vstd::prelude::*;

use crate::text::{
    chars_of, lemma_split_on_bounds, lemma_split_on_chars, lemma_split_on_covers, lemma_split_on_nonempty,
    split_chars, split_on,
};

verus! {

/// Largest extent (in pixels) of a map, and largest magnitude of a point
/// coordinate, that the library handles.
pub const COORD_LIMIT: i64 = 0x2000_0000_0000_0000;

/// How the camera moves when it enters a fixed screen.
#[derive(Debug, Clone, Copy, PartialEq, Eq, Structural)]
pub enum Transition {
    Smooth,
    Hard,
}

impl Default for Transition {
    fn default() -> (t: Self)
        ensures
            t == Transition::Smooth,
    {
        Transition::Smooth
    }
}

/// A point of the game world given by the pixel that holds it: the integer
/// parts, rounded down, of its coordinates. Screen bounds are whole pixels,
/// so a point lies in a screen exactly when its pixel does.
#[derive(Debug, Clone, Copy, PartialEq, Eq, Structural)]
pub struct PixelPoint {
    pub x: i64,
    pub y: i64,
}

/// A screen of a map: its place in the grid of screens, the pixels it covers
/// and what the map says of it.
#[derive(Debug, PartialEq)]
pub struct Screen {
    x_index: usize,
    y_index: usize,
    x_range: Range<i64>,
    y_range: Range<i64>,
    start_screen: bool,
    allowed_screen: bool,
    fixed_screen: bool,
    transition: Transition,
}

/// What a screen is, as mathematical values.
pub struct ScreenView {
    pub x_index: int,
    pub y_index: int,
    pub x_start: int,
    pub x_end: int,
    pub y_start: int,
    pub y_end: int,
    pub start_screen: bool,
    pub allowed_screen: bool,
    pub fixed_screen: bool,
    pub transition: Transition,
}

impl View for Screen {
    type V = ScreenView;

    closed spec fn view(&self) -> ScreenView {
        ScreenView {
            x_index: self.x_index as int,
            y_index: self.y_index as int,
            x_start: self.x_range.start as int,
            x_end: self.x_range.end as int,
            y_start: self.y_range.start as int,
            y_end: self.y_range.end as int,
            start_screen: self.start_screen,
            allowed_screen: self.allowed_screen,
            fixed_screen: self.fixed_screen,
            transition: self.transition,
        }
    }
}

/// The letters a screen map is written with.
pub open spec fn is_screen_letter(c: char) -> bool {
    c == 'X' || c == 'O' || c == 'S' || c == 'F' || c == 'H'
}

/// The screen that letter `c` at column `i` and row `j` stands for, in a map
/// whose screens are `sw` x `sh` pixels and that is `width` x `height` pixels
/// in all. The origin is the middle of the map; `y` grows upwards.
pub open spec fn screen_spec(
    c: char,
    i: int,
    j: int,
    sw: int,
    sh: int,
    width: int,
    height: int,
) -> ScreenView {
    let hc = width / 2;
    let vc = height / 2;
    ScreenView {
        x_index: i,
        y_index: j,
        x_start: i * sw - hc,
        x_end: i * sw + sw - hc,
        y_start: height - (j * sh + sh) - vc + 1,
        y_end: height - j * sh - vc + 1,
        start_screen: c == 'S',
        allowed_screen: c != 'X',
        fixed_screen: c == 'F' || c == 'H',
        transition: if c == 'H' {
            Transition::Hard
        } else {
            Transition::Smooth
        },
    }
}

/// The letter that describes a screen.
pub open spec fn screen_letter(s: ScreenView) -> char {
    if !s.allowed_screen {
        'X'
    } else if s.start_screen {
        'S'
    } else if !s.fixed_screen {
        'O'
    } else if s.transition == Transition::Hard {
        'H'
    } else {
        'F'
    }
}

/// `true` when `p` lies in `s` widened by `mx` pixels on the left and right
/// and by `my` pixels at the top and bottom.
pub open spec fn in_box(s: ScreenView, p: PixelPoint, mx: int, my: int) -> bool {
    &&& s.x_start - mx <= p.x < s.x_end + mx
    &&& s.y_start - my <= p.y < s.y_end + my
}

/// The map as mathematical values: its size in pixels, the size of its
/// screens and the grid of screens, row by row from the top.
pub struct MapView {
    pub width: int,
    pub height: int,
    pub screen_width: int,
    pub screen_height: int,
    pub screens: Seq<Seq<ScreenView>>,
}

/// `true` when `(i, j)` (column, row) names a screen of `m`.
pub open spec fn valid_index(m: MapView, i: int, j: int) -> bool {
    0 <= j < m.screens.len() && 0 <= i < m.screens[j].len()
}

/// `true` when the screen at column `i`, row `j` is the first one, reading
/// the rows from the top and each row from the left, that holds `p` widened
/// by the margins.
pub open spec fn first_in_box(m: MapView, i: int, j: int, p: PixelPoint, mx: int, my: int) -> bool {
    &&& valid_index(m, i, j)
    &&& in_box(m.screens[j][i], p, mx, my)
    &&& forall|i2: int, j2: int|
        #![trigger m.screens[j2][i2]]
        valid_index(m, i2, j2) && (j2 < j || (j2 == j && i2 < i)) ==> !in_box(
            m.screens[j2][i2],
            p,
            mx,
            my,
        )
}

/// `true` when no screen of `m` holds `p` widened by the margins.
pub open spec fn no_box(m: MapView, p: PixelPoint, mx: int, my: int) -> bool {
    forall|i: int, j: int|
        #![trigger m.screens[j][i]]
        valid_index(m, i, j) ==> !in_box(m.screens[j][i], p, mx, my)
}

/// Column and row of the screen that `ScreenMap::get_screen` finds.
pub open spec fn screen_index_at(m: MapView, p: PixelPoint, mx: int, my: int) -> Option<(int, int)> {
    if exists|i: int, j: int| first_in_box(m, i, j, p, mx, my) {
        Some(choose|i: int, j: int| first_in_box(m, i, j, p, mx, my))
    } else {
        None
    }
}

/// The first screen in row-major order with the start flag.
pub open spec fn first_start(m: MapView, i: int, j: int) -> bool {
    &&& valid_index(m, i, j)
    &&& m.screens[j][i].start_screen
    &&& forall|i2: int, j2: int|
        #![trigger m.screens[j2][i2]]
        valid_index(m, i2, j2) && (j2 < j || (j2 == j && i2 < i))
            ==> !m.screens[j2][i2].start_screen
}

/// `true` when some screen of `m` is a start screen.
pub open spec fn has_start_screen(m: MapView) -> bool {
    exists|i: int, j: int| #[trigger] valid_index(m, i, j) && m.screens[j][i].start_screen
}

/// The rows of a screen map.
pub open spec fn map_rows(screen_map: Seq<char>) -> Seq<Seq<char>> {
    split_on(screen_map, '\n')
}

/// `true` when every character of the map is a screen letter or a line break.
pub open spec fn valid_screen_map(screen_map: Seq<char>) -> bool {
    forall|k: int| 0 <= k < screen_map.len() && screen_map[k] != '\n' ==> #[trigger] is_screen_letter(
        screen_map[k],
    )
}

/// `true` when a pixel extent is within what the library handles and what
/// a `usize` holds.
pub open spec fn extent_fits(v: int) -> bool {
    v <= COORD_LIMIT && v <= usize::MAX
}

/// `true` when the map's pixel extents stay within what the library handles:
/// the map, the rows of screens times the screen height high and each row's
/// screens times the screen width wide, is at most `COORD_LIMIT` pixels
/// across either way, so that every screen bound, and every point that the
/// camera computes from one, fits in an `i64`.
pub open spec fn map_fits(screen_map: Seq<char>, sw: int, sh: int) -> bool {
    let rows = map_rows(screen_map);
    &&& extent_fits(rows.len() * sh)
    &&& forall|j: int| 0 <= j < rows.len() ==> extent_fits(#[trigger] rows[j].len() * sw)
}

/// A screen map of reasonable size, with screens of reasonable size, fits.
pub proof fn lemma_small_map_fits(screen_map: Seq<char>, sw: int, sh: int)
    requires
        screen_map.len() < 0x1000,
        0 <= sw <= 0x1_0000,
        0 <= sh <= 0x1_0000,
    ensures
        map_fits(screen_map, sw, sh),
{
    lemma_split_on_bounds(screen_map, '\n');
    let rows = map_rows(screen_map);
    assert(rows.len() * sh <= 0x1001 * 0x1_0000) by (nonlinear_arith)
        requires
            rows.len() <= 0x1000,
            0 <= sh <= 0x1_0000,
    ;
    assert forall|j: int| 0 <= j < rows.len() implies extent_fits(#[trigger] rows[j].len() * sw) by {
        assert(rows[j].len() <= screen_map.len());
        assert(rows[j].len() * sw <= 0x1000 * 0x1_0000) by (nonlinear_arith)
            requires
                rows[j].len() <= 0x1000,
                0 <= sw <= 0x1_0000,
        ;
    }
}

/// The map that `ScreenMap::new` builds from a screen map.
pub open spec fn map_spec(screen_map: Seq<char>, sw: int, sh: int) -> MapView {
    let rows = map_rows(screen_map);
    let width = rows[0].len() * sw;
    let height = rows.len() * sh;
    MapView {
        width,
        height,
        screen_width: sw,
        screen_height: sh,
        screens: Seq::new(
            rows.len(),
            |j: int| Seq::new(rows[j].len(), |i: int| screen_spec(rows[j][i], i, j, sw, sh, width, height)),
        ),
    }
}

/// The game coordinates of the Tiled coordinates `(x, y)`: Tiled puts the
/// origin at the top left of the whole map with `y` growing downwards, the
/// game at the middle of the map with `y` growing upwards.
pub open spec fn bevy_of_tiled(m: MapView, x: int, y: int) -> (int, int) {
    (x - m.width / 2, -(y - m.height / 2) - 1)
}

/// The whole map of screens of a level.
///
/// This `struct` is created by [`ScreenMap::new`].
#[derive(Debug, PartialEq)]
pub struct ScreenMap {
    width: usize,
    height: usize,
    screen_width: usize,
    screen_height: usize,
    data: Vec<Vec<Screen>>,
}

impl View for ScreenMap {
    type V = MapView;

    closed spec fn view(&self) -> MapView {
        MapView {
            width: self.width as int,
            height: self.height as int,
            screen_width: self.screen_width as int,
            screen_height: self.screen_height as int,
            screens: Seq::new(
                self.data@.len(),
                |j: int| Seq::new(self.data@[j]@.len(), |i: int| self.data@[j]@[i]@),
            ),
        }
    }
}

/// `true` when every screen of `m` sits where its indices say and covers the
/// pixels that its column and row give it.
pub open spec fn map_wf(m: MapView) -> bool {
    &&& 0 <= m.width <= COORD_LIMIT
    &&& 0 <= m.height <= COORD_LIMIT
    &&& 0 <= m.screen_width
    &&& 0 <= m.screen_height
    &&& m.screens.len() >= 1
    &&& m.height == m.screens.len() * m.screen_height
    &&& forall|i: int, j: int|
        #![trigger m.screens[j][i]]
        valid_index(m, i, j) ==> {
            &&& m.screens[j][i] == screen_spec(
                screen_letter(m.screens[j][i]),
                i,
                j,
                m.screen_width,
                m.screen_height,
                m.width,
                m.height,
            )
            &&& extent_fits((i + 1) * m.screen_width)
        }
}

/// `true` when the screen's bounds stay well inside `i64`.
pub open spec fn screen_bounded(s: ScreenView) -> bool {
    &&& -COORD_LIMIT <= s.x_start <= COORD_LIMIT
    &&& -COORD_LIMIT <= s.x_end <= COORD_LIMIT
    &&& -COORD_LIMIT <= s.y_start <= COORD_LIMIT
    &&& -COORD_LIMIT <= s.y_end <= COORD_LIMIT
}

/// The pixel at the middle of a screen (its center, rounded down; the
/// vertical coordinate is one pixel lower).
pub open spec fn center_spec(s: ScreenView) -> (int, int) {
    ((s.x_start + s.x_end) / 2, (s.y_start + s.y_end) / 2 - 1)
}

/// `true` when both coordinates of `p` are within the handled magnitude,
/// twice `COORD_LIMIT`: half a screen more, for the corners of a camera
/// around `p`, still fits in an `i64`.
pub open spec fn point_fits(p: PixelPoint) -> bool {
    -2 * COORD_LIMIT <= p.x <= 2 * COORD_LIMIT && -2 * COORD_LIMIT <= p.y <= 2 * COORD_LIMIT
}

/// `true` when a camera of the map's screen size can be placed around a
/// point: the screens are at least two pixels wide and high and not larger
/// than the handled extent. The corners of the camera are half a screen,
/// less one pixel, away from its center, which needs a screen of two pixels
/// at least (with a narrower one that distance is negative, and a `usize`
/// cannot hold it).
pub open spec fn camera_fits(m: MapView) -> bool {
    2 <= m.screen_width <= COORD_LIMIT && 2 <= m.screen_height <= COORD_LIMIT
}

impl Screen {
    #[verifier::type_invariant]
    spec fn bounded(&self) -> bool {
        screen_bounded(self@)
    }

    /// Returns `true` if the point is in the screen.
    pub fn contains(&self, point: &PixelPoint) -> (b: bool)
        ensures
            b == in_box(self@, *point, 0, 0),
    {
        self.x_range.start <= point.x && point.x < self.x_range.end && self.y_range.start <= point.y
            && point.y < self.y_range.end
    }

    /// Returns the center of the screen, as the pixel that holds it.
    pub fn get_center(&self) -> (c: PixelPoint)
        ensures
            c.x as int == center_spec(self@).0,
            c.y as int == center_spec(self@).1,
    {
        proof {
            use_type_invariant(self);
        }
        let sx = self.x_range.start as i128 + self.x_range.end as i128;
        let sy = self.y_range.start as i128 + self.y_range.end as i128;
        let cx = half_floor(sx);
        let cy = half_floor(sy);
        PixelPoint { x: cx as i64, y: (cy - 1) as i64 }
    }

    /// Returns the center of the screen moved `dx` pixels to the right.
    pub fn center_shifted(&self, dx: i64) -> (c: PixelPoint)
        requires
            -COORD_LIMIT <= dx <= COORD_LIMIT,
        ensures
            c.x as int == center_spec(self@).0 + dx,
            c.y as int == center_spec(self@).1,
    {
        proof {
            use_type_invariant(self);
        }
        let c = self.get_center();
        PixelPoint { x: c.x + dx, y: c.y }
    }

    /// Returns the indices (column, row) of the screen; the origin is at the
    /// top left.
    pub fn get_indices(&self) -> (r: (usize, usize))
        ensures
            r.0 as int == self@.x_index,
            r.1 as int == self@.y_index,
    {
        (self.x_index, self.y_index)
    }

    /// Returns the ranges of pixels that the screen covers.
    pub fn get_ranges(&self) -> (r: (Range<i64>, Range<i64>))
        ensures
            r.0.start as int == self@.x_start,
            r.0.end as int == self@.x_end,
            r.1.start as int == self@.y_start,
            r.1.end as int == self@.y_end,
    {
        (
            Range { start: self.x_range.start, end: self.x_range.end },
            Range { start: self.y_range.start, end: self.y_range.end },
        )
    }

    /// Returns `true` if the screen is a start screen (an 'S' in the map).
    pub fn is_start_screen(&self) -> (b: bool)
        ensures
            b == self@.start_screen,
    {
        self.start_screen
    }

    /// Returns `true` if the screen can be seen (any letter but 'X').
    pub fn is_allowed_screen(&self) -> (b: bool)
        ensures
            b == self@.allowed_screen,
    {
        self.allowed_screen
    }

    /// Returns `true` if the screen is fixed (an 'F' or an 'H').
    pub fn is_fixed_screen(&self) -> (b: bool)
        ensures
            b == self@.fixed_screen,
    {
        self.fixed_screen
    }

    /// Returns the transition of the screen.
    pub fn get_transition(&self) -> (t: Transition)
        ensures
            t == self@.transition,
    {
        self.transition
    }
}

/// `v / 2`, rounded down.
fn half_floor(v: i128) -> (r: i128)
    requires
        -0x1_0000_0000_0000_0000_0000 <= v <= 0x1_0000_0000_0000_0000_0000,
    ensures
        r as int == v as int / 2,
{
    if v >= 0 {
        (v as u128 / 2) as i128
    } else {
        let t: u128 = ((-v) as u128 + 1) / 2;
        -(t as i128)
    }
}

/// Builds the screen that letter `c` stands for.
fn make_screen(c: char, i: usize, j: usize, sw: usize, sh: usize, width: usize, height: usize) -> (s:
    Screen)
    requires
        is_screen_letter(c),
        extent_fits((i + 1) * sw),
        (j + 1) * sh <= height <= COORD_LIMIT,
        width <= COORD_LIMIT,
    ensures
        s@ == screen_spec(c, i as int, j as int, sw as int, sh as int, width as int, height as int),
{
    assert((i + 1) * sw == i * sw + sw) by (nonlinear_arith);
    assert((j + 1) * sh == j * sh + sh) by (nonlinear_arith);
    assert(0 <= i * sw) by (nonlinear_arith);
    assert(0 <= j * sh) by (nonlinear_arith);
    let x0: usize = i * sw;
    let y0: usize = j * sh;
    let hc = (width / 2) as i64;
    let vc = (height / 2) as i64;
    let x_range = Range { start: x0 as i64 - hc, end: (x0 + sw) as i64 - hc };
    let y_range = Range {
        start: (height as i64 - (y0 + sh) as i64 - vc) + 1,
        end: (height as i64 - y0 as i64 - vc) + 1,
    };
    Screen {
        x_index: i,
        y_index: j,
        x_range,
        y_range,
        start_screen: c == 'S',
        allowed_screen: c != 'X',
        fixed_screen: c == 'F' || c == 'H',
        transition: if c == 'H' {
            Transition::Hard
        } else {
            Transition::Smooth
        },
    }
}


/// The four corners of a camera centred on `p`, as (x, y) pixels, in
/// clockwise order from the bottom right: p0 bottom right, p1 bottom left,
/// p2 top left, p3 top right.
pub open spec fn camera_corner(m: MapView, p: PixelPoint, k: int) -> (int, int) {
    let hw = m.screen_width / 2;
    let hh = m.screen_height / 2;
    if k == 0 {
        (p.x + (hw - 1), p.y - hh + 1)
    } else if k == 1 {
        (p.x - hw, p.y - hh + 1)
    } else if k == 2 {
        (p.x - hw, p.y + (hh - 1) + 1)
    } else {
        (p.x + (hw - 1), p.y + (hh - 1) + 1)
    }
}

/// `true` when `p` lies on a screen that can be seen.
pub open spec fn on_allowed_screen(m: MapView, p: PixelPoint) -> bool {
    match screen_index_at(m, p, 0, 0) {
        Some((i, j)) => m.screens[j][i].allowed_screen,
        None => false,
    }
}

/// `true` when both ends of a camera edge lie on screens that can be seen.
pub open spec fn edge_on_screen(m: MapView, a: PixelPoint, b: PixelPoint) -> bool {
    on_allowed_screen(m, a) && on_allowed_screen(m, b)
}

/// Sign of the change of a coordinate between two positions.
#[derive(Debug, Clone, Copy, PartialEq, Eq, Structural)]
pub enum Motion {
    Backward,
    Still,
    Forward,
}

/// What the camera does along one axis.
#[derive(Debug, Clone, Copy, PartialEq, Eq, Structural)]
pub enum AxisMove {
    /// Stays where it was.
    Keep,
    /// Goes to the requested position.
    Follow,
    /// Sticks to this coordinate, the center of the screen of the requested
    /// position.
    Center(i64),
}

/// What the camera does along both axes.
#[derive(Debug, Clone, Copy, PartialEq, Eq, Structural)]
pub struct CameraMove {
    pub x: AxisMove,
    pub y: AxisMove,
}

/// The motion from one coordinate to another.
pub open spec fn motion_spec(from: int, to: int) -> Motion {
    if to > from {
        Motion::Forward
    } else if to < from {
        Motion::Backward
    } else {
        Motion::Still
    }
}

/// The motion from one coordinate to another, for positions given in
/// whole pixels.
pub fn motion_between(from: i64, to: i64) -> (m: Motion)
    ensures
        m == motion_spec(from as int, to as int),
{
    if to > from {
        Motion::Forward
    } else if to < from {
        Motion::Backward
    } else {
        Motion::Still
    }
}

/// The coordinate that an axis move gives, from the camera's coordinate and
/// the requested one.
pub open spec fn axis_target(m: AxisMove, old: i64, new: i64) -> i64 {
    match m {
        AxisMove::Keep => old,
        AxisMove::Follow => new,
        AxisMove::Center(c) => c,
    }
}

impl CameraMove {
    /// Where the camera goes, before any smoothing, from `old_pos` when
    /// `new_pos` was requested.
    pub fn target(&self, old_pos: PixelPoint, new_pos: PixelPoint) -> (p: PixelPoint)
        ensures
            p.x == axis_target(self.x, old_pos.x, new_pos.x),
            p.y == axis_target(self.y, old_pos.y, new_pos.y),
    {
        let x = match self.x {
            AxisMove::Keep => old_pos.x,
            AxisMove::Follow => new_pos.x,
            AxisMove::Center(c) => c,
        };
        let y = match self.y {
            AxisMove::Keep => old_pos.y,
            AxisMove::Follow => new_pos.y,
            AxisMove::Center(c) => c,
        };
        PixelPoint { x, y }
    }
}

/// The pixel given by two coordinates.
pub open spec fn pixel(x: int, y: int) -> PixelPoint {
    PixelPoint { x: x as i64, y: y as i64 }
}

/// The corner `k` of a camera centred on `p`, as a pixel.
pub open spec fn corner_pixel(m: MapView, p: PixelPoint, k: int) -> PixelPoint {
    pixel(camera_corner(m, p, k).0, camera_corner(m, p, k).1)
}

/// What the camera does along one axis: it follows the request when the
/// leading edge of the camera, at the requested place, lies on screens that
/// can be seen; otherwise it sticks to the center of the screen of the
/// requested position, if there is one.
pub open spec fn axis_move_spec(
    m: MapView,
    motion: Motion,
    forward_edge: bool,
    backward_edge: bool,
    target: PixelPoint,
    horizontal: bool,
) -> AxisMove {
    if motion == Motion::Still {
        AxisMove::Keep
    } else if (motion == Motion::Forward && forward_edge) || (motion == Motion::Backward
        && backward_edge) {
        AxisMove::Follow
    } else {
        match screen_index_at(m, target, 0, 0) {
            Some((i, j)) => AxisMove::Center(
                (if horizontal {
                    center_spec(m.screens[j][i]).0
                } else {
                    center_spec(m.screens[j][i]).1
                }) as i64,
            ),
            None => AxisMove::Keep,
        }
    }
}

/// The coordinate that an axis move leaves the camera at.
pub open spec fn axis_result(mv: AxisMove, old: i64, new: i64) -> i64 {
    match mv {
        AxisMove::Keep => old,
        AxisMove::Follow => new,
        AxisMove::Center(c) => c,
    }
}

/// The move of a camera from `old_pos` towards `new_pos`; moving right the
/// leading edge is p0-p3, left p1-p2, up p2-p3 and down p0-p1.
pub open spec fn camera_move_spec(
    m: MapView,
    old_pos: PixelPoint,
    new_pos: PixelPoint,
    dx: Motion,
    dy: Motion,
) -> CameraMove {
    let hp = pixel(new_pos.x as int, old_pos.y as int);
    let xm = axis_move_spec(
        m,
        dx,
        edge_on_screen(m, corner_pixel(m, hp, 0), corner_pixel(m, hp, 3)),
        edge_on_screen(m, corner_pixel(m, hp, 1), corner_pixel(m, hp, 2)),
        new_pos,
        true,
    );
    let vp = pixel(axis_result(xm, old_pos.x, new_pos.x) as int, new_pos.y as int);
    let ym = axis_move_spec(
        m,
        dy,
        edge_on_screen(m, corner_pixel(m, vp, 2), corner_pixel(m, vp, 3)),
        edge_on_screen(m, corner_pixel(m, vp, 0), corner_pixel(m, vp, 1)),
        new_pos,
        false,
    );
    CameraMove { x: xm, y: ym }
}

/// Column and row of the screen above the one that holds `p`.
pub open spec fn above_index(m: MapView, p: PixelPoint) -> Option<(int, int)> {
    match screen_index_at(m, p, 0, 0) {
        Some((i, j)) => if j > 0 && valid_index(m, i, j - 1) {
            Some((i, j - 1))
        } else {
            None
        },
        None => None,
    }
}

/// Column and row of the screen below the one that holds `p`.
pub open spec fn below_index(m: MapView, p: PixelPoint) -> Option<(int, int)> {
    match screen_index_at(m, p, 0, 0) {
        Some((i, j)) => if valid_index(m, i, j + 1) {
            Some((i, j + 1))
        } else {
            None
        },
        None => None,
    }
}

/// `true` when `r` is the screen at the index `idx` of `m`, one that knows
/// its own column and row to be that index, or nothing when there is no
/// index.
pub open spec fn is_screen_at(m: MapView, r: Option<&Screen>, idx: Option<(int, int)>) -> bool {
    match idx {
        Some((i, j)) => r matches Some(s) && s@ == m.screens[j][i] && s@.x_index == i && s@.y_index == j,
        None => r is None,
    }
}

/// There is at most one first screen holding a point.
pub proof fn lemma_first_in_box_unique(
    m: MapView,
    p: PixelPoint,
    mx: int,
    my: int,
    i: int,
    j: int,
    i2: int,
    j2: int,
)
    requires
        first_in_box(m, i, j, p, mx, my),
        first_in_box(m, i2, j2, p, mx, my),
    ensures
        i == i2 && j == j2,
{
    if j2 < j || (j2 == j && i2 < i) {
        assert(!in_box(m.screens[j2][i2], p, mx, my));
    }
    if j < j2 || (j == j2 && i < i2) {
        assert(!in_box(m.screens[j][i], p, mx, my));
    }
}

/// When `(i, j)` is the first screen holding `p`, it is the one that
/// `screen_index_at` names.
pub proof fn lemma_screen_index_at(m: MapView, p: PixelPoint, mx: int, my: int, i: int, j: int)
    requires
        first_in_box(m, i, j, p, mx, my),
    ensures
        screen_index_at(m, p, mx, my) == Some((i, j)),
{
    let (a, b) = choose|a: int, b: int| first_in_box(m, a, b, p, mx, my);
    lemma_first_in_box_unique(m, p, mx, my, i, j, a, b);
}

/// A letter's screen is described by that letter.
pub proof fn lemma_screen_letter(c: char, i: int, j: int, sw: int, sh: int, width: int, height: int)
    requires
        is_screen_letter(c),
    ensures
        screen_letter(screen_spec(c, i, j, sw, sh, width, height)) == c,
{
}

/// In a well-formed map, at most one screen holds a given point: the
/// screens of a map never overlap.
pub proof fn lemma_screens_disjoint(m: MapView, p: PixelPoint, i: int, j: int, i2: int, j2: int)
    requires
        map_wf(m),
        valid_index(m, i, j),
        valid_index(m, i2, j2),
        in_box(m.screens[j][i], p, 0, 0),
        in_box(m.screens[j2][i2], p, 0, 0),
    ensures
        i == i2 && j == j2,
{
    let sw = m.screen_width;
    let sh = m.screen_height;
    let a = m.screens[j][i];
    let b = m.screens[j2][i2];
    assert(a == screen_spec(screen_letter(a), i, j, sw, sh, m.width, m.height));
    assert(b == screen_spec(screen_letter(b), i2, j2, sw, sh, m.width, m.height));
    assert((i + 1) * sw == i * sw + sw) by (nonlinear_arith);
    assert((i2 + 1) * sw == i2 * sw + sw) by (nonlinear_arith);
    assert((j + 1) * sh == j * sh + sh) by (nonlinear_arith);
    assert((j2 + 1) * sh == j2 * sh + sh) by (nonlinear_arith);
    if i < i2 {
        assert((i + 1) * sw <= i2 * sw) by (nonlinear_arith)
            requires
                i + 1 <= i2,
                sw >= 0,
        ;
    }
    if i2 < i {
        assert((i2 + 1) * sw <= i * sw) by (nonlinear_arith)
            requires
                i2 + 1 <= i,
                sw >= 0,
        ;
    }
    if j < j2 {
        assert((j + 1) * sh <= j2 * sh) by (nonlinear_arith)
            requires
                j + 1 <= j2,
                sh >= 0,
        ;
    }
    if j2 < j {
        assert((j2 + 1) * sh <= j * sh) by (nonlinear_arith)
            requires
                j2 + 1 <= j,
                sh >= 0,
        ;
    }
}

/// With no margins, the screen that `ScreenMap::get_screen` finds is the one
/// and only screen that holds the point.
pub proof fn lemma_screen_index_at_exact(m: MapView, p: PixelPoint, i: int, j: int)
    requires
        map_wf(m),
        valid_index(m, i, j),
        in_box(m.screens[j][i], p, 0, 0),
    ensures
        screen_index_at(m, p, 0, 0) == Some((i, j)),
{
    assert forall|i2: int, j2: int|
        #![trigger m.screens[j2][i2]]
        valid_index(m, i2, j2) && (j2 < j || (j2 == j && i2 < i)) implies !in_box(
        m.screens[j2][i2],
        p,
        0,
        0,
    ) by {
        if in_box(m.screens[j2][i2], p, 0, 0) {
            lemma_screens_disjoint(m, p, i, j, i2, j2);
        }
    }
    assert(first_in_box(m, i, j, p, 0, 0));
    lemma_screen_index_at(m, p, 0, 0, i, j);
}

/// A screen that holds `p` widened by the margins, at `(i0, j0)`, makes
/// some screen the first one that does.
proof fn lemma_first_exists(m: MapView, p: PixelPoint, mx: int, my: int, i0: int, j0: int)
    requires
        valid_index(m, i0, j0),
        in_box(m.screens[j0][i0], p, mx, my),
    ensures
        exists|i: int, j: int| first_in_box(m, i, j, p, mx, my),
    decreases j0, i0,
{
    if !first_in_box(m, i0, j0, p, mx, my) {
        let (i2, j2) = choose|i2: int, j2: int|
            #![trigger m.screens[j2][i2]]
            valid_index(m, i2, j2) && (j2 < j0 || (j2 == j0 && i2 < i0)) && in_box(m.screens[j2][i2], p, mx, my);
        lemma_first_exists(m, p, mx, my, i2, j2);
    }
}

/// `ScreenMap::get_screen` finds no screen exactly when no screen of the
/// map, widened by the margins, holds the point.
pub proof fn lemma_get_screen_none_iff(m: MapView, p: PixelPoint, mx: int, my: int)
    ensures
        screen_index_at(m, p, mx, my) is None <==> no_box(m, p, mx, my),
{
    if screen_index_at(m, p, mx, my) is None {
        assert forall|i: int, j: int| #![trigger m.screens[j][i]] valid_index(m, i, j) implies !in_box(
            m.screens[j][i],
            p,
            mx,
            my,
        ) by {
            if in_box(m.screens[j][i], p, mx, my) {
                lemma_first_exists(m, p, mx, my, i, j);
            }
        }
    } else {
        let (i, j) = choose|i: int, j: int| first_in_box(m, i, j, p, mx, my);
        assert(valid_index(m, i, j) && in_box(m.screens[j][i], p, mx, my));
    }
}

/// Wider margins never lose a screen: when `ScreenMap::get_screen` finds a
/// screen for a point with some margins, it finds one with any margins at
/// least as wide.
pub proof fn lemma_get_screen_wider_margins(m: MapView, p: PixelPoint, mx: int, my: int, mx2: int, my2: int)
    requires
        mx <= mx2,
        my <= my2,
        screen_index_at(m, p, mx, my) is Some,
    ensures
        screen_index_at(m, p, mx2, my2) is Some,
{
    let (i, j) = choose|i: int, j: int| first_in_box(m, i, j, p, mx, my);
    assert(valid_index(m, i, j) && in_box(m.screens[j][i], p, mx, my));
    lemma_first_exists(m, p, mx2, my2, i, j);
}

/// A map built from a screen map has a start screen, so that
/// `ScreenMap::get_start_screen` can be asked for it, exactly when the
/// screen map holds an 'S'.
pub proof fn lemma_start_screen_iff(screen_map: Seq<char>, sw: int, sh: int)
    ensures
        has_start_screen(map_spec(screen_map, sw, sh)) <==> screen_map.contains('S'),
{
    let m = map_spec(screen_map, sw, sh);
    let rows = map_rows(screen_map);
    lemma_split_on_chars(screen_map, '\n');
    if has_start_screen(m) {
        let (i, j) = choose|i: int, j: int| #[trigger] valid_index(m, i, j) && m.screens[j][i].start_screen;
        assert(rows[j][i] == 'S');
    }
    if screen_map.contains('S') {
        let k = choose|k: int| 0 <= k < screen_map.len() && screen_map[k] == 'S';
        lemma_split_on_covers(screen_map, '\n', k);
        let (j, i) = choose|j: int, i: int|
            0 <= j < rows.len() && 0 <= i < rows[j].len() && #[trigger] rows[j][i] == screen_map[k];
        assert(valid_index(m, i, j));
        assert(m.screens[j][i].start_screen);
    }
}

/// In a map built from a screen map, the screen at column `i` of row `r`
/// knows its column and row, and says what the letter `c` there says: it
/// can be seen unless `c` is 'X', it is the start screen when `c` is 'S',
/// it is fixed when `c` is 'F' or 'H', with a hard transition when `c` is
/// 'H'.
pub proof fn lemma_new_screen_letters(screen_map: Seq<char>, sw: int, sh: int, i: int, r: int)
    requires
        0 <= r < map_rows(screen_map).len(),
        0 <= i < map_rows(screen_map)[r].len(),
    ensures
        valid_index(map_spec(screen_map, sw, sh), i, r),
        ({
            let s = map_spec(screen_map, sw, sh).screens[r][i];
            let c = map_rows(screen_map)[r][i];
            &&& s.x_index == i && s.y_index == r
            &&& s.allowed_screen == (c != 'X')
            &&& s.start_screen == (c == 'S')
            &&& s.fixed_screen == (c == 'F' || c == 'H')
            &&& (s.transition == Transition::Hard) == (c == 'H')
        }),
{
}

/// Converting from Tiled coordinates keeps horizontal moves and mirrors
/// vertical ones: moving a point by `(dx, dy)` in Tiled coordinates moves
/// its game coordinates by `(dx, -dy)`.
pub proof fn lemma_tiled_translation(m: MapView, x: int, y: int, dx: int, dy: int)
    ensures
        bevy_of_tiled(m, x + dx, y + dy) == (bevy_of_tiled(m, x, y).0 + dx, bevy_of_tiled(m, x, y).1 - dy),
{
}

/// A camera asked to go where it already is stays there: both motions are
/// still, so it keeps both coordinates, and its target is where it was.
pub proof fn lemma_camera_stays_put(m: MapView, pos: PixelPoint)
    ensures
        motion_spec(pos.x as int, pos.x as int) == Motion::Still,
        motion_spec(pos.y as int, pos.y as int) == Motion::Still,
        camera_move_spec(
            m,
            pos,
            pos,
            motion_spec(pos.x as int, pos.x as int),
            motion_spec(pos.y as int, pos.y as int),
        ) == (CameraMove { x: AxisMove::Keep, y: AxisMove::Keep }),
        axis_target(AxisMove::Keep, pos.x, pos.x) == pos.x,
        axis_target(AxisMove::Keep, pos.y, pos.y) == pos.y,
{
}

/// `true` when every row of the map has as many screens as the map is wide.
pub open spec fn is_rectangular(m: MapView) -> bool {
    forall|j: int| 0 <= j < m.screens.len() ==> #[trigger] m.screens[j].len() * m.screen_width == m.width
}

/// A point given in Tiled coordinates, once converted to game coordinates,
/// lies on the screen of column `tx / screen_width` and row
/// `(ty + 1) / screen_height`, for a rectangular map of even height whose
/// screens are not empty. (The conversion lands one pixel lower than the
/// Tiled row boundaries: the last pixel row of each Tiled row of screens
/// belongs to the screen below.)
pub proof fn lemma_tiled_point_on_screen(m: MapView, tx: int, ty: int)
    requires
        map_wf(m),
        is_rectangular(m),
        m.height % 2 == 0,
        m.screen_width > 0,
        m.screen_height > 0,
        0 <= tx < m.width,
        0 <= ty + 1 < m.height,
    ensures
        screen_index_at(
            m,
            PixelPoint { x: (tx - m.width / 2) as i64, y: (-(ty - m.height / 2) - 1) as i64 },
            0,
            0,
        ) == Some((tx / m.screen_width, (ty + 1) / m.screen_height)),
{
    let sw = m.screen_width;
    let sh = m.screen_height;
    let i = tx / sw;
    let j = (ty + 1) / sh;
    let p = PixelPoint { x: (tx - m.width / 2) as i64, y: (-(ty - m.height / 2) - 1) as i64 };
    vstd::arithmetic::div_mod::lemma_fundamental_div_mod(tx, sw);
    vstd::arithmetic::div_mod::lemma_fundamental_div_mod(ty + 1, sh);
    vstd::arithmetic::div_mod::lemma_mod_bound(tx, sw);
    vstd::arithmetic::div_mod::lemma_mod_bound(ty + 1, sh);
    vstd::arithmetic::div_mod::lemma_div_pos_is_pos(tx, sw);
    vstd::arithmetic::div_mod::lemma_div_pos_is_pos(ty + 1, sh);
    assert(sw * i <= tx < sw * i + sw);
    assert(sh * j <= ty + 1 < sh * j + sh);
    assert(j < m.screens.len()) by {
        assert(m.height == m.screens.len() * sh);
        if j >= m.screens.len() {
            assert(sh * j >= sh * m.screens.len()) by (nonlinear_arith)
                requires
                    j >= m.screens.len(),
                    sh > 0,
            ;
        }
    }
    assert(i < m.screens[j].len()) by {
        assert(m.screens[j].len() * sw == m.width);
        if i >= m.screens[j].len() {
            assert(sw * i >= sw * m.screens[j].len()) by (nonlinear_arith)
                requires
                    i >= m.screens[j].len(),
                    sw > 0,
            ;
        }
    }
    assert(valid_index(m, i, j));
    let s = m.screens[j][i];
    assert(s == screen_spec(screen_letter(s), i, j, sw, sh, m.width, m.height));
    assert(i * sw == sw * i && j * sh == sh * j) by (nonlinear_arith);
    assert(in_box(s, p, 0, 0));
    lemma_screen_index_at_exact(m, p, i, j);
}

impl ScreenMap {
    #[verifier::type_invariant]
    spec fn wf(&self) -> bool {
        map_wf(self@)
    }

    /// Creates a map of screens from a text with one letter per screen and
    /// one line per row of screens:
    ///
    /// - 'X' screen can't be seen
    /// - 'O' screen can be seen
    /// - 'S' start screen
    /// - 'F' fixed screen, smooth transition
    /// - 'H' fixed screen, hard transition
    ///
    /// The map is as wide as the first row and as high as all rows; its
    /// origin is its middle, with `y` growing upwards.
    pub fn new(screen_map: &str, screen_width: usize, screen_height: usize) -> (m: Self)
        requires
            valid_screen_map(screen_map@),
            map_fits(screen_map@, screen_width as int, screen_height as int),
        ensures
            m@ == map_spec(screen_map@, screen_width as int, screen_height as int),
    {
        let chars = chars_of(screen_map);
        let rows = split_chars(&chars, '\n');
        let ghost r = map_rows(screen_map@);
        proof {
            lemma_split_on_nonempty(screen_map@, '\n');
            lemma_split_on_chars(screen_map@, '\n');
        }
        assert(rows.deep_view() == r);
        let nrows = rows.len();
        assert(rows@[0]@ == rows.deep_view()[0]);
        let vert_size: usize = nrows * screen_height;
        let horiz_size: usize = rows[0].len() * screen_width;
        let ghost width = horiz_size as int;
        let ghost height = vert_size as int;
        let mut data: Vec<Vec<Screen>> = Vec::new();
        for j in 0..nrows
            invariant
                nrows == r.len(),
                rows.deep_view() == r,
                r == map_rows(screen_map@),
                valid_screen_map(screen_map@),
                map_fits(screen_map@, screen_width as int, screen_height as int),
                forall|jj: int, ii: int|
                    0 <= jj < r.len() && 0 <= ii < r[jj].len() ==> {
                        &&& #[trigger] r[jj][ii] != '\n'
                        &&& screen_map@.contains(r[jj][ii])
                    },
                vert_size == nrows * screen_height,
                horiz_size as int == r[0].len() * screen_width,
                horiz_size <= COORD_LIMIT,
                vert_size <= COORD_LIMIT,
                data@.len() == j,
                forall|jj: int|
                    0 <= jj < j ==> (#[trigger] data@[jj])@.len() == r[jj].len(),
                forall|jj: int, ii: int|
                    0 <= jj < j && 0 <= ii < r[jj].len() ==> (#[trigger] data@[jj]@[ii])@
                        == screen_spec(
                        r[jj][ii],
                        ii,
                        jj,
                        screen_width as int,
                        screen_height as int,
                        horiz_size as int,
                        vert_size as int,
                    ),
        {
            assert(rows@[j as int]@ == r[j as int]);
            let row_len = rows[j].len();
            assert(extent_fits(r[j as int].len() * screen_width));
            assert((j + 1) * screen_height <= nrows * screen_height) by (nonlinear_arith)
                requires
                    j < nrows,
            ;
            let mut line: Vec<Screen> = Vec::new();
            for i in 0..row_len
                invariant
                    row_len == r[j as int].len(),
                    rows@.len() == nrows,
                    rows@[j as int]@ == r[j as int],
                    j < nrows,
                    (j + 1) * screen_height <= vert_size,
                    vert_size <= COORD_LIMIT,
                    horiz_size <= COORD_LIMIT,
                    extent_fits(r[j as int].len() * screen_width),
                    valid_screen_map(screen_map@),
                    forall|ii: int|
                        0 <= ii < r[j as int].len() ==> {
                            &&& #[trigger] r[j as int][ii] != '\n'
                            &&& screen_map@.contains(r[j as int][ii])
                        },
                    line@.len() == i,
                    forall|ii: int|
                        0 <= ii < i ==> (#[trigger] line@[ii])@ == screen_spec(
                            r[j as int][ii],
                            ii,
                            j as int,
                            screen_width as int,
                            screen_height as int,
                            horiz_size as int,
                            vert_size as int,
                        ),
            {
                let c = rows[j][i];
                assert(c == r[j as int][i as int]);
                assert(is_screen_letter(c)) by {
                    assert(c != '\n');
                    assert(screen_map@.contains(c));
                    let k = choose|k: int| 0 <= k < screen_map@.len() && screen_map@[k] == c;
                    assert(is_screen_letter(screen_map@[k]));
                }
                assert((i + 1) * screen_width <= row_len * screen_width) by (nonlinear_arith)
                    requires
                        i < row_len,
                ;
                line.push(
                    make_screen(c, i, j, screen_width, screen_height, horiz_size, vert_size),
                );
            }
            data.push(line);
        }
        let ghost spec = map_spec(screen_map@, screen_width as int, screen_height as int);
        let ghost built = Seq::new(
            data@.len(),
            |j: int| Seq::new(data@[j]@.len(), |i: int| data@[j]@[i]@),
        );
        assert(built =~~= spec.screens);
        proof {
            assert forall|i: int, j: int| #[trigger] valid_index(spec, i, j) implies {
                &&& spec.screens[j][i] == screen_spec(
                    screen_letter(spec.screens[j][i]),
                    i,
                    j,
                    spec.screen_width,
                    spec.screen_height,
                    spec.width,
                    spec.height,
                )
                &&& extent_fits((i + 1) * spec.screen_width)
            } by {
                assert(r[j][i] != '\n');
                let k = choose|k: int| 0 <= k < screen_map@.len() && screen_map@[k] == r[j][i];
                assert(is_screen_letter(screen_map@[k]));
                lemma_screen_letter(
                    r[j][i],
                    i,
                    j,
                    screen_width as int,
                    screen_height as int,
                    width,
                    height,
                );
                assert(extent_fits(r[j].len() * screen_width));
                assert((i + 1) * screen_width <= r[j].len() * screen_width) by (nonlinear_arith)
                    requires
                        i < r[j].len(),
                        screen_width >= 0,
                ;
            }
            assert(map_wf(spec));
        }
        let m = ScreenMap {
            width: horiz_size,
            height: vert_size,
            screen_width,
            screen_height,
            data,
        };
        m
    }

    /// The width of the map, in pixels.
    pub fn width(&self) -> (r: usize)
        ensures
            r == self@.width,
    {
        self.width
    }

    /// The height of the map, in pixels.
    pub fn height(&self) -> (r: usize)
        ensures
            r == self@.height,
    {
        self.height
    }

    /// The width of a screen, in pixels.
    pub fn screen_width(&self) -> (r: usize)
        ensures
            r == self@.screen_width,
    {
        self.screen_width
    }

    /// The height of a screen, in pixels.
    pub fn screen_height(&self) -> (r: usize)
        ensures
            r == self@.screen_height,
    {
        self.screen_height
    }

    /// The screens, row by row from the top.
    pub fn screens(&self) -> (r: &Vec<Vec<Screen>>)
        ensures
            r@.len() == self@.screens.len(),
            forall|j: int| 0 <= j < r@.len() ==> #[trigger] r@[j]@.len() == self@.screens[j].len(),
            forall|i: int, j: int| valid_index(self@, i, j) ==> #[trigger] r@[j]@[i]@ == self@.screens[j][i],
    {
        &self.data
    }

    /// Converts Tiled coordinates (origin at the top left of the whole map,
    /// `y` growing downwards) to game coordinates (origin at the middle of
    /// the map, `y` growing upwards).
    pub fn tiled_to_bevy_coord(&self, tiled_coord: PixelPoint) -> (p: PixelPoint)
        requires
            point_fits(tiled_coord),
        ensures
            p.x == tiled_coord.x - self@.width / 2,
            p.y == -(tiled_coord.y - self@.height / 2) - 1,
            (p.x as int, p.y as int) == bevy_of_tiled(self@, tiled_coord.x as int, tiled_coord.y as int),
    {
        proof {
            use_type_invariant(self);
        }
        let hw = (self.width / 2) as i64;
        let hh = (self.height / 2) as i64;
        PixelPoint { x: tiled_coord.x - hw, y: -(tiled_coord.y - hh) - 1 }
    }

    /// Column and row of the first screen, reading rows from the top and
    /// each row from the left, that holds `point` once widened by `margin_x`
    /// and `margin_y` pixels.
    fn get_screen_index(&self, point: PixelPoint, margin_x: i64, margin_y: i64) -> (r: Option<
        (usize, usize),
    >)
        ensures
            match r {
                Some((i, j)) => first_in_box(self@, i as int, j as int, point, margin_x as int, margin_y as int),
                None => no_box(self@, point, margin_x as int, margin_y as int),
            },
    {
        let nrows = self.data.len();
        for j in 0..nrows
            invariant
                nrows == self.data@.len(),
                forall|i2: int, j2: int|
                    #![trigger self@.screens[j2][i2]]
                    valid_index(self@, i2, j2) && j2 < j ==> !in_box(
                        self@.screens[j2][i2],
                        point,
                        margin_x as int,
                        margin_y as int,
                    ),
        {
            let row = &self.data[j];
            let ncols = row.len();
            for i in 0..ncols
                invariant
                    nrows == self.data@.len(),
                    j < nrows,
                    row == &self.data@[j as int],
                    ncols == row@.len(),
                    forall|i2: int, j2: int|
                        #![trigger self@.screens[j2][i2]]
                        valid_index(self@, i2, j2) && (j2 < j || (j2 == j && i2 < i)) ==> !in_box(
                            self@.screens[j2][i2],
                            point,
                            margin_x as int,
                            margin_y as int,
                        ),
            {
                let screen = &row[i];
                assert(screen@ == self@.screens[j as int][i as int]);
                let mx = margin_x as i128;
                let my = margin_y as i128;
                if screen.x_range.start as i128 - mx <= point.x as i128 && (point.x as i128)
                    < screen.x_range.end as i128 + mx && screen.y_range.start as i128 - my
                    <= point.y as i128 && (point.y as i128) < screen.y_range.end as i128 + my {
                    return Some((i, j));
                }
            }
        }
        None
    }

    /// Returns the screen that holds `point`, the map's screens being widened
    /// by `margin_x` pixels on the left and right and `margin_y` pixels at
    /// the top and bottom; the first one, reading rows from the top and each
    /// row from the left, when there are several.
    pub fn get_screen(&self, point: PixelPoint, margin_x: i64, margin_y: i64) -> (r: Option<&Screen>)
        ensures
            is_screen_at(self@, r, screen_index_at(self@, point, margin_x as int, margin_y as int)),
    {
        proof {
            use_type_invariant(self);
        }
        match self.get_screen_index(point, margin_x, margin_y) {
            Some((i, j)) => {
                proof {
                    lemma_screen_index_at(self@, point, margin_x as int, margin_y as int, i as int, j as int);
                }
                assert(self.data@[j as int]@[i as int]@ == self@.screens[j as int][i as int]);
                Some(&self.data[j][i])
            },
            None => {
                assert(!exists|i: int, j: int| first_in_box(self@, i, j, point, margin_x as int, margin_y as int));
                None
            },
        }
    }

    /// Returns the screen at column `index_x` and row `index_y` (origin at
    /// the top left), or `None` if there is none.
    pub fn get_screen_from_index(&self, index_x: usize, index_y: usize) -> (r: Option<&Screen>)
        ensures
            is_screen_at(
                self@,
                r,
                if valid_index(self@, index_x as int, index_y as int) {
                    Some((index_x as int, index_y as int))
                } else {
                    None
                },
            ),
    {
        proof {
            use_type_invariant(self);
        }
        if index_y < self.data.len() && index_x < self.data[index_y].len() {
            assert(self.data@[index_y as int]@[index_x as int]@ == self@.screens[index_y as int][index_x as int]);
            Some(&self.data[index_y][index_x])
        } else {
            None
        }
    }

    /// Returns the screen above the screen that holds `point`, if any.
    pub fn get_above_screen(&self, point: PixelPoint) -> (r: Option<&Screen>)
        ensures
            is_screen_at(self@, r, above_index(self@, point)),
    {
        proof {
            use_type_invariant(self);
        }
        let screen = match self.get_screen(point, 0, 0) {
            Some(screen) => screen,
            None => return None,
        };
        let (x_index, y_index) = screen.get_indices();
        let ghost ij = screen_index_at(self@, point, 0, 0)->0;
        assert(self@.screens[ij.1][ij.0].x_index == ij.0);
        if y_index == 0 {
            return None;
        }
        self.get_screen_from_index(x_index, y_index - 1)
    }

    /// Returns the screen below the screen that holds `point`, if any.
    pub fn get_below_screen(&self, point: PixelPoint) -> (r: Option<&Screen>)
        ensures
            is_screen_at(self@, r, below_index(self@, point)),
    {
        proof {
            use_type_invariant(self);
        }
        let screen = match self.get_screen(point, 0, 0) {
            Some(screen) => screen,
            None => return None,
        };
        let (x_index, y_index) = screen.get_indices();
        let ghost ij = screen_index_at(self@, point, 0, 0)->0;
        assert(self@.screens[ij.1][ij.0].x_index == ij.0);
        assert(self@.screens[ij.1][ij.0].y_index == ij.1);
        let nrows = self.data.len();
        assert(ij.1 < nrows);
        self.get_screen_from_index(x_index, y_index + 1)
    }

    /// Returns `true` when the map has a start screen, so that
    /// `get_start_screen` can be asked for it.
    pub fn has_start_screen(&self) -> (b: bool)
        ensures
            b == has_start_screen(self@),
    {
        let nrows = self.data.len();
        for j in 0..nrows
            invariant
                nrows == self.data@.len(),
                forall|i2: int, j2: int|
                    #![trigger self@.screens[j2][i2]]
                    valid_index(self@, i2, j2) && j2 < j ==> !self@.screens[j2][i2].start_screen,
        {
            let row = &self.data[j];
            let ncols = row.len();
            for i in 0..ncols
                invariant
                    nrows == self.data@.len(),
                    j < nrows,
                    row == &self.data@[j as int],
                    ncols == row@.len(),
                    forall|i2: int, j2: int|
                        #![trigger self@.screens[j2][i2]]
                        valid_index(self@, i2, j2) && (j2 < j || (j2 == j && i2 < i))
                            ==> !self@.screens[j2][i2].start_screen,
            {
                assert(row@[i as int]@ == self@.screens[j as int][i as int]);
                if row[i].start_screen {
                    assert(valid_index(self@, i as int, j as int));
                    return true;
                }
            }
        }
        false
    }

    /// Returns the start screen: the first screen marked 'S', reading rows
    /// from the top and each row from the left.
    pub fn get_start_screen(&self) -> (r: &Screen)
        requires
            has_start_screen(self@),
        ensures
            exists|i: int, j: int|
                first_start(self@, i, j) && r@ == self@.screens[j][i] && r@.x_index == i && r@.y_index == j,
    {
        proof {
            use_type_invariant(self);
        }
        let nrows = self.data.len();
        for j in 0..nrows
            invariant
                nrows == self.data@.len(),
                has_start_screen(self@),
                map_wf(self@),
                forall|i2: int, j2: int|
                    #![trigger self@.screens[j2][i2]]
                    valid_index(self@, i2, j2) && j2 < j ==> !self@.screens[j2][i2].start_screen,
        {
            let row = &self.data[j];
            let ncols = row.len();
            for i in 0..ncols
                invariant
                    nrows == self.data@.len(),
                    j < nrows,
                    row == &self.data@[j as int],
                    ncols == row@.len(),
                    map_wf(self@),
                    forall|i2: int, j2: int|
                        #![trigger self@.screens[j2][i2]]
                        valid_index(self@, i2, j2) && (j2 < j || (j2 == j && i2 < i))
                            ==> !self@.screens[j2][i2].start_screen,
            {
                let screen = &row[i];
                assert(screen@ == self@.screens[j as int][i as int]);
                if screen.start_screen {
                    assert(first_start(self@, i as int, j as int));
                    assert(valid_index(self@, i as int, j as int));
                    return screen;
                }
            }
        }
        proof {
            let (i, j) = choose|i: int, j: int| #[trigger] valid_index(self@, i, j) && self@.screens[j][i].start_screen;
            assert(self@.screens[j][i].start_screen);
        }
        unreached()
    }

    /// Returns the four corners of a camera of the size of a screen centred
    /// on `point`, clockwise from the bottom right:
    ///
    /// ```text
    ///  p2 +------------+ p3
    ///     |            |
    ///  p1 +------------+ p0
    /// ```
    pub fn get_camera_points_coords(&self, point: PixelPoint) -> (r: Vec<PixelPoint>)
        requires
            point_fits(point),
            camera_fits(self@),
        ensures
            r@.len() == 4,
            forall|k: int|
                0 <= k < 4 ==> (#[trigger] r@[k]).x as int == camera_corner(self@, point, k).0
                    && r@[k].y as int == camera_corner(self@, point, k).1,
    {
        let hw = (self.screen_width / 2) as i64;
        let hh = (self.screen_height / 2) as i64;
        let p0 = PixelPoint { x: point.x + (hw - 1), y: point.y - hh + 1 };
        let p1 = PixelPoint { x: point.x - hw, y: point.y - hh + 1 };
        let p2 = PixelPoint { x: point.x - hw, y: point.y + (hh - 1) + 1 };
        let p3 = PixelPoint { x: point.x + (hw - 1), y: point.y + (hh - 1) + 1 };
        let mut v = Vec::new();
        v.push(p0);
        v.push(p1);
        v.push(p2);
        v.push(p3);
        v
    }

    /// Returns `true` when both ends of the camera edge from point `edge.0`
    /// to point `edge.1` lie on screens that can be seen.
    pub fn is_camera_edge_on_screen(&self, camera_points: &[PixelPoint], edge: (usize, usize)) -> (b:
        bool)
        requires
            edge.0 < camera_points@.len(),
            edge.1 < camera_points@.len(),
        ensures
            b == edge_on_screen(self@, camera_points@[edge.0 as int], camera_points@[edge.1 as int]),
    {
        let (p1, p2) = edge;
        let a = match self.get_screen(camera_points[p1], 0, 0) {
            Some(screen) => screen.is_allowed_screen(),
            None => false,
        };
        let b = match self.get_screen(camera_points[p2], 0, 0) {
            Some(screen) => screen.is_allowed_screen(),
            None => false,
        };
        a && b
    }

    /// Decides how the camera moves from `old_pos` towards `new_pos`, given
    /// the sign of the move along each axis.
    ///
    /// Along an axis where the camera moves, it follows the request when its
    /// leading edge stays on screens that can be seen; otherwise it sticks to
    /// the center of the screen that holds `new_pos`. The horizontal move is
    /// decided first; the vertical one is decided for the camera at its new
    /// horizontal place.
    pub fn move_camera(&self, old_pos: PixelPoint, new_pos: PixelPoint, dx: Motion, dy: Motion) -> (r:
        CameraMove)
        requires
            point_fits(old_pos),
            point_fits(new_pos),
            camera_fits(self@),
        ensures
            r == camera_move_spec(self@, old_pos, new_pos, dx, dy),
    {
        let hp = PixelPoint { x: new_pos.x, y: old_pos.y };
        let points = self.get_camera_points_coords(hp);
        assert(points@[0] == corner_pixel(self@, hp, 0));
        assert(points@[1] == corner_pixel(self@, hp, 1));
        assert(points@[2] == corner_pixel(self@, hp, 2));
        assert(points@[3] == corner_pixel(self@, hp, 3));
        let xm = if dx == Motion::Still {
            AxisMove::Keep
        } else if (dx == Motion::Forward && self.is_camera_edge_on_screen(points.as_slice(), (0, 3)))
            || (dx == Motion::Backward && self.is_camera_edge_on_screen(points.as_slice(), (1, 2))) {
            AxisMove::Follow
        } else {
            match self.get_screen(new_pos, 0, 0) {
                Some(screen) => {
                    proof {
                        use_type_invariant(screen);
                    }
                    AxisMove::Center(screen.get_center().x)
                },
                None => AxisMove::Keep,
            }
        };
        let cx = match xm {
            AxisMove::Keep => old_pos.x,
            AxisMove::Follow => new_pos.x,
            AxisMove::Center(c) => c,
        };
        let vp = PixelPoint { x: cx, y: new_pos.y };
        let points = self.get_camera_points_coords(vp);
        assert(points@[0] == corner_pixel(self@, vp, 0));
        assert(points@[1] == corner_pixel(self@, vp, 1));
        assert(points@[2] == corner_pixel(self@, vp, 2));
        assert(points@[3] == corner_pixel(self@, vp, 3));
        let ym = if dy == Motion::Still {
            AxisMove::Keep
        } else if (dy == Motion::Forward && self.is_camera_edge_on_screen(points.as_slice(), (2, 3)))
            || (dy == Motion::Backward && self.is_camera_edge_on_screen(points.as_slice(), (0, 1))) {
            AxisMove::Follow
        } else {
            match self.get_screen(new_pos, 0, 0) {
                Some(screen) => AxisMove::Center(screen.get_center().y),
                None => AxisMove::Keep,
            }
        };
        CameraMove { x: xm, y: ym }
    }
}

} // verus!
