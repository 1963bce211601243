//! The editor's state and how it reacts to input.
//!
//! The model keeps what the editor decides on: which control points exist
//! (by id), which point or tangent handle is being dragged, whether the
//! parameter slider is being dragged, and which kind of curve is shown.
//! Positions, tangent vectors and the curve parameter are geometry kept by the
//! caller; the caller hands in, for each input event, the outcome of its
//! hit tests as plain flags, and carries out the returned [`Effects`].
use vstd::prelude::*;

verus! {

/// Which kind of curve the editor shows.
#[derive(Clone, Copy, Debug, PartialEq, Eq, Structural)]
pub enum VisualizationMode {
    FullBezier,
    PiecewiseSpline,
    HermiteSpline,
    BSpline,
}

impl VisualizationMode {
    /// The mode that follows `self` when the user cycles through the modes.
    pub open spec fn following(self) -> VisualizationMode {
        match self {
            VisualizationMode::FullBezier => VisualizationMode::PiecewiseSpline,
            VisualizationMode::PiecewiseSpline => VisualizationMode::HermiteSpline,
            VisualizationMode::HermiteSpline => VisualizationMode::BSpline,
            VisualizationMode::BSpline => VisualizationMode::FullBezier,
        }
    }

    /// Cycles to the next visualization mode.
    pub fn next(self) -> (m: VisualizationMode)
        ensures
            m == self.following(),
    {
        match self {
            VisualizationMode::FullBezier => VisualizationMode::PiecewiseSpline,
            VisualizationMode::PiecewiseSpline => VisualizationMode::HermiteSpline,
            VisualizationMode::HermiteSpline => VisualizationMode::BSpline,
            VisualizationMode::BSpline => VisualizationMode::FullBezier,
        }
    }
}

/// Cycling through the modes four times comes back to the starting mode, and
/// no fewer cycles do.
pub proof fn lemma_modes_cycle(m: VisualizationMode)
    ensures
        m.following().following().following().following() == m,
        m.following() != m,
        m.following().following() != m,
        m.following().following().following() != m,
{
}

/// One input event, as seen by the editor's logic.
pub struct Input {
    /// The event is a press of the space key.
    pub space_pressed: bool,
    /// The left mouse button is held down.
    pub left_down: bool,
    /// The mouse is on the parameter slider.
    pub on_slider: bool,
    /// The shift key is held down.
    pub shift: bool,
    /// For each control point, in order: the mouse is close to it.
    pub near_points: Vec<bool>,
    /// For each control point, in order: the mouse is close to the handle of
    /// its tangent.
    pub near_handles: Vec<bool>,
}

/// What the caller has to do after an input event.
#[derive(Clone, Copy, Debug, PartialEq, Eq, Structural)]
pub struct Effects {
    /// Set the curve parameter from the mouse position on the slider.
    pub scrub_slider: bool,
    /// A control point with this id was added at the mouse position, with its
    /// tangent, as the last point.
    pub added_point: Option<usize>,
    /// Move the control point at this index to the mouse position.
    pub move_point: Option<usize>,
    /// Point the tangent at this index from its control point to the mouse.
    pub move_tangent: Option<usize>,
}

/// The abstract state of the editor.
pub struct ModelView {
    /// Ids of the control points, in order.
    pub point_ids: Seq<usize>,
    /// Number of tangents kept for the control points.
    pub tangent_count: nat,
    pub selected_id: Option<usize>,
    pub selected_tangent_id: Option<usize>,
    pub next_id: nat,
    pub dragging_slider: bool,
    pub mode: VisualizationMode,
}

impl ModelView {
    /// Every control point's id is its index, the next id is the number of
    /// points, every point has a tangent, and a selection names an existing
    /// point.
    pub open spec fn wf(self) -> bool {
        &&& forall|i: int| 0 <= i < self.point_ids.len() ==> #[trigger] self.point_ids[i] == i
        &&& self.next_id == self.point_ids.len()
        &&& self.tangent_count == self.point_ids.len()
        &&& (self.selected_id matches Some(id) ==> id < self.point_ids.len())
        &&& (self.selected_tangent_id matches Some(id) ==> id < self.point_ids.len())
    }
}

/// The first index below `n` whose flag is set.
pub open spec fn first_true(flags: Seq<bool>, n: nat) -> Option<nat>
    decreases n,
{
    if n == 0 {
        None
    } else {
        match first_true(flags, (n - 1) as nat) {
            Some(i) => Some(i),
            None => if (n - 1) < flags.len() && flags[n - 1] {
                Some((n - 1) as nat)
            } else {
                None
            },
        }
    }
}

/// Per control point: the mouse is close to it (`near`), for the first
/// `allowed` points only.
pub open spec fn hits(near: Seq<bool>, allowed: nat, len: nat) -> Seq<bool> {
    Seq::new(len, |i: int| i < allowed && i < near.len() && near[i])
}

/// Per control point: its id is `id`.
pub open spec fn has_id(ids: Seq<usize>, id: usize) -> Seq<bool> {
    ids.map_values(|x: usize| x == id)
}

pub open spec fn no_effects() -> Effects {
    Effects { scrub_slider: false, added_point: None, move_point: None, move_tangent: None }
}

/// Whether the event adds a control point: a shift-click with the button
/// down, off the slider, while nothing is selected.
pub open spec fn adds_point(s: ModelView, inp: Input) -> bool {
    &&& !inp.space_pressed
    &&& inp.left_down
    &&& !(s.dragging_slider || inp.on_slider)
    &&& inp.shift
    &&& s.selected_id is None
    &&& s.selected_tangent_id is None
}

/// The state after a possible shift-click that adds a point.
pub open spec fn after_add(s: ModelView, inp: Input) -> ModelView {
    if adds_point(s, inp) {
        ModelView {
            point_ids: s.point_ids.push(s.next_id as usize),
            tangent_count: s.tangent_count + 1,
            selected_id: Some(s.next_id as usize),
            next_id: s.next_id + 1,
            ..s
        }
    } else {
        s
    }
}

/// In Hermite mode with nothing selected, a click grabs the first tangent
/// handle near the mouse.
pub open spec fn after_handle_pick(s: ModelView, inp: Input) -> ModelView {
    if s.mode == VisualizationMode::HermiteSpline && s.selected_id is None
        && s.selected_tangent_id is None {
        let picked = first_true(
            hits(inp.near_handles@, s.tangent_count, s.point_ids.len()),
            s.point_ids.len(),
        );
        ModelView {
            selected_tangent_id: match picked {
                Some(i) => Some(s.point_ids[i as int]),
                None => None,
            },
            ..s
        }
    } else {
        s
    }
}

/// With nothing selected, a click grabs the first control point near the
/// mouse.
pub open spec fn after_point_pick(s: ModelView, inp: Input) -> ModelView {
    if s.selected_id is None && s.selected_tangent_id is None {
        let picked = first_true(
            hits(inp.near_points@, s.point_ids.len(), s.point_ids.len()),
            s.point_ids.len(),
        );
        ModelView {
            selected_id: match picked {
                Some(i) => Some(s.point_ids[i as int]),
                None => None,
            },
            ..s
        }
    } else {
        s
    }
}

/// The drags that the selections call for: the selected point follows the
/// mouse, and so does the handle of the selected tangent.
pub open spec fn drags(s: ModelView, added: Option<usize>) -> Effects {
    Effects {
        scrub_slider: false,
        added_point: added,
        move_point: match s.selected_id {
            Some(id) => match first_true(has_id(s.point_ids, id), s.point_ids.len()) {
                Some(i) => Some(i as usize),
                None => None,
            },
            None => None,
        },
        move_tangent: match s.selected_tangent_id {
            Some(id) => match first_true(has_id(s.point_ids, id), s.point_ids.len()) {
                Some(i) => if i < s.tangent_count {
                    Some(i as usize)
                } else {
                    None
                },
                None => None,
            },
            None => None,
        },
    }
}

/// How the editor reacts to one input event:
/// - space cycles the visualization mode and does nothing else;
/// - releasing the button ends every drag;
/// - with the button down, a drag of the slider, or a press on it, moves the
///   curve parameter and nothing else;
/// - otherwise a shift-click with nothing selected adds a point with a fresh
///   id and grabs it, in Hermite mode a click grabs the first tangent handle
///   near the mouse, then the first control point near the mouse, and what
///   is grabbed follows the mouse.
pub open spec fn step(s: ModelView, inp: Input) -> (ModelView, Effects) {
    if inp.space_pressed {
        (ModelView { mode: s.mode.following(), ..s }, no_effects())
    } else if !inp.left_down {
        (
            ModelView {
                dragging_slider: false,
                selected_id: None,
                selected_tangent_id: None,
                ..s
            },
            no_effects(),
        )
    } else if s.dragging_slider || inp.on_slider {
        (
            ModelView { dragging_slider: true, ..s },
            Effects { scrub_slider: true, ..no_effects() },
        )
    } else {
        let s3 = after_point_pick(after_handle_pick(after_add(s, inp), inp), inp);
        let added = if adds_point(s, inp) {
            Some(s.next_id as usize)
        } else {
            None
        };
        (s3, drags(s3, added))
    }
}

/// What `first_true` finds: an index below `n` whose flag is set, with no
/// set flag before it; and when it finds none, no flag below `n` is set.
pub proof fn lemma_first_true(flags: Seq<bool>, n: nat)
    ensures
        first_true(flags, n) matches Some(i) ==> {
            &&& i < n
            &&& i < flags.len()
            &&& flags[i as int]
            &&& forall|j: int| 0 <= j < i ==> !#[trigger] flags[j]
        },
        first_true(flags, n) is None ==> forall|j: int|
            0 <= j < n && j < flags.len() ==> !#[trigger] flags[j],
    decreases n,
{
    if n > 0 {
        lemma_first_true(flags, (n - 1) as nat);
    }
}

/// Once found in a prefix, the first set flag stays the first one in every
/// longer prefix.
pub proof fn lemma_first_true_extends(flags: Seq<bool>, n: nat, m: nat)
    requires
        n <= m,
        first_true(flags, n) is Some,
    ensures
        first_true(flags, m) == first_true(flags, n),
    decreases m - n,
{
    if n < m {
        lemma_first_true_extends(flags, n, (m - 1) as nat);
    }
}

/// In a well-formed state, the point with id `id` sits at index `id`.
pub proof fn lemma_id_is_index(s: ModelView, id: usize)
    requires
        s.wf(),
        id < s.point_ids.len(),
    ensures
        first_true(has_id(s.point_ids, id), s.point_ids.len()) == Some(id as nat),
{
    let flags = has_id(s.point_ids, id);
    lemma_first_true(flags, s.point_ids.len());
    assert(flags[id as int]);
    match first_true(flags, s.point_ids.len()) {
        Some(i) => {
            assert(flags[i as int]);
        },
        None => {},
    }
}

/// Every input keeps the editor's state well formed: ids stay equal to the
/// indices of their points (so they are unique), every point keeps a tangent,
/// and selections only name existing points.
pub proof fn lemma_step_preserves_wf(s: ModelView, inp: Input)
    requires
        s.wf(),
        adds_point(s, inp) ==> s.next_id < usize::MAX,
    ensures
        step(s, inp).0.wf(),
{
    let s1 = after_add(s, inp);
    if adds_point(s, inp) {
        assert forall|i: int| 0 <= i < s1.point_ids.len() implies #[trigger] s1.point_ids[i] == i by {
            if i < s.point_ids.len() {
                assert(s1.point_ids[i] == s.point_ids[i]);
            }
        }
    }
    assert(s1.wf());
    let s2 = after_handle_pick(s1, inp);
    lemma_first_true(
        hits(inp.near_handles@, s1.tangent_count, s1.point_ids.len()),
        s1.point_ids.len(),
    );
    assert(s2.wf());
    lemma_first_true(hits(inp.near_points@, s2.point_ids.len(), s2.point_ids.len()), s2.point_ids.len());
    assert(after_point_pick(s2, inp).wf());
}

/// What an input asks the caller to move is always there: a point to move and
/// a tangent to turn are existing indices, and the point that moves is the
/// selected one.
pub proof fn lemma_effects_in_bounds(s: ModelView, inp: Input)
    requires
        s.wf(),
        adds_point(s, inp) ==> s.next_id < usize::MAX,
    ensures
        step(s, inp).1.move_point matches Some(i) ==> i < step(s, inp).0.point_ids.len()
            && step(s, inp).0.selected_id == Some(i),
        step(s, inp).1.move_tangent matches Some(i) ==> i < step(s, inp).0.tangent_count
            && step(s, inp).0.selected_tangent_id == Some(i),
        step(s, inp).0.selected_id matches Some(id) ==> step(s, inp).1.move_point == Some(id)
            || inp.space_pressed || step(s, inp).1.scrub_slider,
{
    lemma_step_preserves_wf(s, inp);
    let t = step(s, inp).0;
    match t.selected_id {
        Some(id) => lemma_id_is_index(t, id),
        None => {},
    }
    match t.selected_tangent_id {
        Some(id) => lemma_id_is_index(t, id),
        None => {},
    }
}

/// A shift-click that adds a point appends exactly one point, whose id was not
/// in use before, and grabs it.
pub proof fn lemma_added_point_is_fresh(s: ModelView, inp: Input)
    requires
        s.wf(),
        adds_point(s, inp) ==> s.next_id < usize::MAX,
        adds_point(s, inp),
    ensures
        step(s, inp).0.point_ids.len() == s.point_ids.len() + 1,
        step(s, inp).1.added_point == Some(s.next_id as usize),
        step(s, inp).0.selected_id == Some(s.next_id as usize),
        step(s, inp).1.move_point == Some(s.next_id as usize),
        forall|i: int| 0 <= i < s.point_ids.len() ==> #[trigger] s.point_ids[i] != s.next_id,
{
    lemma_effects_in_bounds(s, inp);
}

/// A press of the left button, off the slider and without shift or space,
/// while no drag is going on.
pub open spec fn plain_click(s: ModelView, inp: Input) -> bool {
    &&& !inp.space_pressed
    &&& inp.left_down
    &&& !inp.on_slider
    &&& !s.dragging_slider
    &&& !inp.shift
    &&& s.selected_id is None
    &&& s.selected_tangent_id is None
}

/// The first set flag below `n` is the one that `first_true` finds.
pub proof fn lemma_first_true_is(flags: Seq<bool>, n: nat, i: nat)
    requires
        i < n,
        i < flags.len(),
        flags[i as int],
        forall|j: int| 0 <= j < i ==> !#[trigger] flags[j],
    ensures
        first_true(flags, n) == Some(i),
{
    lemma_first_true(flags, i);
    lemma_first_true_extends(flags, i + 1, n);
}

/// Releasing the mouse button ends every drag, of a point, of a tangent handle
/// or of the slider, and asks nothing of the caller; the points and the mode
/// stay as they were.
pub proof fn lemma_release_ends_drags(s: ModelView, inp: Input)
    requires
        !inp.space_pressed,
        !inp.left_down,
    ensures
        step(s, inp).0.selected_id is None,
        step(s, inp).0.selected_tangent_id is None,
        !step(s, inp).0.dragging_slider,
        step(s, inp).0.point_ids == s.point_ids,
        step(s, inp).0.mode == s.mode,
        !step(s, inp).1.scrub_slider,
        step(s, inp).1.added_point is None,
        step(s, inp).1.move_point is None,
        step(s, inp).1.move_tangent is None,
{
}

/// Pressing space moves to the following mode and changes nothing else.
pub proof fn lemma_space_cycles_mode(s: ModelView, inp: Input)
    requires
        inp.space_pressed,
    ensures
        step(s, inp).0.mode == s.mode.following(),
        step(s, inp).0.point_ids == s.point_ids,
        step(s, inp).0.selected_id == s.selected_id,
        step(s, inp).0.selected_tangent_id == s.selected_tangent_id,
        step(s, inp).0.dragging_slider == s.dragging_slider,
        step(s, inp).0.next_id == s.next_id,
        !step(s, inp).1.scrub_slider,
        step(s, inp).1.added_point is None,
        step(s, inp).1.move_point is None,
        step(s, inp).1.move_tangent is None,
{
}

/// A plain click (button down, off the slider, no shift) with nothing
/// selected, in any mode, grabs the first control point near the mouse,
/// unless in Hermite mode a tangent handle is near the mouse: that point is
/// selected and follows the mouse.
pub proof fn lemma_click_grabs_first_near_point(s: ModelView, inp: Input, i: nat)
    requires
        s.wf(),
        !inp.space_pressed,
        inp.left_down,
        !inp.on_slider,
        !s.dragging_slider,
        !inp.shift,
        s.selected_id is None,
        s.selected_tangent_id is None,
        s.mode != VisualizationMode::HermiteSpline || forall|j: int|
            0 <= j < s.point_ids.len() && j < s.tangent_count && j < inp.near_handles.len()
                ==> !#[trigger] inp.near_handles@[j],
        i < s.point_ids.len(),
        i < inp.near_points.len(),
        inp.near_points@[i as int],
        forall|j: int| 0 <= j < i && j < inp.near_points.len() ==> !#[trigger] inp.near_points@[j],
    ensures
        step(s, inp).0.selected_id == Some(i as usize),
        step(s, inp).0.selected_tangent_id is None,
        step(s, inp).1.move_point == Some(i as usize),
        step(s, inp).1.move_tangent is None,
        step(s, inp).1.added_point is None,
        step(s, inp).0.point_ids == s.point_ids,
{
    let len = s.point_ids.len();
    let hf = hits(inp.near_handles@, s.tangent_count, len);
    lemma_first_true(hf, len);
    if s.mode == VisualizationMode::HermiteSpline {
        if first_true(hf, len) is Some {
            let k = first_true(hf, len)->0;
            assert(hf[k as int]);
            assert(!inp.near_handles@[k as int]);
        }
    }
    let pf = hits(inp.near_points@, len, len);
    assert forall|j: int| 0 <= j < i implies !#[trigger] pf[j] by {
        if j < inp.near_points.len() {
            assert(!inp.near_points@[j]);
        }
    }
    lemma_first_true_is(pf, len, i);
    lemma_id_is_index(s, i as usize);
}

/// In Hermite mode a plain click with nothing selected grabs the first tangent
/// handle near the mouse, before any control point: that handle follows the
/// mouse and no point moves.
pub proof fn lemma_hermite_click_grabs_first_handle(s: ModelView, inp: Input, i: nat)
    requires
        s.wf(),
        !inp.space_pressed,
        inp.left_down,
        !inp.on_slider,
        !s.dragging_slider,
        !inp.shift,
        s.selected_id is None,
        s.selected_tangent_id is None,
        s.mode == VisualizationMode::HermiteSpline,
        i < s.point_ids.len(),
        i < inp.near_handles.len(),
        inp.near_handles@[i as int],
        forall|j: int| 0 <= j < i && j < inp.near_handles.len() ==> !#[trigger] inp.near_handles@[j],
    ensures
        step(s, inp).0.selected_tangent_id == Some(i as usize),
        step(s, inp).0.selected_id is None,
        step(s, inp).1.move_tangent == Some(i as usize),
        step(s, inp).1.move_point is None,
        step(s, inp).1.added_point is None,
{
    let len = s.point_ids.len();
    let hf = hits(inp.near_handles@, s.tangent_count, len);
    assert forall|j: int| 0 <= j < i implies !#[trigger] hf[j] by {
        if j < inp.near_handles.len() {
            assert(!inp.near_handles@[j]);
        }
    }
    lemma_first_true_is(hf, len, i);
    lemma_id_is_index(s, i as usize);
}

/// The first control point, among the first `allowed` of `len`, that the
/// mouse is close to.
fn first_hit(near: &Vec<bool>, allowed: usize, len: usize) -> (r: Option<usize>)
    ensures
        match first_true(hits(near@, allowed as nat, len as nat), len as nat) {
            Some(i) => r == Some(i as usize),
            None => r is None,
        },
{
    let ghost flags = hits(near@, allowed as nat, len as nat);
    let mut i: usize = 0;
    while i < len
        invariant
            i <= len,
            flags == hits(near@, allowed as nat, len as nat),
            first_true(flags, i as nat) is None,
        decreases len - i,
    {
        if i < allowed && i < near.len() && near[i] {
            proof {
                assert(flags[i as int]);
                lemma_first_true_extends(flags, (i + 1) as nat, len as nat);
            }
            return Some(i);
        }
        i = i + 1;
    }
    None
}

/// The index of the control point with id `id`.
fn index_of(ids: &Vec<usize>, id: usize) -> (r: Option<usize>)
    ensures
        match first_true(has_id(ids@, id), ids.len() as nat) {
            Some(i) => r == Some(i as usize),
            None => r is None,
        },
{
    let ghost flags = has_id(ids@, id);
    let mut i: usize = 0;
    while i < ids.len()
        invariant
            i <= ids.len(),
            flags == has_id(ids@, id),
            first_true(flags, i as nat) is None,
        decreases ids.len() - i,
    {
        if ids[i] == id {
            proof {
                assert(flags[i as int]);
                lemma_first_true_extends(flags, (i + 1) as nat, ids.len() as nat);
            }
            return Some(i);
        }
        i = i + 1;
    }
    None
}

/// The editor's state: its control points (by id), its selections, whether
/// the slider is being dragged, and the visualization mode.
pub struct Model {
    point_ids: Vec<usize>,
    tangent_count: usize,
    selected_id: Option<usize>,
    selected_tangent_id: Option<usize>,
    next_id: usize,
    dragging_slider: bool,
    mode: VisualizationMode,
}

impl View for Model {
    type V = ModelView;

    closed spec fn view(&self) -> ModelView {
        ModelView {
            point_ids: self.point_ids@,
            tangent_count: self.tangent_count as nat,
            selected_id: self.selected_id,
            selected_tangent_id: self.selected_tangent_id,
            next_id: self.next_id as nat,
            dragging_slider: self.dragging_slider,
            mode: self.mode,
        }
    }
}

impl Model {
    #[verifier::type_invariant]
    spec fn well_formed(self) -> bool {
        self@.wf()
    }

    /// The editor at start-up: three control points with ids 0, 1 and 2, each
    /// with a tangent, nothing selected, the full Bézier curve shown.
    pub fn new() -> (m: Model)
        ensures
            m@.point_ids == seq![0usize, 1usize, 2usize],
            m@.tangent_count == 3,
            m@.selected_id is None,
            m@.selected_tangent_id is None,
            m@.next_id == 3,
            !m@.dragging_slider,
            m@.mode == VisualizationMode::FullBezier,
            m@.wf(),
    {
        let point_ids: Vec<usize> = vec![0, 1, 2];
        assert(point_ids@ == seq![0usize, 1usize, 2usize]);
        Model {
            point_ids,
            tangent_count: 3,
            selected_id: None,
            selected_tangent_id: None,
            next_id: 3,
            dragging_slider: false,
            mode: VisualizationMode::FullBezier,
        }
    }

    /// Ids of the control points, in order.
    pub fn point_ids(&self) -> (ids: &Vec<usize>)
        ensures
            ids@ == self@.point_ids,
    {
        &self.point_ids
    }

    /// Number of control points.
    pub fn point_count(&self) -> (n: usize)
        ensures
            n == self@.point_ids.len(),
    {
        self.point_ids.len()
    }

    /// Number of tangents kept for the control points.
    pub fn tangent_count(&self) -> (n: usize)
        ensures
            n == self@.tangent_count,
    {
        self.tangent_count
    }

    /// Id of the control point being dragged, if any.
    pub fn selected_id(&self) -> (id: Option<usize>)
        ensures
            id == self@.selected_id,
    {
        self.selected_id
    }

    /// Id of the control point whose tangent handle is being dragged, if any.
    pub fn selected_tangent_id(&self) -> (id: Option<usize>)
        ensures
            id == self@.selected_tangent_id,
    {
        self.selected_tangent_id
    }

    /// The id that the next added control point gets.
    pub fn next_id(&self) -> (id: usize)
        ensures
            id == self@.next_id,
    {
        self.next_id
    }

    /// Whether the parameter slider is being dragged.
    pub fn dragging_slider(&self) -> (b: bool)
        ensures
            b == self@.dragging_slider,
    {
        self.dragging_slider
    }

    /// The visualization mode shown.
    pub fn mode(&self) -> (m: VisualizationMode)
        ensures
            m == self@.mode,
    {
        self.mode
    }

    /// Reacts to one input event (see [`step`]) and returns what the caller
    /// has to do.
    pub fn handle_event(&mut self, input: &Input) -> (fx: Effects)
        requires
            adds_point(old(self)@, *input) ==> old(self)@.next_id < usize::MAX,
        ensures
            final(self)@ == step(old(self)@, *input).0,
            fx == step(old(self)@, *input).1,
            final(self)@.wf(),
            !input.space_pressed && !input.left_down ==> final(self)@.selected_id is None
                && final(self)@.selected_tangent_id is None && !final(self)@.dragging_slider
                && fx.move_point is None && fx.move_tangent is None,
            input.space_pressed ==> final(self)@.mode == old(self)@.mode.following()
                && final(self)@.point_ids == old(self)@.point_ids && final(self)@.selected_id
                == old(self)@.selected_id && final(self)@.selected_tangent_id == old(
                self,
            )@.selected_tangent_id && fx.move_point is None && fx.move_tangent is None,
            forall|i: int|
                plain_click(old(self)@, *input) && (old(self)@.mode
                    != VisualizationMode::HermiteSpline || forall|j: int|
                    0 <= j < input.near_handles.len() ==> !#[trigger] input.near_handles@[j])
                    && 0 <= i < old(self)@.point_ids.len() && i < input.near_points.len()
                    && #[trigger] input.near_points@[i] && (forall|j: int|
                    0 <= j < i ==> !#[trigger] input.near_points@[j]) ==> final(self)@.selected_id
                    == Some(i as usize) && fx.move_point == Some(i as usize),
            forall|i: int|
                plain_click(old(self)@, *input) && old(self)@.mode
                    == VisualizationMode::HermiteSpline && 0 <= i < old(self)@.point_ids.len()
                    && i < input.near_handles.len() && #[trigger] input.near_handles@[i] && (
                forall|j: int| 0 <= j < i ==> !#[trigger] input.near_handles@[j])
                    ==> final(self)@.selected_tangent_id == Some(i as usize) && fx.move_tangent
                    == Some(i as usize) && fx.move_point is None,
    {
        proof {
            use_type_invariant(&*self);
            let s0 = self@;
            if !input.space_pressed && !input.left_down {
                lemma_release_ends_drags(s0, *input);
            }
            if input.space_pressed {
                lemma_space_cycles_mode(s0, *input);
            }
            assert forall|i: int|
                plain_click(s0, *input) && (s0.mode != VisualizationMode::HermiteSpline
                    || forall|j: int|
                    0 <= j < input.near_handles.len() ==> !#[trigger] input.near_handles@[j])
                    && 0 <= i < s0.point_ids.len() && i < input.near_points.len()
                    && #[trigger] input.near_points@[i] && (forall|j: int|
                    0 <= j < i ==> !#[trigger] input.near_points@[j]) implies step(s0, *input).0.selected_id
                == Some(i as usize) && step(s0, *input).1.move_point == Some(i as usize) by {
                lemma_click_grabs_first_near_point(s0, *input, i as nat);
            }
            assert forall|i: int|
                plain_click(s0, *input) && s0.mode == VisualizationMode::HermiteSpline && 0 <= i
                    < s0.point_ids.len() && i < input.near_handles.len()
                    && #[trigger] input.near_handles@[i] && (forall|j: int|
                    0 <= j < i ==> !#[trigger] input.near_handles@[j]) implies step(
                s0,
                *input,
            ).0.selected_tangent_id == Some(i as usize) && step(s0, *input).1.move_tangent == Some(
                i as usize,
            ) && step(s0, *input).1.move_point is None by {
                lemma_hermite_click_grabs_first_handle(s0, *input, i as nat);
            }
        }
        let mut current = Model::new();
        std::mem::swap(&mut current, self);
        let (next, fx) = current.advance(input);
        *self = next;
        fx
    }

    fn advance(self, input: &Input) -> (r: (Model, Effects))
        requires
            adds_point(self@, *input) ==> self@.next_id < usize::MAX,
        ensures
            r.0@ == step(self@, *input).0,
            r.1 == step(self@, *input).1,
            r.0@.wf(),
    {
        proof {
            use_type_invariant(&self);
            lemma_step_preserves_wf(self@, *input);
        }
        let ghost s = self@;
        let Model {
            mut point_ids,
            mut tangent_count,
            mut selected_id,
            mut selected_tangent_id,
            mut next_id,
            mut dragging_slider,
            mut mode,
        } = self;
        let none = Effects {
            scrub_slider: false,
            added_point: None,
            move_point: None,
            move_tangent: None,
        };
        if input.space_pressed {
            mode = mode.next();
            let m = Model {
                point_ids,
                tangent_count,
                selected_id,
                selected_tangent_id,
                next_id,
                dragging_slider,
                mode,
            };
            return (m, none);
        }
        if !input.left_down {
            let m = Model {
                point_ids,
                tangent_count,
                selected_id: None,
                selected_tangent_id: None,
                next_id,
                dragging_slider: false,
                mode,
            };
            return (m, none);
        }
        if dragging_slider || input.on_slider {
            let m = Model {
                point_ids,
                tangent_count,
                selected_id,
                selected_tangent_id,
                next_id,
                dragging_slider: true,
                mode,
            };
            return (m, Effects { scrub_slider: true, ..none });
        }
        let mut added_point: Option<usize> = None;
        if input.shift && selected_id.is_none() && selected_tangent_id.is_none() {
            let id = next_id;
            point_ids.push(id);
            tangent_count = tangent_count + 1;
            selected_id = Some(id);
            next_id = next_id + 1;
            added_point = Some(id);
        }
        let ghost s1 = ModelView {
            point_ids: point_ids@,
            tangent_count: tangent_count as nat,
            selected_id,
            selected_tangent_id,
            next_id: next_id as nat,
            dragging_slider,
            mode,
        };
        assert(s1 == after_add(s, *input));
        if mode == VisualizationMode::HermiteSpline && selected_id.is_none()
            && selected_tangent_id.is_none() {
            let picked = first_hit(&input.near_handles, tangent_count, point_ids.len());
            proof {
                lemma_first_true(
                    hits(input.near_handles@, tangent_count as nat, point_ids.len() as nat),
                    point_ids.len() as nat,
                );
            }
            match picked {
                Some(i) => {
                    selected_tangent_id = Some(point_ids[i]);
                },
                None => {},
            }
        }
        let ghost s2 = ModelView { selected_tangent_id, ..s1 };
        assert(s2 == after_handle_pick(s1, *input));
        if selected_id.is_none() && selected_tangent_id.is_none() {
            let picked = first_hit(&input.near_points, point_ids.len(), point_ids.len());
            proof {
                lemma_first_true(
                    hits(input.near_points@, point_ids.len() as nat, point_ids.len() as nat),
                    point_ids.len() as nat,
                );
            }
            match picked {
                Some(i) => {
                    selected_id = Some(point_ids[i]);
                },
                None => {},
            }
        }
        let ghost s3 = ModelView { selected_id, ..s2 };
        assert(s3 == after_point_pick(s2, *input));
        let mut fx = Effects { added_point, ..none };
        if let Some(id) = selected_id {
            fx.move_point = index_of(&point_ids, id);
        }
        if let Some(id) = selected_tangent_id {
            let found = index_of(&point_ids, id);
            proof {
                lemma_first_true(has_id(point_ids@, id), point_ids.len() as nat);
            }
            if let Some(i) = found {
                if i < tangent_count {
                    fx.move_tangent = Some(i);
                }
            }
        }
        let m = Model {
            point_ids,
            tangent_count,
            selected_id,
            selected_tangent_id,
            next_id,
            dragging_slider,
            mode,
        };
        (m, fx)
    }
}

} // verus!
