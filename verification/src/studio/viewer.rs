//! The viewer and the transport bar: playback, the region of interest, the
//! pen, and shaders that change while the program runs.

use crate::clock::counts_between;
use crate::model::composition::{is_layer, layer_index, CompositionModel};
use crate::model::layer::{LayerId, LayerModel};
use crate::model::mask::corner;
use crate::model::project::is_comp;
use crate::scalar::{zero, Point};
use crate::seqs::{first_where_is_first, group_views};
use crate::studio::audio::AudioDrive;
use crate::studio::editor::{
    current, outdated, region_between, with_comp_at, CacheReset, Editor, EditorModel,
    PreviewScale, RegionRect, TransportAction,
};
use crate::studio::mask_panel::{add_mask, idle_pen, with_mask, PenModel};
use crate::studio::playback::{
    in_range, looked, sought, stepped_backward, stepped_forward, toggled, PlayState,
};
use crate::text::{cat, str_eq};
use std::time::Instant;
use vstd::prelude::*;

verus! {

/// Whether the edit changes what is shown.
pub open spec fn moves_view(action: TransportAction) -> bool {
    !(action is Toggle || action is ToggleGraphEditor)
}

/// Whether the edit starts playback.
pub open spec fn starts_playing(e: EditorModel, action: TransportAction) -> bool {
    action is Toggle && e.playhead.state == PlayState::Stopped
}

/// `e` after one edit of the transport bar; where it starts playback, that
/// counts from `now`. Where the view moves, the shown frame is out of date and
/// audio playback ends, so that it begins anew from the new place.
pub open spec fn transported(e: EditorModel, action: TransportAction, now: Instant) -> EditorModel {
    let f = match action {
        TransportAction::Toggle => EditorModel { playhead: toggled(e.playhead, now), ..e },
        TransportAction::StepForward => EditorModel { playhead: stepped_forward(e.playhead), ..e },
        TransportAction::StepBackward => EditorModel {
            playhead: stepped_backward(e.playhead),
            ..e
        },
        TransportAction::Seek(frame) => EditorModel { playhead: sought(e.playhead, frame), ..e },
        TransportAction::SetPreviewScale(preview_scale) => EditorModel { preview_scale, ..e },
        TransportAction::ToggleGraphEditor => EditorModel {
            graph_editor_open: !e.graph_editor_open,
            ..e
        },
    };
    if moves_view(action) {
        EditorModel {
            render_dirty: true,
            audio: AudioDrive { open: false, ..f.audio },
            ..f
        }
    } else {
        f
    }
}

/// `e` after edits of the transport bar, in order, made at `times`.
pub open spec fn transported_all(
    e: EditorModel,
    actions: Seq<TransportAction>,
    times: Seq<Instant>,
) -> EditorModel
    decreases actions.len(),
{
    if actions.len() == 0 {
        e
    } else {
        transported(
            transported_all(e, actions.drop_last(), times.drop_last()),
            actions.last(),
            times.last(),
        )
    }
}

/// Whether `times` holds one time for each edit, and those at which playback
/// starts were read from the clock.
pub open spec fn starts_are_read(
    e: EditorModel,
    actions: Seq<TransportAction>,
    times: Seq<Instant>,
) -> bool {
    &&& times.len() == actions.len()
    &&& forall|k: int|
        0 <= k < actions.len() && starts_playing(
            transported_all(e, actions.take(k), times.take(k)),
            actions[k],
        ) ==> call_ensures(Instant::now, (), #[trigger] times[k])
}

/// `e` with the playhead advanced at `now`, `elapsed` nanoseconds after its
/// last look at the clock. Where it moved, the shown frame is out of date.
pub open spec fn played(e: EditorModel, now: Instant, elapsed: u128) -> EditorModel {
    let playhead = looked(e.playhead, now, elapsed);
    EditorModel {
        playhead,
        render_dirty: e.render_dirty || playhead.current_frame != e.playhead.current_frame,
        ..e
    }
}

/// `e` after Escape: no region, and no path being drawn.
pub open spec fn escaped(e: EditorModel) -> EditorModel {
    EditorModel {
        render_region: None,
        region_anchor: None,
        pen: if e.pen.layer is Some {
            idle_pen()
        } else {
            e.pen
        },
        ..e
    }
}

/// `e` with the drawn path as a new mask on `layer`, if that is there.
pub open spec fn with_pen_mask(e: EditorModel, layer: LayerId) -> EditorModel {
    match current(e) {
        None => e,
        Some(i) => {
            let c = e.project.compositions[i];
            match layer_index(c.layers, layer) {
                None => e,
                Some(k) => outdated(
                    EditorModel {
                        project: with_comp_at(
                            e.project,
                            i,
                            CompositionModel {
                                layers: c.layers.update(
                                    k,
                                    LayerModel {
                                        masks: with_mask(
                                            c.layers[k].masks,
                                            "Pen mask "@,
                                            e.pen.anchors,
                                        ),
                                        ..c.layers[k]
                                    },
                                ),
                                ..c
                            },
                        ),
                        ..e
                    },
                ),
            }
        },
    }
}

/// `e` after a click with the pen at `at`. A click near the first of at least
/// three points closes the path, any other click adds a point.
pub open spec fn pen_clicked(e: EditorModel, at: Point, near_first: bool) -> EditorModel {
    match e.pen.layer {
        None => e,
        Some(layer) => if e.pen.anchors.len() >= 3 && near_first {
            EditorModel { pen: idle_pen(), ..with_pen_mask(e, layer) }
        } else {
            EditorModel {
                pen: PenModel { anchors: e.pen.anchors.push(corner(at.x, at.y)), ..e.pen },
                ..e
            }
        },
    }
}

/// `e` while a region is dragged to `now`. A region that is too small is not
/// taken.
pub open spec fn region_dragged(e: EditorModel, now: Point, too_small: bool) -> EditorModel {
    match e.region_anchor {
        Some(anchor) => if too_small {
            e
        } else {
            EditorModel { render_region: Some(region_between(anchor, now)), ..e }
        },
        None => e,
    }
}

/// Where the pointer is on the shown picture.
#[derive(Clone, Copy, Debug, PartialEq, Eq, Structural)]
pub struct ViewerPointer {
    /// The place as a part of the picture's width and height.
    pub on_picture: Point,
    /// The place in pixels of the composition.
    pub in_comp: Point,
    /// Whether the place is close to the first point of the pen's path.
    pub near_first: bool,
    /// Whether a region from where the drag began to here is too small.
    pub too_small: bool,
}

/// What happened on the picture since the last look.
#[derive(Clone, Copy, Debug, PartialEq, Eq, Structural)]
pub struct ViewerInput {
    /// Whether Escape was pressed.
    pub escape: bool,
    /// Whether Shift is held.
    pub shift: bool,
    pub clicked: bool,
    pub drag_started: bool,
    pub dragged: bool,
    pub drag_stopped: bool,
    /// Where the pointer is, if it is on the picture.
    pub pointer: Option<ViewerPointer>,
}

/// `e` after the click of `input`, which is the pen's if Shift is not held.
pub open spec fn clicked_at(e: EditorModel, input: ViewerInput) -> EditorModel {
    match input.pointer {
        Some(p) => if input.clicked && !input.shift {
            pen_clicked(e, p.in_comp, p.near_first)
        } else {
            e
        },
        None => e,
    }
}

/// `e` after the drag of `input`. A drag that starts with Shift held begins a
/// region, which goes on as the drag does and is settled when it stops.
pub open spec fn dragged_to(e: EditorModel, input: ViewerInput) -> EditorModel {
    if input.drag_started && input.shift {
        match input.pointer {
            Some(p) => EditorModel { region_anchor: Some(p.on_picture), ..e },
            None => e,
        }
    } else if input.dragged && e.region_anchor is Some {
        match input.pointer {
            Some(p) => region_dragged(e, p.on_picture, p.too_small),
            None => e,
        }
    } else if input.drag_stopped {
        EditorModel { region_anchor: None, ..e }
    } else {
        e
    }
}

/// `e` after what happened on the picture: Escape first, then the click, then
/// the drag.
pub open spec fn viewed(e: EditorModel, input: ViewerInput) -> EditorModel {
    let f = if input.escape {
        escaped(e)
    } else {
        e
    };
    dragged_to(clicked_at(f, input), input)
}

impl Editor {
    /// Applies one edit of the transport bar.
    pub fn apply_transport_action(&mut self, action: TransportAction)
        ensures
            final(self)@ == transported(old(self)@, action, final(self)@.playhead.looked_at),
            starts_playing(old(self)@, action) ==> call_ensures(
                Instant::now,
                (),
                final(self)@.playhead.looked_at,
            ),
    {
        let mut moved = true;
        match action {
            TransportAction::Toggle => {
                self.playhead.toggle();
                moved = false;
            },
            TransportAction::StepForward => self.playhead.step_forward(),
            TransportAction::StepBackward => self.playhead.step_backward(),
            TransportAction::Seek(f) => self.playhead.seek(f),
            TransportAction::SetPreviewScale(s) => {
                self.preview_scale = s;
            },
            TransportAction::ToggleGraphEditor => {
                self.graph_editor_open = !self.graph_editor_open;
                moved = false;
            },
        }
        if moved {
            self.render_dirty = true;
            self.audio.open = false;
        }
    }

    /// Applies edits of the transport bar, in order.
    pub fn apply_transport_actions(&mut self, actions: &Vec<TransportAction>)
        ensures
            exists|times: Seq<Instant>| #[trigger]
                starts_are_read(old(self)@, actions@, times) && final(self)@ == transported_all(
                    old(self)@,
                    actions@,
                    times,
                ),
    {
        let ghost start = self@;
        let ghost mut times = Seq::<Instant>::empty();
        let mut i: usize = 0;
        while i < actions.len()
            invariant
                i <= actions.len(),
                starts_are_read(start, actions@.take(i as int), times),
                self@ == transported_all(start, actions@.take(i as int), times),
            decreases actions.len() - i,
        {
            let ghost done = actions@.take(i as int);
            let ghost before = times;
            self.apply_transport_action(actions[i]);
            proof {
                let next = actions@.take(i + 1);
                times = times.push(self@.playhead.looked_at);
                assert(next.drop_last() =~= done);
                assert(times.drop_last() =~= before);
                assert forall|k: int|
                    0 <= k < next.len() && starts_playing(
                        transported_all(start, next.take(k), times.take(k)),
                        next[k],
                    ) implies call_ensures(Instant::now, (), #[trigger] times[k]) by {
                    assert(next.take(k) =~= done.take(k));
                    assert(times.take(k) =~= before.take(k));
                    if k < i {
                        assert(done[k] == next[k] && before[k] == times[k]);
                    } else {
                        assert(done.take(k) =~= done && before.take(k) =~= before);
                    }
                }
                assert(starts_are_read(start, next, times));
            }
            i = i + 1;
        }
        proof {
            assert(actions@.take(i as int) =~= actions@);
            assert(starts_are_read(start, actions@, times));
        }
    }

    /// Advances the playhead by the time that went by since it last looked at
    /// the clock.
    pub fn tick(&mut self)
        ensures
            exists|now: Instant, n: u128| #[trigger]
                call_ensures(Instant::now, (), now) && #[trigger] counts_between(
                    now,
                    old(self)@.playhead.looked_at,
                    n,
                ) && final(self)@ == played(old(self)@, now, n),
    {
        let moved = self.playhead.tick();
        if moved {
            self.render_dirty = true;
        }
        proof {
            let (now, n) = choose|now: Instant, n: u128| #[trigger]
                call_ensures(Instant::now, (), now) && #[trigger] counts_between(
                    now,
                    old(self)@.playhead.looked_at,
                    n,
                ) && self.playhead@ == looked(old(self)@.playhead, now, n);
            assert(call_ensures(Instant::now, (), now) && counts_between(
                now,
                old(self)@.playhead.looked_at,
                n,
            ));
            assert(self@ =~= played(old(self)@, now, n));
        }
    }

    /// Whether a frame is to be rendered, where `shown` tells whether one is
    /// on screen.
    pub fn needs_render(&self, shown: bool) -> (r: bool)
        ensures
            r == (self@.render_dirty || !shown),
    {
        self.render_dirty || !shown
    }

    /// The frame was rendered.
    pub fn frame_rendered(&mut self)
        ensures
            final(self)@ == (EditorModel { render_dirty: false, ..old(self)@ }),
    {
        self.render_dirty = false;
    }

    /// Takes out what is to be dropped from the cache of rendered frames.
    pub fn take_cache_reset(&mut self) -> (r: CacheReset)
        ensures
            r == old(self)@.cache,
            final(self)@ == (EditorModel { cache: CacheReset::Keep, ..old(self)@ }),
    {
        let r = self.cache;
        self.cache = CacheReset::Keep;
        r
    }

    /// Escape was pressed.
    pub fn escape(&mut self)
        ensures
            final(self)@ == escaped(old(self)@),
    {
        self.render_region = None;
        self.region_anchor = None;
        if self.pen.layer.is_some() {
            self.pen.cancel();
        }
    }

    /// A click with the pen at `at`, where `near_first` tells whether that is
    /// close to the path's first point.
    pub fn pen_click(&mut self, at: Point, near_first: bool)
        ensures
            final(self)@ == pen_clicked(old(self)@, at, near_first),
    {
        broadcast use group_views;

        let layer_id = match self.pen.layer {
            Some(id) => id,
            None => {
                return;
            },
        };
        if self.pen.anchors.len() >= 3 && near_first {
            let mut found = false;
            proof {
                first_where_is_first(self@.project.compositions, is_comp(self.comp_id), 0);
            }
            if let Some(path) = self.pen.close_into_path() {
                if let Some(comp) = self.project.composition_mut(self.comp_id) {
                    if let Some(layer) = comp.layer_mut(layer_id) {
                        add_mask(&mut layer.masks, "Pen mask ", path);
                        found = true;
                    }
                }
            }
            assert(!found ==> self@.project.compositions =~= old(self)@.project.compositions);
            if found {
                self.outdate();
            }
        } else {
            self.pen.add_anchor(at.x, at.y);
        }
    }

    /// A drag that draws a region begins.
    pub fn begin_region(&mut self, anchor: Point)
        ensures
            final(self)@ == (EditorModel { region_anchor: Some(anchor), ..old(self)@ }),
    {
        self.region_anchor = Some(anchor);
    }

    /// The drag goes on; `too_small` tells whether the region so far is.
    pub fn drag_region(&mut self, now: Point, too_small: bool)
        ensures
            final(self)@ == region_dragged(old(self)@, now, too_small),
    {
        if let Some(anchor) = self.region_anchor {
            if !too_small {
                self.render_region = Some(RegionRect::from_corners(anchor, now));
            }
        }
    }

    /// The drag ends.
    pub fn end_region(&mut self)
        ensures
            final(self)@ == (EditorModel { region_anchor: None, ..old(self)@ }),
    {
        self.region_anchor = None;
    }

    /// Takes in what happened on the picture.
    pub fn viewer_events(&mut self, input: &ViewerInput)
        ensures
            final(self)@ == viewed(old(self)@, *input),
    {
        if input.escape {
            self.escape();
        }
        if let Some(p) = input.pointer {
            if input.clicked && !input.shift {
                self.pen_click(p.in_comp, p.near_first);
            }
        }
        if input.drag_started && input.shift {
            if let Some(p) = input.pointer {
                self.begin_region(p.on_picture);
            }
        } else if input.dragged && self.region_anchor.is_some() {
            if let Some(p) = input.pointer {
                self.drag_region(p.on_picture, p.too_small);
            }
        } else if input.drag_stopped {
            self.end_region();
        }
    }

    /// A shader was reloaded.
    pub fn shader_reloaded(&mut self)
        ensures
            final(self)@ == (EditorModel {
                cache: CacheReset::All,
                render_dirty: true,
                shader_error: None,
                ..old(self)@
            }),
    {
        self.cache = CacheReset::All;
        self.render_dirty = true;
        self.shader_error = None;
    }

    /// A shader did not compile.
    pub fn shader_failed(&mut self, effect_id: &str, message: &str)
        ensures
            final(self)@ == (EditorModel {
                shader_error: Some("["@ + effect_id@ + "] "@ + message@),
                ..old(self)@
            }),
    {
        let a = cat("[", effect_id);
        let b = cat(&a, "] ");
        self.shader_error = Some(cat(&b, message));
    }
}

/// Whether the shader of an effect can be reloaded while the program runs.
pub fn reloads(effect_id: &str) -> (r: bool)
    ensures
        r == (effect_id@ == "gain"@),
{
    str_eq(effect_id, "gain")
}

/// A path that is closed with the pen becomes the last mask of its layer, with
/// the points that were clicked.
pub proof fn closed_path_is_a_mask(e: EditorModel, at: Point, i: int, k: int)
    requires
        e.pen.anchors.len() >= 3,
        e.pen.layer is Some,
        current(e) == Some(i),
        layer_index(e.project.compositions[i].layers, e.pen.layer->0) == Some(k),
    ensures
        ({
            let f = pen_clicked(e, at, true);
            let masks = e.project.compositions[i].layers[k].masks;
            let after = f.project.compositions[i].layers[k].masks;
            &&& f.pen == idle_pen()
            &&& f.render_dirty
            &&& after.len() == masks.len() + 1
            &&& after.last().path == crate::model::curve::CurveModel::Static(e.pen.anchors)
        }),
{
    first_where_is_first(e.project.compositions, is_comp(e.comp_id), 0);
    first_where_is_first(e.project.compositions[i].layers, is_layer(e.pen.layer->0), 0);
}

/// With Shift held, clicks are not the pen's and leave the project as it is.
/// Without Shift no region begins, and the region that is shown changes only
/// while one is being drawn.
pub proof fn shift_tells_apart(e: EditorModel, input: ViewerInput)
    requires
        !input.escape,
    ensures
        input.shift ==> viewed(e, input).pen == e.pen && viewed(e, input).project == e.project,
        !input.shift && e.region_anchor is None ==> viewed(e, input).region_anchor is None
            && viewed(e, input).render_region == e.render_region,
{
}

/// Escape leaves no region and no pen at work.
pub proof fn escape_clears(e: EditorModel)
    ensures
        escaped(e).render_region is None,
        escaped(e).region_anchor is None,
        escaped(e).pen.layer is None,
        escaped(escaped(e)) == escaped(e),
{
}

/// Whatever the transport does, the project stays as it is. Moving to another
/// frame, or to another scale, draws the picture again and stops the sound.
pub proof fn transport_keeps_the_project(e: EditorModel, action: TransportAction, now: Instant)
    ensures
        transported(e, action, now).project == e.project,
        transported(e, action, now).selected_layer == e.selected_layer,
        !(action is Toggle || action is ToggleGraphEditor) ==> transported(e, action, now).render_dirty
            && !transported(e, action, now).audio.open,
        action is Toggle || action is ToggleGraphEditor ==> transported(e, action, now).render_dirty
            == e.render_dirty && transported(e, action, now).audio == e.audio,
        !(action is SetPreviewScale) ==> transported(e, action, now).preview_scale
            == e.preview_scale,
        !(action is ToggleGraphEditor) ==> transported(e, action, now).graph_editor_open
            == e.graph_editor_open,
        action is SetPreviewScale || action is ToggleGraphEditor ==> transported(
            e,
            action,
            now,
        ).playhead == e.playhead,
{
}

/// Each button of the transport does what it is named after.
pub proof fn transport_moves_the_playhead(
    e: EditorModel,
    frame: u32,
    scale: PreviewScale,
    now: Instant,
)
    requires
        in_range(e.playhead),
        frame < e.playhead.duration_frames,
    ensures
        transported(e, TransportAction::Seek(frame), now).playhead.current_frame == frame,
        e.playhead.current_frame + 1 < e.playhead.duration_frames ==> transported(
            e,
            TransportAction::StepForward,
            now,
        ).playhead.current_frame == e.playhead.current_frame + 1,
        e.playhead.current_frame > 0 ==> transported(
            e,
            TransportAction::StepBackward,
            now,
        ).playhead.current_frame == e.playhead.current_frame - 1,
        transported(e, TransportAction::Toggle, now).playhead.state != e.playhead.state,
        transported(e, TransportAction::SetPreviewScale(scale), now).preview_scale == scale,
        transported(e, TransportAction::ToggleGraphEditor, now).graph_editor_open
            != e.graph_editor_open,
{
}

/// Playing changes the playhead only, and the picture is drawn again if another
/// frame is reached.
pub proof fn playing_redraws_new_frames(e: EditorModel, now: Instant, elapsed: u128)
    ensures
        ({
            let f = played(e, now, elapsed);
            &&& f.playhead == looked(e.playhead, now, elapsed)
            &&& f.playhead.current_frame != e.playhead.current_frame ==> f.render_dirty
            &&& f.playhead.current_frame == e.playhead.current_frame ==> f.render_dirty
                == e.render_dirty
            &&& EditorModel { playhead: e.playhead, render_dirty: e.render_dirty, ..f } == e
        }),
{
}

/// A click with the pen adds a point there, behind those drawn so far, unless
/// it closes the path. A path of fewer than three points is not closed.
pub proof fn pen_adds_points(e: EditorModel, at: Point, near_first: bool)
    requires
        e.pen.layer is Some,
        e.pen.anchors.len() < 3 || !near_first,
    ensures
        ({
            let f = pen_clicked(e, at, near_first);
            &&& f.pen.layer == e.pen.layer
            &&& f.pen.anchors.drop_last() == e.pen.anchors
            &&& f.pen.anchors.last().anchor == at
            &&& f.pen.anchors.last().in_tan == (Point { x: zero(), y: zero() })
            &&& f.pen.anchors.last().out_tan == (Point { x: zero(), y: zero() })
            &&& EditorModel { pen: e.pen, ..f } == e
        }),
{
    assert(pen_clicked(e, at, near_first).pen.anchors.drop_last() =~= e.pen.anchors);
}

/// Without a layer the pen does nothing.
pub proof fn idle_pen_draws_nothing(e: EditorModel, at: Point, near_first: bool)
    requires
        e.pen.layer is None,
    ensures
        pen_clicked(e, at, near_first) == e,
{
}

/// A drag with shift starts at the pointer; while it goes on, the region spans
/// from there to the pointer, unless that is too small; when it stops, the
/// region stays.
pub proof fn region_follows_the_drag(e: EditorModel, input: ViewerInput, p: ViewerPointer)
    requires
        !input.escape,
        !input.clicked,
        input.pointer == Some(p),
    ensures
        ({
            let f = viewed(e, input);
            &&& input.drag_started && input.shift ==> f.region_anchor == Some(p.on_picture)
                && f.render_region == e.render_region
            &&& !(input.drag_started && input.shift) && input.dragged ==> match e.region_anchor {
                Some(anchor) => {
                    &&& f.region_anchor == e.region_anchor
                    &&& f.render_region == if p.too_small {
                        e.render_region
                    } else {
                        Some(region_between(anchor, p.on_picture))
                    }
                },
                None => f.render_region == e.render_region,
            }
            &&& !input.drag_started && !input.dragged && input.drag_stopped ==> f.region_anchor
                is None && f.render_region == e.render_region
            &&& f.project == e.project
            &&& f.pen == e.pen
        }),
{
}

/// Buttons of the transport act one after the other.
pub proof fn transport_acts_in_order(
    e: EditorModel,
    actions: Seq<TransportAction>,
    times: Seq<Instant>,
    action: TransportAction,
    now: Instant,
)
    ensures
        transported_all(e, actions.push(action), times.push(now)) == transported(
            transported_all(e, actions, times),
            action,
            now,
        ),
{
    assert(actions.push(action).drop_last() =~= actions);
    assert(times.push(now).drop_last() =~= times);
}

/// Playback starts when the button is pressed while it stands, and not
/// otherwise.
pub proof fn toggling_starts_playback(e: EditorModel, action: TransportAction, now: Instant)
    ensures
        starts_playing(e, action) <==> e.playhead.state != PlayState::Playing && transported(
            e,
            action,
            now,
        ).playhead.state == PlayState::Playing,
        starts_playing(e, action) ==> transported(e, action, now).playhead.looked_at == now,
{
}

} // verus!
