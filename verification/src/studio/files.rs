//! What the editor does with files: picking them, importing media, opening and
//! saving projects, exporting.

use crate::model::asset::{AssetId, AssetKind};
use crate::model::composition::{
    added_layers_have_unique_ids, layer_ids_unique, layer_index, with_layer, CompositionModel,
};
use crate::model::layer::{LayerId, LayerKind};
use crate::model::project::{
    asset_index, is_asset, is_comp, project_ids_unique, with_asset, Project, ProjectModel,
};
use crate::paths::{file_name, file_name_of};
use crate::seqs::first_where_is_first;
use crate::studio::audio::AudioDrive;
use crate::studio::editor::{
    current, outdated, picking, room_for, selected_at, with_comp_at, CacheReset, Editor,
    EditorModel, FileTask, PendingFileKind,
};
use crate::studio::export::{
    completed_path_fits, extension_fits, format_extension, is_last, new_status, status_after, status_lost, with_extension_added,
    ExportModel, ExportOptions, ExportProgress, ExportStatus, StatusModel,
};
use crate::studio::playback::{new_playhead, PlayState, Playhead};
use crate::text::cat;
use std::time::Instant;
use vstd::prelude::*;

verus! {

/// The title of the dialog in which a file is picked.
pub open spec fn pick_title_text(kind: PendingFileKind) -> Seq<char> {
    match kind {
        PendingFileKind::ImportImage => "Import image"@,
        PendingFileKind::ImportVideo => "Import video"@,
        PendingFileKind::ImportAudio => "Import audio"@,
        PendingFileKind::OpenProject => "Open project"@,
        PendingFileKind::SaveProjectAs => "Save project"@,
        PendingFileKind::ExportOutput => "Export to…"@,
    }
}

/// The title of the dialog in which a file is picked.
pub fn pick_title(kind: PendingFileKind) -> (r: &'static str)
    ensures
        r@ == pick_title_text(kind),
{
    match kind {
        PendingFileKind::ImportImage => "Import image",
        PendingFileKind::ImportVideo => "Import video",
        PendingFileKind::ImportAudio => "Import audio",
        PendingFileKind::OpenProject => "Open project",
        PendingFileKind::SaveProjectAs => "Save project",
        PendingFileKind::ExportOutput => "Export to…",
    }
}

/// The name and the extensions of the files that can be picked; any file
/// where there are none.
pub open spec fn pick_filter_of(kind: PendingFileKind) -> Option<(Seq<char>, Seq<Seq<char>>)> {
    match kind {
        PendingFileKind::ImportImage => Some(
            ("Images"@, seq!["png"@, "jpg"@, "jpeg"@, "exr"@, "bmp"@, "tif"@, "tiff"@]),
        ),
        PendingFileKind::ImportVideo => Some(
            ("Video"@, seq!["mp4"@, "mov"@, "mkv"@, "webm"@, "avi"@, "m4v"@]),
        ),
        PendingFileKind::ImportAudio => Some(
            ("Audio"@, seq!["wav"@, "mp3"@, "flac"@, "ogg"@, "aac"@, "m4a"@, "opus"@]),
        ),
        PendingFileKind::OpenProject => Some(("felx project"@, seq!["felx"@])),
        PendingFileKind::SaveProjectAs => Some(("felx project"@, seq!["felx"@])),
        PendingFileKind::ExportOutput => None,
    }
}

/// The name and the extensions of the files that can be picked.
pub struct PickFilter {
    pub name: &'static str,
    pub extensions: Vec<&'static str>,
}

/// The characters of each text.
pub open spec fn texts(s: Seq<&'static str>) -> Seq<Seq<char>> {
    s.map_values(|t: &'static str| t@)
}

/// The files that can be picked.
pub fn pick_filter(kind: PendingFileKind) -> (r: Option<PickFilter>)
    ensures
        match pick_filter_of(kind) {
            Some((name, extensions)) => r is Some && r->0.name@ == name && texts(
                r->0.extensions@,
            ) == extensions,
            None => r is None,
        },
{
    let (name, extensions) = match kind {
        PendingFileKind::ImportImage => (
            "Images",
            vec!["png", "jpg", "jpeg", "exr", "bmp", "tif", "tiff"],
        ),
        PendingFileKind::ImportVideo => ("Video", vec!["mp4", "mov", "mkv", "webm", "avi", "m4v"]),
        PendingFileKind::ImportAudio => (
            "Audio",
            vec!["wav", "mp3", "flac", "ogg", "aac", "m4a", "opus"],
        ),
        PendingFileKind::OpenProject => ("felx project", vec!["felx"]),
        PendingFileKind::SaveProjectAs => ("felx project", vec!["felx"]),
        PendingFileKind::ExportOutput => {
            return None;
        },
    };
    assert(texts(extensions@) =~= pick_filter_of(kind).unwrap().1);
    Some(PickFilter { name, extensions })
}

/// Whether the picked file is to be written.
pub fn picks_for_writing(kind: PendingFileKind) -> (r: bool)
    ensures
        r == (kind is SaveProjectAs || kind is ExportOutput),
{
    match kind {
        PendingFileKind::SaveProjectAs | PendingFileKind::ExportOutput => true,
        _ => false,
    }
}

/// `e` after the picking ended.
pub open spec fn picked(e: EditorModel, result: Option<Seq<char>>) -> EditorModel {
    let f = EditorModel { pending_file: None, ..e };
    match (e.pending_file, result) {
        (Some(PendingFileKind::ExportOutput), Some(path)) => EditorModel {
            export_options: ExportModel { out_path: Some(path), ..e.export_options },
            ..f
        },
        _ => f,
    }
}

/// Whether `task` is what a picked file is for.
pub open spec fn is_task(
    task: FileTask,
    pending: Option<PendingFileKind>,
    result: Option<Seq<char>>,
) -> bool {
    match (pending, result) {
        (Some(PendingFileKind::ImportImage), Some(p)) => task matches FileTask::Import {
            path,
            kind,
        } && path@ == p && kind == AssetKind::Image,
        (Some(PendingFileKind::ImportVideo), Some(p)) => task matches FileTask::Import {
            path,
            kind,
        } && path@ == p && kind == AssetKind::Video,
        (Some(PendingFileKind::ImportAudio), Some(p)) => task matches FileTask::Import {
            path,
            kind,
        } && path@ == p && kind == AssetKind::Audio,
        (Some(PendingFileKind::OpenProject), Some(p)) => task matches FileTask::Open { path }
            && path@ == p,
        (Some(PendingFileKind::SaveProjectAs), Some(p)) => task matches FileTask::Save { path }
            && path@ == p,
        _ => task is Nothing,
    }
}

/// The name of a layer for the file at `path`: the file's name.
pub open spec fn import_label(path: Seq<char>) -> Seq<char> {
    match file_name(path) {
        Some(n) => n,
        None => "imported"@,
    }
}

/// The kind of layer for an asset.
pub open spec fn layer_kind_for(kind: AssetKind, asset: AssetId) -> LayerKind {
    match kind {
        AssetKind::Image => LayerKind::Image { asset },
        AssetKind::Video => LayerKind::Video { asset },
        AssetKind::Audio => LayerKind::Audio { asset },
    }
}

/// How many assets and layers an import adds.
pub open spec fn import_parts(kind: AssetKind, has_audio: bool) -> int {
    if kind == AssetKind::Video && has_audio {
        2
    } else {
        1
    }
}

/// `p` with the assets of an import: one for the file, and another one for its
/// sound if it is a video with sound.
pub open spec fn with_import(
    p: ProjectModel,
    path: Seq<char>,
    kind: AssetKind,
    has_audio: bool,
) -> ProjectModel {
    let q = with_asset(p, path, kind);
    if kind == AssetKind::Video && has_audio {
        with_asset(q, path, AssetKind::Audio)
    } else {
        q
    }
}

/// `c` with the layers of an import, each over the whole composition.
pub open spec fn with_import_layers(
    c: CompositionModel,
    path: Seq<char>,
    kind: AssetKind,
    has_audio: bool,
    asset: AssetId,
) -> CompositionModel {
    let label = import_label(path);
    let d = with_layer(c, label, layer_kind_for(kind, asset), 0, c.duration_frames);
    if kind == AssetKind::Video && has_audio {
        with_layer(
            d,
            label + " (audio)"@,
            LayerKind::Audio { asset: AssetId((asset.0 + 1) as u32) },
            0,
            c.duration_frames,
        )
    } else {
        d
    }
}

/// `e` after the file at `path` was imported: its layer is selected.
pub open spec fn imported(
    e: EditorModel,
    path: Seq<char>,
    kind: AssetKind,
    has_audio: bool,
) -> EditorModel {
    let project = with_import(e.project, path, kind, has_audio);
    match current(e) {
        None => EditorModel { project, ..e },
        Some(i) => {
            let c = e.project.compositions[i];
            let asset = AssetId(e.project.next_asset_id);
            outdated(
                EditorModel {
                    project: with_comp_at(
                        project,
                        i,
                        with_import_layers(c, path, kind, has_audio, asset),
                    ),
                    selected_layer: Some(LayerId(c.next_layer_id)),
                    audio: AudioDrive { bus_dirty: true, ..e.audio },
                    ..e
                },
            )
        },
    }
}

/// The layer of an import is in the composition, is selected, and plays an
/// asset of the project that is the imported file.
pub proof fn import_is_selected(e: EditorModel, path: Seq<char>, kind: AssetKind, has_audio: bool)
    requires
        current(e) is Some,
        project_ids_unique(e.project),
        layer_ids_unique(e.project.compositions[current(e)->0]),
        e.project.next_asset_id + import_parts(kind, has_audio) <= u32::MAX,
        room_for(e, import_parts(kind, has_audio)),
    ensures
        ({
            let f = imported(e, path, kind, has_audio);
            let i = current(e)->0;
            let k = e.project.compositions[i].layers.len() as int;
            let asset = AssetId(e.project.next_asset_id);
            &&& selected_at(f) == Some((i, k))
            &&& f.project.compositions[i].layers[k].kind == layer_kind_for(kind, asset)
            &&& asset_index(f.project.assets, asset) == Some(e.project.assets.len() as int)
            &&& f.project.assets[e.project.assets.len() as int].path == path
            &&& f.project.assets[e.project.assets.len() as int].kind == kind
        }),
{
    let f = imported(e, path, kind, has_audio);
    let i = current(e)->0;
    let c = e.project.compositions[i];
    let asset = AssetId(e.project.next_asset_id);
    let label = import_label(path);
    let lk = layer_kind_for(kind, asset);
    first_where_is_first(e.project.compositions, is_comp(e.comp_id), 0);
    assert(is_comp(e.comp_id)(e.project.compositions[i]));
    added_layers_have_unique_ids(c, label, lk, 0, c.duration_frames);
    let d = with_layer(c, label, lk, 0, c.duration_frames);
    let g = f.project.compositions[i];
    let id = LayerId(c.next_layer_id);
    first_where_is_first(d.layers, crate::model::composition::is_layer(id), 0);
    first_where_is_first(g.layers, crate::model::composition::is_layer(id), 0);
    assert forall|x: int| 0 <= x < d.layers.len() implies g.layers[x] == d.layers[x] by {}
    assert(layer_index(d.layers, id) == Some(c.layers.len() as int));
    assert(layer_index(g.layers, id) == Some(c.layers.len() as int)) by {
        assert(crate::model::composition::is_layer(id)(g.layers[c.layers.len() as int]));
        assert forall|x: int| 0 <= x < c.layers.len() implies !crate::model::composition::is_layer(
            id,
        )(#[trigger] g.layers[x]) by {
            assert(g.layers[x] == c.layers[x]);
        }
    }
    first_where_is_first(f.project.compositions, is_comp(e.comp_id), 0);
    assert(is_comp(e.comp_id)(f.project.compositions[i]));
    assert forall|x: int| 0 <= x < i implies !is_comp(e.comp_id)(
        #[trigger] f.project.compositions[x],
    ) by {
        assert(f.project.compositions[x] == e.project.compositions[x]);
    }
    assert(current(f) == Some(i));
    let n = e.project.assets.len() as int;
    first_where_is_first(f.project.assets, is_asset(asset), 0);
    assert(f.project.assets[n].id == asset);
    assert(is_asset(asset)(f.project.assets[n]));
    assert forall|x: int| 0 <= x < n implies !is_asset(asset)(#[trigger] f.project.assets[x]) by {
        assert(f.project.assets[x] == e.project.assets[x]);
    }
}

/// `e` with another project open since `now`, at its first composition.
pub open spec fn opened(
    e: EditorModel,
    project: ProjectModel,
    path: Seq<char>,
    now: Instant,
) -> EditorModel {
    let c = project.compositions[0];
    EditorModel {
        project,
        comp_id: c.id,
        playhead: new_playhead(c.framerate, c.duration_frames, now),
        selected_layer: None,
        project_path: Some(path),
        render_dirty: true,
        cache: CacheReset::All,
        audio: AudioDrive { bus_dirty: true, open: false, ..e.audio },
        ..e
    }
}

/// The first composition of a project that was opened is the current one.
pub proof fn opened_project_is_current(
    e: EditorModel,
    project: ProjectModel,
    path: Seq<char>,
    now: Instant,
)
    requires
        project.compositions.len() > 0,
    ensures
        current(opened(e, project, path, now)) == Some(0int),
{
    let f = opened(e, project, path, now);
    first_where_is_first(f.project.compositions, is_comp(f.comp_id), 0);
    assert(is_comp(f.comp_id)(f.project.compositions[0]));
}

/// `e` after saving was asked for: without a known file, one is picked.
pub open spec fn saving(e: EditorModel) -> EditorModel {
    if e.project_path is Some {
        e
    } else {
        picking(e, PendingFileKind::SaveProjectAs)
    }
}

/// The options of an export that starts: with a complete output path.
pub open spec fn settled(o: ExportModel) -> Option<ExportModel> {
    match o.out_path {
        None => None,
        Some(p) => Some(
            ExportModel {
                out_path: Some(
                    if extension_fits(o.format, p) {
                        p
                    } else {
                        with_extension_added(o.format, p)
                    },
                ),
                ..o
            },
        ),
    }
}

/// `e` after an export was started, or could not be.
pub open spec fn export_started(e: EditorModel) -> EditorModel {
    let f = EditorModel { export_dialog_open: false, ..e };
    match settled(e.export_options) {
        Some(_) => EditorModel { export_status: new_status(), export_running: true, ..f },
        None => EditorModel {
            export_status: StatusModel {
                done: 0,
                total: 0,
                finished: true,
                error: Some("no output path"@),
            },
            ..f
        },
    }
}

/// `e` after a message of the export worker.
pub open spec fn export_advanced(e: EditorModel, m: ExportProgress) -> EditorModel {
    if e.export_running {
        EditorModel {
            export_status: status_after(e.export_status, m),
            export_running: !is_last(m),
            ..e
        }
    } else {
        e
    }
}

impl Editor {
    /// Takes in the picked file, or that none was picked. Returns what is to
    /// be done with it.
    pub fn file_picked(&mut self, result: Option<String>) -> (r: FileTask)
        ensures
            final(self)@ == picked(old(self)@, crate::studio::export::text_view(result)),
            is_task(r, old(self)@.pending_file, crate::studio::export::text_view(result)),
    {
        let pending = self.pending_file;
        self.pending_file = None;
        let path = match result {
            Some(p) => p,
            None => {
                return FileTask::Nothing;
            },
        };
        match pending {
            Some(PendingFileKind::ImportImage) => FileTask::Import {
                path,
                kind: AssetKind::Image,
            },
            Some(PendingFileKind::ImportVideo) => FileTask::Import {
                path,
                kind: AssetKind::Video,
            },
            Some(PendingFileKind::ImportAudio) => FileTask::Import {
                path,
                kind: AssetKind::Audio,
            },
            Some(PendingFileKind::OpenProject) => FileTask::Open { path },
            Some(PendingFileKind::SaveProjectAs) => FileTask::Save { path },
            Some(PendingFileKind::ExportOutput) => {
                self.export_options.out_path = Some(path);
                FileTask::Nothing
            },
            None => FileTask::Nothing,
        }
    }

    /// Imports a media file as a new layer. `has_audio` tells whether a video
    /// has sound, which then gets a layer of its own.
    pub fn complete_import(&mut self, path: String, kind: AssetKind, has_audio: bool)
        requires
            old(self)@.project.next_asset_id + import_parts(kind, has_audio) <= u32::MAX,
            room_for(old(self)@, import_parts(kind, has_audio)),
        ensures
            final(self)@ == imported(old(self)@, path@, kind, has_audio),
    {
        let asset = self.project.add_asset(path.clone(), kind);
        let is_video = match kind {
            AssetKind::Video => true,
            _ => false,
        };
        let extra = is_video && has_audio;
        let mut sound = asset;
        if extra {
            sound = self.project.add_asset(path.clone(), AssetKind::Audio);
        }
        let label = match file_name_of(&path) {
            Some(n) => n,
            None => "imported".to_owned(),
        };
        let layer_kind = match kind {
            AssetKind::Image => LayerKind::Image { asset },
            AssetKind::Video => LayerKind::Video { asset },
            AssetKind::Audio => LayerKind::Audio { asset },
        };
        let mut chosen: Option<LayerId> = None;
        if let Some(comp) = self.project.composition_mut(self.comp_id) {
            let dur: u32 = comp.duration_frames;
            let id = comp.add_layer(label.clone(), layer_kind, 0, dur);
            if extra {
                let name = cat(&label, " (audio)");
                comp.add_layer(name, LayerKind::Audio { asset: sound }, 0, dur);
            }
            chosen = Some(id);
        }
        if chosen.is_some() {
            self.selected_layer = chosen;
            self.audio.bus_dirty = true;
            self.outdate();
        }
    }

    /// Opens a project that was loaded from `path`.
    pub fn complete_open_project(&mut self, project: Project, path: String)
        requires
            project@.compositions.len() > 0,
        ensures
            final(self)@ == opened(old(self)@, project@, path@, final(self)@.playhead.looked_at),
            call_ensures(Instant::now, (), final(self)@.playhead.looked_at),
    {
        let c = &project.compositions[0];
        assert(project@.compositions[0] == c@);
        self.playhead = Playhead::new(c.framerate, c.duration_frames);
        self.comp_id = c.id;
        self.project = project;
        self.selected_layer = None;
        self.project_path = Some(path);
        self.render_dirty = true;
        self.cache = CacheReset::All;
        self.audio.bus_dirty = true;
        self.audio.open = false;
    }

    /// Saves the project: returns the file to write, if it is known; else one
    /// is picked.
    pub fn save_project(&mut self) -> (r: Option<String>)
        ensures
            final(self)@ == saving(old(self)@),
            crate::studio::export::text_view(r) == old(self)@.project_path,
    {
        match &self.project_path {
            Some(p) => Some(p.clone()),
            None => {
                self.start_file_pick(PendingFileKind::SaveProjectAs);
                None
            },
        }
    }

    /// Saves the project to a file that is picked first.
    pub fn save_project_as(&mut self)
        ensures
            final(self)@ == picking(
                EditorModel { project_path: None, ..old(self)@ },
                PendingFileKind::SaveProjectAs,
            ),
    {
        self.project_path = None;
        self.start_file_pick(PendingFileKind::SaveProjectAs);
    }

    /// The project was written to `path`.
    pub fn project_saved(&mut self, path: String)
        ensures
            final(self)@ == (EditorModel { project_path: Some(path@), ..old(self)@ }),
    {
        self.project_path = Some(path);
    }

    /// Starts an export. Returns the options that the worker gets, unless
    /// there is no output path.
    pub fn start_export(&mut self) -> (r: Option<ExportOptions>)
        ensures
            final(self)@ == export_started(old(self)@),
            match settled(old(self)@.export_options) {
                Some(o) => r is Some && r->0@ == o,
                None => r is None,
            },
    {
        self.export_dialog_open = false;
        let mut opts = self.export_options.duplicate();
        match opts.settle_path() {
            Ok(()) => {
                self.export_status = ExportStatus::default();
                self.export_running = true;
                Some(opts)
            },
            Err(e) => {
                self.export_status = ExportStatus::failed_to_start(e);
                None
            },
        }
    }

    /// Takes in a message of the export worker.
    pub fn export_message(&mut self, m: ExportProgress)
        ensures
            final(self)@ == export_advanced(old(self)@, m),
    {
        if self.export_running {
            let last = self.export_status.absorb(m);
            self.export_running = !last;
        }
    }

    /// The export worker went away.
    pub fn export_worker_lost(&mut self)
        ensures
            final(self)@ == if old(self)@.export_running {
                EditorModel {
                    export_status: status_lost(old(self)@.export_status),
                    export_running: false,
                    ..old(self)@
                }
            } else {
                old(self)@
            },
    {
        if self.export_running {
            self.export_status.worker_lost();
            self.export_running = false;
        }
    }

    /// Puts away the note on a finished export.
    pub fn dismiss_export(&mut self)
        ensures
            final(self)@ == (EditorModel { export_status: new_status(), ..old(self)@ }),
    {
        self.export_status = ExportStatus::default();
    }

    /// Whether a note on a finished export is to be shown.
    pub fn export_note(&self) -> (r: bool)
        ensures
            r == (!self@.export_running && self@.export_status.finished),
    {
        !self.export_running && self.export_status.finished
    }
}

/// Picking ends the wait for a file. What was picked is handled as it was
/// asked for, and nothing happens if nothing was picked.
pub proof fn picked_file_goes_where_it_was_asked(
    e: EditorModel,
    path: Seq<char>,
    task: FileTask,
)
    requires
        is_task(task, e.pending_file, Some(path)),
    ensures
        picked(e, Some(path)).pending_file is None,
        picked(e, None) == (EditorModel { pending_file: None, ..e }),
        e.pending_file == Some(PendingFileKind::ExportOutput) ==> picked(
            e,
            Some(path),
        ).export_options.out_path == Some(path) && task is Nothing,
        e.pending_file != Some(PendingFileKind::ExportOutput) ==> picked(e, Some(path))
            == picked(e, None),
        picked(e, Some(path)).project == e.project,
        task is Open <==> e.pending_file == Some(PendingFileKind::OpenProject),
        task is Save <==> e.pending_file == Some(PendingFileKind::SaveProjectAs),
        task is Import <==> (e.pending_file matches Some(kind) && (kind is ImportImage
            || kind is ImportVideo || kind is ImportAudio)),
        task matches FileTask::Import { path: p, kind } ==> p@ == path && match kind {
            AssetKind::Image => e.pending_file->0 is ImportImage,
            AssetKind::Video => e.pending_file->0 is ImportVideo,
            AssetKind::Audio => e.pending_file->0 is ImportAudio,
        },
        task matches FileTask::Open { path: p } ==> p@ == path,
        task matches FileTask::Save { path: p } ==> p@ == path,
{
}

/// No file picked, nothing to do.
pub proof fn nothing_is_done_without_a_file(task: FileTask, pending: Option<PendingFileKind>)
    ensures
        is_task(task, pending, None) <==> task is Nothing,
        is_task(task, None, None) <==> task is Nothing,
{
}

/// An import takes the file name as the label of its layer, which lasts as
/// long as the composition and shows the new asset. A video with sound brings
/// a second asset of the same file, and an audio layer for it.
pub proof fn import_makes_its_layers(
    e: EditorModel,
    path: Seq<char>,
    kind: AssetKind,
    has_audio: bool,
    i: int,
)
    requires
        current(e) == Some(i),
        e.project.next_asset_id + 2 <= u32::MAX,
        e.project.compositions[i].next_layer_id + 2 <= u32::MAX,
    ensures
        ({
            let f = imported(e, path, kind, has_audio);
            let (c, d) = (e.project.compositions[i], f.project.compositions[i]);
            let (n, a) = (c.layers.len() as int, e.project.assets.len() as int);
            let both = kind == AssetKind::Video && has_audio;
            &&& d.layers.len() == n + import_parts(kind, has_audio)
            &&& f.project.assets.len() == a + import_parts(kind, has_audio)
            &&& d.layers.take(n) == c.layers
            &&& f.project.assets.take(a) == e.project.assets
            &&& file_name(path) matches Some(name) ==> d.layers[n].name == name
            &&& d.layers[n].in_frame == 0
            &&& d.layers[n].out_frame == c.duration_frames
            &&& f.project.assets[a].path == path
            &&& f.project.assets[a].kind == kind
            &&& match d.layers[n].kind {
                LayerKind::Image { asset } => kind == AssetKind::Image && asset
                    == f.project.assets[a].id,
                LayerKind::Video { asset } => kind == AssetKind::Video && asset
                    == f.project.assets[a].id,
                LayerKind::Audio { asset } => kind == AssetKind::Audio && asset
                    == f.project.assets[a].id,
                _ => false,
            }
            &&& both ==> {
                &&& f.project.assets[a + 1].path == path
                &&& f.project.assets[a + 1].kind == AssetKind::Audio
                &&& d.layers[n + 1].kind == (LayerKind::Audio { asset: f.project.assets[a + 1].id })
                &&& d.layers[n + 1].in_frame == 0
                &&& d.layers[n + 1].out_frame == c.duration_frames
                &&& d.layers[n + 1].name == d.layers[n].name + " (audio)"@
            }
            &&& f.render_dirty
            &&& f.audio.bus_dirty
            &&& f.playhead == e.playhead
        }),
{
    first_where_is_first(e.project.compositions, is_comp(e.comp_id), 0);
    let f = imported(e, path, kind, has_audio);
    let c = e.project.compositions[i];
    let n = c.layers.len() as int;
    assert(f.project.compositions[i].layers.take(n) =~= c.layers);
    assert(f.project.assets.take(e.project.assets.len() as int) =~= e.project.assets);
}

/// An opened project is shown from the start of its first composition, at that
/// composition's rate and length, and everything is drawn and mixed anew.
pub proof fn opened_project_is_shown_from_the_start(
    e: EditorModel,
    project: ProjectModel,
    path: Seq<char>,
    now: Instant,
)
    requires
        project.compositions.len() > 0,
    ensures
        ({
            let f = opened(e, project, path, now);
            &&& f.project == project
            &&& f.project_path == Some(path)
            &&& f.playhead.current_frame == 0
            &&& f.playhead.framerate == project.compositions[0].framerate
            &&& f.playhead.duration_frames == project.compositions[0].duration_frames
            &&& f.playhead.state == PlayState::Stopped
            &&& f.selected_layer is None
            &&& f.render_dirty
            &&& f.cache == CacheReset::All
            &&& f.audio.bus_dirty && !f.audio.open
        }),
{
}

/// Saving a project without a file asks for one; with a file nothing is asked.
pub proof fn saving_asks_for_a_file_once(e: EditorModel)
    ensures
        e.project_path is Some ==> saving(e) == e,
        e.project_path is None && e.pending_file is None ==> saving(e).pending_file == Some(
            PendingFileKind::SaveProjectAs,
        ),
        saving(saving(e)) == saving(e),
        saving(e).project == e.project,
{
}

/// An export goes to a path whose ending fits its format, and to the chosen
/// path itself if that fits. Only the path is settled.
pub proof fn settled_path_fits(o: ExportModel, p: Seq<char>)
    requires
        o.out_path == Some(p),
    ensures
        settled(o) matches Some(s) && s.format == o.format && (ExportModel {
            out_path: o.out_path,
            ..s
        }) == o && (s.out_path matches Some(q) && (extension_fits(o.format, p) ==> q == p) && (
        format_extension(o.format) is Some ==> extension_fits(o.format, q))),
        settled(ExportModel { out_path: None, ..o }) is None,
{
    if format_extension(o.format) is Some {
        completed_path_fits(o.format, p);
    }
}

/// Starting an export closes the dialog. The export runs if there is a path,
/// and has failed at once if there is none.
pub proof fn export_starts_with_a_path(e: EditorModel)
    ensures
        !export_started(e).export_dialog_open,
        e.export_options.out_path is Some ==> export_started(e).export_running && export_started(
            e,
        ).export_status.error is None && !export_started(e).export_status.finished
            && export_started(e).export_status.done == 0,
        e.export_options.out_path is None ==> export_started(e).export_running == e.export_running
            && export_started(e).export_status.finished && export_started(e).export_status.error
            is Some,
        export_started(e).project == e.project,
{
}

/// Reports change the status of a running export, which the last one ends.
/// Reports that come after the end are dropped.
pub proof fn reports_end_with_the_export(e: EditorModel, m: ExportProgress, later: ExportProgress)
    ensures
        !e.export_running ==> export_advanced(e, m) == e,
        is_last(m) ==> export_advanced(export_advanced(e, m), later) == export_advanced(e, m),
        e.export_running && !is_last(m) ==> export_advanced(e, m).export_running,
        e.export_running ==> export_advanced(e, m).export_status == status_after(
            e.export_status,
            m,
        ),
        export_advanced(e, m).project == e.project,
{
}

/// What is picked in the dialog titled `label`.
pub open spec fn pick_titled(label: Seq<char>) -> Option<PendingFileKind> {
    if label == "Import image"@ {
        Some(PendingFileKind::ImportImage)
    } else if label == "Import video"@ {
        Some(PendingFileKind::ImportVideo)
    } else if label == "Import audio"@ {
        Some(PendingFileKind::ImportAudio)
    } else if label == "Open project"@ {
        Some(PendingFileKind::OpenProject)
    } else if label == "Save project"@ {
        Some(PendingFileKind::SaveProjectAs)
    } else if label == "Export to…"@ {
        Some(PendingFileKind::ExportOutput)
    } else {
        None
    }
}

/// The title of the dialog tells what is picked.
pub proof fn picks_are_told_by_their_titles(x: PendingFileKind)
    ensures
        pick_titled(pick_title_text(x)) == Some(x),
{
    reveal_strlit("Import image");
    reveal_strlit("Import video");
    reveal_strlit("Import audio");
    reveal_strlit("Open project");
    reveal_strlit("Save project");
    reveal_strlit("Export to…");
    match x {
        PendingFileKind::ImportImage => {},
        PendingFileKind::ImportVideo => {
            assert("Import video"@[7] != "Import image"@[7]);
        },
        PendingFileKind::ImportAudio => {
            assert("Import audio"@[7] != "Import image"@[7]);
            assert("Import audio"@[7] != "Import video"@[7]);
        },
        PendingFileKind::OpenProject => {
            assert("Open project"@[0] != "Import image"@[0]);
            assert("Open project"@[0] != "Import video"@[0]);
            assert("Open project"@[0] != "Import audio"@[0]);
        },
        PendingFileKind::SaveProjectAs => {
            assert("Save project"@[0] != "Import image"@[0]);
            assert("Save project"@[0] != "Import video"@[0]);
            assert("Save project"@[0] != "Import audio"@[0]);
            assert("Save project"@[0] != "Open project"@[0]);
        },
        PendingFileKind::ExportOutput => {
            assert("Export to…"@.len() != "Import image"@.len());
            assert("Export to…"@.len() != "Import video"@.len());
            assert("Export to…"@.len() != "Import audio"@.len());
            assert("Export to…"@.len() != "Open project"@.len());
            assert("Export to…"@.len() != "Save project"@.len());
        },
    }
}

/// Projects are opened and saved under one filter, and an export under none.
/// The three kinds of imports have filters of their own.
pub proof fn filters_follow_the_kind(kind: PendingFileKind)
    ensures
        pick_filter_of(PendingFileKind::OpenProject) == pick_filter_of(
            PendingFileKind::SaveProjectAs,
        ),
        pick_filter_of(kind) is None <==> kind is ExportOutput,
        kind is SaveProjectAs ==> pick_filter_of(kind).unwrap().1 == seq!["felx"@],
        kind is ImportImage ==> pick_filter_of(kind).unwrap().1.contains("png"@),
        kind is ImportVideo ==> pick_filter_of(kind).unwrap().1.contains("mp4"@),
        kind is ImportAudio ==> pick_filter_of(kind).unwrap().1.contains("wav"@),
{
    if kind is ImportImage {
        assert(pick_filter_of(kind).unwrap().1[0] == "png"@);
    }
    if kind is ImportVideo {
        assert(pick_filter_of(kind).unwrap().1[0] == "mp4"@);
    }
    if kind is ImportAudio {
        assert(pick_filter_of(kind).unwrap().1[0] == "wav"@);
    }
}

} // verus!
