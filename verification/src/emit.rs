//! Shot prompts: one shot of a scene described as a paragraph in a target
//! model's dialect, from its framing, blocking, camera program, lens,
//! composition, lighting, intent and notes.
//!
//! What depends on measurements (which way an operation moves, its printed
//! magnitude and duration, the printed focal length and aperture, the depth
//! of field they give) arrives as a [`ShotWording`]; everything else is
//! decided here.
use vstd::prelude::*;

use crate::diagnostic::{flatten, lemma_flatten_new_step};
use crate::order::{edit_order, edit_order_of};
use crate::model::{
    BlockingKeyframe, BlockingTrack, CameraOperation, CineProject, DepthRole, FrameRange, LightSource, LightingSetup, Marker, Scene,
    Shot, Subject, TargetRef, Transition,
};
use crate::names::{
    camera_rig_key, camera_rig_name, composition_strategy_key, composition_strategy_name, coverage_role_key,
    coverage_role_name, depth_role_key, depth_role_name, horizontal_angle_key, horizontal_angle_name, light_kind_key,
    light_kind_name, light_role_key, light_role_name, screen_region_key, screen_region_name, shot_purpose_key,
    shot_purpose_name, shot_size_key, shot_size_name, transition_key, transition_name, vertical_angle_key,
    vertical_angle_name,
};
use crate::palette::{palette_color, palette_lookup, scene_palette, NamedColor};
use crate::prompt::{ShotPrompt, bind_color, bound_name, capitalize, capitalized, join_natural, natural_list, phrase_text, PromptDialect, PromptOptions};
use crate::text::{chars_of, decimal, owned, push_decimal, push_str, replace_all, replaced, string_of, string_views};
use crate::timeline::shot_order;
use crate::validate::ids;

verus! {

broadcast use vstd::seq_lib::group_seq_properties;

/// How one camera operation is worded, decided from its measurements: the
/// dialect key of a zoom or crane (`zoom_in`, `crane_up`, ...; the key of
/// every other operation is decided by [`movement_key`]), its magnitude as
/// printed (where `{to}` stands for the dialect's word "to"), and its
/// duration in seconds as printed.
#[derive(Debug, Clone)]
pub struct OperationWording {
    pub key: String,
    pub measurement: Option<String>,
    pub seconds: String,
}

/// How the lens is worded: focal length and aperture as printed, and the
/// dialect key of the depth of field they give, if any.
#[derive(Debug, Clone)]
pub struct LensWording {
    pub focal_length: String,
    pub aperture: String,
    pub depth_of_field: Option<String>,
}

/// The measured wording of a shot: one entry per camera operation, in
/// declaration order, and its lens.
#[derive(Debug, Clone)]
pub struct ShotWording {
    pub operations: Vec<OperationWording>,
    pub lens: LensWording,
}

/// `items` joined with `sep` between consecutive items.
pub open spec fn joined(items: Seq<Seq<char>>, sep: Seq<char>) -> Seq<char>
    decreases items.len(),
{
    if items.len() == 0 {
        Seq::empty()
    } else if items.len() == 1 {
        items[0]
    } else {
        joined(items.drop_last(), sep) + sep + items.last()
    }
}

pub fn join_with(items: &Vec<String>, sep: &str) -> (text: String)
    ensures
        text@ == joined(string_views(items@), sep@),
{
    let ghost views = string_views(items@);
    let mut text = String::new();
    let mut i: usize = 0;
    while i < items.len()
        invariant
            i <= items.len(),
            views == string_views(items@),
            text@ == joined(views.take(i as int), sep@),
        decreases items.len() - i,
    {
        assert(views.take(i + 1).drop_last() =~= views.take(i as int));
        if i > 0 {
            push_str(&mut text, sep);
        }
        push_str(&mut text, items[i].as_str());
        i = i + 1;
    }
    assert(views.take(items.len() as int) =~= views);
    text
}

fn nonempty(s: &String) -> (b: bool)
    ensures
        b == (s@.len() > 0),
{
    chars_of(s.as_str()).len() > 0
}

fn push_sentence(out: &mut Vec<String>, s: String)
    ensures
        string_views(final(out)@) == string_views(old(out)@).push(s@),
{
    let ghost before = out@;
    out.push(s);
    assert(string_views(out@) =~= string_views(before).push(s@));
}

/// The dialect's connective word `key`.
pub open spec fn word(d: PromptDialect, key: Seq<char>) -> Seq<char> {
    phrase_text(d.phrases@, key)
}

/// `[p]` when `p` is not empty.
pub open spec fn unless_empty(p: Seq<char>) -> Seq<Seq<char>> {
    if p.len() > 0 { seq![p] } else { Seq::empty() }
}

// ----------------------------------------------------------------------
// Names
// ----------------------------------------------------------------------

/// Index of the first of the first `n` subjects with id `id`.
pub open spec fn subject_index(subjects: Seq<Subject>, id: Seq<char>, n: nat) -> Option<int>
    decreases n,
{
    if n == 0 {
        None
    } else {
        match subject_index(subjects, id, (n - 1) as nat) {
            Some(i) => Some(i),
            None => if subjects[n - 1].id@ == id { Some(n - 1) } else { None },
        }
    }
}

/// A subject's name (its id when no subject has that id).
pub open spec fn subject_name(scene: Scene, id: Seq<char>) -> Seq<char> {
    match subject_index(scene.subjects@, id, scene.subjects@.len()) {
        Some(i) => scene.subjects@[i].name@,
        None => id,
    }
}

/// How a subject is named in a prompt: its name, bound to its palette
/// colour when colour binding is on.
pub open spec fn name_of(scene: Scene, d: PromptDialect, o: PromptOptions, id: Seq<char>) -> Seq<char> {
    let name = subject_name(scene, id);
    match palette_color(ids(scene.subjects@), id) {
        Some(color) => if o.include_color_binding {
            bound_name(word(d, "color_binding"@), name, color.name@)
        } else {
            name
        },
        None => name,
    }
}

/// Index of the first of the first `n` markers with id `id`.
pub open spec fn marker_index(markers: Seq<Marker>, id: Seq<char>, n: nat) -> Option<int>
    decreases n,
{
    if n == 0 {
        None
    } else {
        match marker_index(markers, id, (n - 1) as nat) {
            Some(i) => Some(i),
            None => if markers[n - 1].id@ == id { Some(n - 1) } else { None },
        }
    }
}

/// How a target is named: a subject by name, a marker by its name (its id
/// when unknown), a point as the dialect's "fixed point".
pub open spec fn target_name(scene: Scene, d: PromptDialect, o: PromptOptions, t: TargetRef) -> Seq<char> {
    match t {
        TargetRef::Subject { id } => name_of(scene, d, o, id@),
        TargetRef::Marker { id } => match marker_index(scene.markers@, id@, scene.markers@.len()) {
            Some(i) => scene.markers@[i].name@,
            None => id@,
        },
        TargetRef::Point { .. } => word(d, "fixed_point"@),
    }
}

proof fn lemma_subject_index_stable(subjects: Seq<Subject>, id: Seq<char>, m: nat, n: nat)
    requires
        m <= n <= subjects.len(),
        subject_index(subjects, id, m) is Some,
    ensures
        subject_index(subjects, id, n) == subject_index(subjects, id, m),
    decreases n - m,
{
    if n > m {
        lemma_subject_index_stable(subjects, id, m, (n - 1) as nat);
    }
}

proof fn lemma_marker_index_stable(markers: Seq<Marker>, id: Seq<char>, m: nat, n: nat)
    requires
        m <= n <= markers.len(),
        marker_index(markers, id, m) is Some,
    ensures
        marker_index(markers, id, n) == marker_index(markers, id, m),
    decreases n - m,
{
    if n > m {
        lemma_marker_index_stable(markers, id, m, (n - 1) as nat);
    }
}

fn find_subject_name(scene: &Scene, id: &str) -> (name: String)
    ensures
        name@ == subject_name(*scene, id@),
{
    let wanted = owned(id);
    let mut i: usize = 0;
    while i < scene.subjects.len()
        invariant
            i <= scene.subjects.len(),
            wanted@ == id@,
            subject_index(scene.subjects@, id@, i as nat) is None,
        decreases scene.subjects.len() - i,
    {
        if scene.subjects[i].id == wanted {
            proof { lemma_subject_index_stable(scene.subjects@, id@, (i + 1) as nat, scene.subjects@.len()); }
            return scene.subjects[i].name.clone();
        }
        i = i + 1;
    }
    wanted
}

fn find_marker(markers: &Vec<Marker>, id: &String) -> (index: Option<usize>)
    ensures
        match index {
            Some(i) => marker_index(markers@, id@, markers@.len()) == Some(i as int) && i < markers.len(),
            None => marker_index(markers@, id@, markers@.len()) is None,
        },
{
    let mut i: usize = 0;
    while i < markers.len()
        invariant
            i <= markers.len(),
            marker_index(markers@, id@, i as nat) is None,
        decreases markers.len() - i,
    {
        if markers[i].id == *id {
            proof { lemma_marker_index_stable(markers@, id@, (i + 1) as nat, markers@.len()); }
            return Some(i);
        }
        i = i + 1;
    }
    None
}

/// Names subjects and targets of one scene.
struct Namer<'a> {
    scene: &'a Scene,
    dialect: &'a PromptDialect,
    options: PromptOptions,
    palette: Vec<(String, NamedColor)>,
}

impl<'a> Namer<'a> {
    spec fn wf(&self) -> bool {
        crate::palette::is_palette_of(self.palette@, ids(self.scene.subjects@))
    }

    fn new(scene: &'a Scene, dialect: &'a PromptDialect, options: PromptOptions) -> (n: Namer<'a>)
        ensures
            n.wf(),
            n.scene == scene,
            n.dialect == dialect,
            n.options == options,
    {
        Namer { scene, dialect, options, palette: scene_palette(scene) }
    }

    fn name(&self, id: &str) -> (name: String)
        requires
            self.wf(),
        ensures
            name@ == name_of(*self.scene, *self.dialect, self.options, id@),
    {
        let name = find_subject_name(self.scene, id);
        match palette_lookup(&self.palette, id) {
            Some(color) => if self.options.include_color_binding {
                bind_color(self.dialect, name.as_str(), color)
            } else {
                name
            },
            None => name,
        }
    }

    fn target(&self, t: &TargetRef) -> (name: String)
        requires
            self.wf(),
        ensures
            name@ == target_name(*self.scene, *self.dialect, self.options, *t),
    {
        match t {
            TargetRef::Subject { id } => self.name(id.as_str()),
            TargetRef::Marker { id } => match find_marker(&self.scene.markers, id) {
                Some(i) => self.scene.markers[i].name.clone(),
                None => id.clone(),
            },
            TargetRef::Point { .. } => self.dialect.word("fixed_point"),
        }
    }
}

// ----------------------------------------------------------------------
// Sentences
// ----------------------------------------------------------------------

/// "Scene: <title>." and the dramatic question, when scene context is on.
pub open spec fn context_sentences(scene: Scene, d: PromptDialect, o: PromptOptions) -> Seq<Seq<char>> {
    if o.include_scene_context {
        seq![word(d, "scene"@) + ": "@ + scene.title@ + "."@ + match scene.narrative.dramatic_question {
            Some(q) => " "@ + q@,
            None => Seq::empty(),
        }]
    } else {
        Seq::empty()
    }
}

/// The incoming transition, unless it is a plain cut or the dialect says
/// nothing for it.
pub open spec fn transition_sentences(shot: Shot, d: PromptDialect) -> Seq<Seq<char>> {
    if shot.transition_in != Transition::Cut {
        let p = phrase_text(d.transition@, transition_key(shot.transition_in));
        if p.len() > 0 { seq![capitalized(p + "."@)] } else { Seq::empty() }
    } else {
        Seq::empty()
    }
}

/// "<Role>: <size>, <horizontal angle>, <vertical angle>." (empty angle
/// phrases left out).
pub open spec fn header_sentences(shot: Shot, d: PromptDialect) -> Seq<Seq<char>> {
    let parts = seq![phrase_text(d.shot_size@, shot_size_key(shot.framing.shot_size))] + unless_empty(
        phrase_text(d.horizontal_angle@, horizontal_angle_key(shot.framing.horizontal_angle)),
    ) + unless_empty(phrase_text(d.vertical_angle@, vertical_angle_key(shot.framing.vertical_angle)));
    let role = phrase_text(d.coverage_role@, coverage_role_key(shot.coverage_role));
    seq![capitalized(role + ": "@ + joined(parts, ", "@) + "."@)]
}

/// The names of `ids` in a prompt.
pub open spec fn names_of(scene: Scene, d: PromptDialect, o: PromptOptions, ids: Seq<String>) -> Seq<Seq<char>> {
    ids.map_values(|id: String| name_of(scene, d, o, id@))
}

/// "Framing <a>, <b> and <c>." for the framed subjects.
pub open spec fn framing_sentences(scene: Scene, shot: Shot, d: PromptDialect, o: PromptOptions) -> Seq<Seq<char>> {
    if shot.framing.subject_ids@.len() > 0 {
        seq![word(d, "framing"@) + " "@ + natural_list(names_of(scene, d, o, shot.framing.subject_ids@), word(d, "and"@))
            + "."@]
    } else {
        Seq::empty()
    }
}

/// "<focal> mm lens, f/<aperture>[, <depth of field>]."
pub open spec fn lens_sentences(d: PromptDialect, lens: LensWording) -> Seq<Seq<char>> {
    seq![lens.focal_length@ + " mm "@ + word(d, "lens"@) + ", f/"@ + lens.aperture@ + match lens.depth_of_field {
        Some(k) => ", "@ + word(d, k@),
        None => Seq::empty(),
    } + "."@]
}

/// The composition strategy, negative space and notes, when any.
pub open spec fn composition_sentences(shot: Shot, d: PromptDialect) -> Seq<Seq<char>> {
    let c = shot.framing.composition;
    let parts = unless_empty(phrase_text(d.composition_strategy@, composition_strategy_key(c.strategy))) + match c.negative_space {
        Some(r) => seq![phrase_text(d.screen_region@, screen_region_key(r))],
        None => Seq::empty(),
    } + string_views(c.notes@);
    if parts.len() > 0 { seq![capitalized(joined(parts, ", "@) + "."@)] } else { Seq::empty() }
}

/// "Intent: <purposes>."
pub open spec fn intent_sentences(shot: Shot, d: PromptDialect) -> Seq<Seq<char>> {
    if shot.purpose@.len() > 0 {
        seq![word(d, "intent"@) + ": "@ + joined(
            shot.purpose@.map_values(|p: crate::model::ShotPurpose| phrase_text(d.shot_purpose@, shot_purpose_key(p))),
            ", "@,
        ) + "."@]
    } else {
        Seq::empty()
    }
}

/// "Beat: <intent>." for each beat overlapping the shot.
pub open spec fn beat_sentence(shot: Shot, d: PromptDialect, b: crate::model::Beat) -> Seq<Seq<char>> {
    if b.range.start < shot.range.end && shot.range.start < b.range.end {
        seq![word(d, "beat"@) + ": "@ + b.intent@ + "."@]
    } else {
        Seq::empty()
    }
}

pub open spec fn beat_sentences(scene: Scene, shot: Shot, d: PromptDialect) -> Seq<Seq<char>> {
    flatten(Seq::new(scene.beats@.len(), |i: int| beat_sentence(shot, d, scene.beats@[i])))
}

/// "Notes: <notes>" (no closing period).
pub open spec fn note_sentences(shot: Shot, d: PromptDialect) -> Seq<Seq<char>> {
    if shot.notes@.len() > 0 {
        seq![word(d, "notes"@) + ": "@ + joined(string_views(shot.notes@), " "@)]
    } else {
        Seq::empty()
    }
}

/// The dialect's closing word, when it has one.
pub open spec fn closing_sentences(d: PromptDialect) -> Seq<Seq<char>> {
    let c = word(d, "cinematic"@);
    if c.len() > 0 { seq![capitalized(c + "."@)] } else { Seq::empty() }
}

/// Index of the first of the first `n` lighting setups with id `id`.
pub open spec fn setup_index(setups: Seq<LightingSetup>, id: Seq<char>, n: nat) -> Option<int>
    decreases n,
{
    if n == 0 {
        None
    } else {
        match setup_index(setups, id, (n - 1) as nat) {
            Some(i) => Some(i),
            None => if setups[n - 1].id@ == id { Some(n - 1) } else { None },
        }
    }
}

/// "; <kind> as <role> (<temperature>K)[, motivated by <m>]"
pub open spec fn source_text(d: PromptDialect, s: LightSource) -> Seq<char> {
    "; "@ + phrase_text(d.light_kind@, light_kind_key(s.kind)) + " "@ + word(d, "as"@) + " "@ + phrase_text(
        d.light_role@,
        light_role_key(s.role),
    ) + " ("@ + decimal(s.color_temperature_k as nat) + "K)"@ + match s.motivated_by {
        Some(m) => ", "@ + word(d, "motivated_by"@) + " "@ + m@,
        None => Seq::empty(),
    }
}

pub open spec fn setup_text(d: PromptDialect, setup: LightingSetup) -> Seq<char> {
    word(d, "lighting"@) + ": "@ + setup.name@ + flatten(
        Seq::new(setup.sources@.len(), |i: int| source_text(d, setup.sources@[i])),
    ) + flatten(Seq::new(setup.notes@.len(), |i: int| "; "@ + setup.notes@[i]@)) + "."@
}

/// The shot's lighting setup, when it names a known one.
pub open spec fn lighting_sentences(scene: Scene, shot: Shot, d: PromptDialect) -> Seq<Seq<char>> {
    match shot.lighting_setup_id {
        Some(id) => match setup_index(scene.lighting_setups@, id@, scene.lighting_setups@.len()) {
            Some(i) => seq![setup_text(d, scene.lighting_setups@[i])],
            None => Seq::empty(),
        },
        None => Seq::empty(),
    }
}

/// The names of the subjects of `layers` in role `role`, layer by layer.
pub open spec fn layer_names(
    scene: Scene,
    d: PromptDialect,
    o: PromptOptions,
    layers: Seq<crate::model::DepthLayer>,
    role: DepthRole,
) -> Seq<Seq<char>> {
    flatten(
        Seq::new(
            layers.len(),
            |i: int| if layers[i].role == role { names_of(scene, d, o, layers[i].subject_ids@) } else { Seq::empty() },
        ),
    )
}

/// "<role>: <names>" for one depth role, when it has subjects.
pub open spec fn layer_part(scene: Scene, shot: Shot, d: PromptDialect, o: PromptOptions, role: DepthRole) -> Seq<
    Seq<char>,
> {
    let names = layer_names(scene, d, o, shot.framing.composition.depth_layers@, role);
    if names.len() > 0 {
        seq![phrase_text(d.depth_role@, depth_role_key(role)) + ": "@ + joined(names, ", "@)]
    } else {
        Seq::empty()
    }
}

/// Foreground, midground and background subjects, when any layer has one.
pub open spec fn layer_sentences(scene: Scene, shot: Shot, d: PromptDialect, o: PromptOptions) -> Seq<Seq<char>> {
    let parts = layer_part(scene, shot, d, o, DepthRole::Foreground) + layer_part(scene, shot, d, o, DepthRole::Midground)
        + layer_part(scene, shot, d, o, DepthRole::Background);
    if shot.framing.composition.depth_layers@.len() > 0 && parts.len() > 0 {
        seq![capitalized(joined(parts, "; "@) + "."@)]
    } else {
        Seq::empty()
    }
}

// ----------------------------------------------------------------------
// Writing the sentences
// ----------------------------------------------------------------------

fn add_context(out: &mut Vec<String>, scene: &Scene, d: &PromptDialect, o: PromptOptions)
    ensures
        string_views(final(out)@) == string_views(old(out)@) + context_sentences(*scene, *d, o),
{
    if o.include_scene_context {
        let mut s = d.word("scene");
        push_str(&mut s, ": ");
        push_str(&mut s, scene.title.as_str());
        push_str(&mut s, ".");
        match &scene.narrative.dramatic_question {
            Some(q) => {
                push_str(&mut s, " ");
                push_str(&mut s, q.as_str());
            },
            None => {},
        }
        push_sentence(out, s);
    }
    proof {
        broadcast use crate::diagnostic::lemma_concat_regroup;
        assert(string_views(out@) =~= string_views(old(out)@) + context_sentences(*scene, *d, o));
    }
}

fn add_transition(out: &mut Vec<String>, shot: &Shot, d: &PromptDialect)
    ensures
        string_views(final(out)@) == string_views(old(out)@) + transition_sentences(*shot, *d),
{
    if shot.transition_in != Transition::Cut {
        let mut p = d.phrase(&d.transition, transition_name(shot.transition_in));
        if nonempty(&p) {
            push_str(&mut p, ".");
            push_sentence(out, capitalize(p.as_str()));
        }
    }
    assert(string_views(out@) =~= string_views(old(out)@) + transition_sentences(*shot, *d));
}

fn push_unless_empty(parts: &mut Vec<String>, p: String)
    ensures
        string_views(final(parts)@) == string_views(old(parts)@) + unless_empty(p@),
{
    if nonempty(&p) {
        push_sentence(parts, p);
    }
    assert(string_views(parts@) =~= string_views(old(parts)@) + unless_empty(p@));
}

fn add_header(out: &mut Vec<String>, shot: &Shot, d: &PromptDialect)
    ensures
        string_views(final(out)@) == string_views(old(out)@) + header_sentences(*shot, *d),
{
    let mut parts: Vec<String> = Vec::new();
    push_sentence(&mut parts, d.phrase(&d.shot_size, shot_size_name(shot.framing.shot_size)));
    push_unless_empty(&mut parts, d.phrase(&d.horizontal_angle, horizontal_angle_name(shot.framing.horizontal_angle)));
    push_unless_empty(&mut parts, d.phrase(&d.vertical_angle, vertical_angle_name(shot.framing.vertical_angle)));
    let mut s = d.phrase(&d.coverage_role, coverage_role_name(shot.coverage_role));
    push_str(&mut s, ": ");
    push_str(&mut s, join_with(&parts, ", ").as_str());
    push_str(&mut s, ".");
    push_sentence(out, capitalize(s.as_str()));
    assert(string_views(parts@) =~= seq![phrase_text(d.shot_size@, shot_size_key(shot.framing.shot_size))] + unless_empty(
        phrase_text(d.horizontal_angle@, horizontal_angle_key(shot.framing.horizontal_angle)),
    ) + unless_empty(phrase_text(d.vertical_angle@, vertical_angle_key(shot.framing.vertical_angle))));
    assert(string_views(out@) =~= string_views(old(out)@) + header_sentences(*shot, *d));
}

impl<'a> Namer<'a> {
    fn names(&self, ids: &Vec<String>) -> (names: Vec<String>)
        requires
            self.wf(),
        ensures
            string_views(names@) == names_of(*self.scene, *self.dialect, self.options, ids@),
    {
        let mut names: Vec<String> = Vec::new();
        let mut i: usize = 0;
        while i < ids.len()
            invariant
                i <= ids.len(),
                self.wf(),
                string_views(names@) == names_of(*self.scene, *self.dialect, self.options, ids@.take(i as int)),
            decreases ids.len() - i,
        {
            push_sentence(&mut names, self.name(ids[i].as_str()));
            assert(names_of(*self.scene, *self.dialect, self.options, ids@.take(i + 1)) =~= names_of(
                *self.scene,
                *self.dialect,
                self.options,
                ids@.take(i as int),
            ).push(name_of(*self.scene, *self.dialect, self.options, ids@[i as int]@)));
            i = i + 1;
        }
        assert(ids@.take(ids.len() as int) =~= ids@);
        names
    }

    fn add_framing(&self, out: &mut Vec<String>, shot: &Shot)
        requires
            self.wf(),
        ensures
            string_views(final(out)@) == string_views(old(out)@) + framing_sentences(
                *self.scene,
                *shot,
                *self.dialect,
                self.options,
            ),
    {
        if shot.framing.subject_ids.len() > 0 {
            let names = self.names(&shot.framing.subject_ids);
            let mut s = self.dialect.word("framing");
            push_str(&mut s, " ");
            push_str(&mut s, join_natural(&names, self.dialect.word("and").as_str()).as_str());
            push_str(&mut s, ".");
            push_sentence(out, s);
        }
        assert(string_views(out@) =~= string_views(old(out)@) + framing_sentences(
            *self.scene,
            *shot,
            *self.dialect,
            self.options,
        ));
    }

    fn layer_names(&self, layers: &Vec<crate::model::DepthLayer>, role: DepthRole) -> (names: Vec<String>)
        requires
            self.wf(),
        ensures
            string_views(names@) == layer_names(*self.scene, *self.dialect, self.options, layers@, role),
    {
        let ghost f = |i: int| if layers@[i].role == role {
            names_of(*self.scene, *self.dialect, self.options, layers@[i].subject_ids@)
        } else {
            Seq::empty()
        };
        let mut names: Vec<String> = Vec::new();
        let mut i: usize = 0;
        while i < layers.len()
            invariant
                i <= layers.len(),
                self.wf(),
                f == (|i: int| if layers@[i].role == role {
                    names_of(*self.scene, *self.dialect, self.options, layers@[i].subject_ids@)
                } else {
                    Seq::empty()
                }),
                string_views(names@) == flatten(Seq::new(i as nat, f)),
            decreases layers.len() - i,
        {
            let ghost before = string_views(names@);
            if layers[i].role == role {
                let more = self.names(&layers[i].subject_ids);
                let mut k: usize = 0;
                while k < more.len()
                    invariant
                        k <= more.len(),
                        string_views(names@) == before + string_views(more@).take(k as int),
                    decreases more.len() - k,
                {
                    push_sentence(&mut names, more[k].clone());
                    assert(string_views(more@).take(k + 1) =~= string_views(more@).take(k as int).push(more@[k as int]@));
                    k = k + 1;
                }
                assert(string_views(more@).take(more.len() as int) =~= string_views(more@));
            }
            assert(string_views(names@) =~= before + f(i as int));
            proof { lemma_flatten_new_step(i as nat, f); }
            i = i + 1;
        }
        names
    }

    fn add_layer_part(&self, parts: &mut Vec<String>, shot: &Shot, role: DepthRole)
        requires
            self.wf(),
        ensures
            string_views(final(parts)@) == string_views(old(parts)@) + layer_part(
                *self.scene,
                *shot,
                *self.dialect,
                self.options,
                role,
            ),
    {
        let names = self.layer_names(&shot.framing.composition.depth_layers, role);
        if names.len() > 0 {
            let mut s = self.dialect.phrase(&self.dialect.depth_role, depth_role_name(role));
            push_str(&mut s, ": ");
            push_str(&mut s, join_with(&names, ", ").as_str());
            push_sentence(parts, s);
        }
        assert(string_views(parts@) =~= string_views(old(parts)@) + layer_part(
            *self.scene,
            *shot,
            *self.dialect,
            self.options,
            role,
        ));
    }

    fn add_layers(&self, out: &mut Vec<String>, shot: &Shot)
        requires
            self.wf(),
        ensures
            string_views(final(out)@) == string_views(old(out)@) + layer_sentences(
                *self.scene,
                *shot,
                *self.dialect,
                self.options,
            ),
    {
        if shot.framing.composition.depth_layers.len() > 0 {
            let mut parts: Vec<String> = Vec::new();
            self.add_layer_part(&mut parts, shot, DepthRole::Foreground);
            self.add_layer_part(&mut parts, shot, DepthRole::Midground);
            self.add_layer_part(&mut parts, shot, DepthRole::Background);
            if parts.len() > 0 {
                let mut s = join_with(&parts, "; ");
                push_str(&mut s, ".");
                push_sentence(out, capitalize(s.as_str()));
            }
        }
        assert(string_views(out@) =~= string_views(old(out)@) + layer_sentences(
            *self.scene,
            *shot,
            *self.dialect,
            self.options,
        ));
    }
}

fn add_lens(out: &mut Vec<String>, d: &PromptDialect, lens: &LensWording)
    ensures
        string_views(final(out)@) == string_views(old(out)@) + lens_sentences(*d, *lens),
{
    let mut s = lens.focal_length.clone();
    push_str(&mut s, " mm ");
    push_str(&mut s, d.word("lens").as_str());
    push_str(&mut s, ", f/");
    push_str(&mut s, lens.aperture.as_str());
    match &lens.depth_of_field {
        Some(k) => {
            push_str(&mut s, ", ");
            push_str(&mut s, d.word(k.as_str()).as_str());
        },
        None => {},
    }
    push_str(&mut s, ".");
    push_sentence(out, s);
    proof {
        broadcast use crate::diagnostic::lemma_concat_regroup;
        assert(string_views(out@) =~= string_views(old(out)@) + lens_sentences(*d, *lens));
    }
}

fn add_composition(out: &mut Vec<String>, shot: &Shot, d: &PromptDialect)
    ensures
        string_views(final(out)@) == string_views(old(out)@) + composition_sentences(*shot, *d),
{
    let c = &shot.framing.composition;
    let mut parts: Vec<String> = Vec::new();
    push_unless_empty(&mut parts, d.phrase(&d.composition_strategy, composition_strategy_name(c.strategy)));
    match c.negative_space {
        Some(r) => push_sentence(&mut parts, d.phrase(&d.screen_region, screen_region_name(r))),
        None => {},
    }
    let ghost head = string_views(parts@);
    assert(head =~= unless_empty(phrase_text(d.composition_strategy@, composition_strategy_key(c.strategy))) + match c.negative_space {
        Some(r) => seq![phrase_text(d.screen_region@, screen_region_key(r))],
        None => Seq::<Seq<char>>::empty(),
    });
    let mut i: usize = 0;
    while i < c.notes.len()
        invariant
            i <= c.notes.len(),
            string_views(parts@) == head + string_views(c.notes@).take(i as int),
        decreases c.notes.len() - i,
    {
        push_sentence(&mut parts, c.notes[i].clone());
        assert(string_views(c.notes@).take(i + 1) =~= string_views(c.notes@).take(i as int).push(c.notes@[i as int]@));
        i = i + 1;
    }
    assert(string_views(c.notes@).take(c.notes.len() as int) =~= string_views(c.notes@));
    if parts.len() > 0 {
        let mut s = join_with(&parts, ", ");
        push_str(&mut s, ".");
        push_sentence(out, capitalize(s.as_str()));
    }
    assert(string_views(out@) =~= string_views(old(out)@) + composition_sentences(*shot, *d));
}

fn add_intent(out: &mut Vec<String>, shot: &Shot, d: &PromptDialect)
    ensures
        string_views(final(out)@) == string_views(old(out)@) + intent_sentences(*shot, *d),
{
    if shot.purpose.len() > 0 {
        let ghost f = |p: crate::model::ShotPurpose| phrase_text(d.shot_purpose@, shot_purpose_key(p));
        let mut phrases: Vec<String> = Vec::new();
        let mut i: usize = 0;
        while i < shot.purpose.len()
            invariant
                i <= shot.purpose.len(),
                f == (|p: crate::model::ShotPurpose| phrase_text(d.shot_purpose@, shot_purpose_key(p))),
                string_views(phrases@) == shot.purpose@.take(i as int).map_values(f),
            decreases shot.purpose.len() - i,
        {
            push_sentence(&mut phrases, d.phrase(&d.shot_purpose, shot_purpose_name(shot.purpose[i])));
            assert(shot.purpose@.take(i + 1).map_values(f) =~= shot.purpose@.take(i as int).map_values(f).push(
                f(shot.purpose@[i as int]),
            ));
            i = i + 1;
        }
        assert(shot.purpose@.take(shot.purpose.len() as int) =~= shot.purpose@);
        let mut s = d.word("intent");
        push_str(&mut s, ": ");
        push_str(&mut s, join_with(&phrases, ", ").as_str());
        push_str(&mut s, ".");
        push_sentence(out, s);
    }
    assert(string_views(out@) =~= string_views(old(out)@) + intent_sentences(*shot, *d));
}

fn add_beats(out: &mut Vec<String>, scene: &Scene, shot: &Shot, d: &PromptDialect)
    ensures
        string_views(final(out)@) == string_views(old(out)@) + beat_sentences(*scene, *shot, *d),
{
    let ghost head = string_views(out@);
    let ghost f = |i: int| beat_sentence(*shot, *d, scene.beats@[i]);
    let mut i: usize = 0;
    while i < scene.beats.len()
        invariant
            i <= scene.beats.len(),
            f == (|i: int| beat_sentence(*shot, *d, scene.beats@[i])),
            string_views(out@) == head + flatten(Seq::new(i as nat, f)),
        decreases scene.beats.len() - i,
    {
        let b = &scene.beats[i];
        let ghost before = string_views(out@);
        if b.range.start < shot.range.end && shot.range.start < b.range.end {
            let mut s = d.word("beat");
            push_str(&mut s, ": ");
            push_str(&mut s, b.intent.as_str());
            push_str(&mut s, ".");
            push_sentence(out, s);
        }
        assert(string_views(out@) =~= before + f(i as int));
        proof { lemma_flatten_new_step(i as nat, f); }
        i = i + 1;
    }
}

fn add_notes(out: &mut Vec<String>, shot: &Shot, d: &PromptDialect)
    ensures
        string_views(final(out)@) == string_views(old(out)@) + note_sentences(*shot, *d),
{
    if shot.notes.len() > 0 {
        let mut s = d.word("notes");
        push_str(&mut s, ": ");
        push_str(&mut s, join_with(&shot.notes, " ").as_str());
        push_sentence(out, s);
    }
    assert(string_views(out@) =~= string_views(old(out)@) + note_sentences(*shot, *d));
}

fn add_closing(out: &mut Vec<String>, d: &PromptDialect)
    ensures
        string_views(final(out)@) == string_views(old(out)@) + closing_sentences(*d),
{
    let mut c = d.word("cinematic");
    if nonempty(&c) {
        push_str(&mut c, ".");
        push_sentence(out, capitalize(c.as_str()));
    }
    assert(string_views(out@) =~= string_views(old(out)@) + closing_sentences(*d));
}

proof fn lemma_setup_index_stable(setups: Seq<LightingSetup>, id: Seq<char>, m: nat, n: nat)
    requires
        m <= n <= setups.len(),
        setup_index(setups, id, m) is Some,
    ensures
        setup_index(setups, id, n) == setup_index(setups, id, m),
    decreases n - m,
{
    if n > m {
        lemma_setup_index_stable(setups, id, m, (n - 1) as nat);
    }
}

fn find_setup(setups: &Vec<LightingSetup>, id: &String) -> (index: Option<usize>)
    ensures
        match index {
            Some(i) => setup_index(setups@, id@, setups@.len()) == Some(i as int) && i < setups.len(),
            None => setup_index(setups@, id@, setups@.len()) is None,
        },
{
    let mut i: usize = 0;
    while i < setups.len()
        invariant
            i <= setups.len(),
            setup_index(setups@, id@, i as nat) is None,
        decreases setups.len() - i,
    {
        if setups[i].id == *id {
            proof { lemma_setup_index_stable(setups@, id@, (i + 1) as nat, setups@.len()); }
            return Some(i);
        }
        i = i + 1;
    }
    None
}

fn push_source(s: &mut String, d: &PromptDialect, source: &LightSource)
    ensures
        final(s)@ == old(s)@ + source_text(*d, *source),
{
    push_str(s, "; ");
    push_str(s, d.phrase(&d.light_kind, light_kind_name(source.kind)).as_str());
    push_str(s, " ");
    push_str(s, d.word("as").as_str());
    push_str(s, " ");
    push_str(s, d.phrase(&d.light_role, light_role_name(source.role)).as_str());
    push_str(s, " (");
    push_decimal(s, source.color_temperature_k as u64);
    push_str(s, "K)");
    match &source.motivated_by {
        Some(m) => {
            push_str(s, ", ");
            push_str(s, d.word("motivated_by").as_str());
            push_str(s, " ");
            push_str(s, m.as_str());
        },
        None => {},
    }
    assert(s@ =~= old(s)@ + source_text(*d, *source));
}

fn setup_line(d: &PromptDialect, setup: &LightingSetup) -> (s: String)
    ensures
        s@ == setup_text(*d, *setup),
{
    let mut s = d.word("lighting");
    push_str(&mut s, ": ");
    push_str(&mut s, setup.name.as_str());
    let ghost head = s@;
    let ghost f = |i: int| source_text(*d, setup.sources@[i]);
    let mut i: usize = 0;
    while i < setup.sources.len()
        invariant
            i <= setup.sources.len(),
            f == (|i: int| source_text(*d, setup.sources@[i])),
            s@ == head + flatten(Seq::new(i as nat, f)),
        decreases setup.sources.len() - i,
    {
        push_source(&mut s, d, &setup.sources[i]);
        proof { lemma_flatten_new_step(i as nat, f); }
        i = i + 1;
    }
    let ghost middle = s@;
    let ghost g = |i: int| "; "@ + setup.notes@[i]@;
    let mut k: usize = 0;
    while k < setup.notes.len()
        invariant
            k <= setup.notes.len(),
            g == (|i: int| "; "@ + setup.notes@[i]@),
            s@ == middle + flatten(Seq::new(k as nat, g)),
        decreases setup.notes.len() - k,
    {
        push_str(&mut s, "; ");
        push_str(&mut s, setup.notes[k].as_str());
        proof { lemma_flatten_new_step(k as nat, g); }
        assert(s@ =~= middle + flatten(Seq::new((k + 1) as nat, g)));
        k = k + 1;
    }
    push_str(&mut s, ".");
    assert(s@ =~= setup_text(*d, *setup));
    s
}

fn add_lighting(out: &mut Vec<String>, scene: &Scene, shot: &Shot, d: &PromptDialect)
    ensures
        string_views(final(out)@) == string_views(old(out)@) + lighting_sentences(*scene, *shot, *d),
{
    match &shot.lighting_setup_id {
        Some(id) => match find_setup(&scene.lighting_setups, id) {
            Some(i) => push_sentence(out, setup_line(d, &scene.lighting_setups[i])),
            None => {},
        },
        None => {},
    }
    assert(string_views(out@) =~= string_views(old(out)@) + lighting_sentences(*scene, *shot, *d));
}

// ----------------------------------------------------------------------
// Blocking cues
// ----------------------------------------------------------------------

/// Index of the first of the first `n` blocking tracks of subject `id`.
pub open spec fn track_index(tracks: Seq<BlockingTrack>, id: Seq<char>, n: nat) -> Option<int>
    decreases n,
{
    if n == 0 {
        None
    } else {
        match track_index(tracks, id, (n - 1) as nat) {
            Some(i) => Some(i),
            None => if tracks[n - 1].subject_id@ == id { Some(n - 1) } else { None },
        }
    }
}

pub open spec fn keyframe_ranges(ks: Seq<BlockingKeyframe>) -> Seq<FrameRange> {
    ks.map_values(|k: BlockingKeyframe| FrameRange { start: k.frame, end: k.frame })
}

/// A track's keyframes by frame, ties in declaration order.
pub open spec fn keyframes_in_order(ks: Seq<BlockingKeyframe>) -> Seq<BlockingKeyframe> {
    edit_order_of(keyframe_ranges(ks)).map_values(|i: usize| ks[i as int])
}

/// The last of the first `n` keyframes before frame `start`.
pub open spec fn last_before(ks: Seq<BlockingKeyframe>, start: u64, n: nat) -> Option<BlockingKeyframe>
    decreases n,
{
    if n == 0 {
        None
    } else if ks[n - 1].frame < start {
        Some(ks[n - 1])
    } else {
        last_before(ks, start, (n - 1) as nat)
    }
}

/// The first `n` keyframes inside `range`.
pub open spec fn inside(ks: Seq<BlockingKeyframe>, range: FrameRange, n: nat) -> Seq<BlockingKeyframe>
    decreases n,
{
    if n == 0 {
        Seq::empty()
    } else {
        inside(ks, range, (n - 1) as nat) + if range.start <= ks[n - 1].frame < range.end {
            seq![ks[n - 1]]
        } else {
            Seq::empty()
        }
    }
}

/// The keyframes that bear on a shot: the last one before it, then those
/// inside it, in frame order.
pub open spec fn relevant_keyframes(ks: Seq<BlockingKeyframe>, range: FrameRange) -> Seq<BlockingKeyframe> {
    let sorted = keyframes_in_order(ks);
    let head = match last_before(sorted, range.start, sorted.len()) {
        Some(k) => seq![k],
        None => Seq::empty(),
    };
    head + inside(sorted, range, sorted.len())
}

pub open spec fn actions_of(rel: Seq<BlockingKeyframe>) -> Seq<Seq<char>> {
    flatten(
        Seq::new(
            rel.len(),
            |i: int| match rel[i].action {
                Some(a) => seq![a@],
                None => Seq::empty(),
            },
        ),
    )
}

/// The gaze target of the last of the first `n` keyframes that has one.
pub open spec fn last_gaze(rel: Seq<BlockingKeyframe>, n: nat) -> Option<TargetRef>
    decreases n,
{
    if n == 0 {
        None
    } else {
        match rel[n - 1].gaze_target {
            Some(t) => Some(t),
            None => last_gaze(rel, (n - 1) as nat),
        }
    }
}

/// "<Name>: <action>, then <action>; looking at <target>." for a framed
/// subject with a blocking track, when it acts or looks somewhere.
pub open spec fn cue_sentence(scene: Scene, shot: Shot, d: PromptDialect, o: PromptOptions, id: Seq<char>) -> Seq<
    Seq<char>,
> {
    match track_index(scene.blocking@, id, scene.blocking@.len()) {
        None => Seq::empty(),
        Some(t) => {
            let rel = relevant_keyframes(scene.blocking@[t].keyframes@, shot.range);
            let acts = actions_of(rel);
            let gaze = last_gaze(rel, rel.len());
            if acts.len() == 0 && gaze is None {
                Seq::empty()
            } else {
                seq![name_of(scene, d, o, id) + ":"@ + (if acts.len() > 0 {
                    " "@ + joined(acts, ", "@ + word(d, "then"@) + " "@)
                } else {
                    Seq::empty()
                }) + match gaze {
                    Some(g) => (if acts.len() > 0 { ";"@ } else { Seq::empty() }) + " "@ + word(d, "looking_at"@) + " "@
                        + target_name(scene, d, o, g),
                    None => Seq::empty(),
                } + "."@]
            }
        },
    }
}

pub open spec fn cue_sentences(scene: Scene, shot: Shot, d: PromptDialect, o: PromptOptions) -> Seq<Seq<char>> {
    flatten(
        Seq::new(
            shot.framing.subject_ids@.len(),
            |i: int| cue_sentence(scene, shot, d, o, shot.framing.subject_ids@[i]@),
        ),
    )
}

// ----------------------------------------------------------------------
// Camera movement
// ----------------------------------------------------------------------

/// The target an operation names in its phrase, if any.
pub open spec fn operation_target(op: CameraOperation) -> Option<TargetRef> {
    match op {
        CameraOperation::LookAt { target } => Some(target),
        CameraOperation::Orbit { target, .. } => Some(target),
        CameraOperation::Follow { target, .. } => Some(target),
        CameraOperation::RackFocus { target, .. } => Some(target),
        CameraOperation::DollyZoom { target, .. } => Some(target),
        CameraOperation::Reveal { target, .. } => Some(target),
        CameraOperation::Crane { look_at, .. } => look_at,
        _ => None,
    }
}

/// `x >= 0.0`: zero or positive (false for NaN).
pub open spec fn not_below_zero(n: crate::model::Num) -> bool {
    n is Zero || n.spec_is_positive()
}

/// The movement key an operation decides by itself: the direction of a
/// pan, tilt, dolly, truck or pedestal from the sign of its amount (a
/// negative or undefined amount goes the other way), and the one key of
/// each other kind. A zoom and a crane decide nothing here: the direction
/// of a zoom depends on the focal length before it, that of a crane on the
/// camera's up axis.
pub open spec fn decided_key(op: CameraOperation) -> Option<Seq<char>> {
    match op {
        CameraOperation::Hold => Some("hold"@),
        CameraOperation::Pan { degrees } => Some(if not_below_zero(degrees) { "pan_left"@ } else { "pan_right"@ }),
        CameraOperation::Tilt { degrees } => Some(if not_below_zero(degrees) { "tilt_up"@ } else { "tilt_down"@ }),
        CameraOperation::Roll { .. } => Some("roll"@),
        CameraOperation::Dolly { distance_m } => Some(
            if not_below_zero(distance_m) { "dolly_in"@ } else { "dolly_out"@ },
        ),
        CameraOperation::Truck { distance_m } => Some(
            if not_below_zero(distance_m) { "truck_right"@ } else { "truck_left"@ },
        ),
        CameraOperation::Pedestal { distance_m } => Some(
            if not_below_zero(distance_m) { "pedestal_up"@ } else { "pedestal_down"@ },
        ),
        CameraOperation::Translate { .. } => Some("translate"@),
        CameraOperation::Rotate { .. } => Some("rotate"@),
        CameraOperation::LookAt { .. } => Some("look_at"@),
        CameraOperation::Orbit { .. } => Some("orbit"@),
        CameraOperation::Follow { .. } => Some("follow"@),
        CameraOperation::Crane { .. } => None,
        CameraOperation::Zoom { .. } => None,
        CameraOperation::RackFocus { .. } => Some("rack_focus"@),
        CameraOperation::DollyZoom { .. } => Some("dolly_zoom"@),
        CameraOperation::HandheldNoise { .. } => Some("handheld_noise"@),
        CameraOperation::Reveal { .. } => Some("reveal"@),
    }
}

/// The dialect key an operation is worded with: the one it decides, or,
/// for a zoom or a crane, the key of its measured wording.
pub open spec fn operation_key_of(op: CameraOperation, w: OperationWording) -> Seq<char> {
    match decided_key(op) {
        Some(k) => k,
        None => w.key@,
    }
}

fn not_below_zero_exec(n: crate::model::Num) -> (b: bool)
    ensures
        b == not_below_zero(n),
{
    matches!(n, crate::model::Num::Zero) || n.is_positive()
}

/// The movement key of an operation whose key does not depend on measured
/// values (see [`decided_key`]); `None` for a zoom or a crane.
pub fn movement_key(op: &CameraOperation) -> (key: Option<&'static str>)
    ensures
        match key {
            Some(k) => decided_key(*op) == Some(k@),
            None => decided_key(*op) is None,
        },
{
    match op {
        CameraOperation::Hold => Some("hold"),
        CameraOperation::Pan { degrees } => Some(if not_below_zero_exec(*degrees) { "pan_left" } else { "pan_right" }),
        CameraOperation::Tilt { degrees } => Some(if not_below_zero_exec(*degrees) { "tilt_up" } else { "tilt_down" }),
        CameraOperation::Roll { .. } => Some("roll"),
        CameraOperation::Dolly { distance_m } => Some(
            if not_below_zero_exec(*distance_m) { "dolly_in" } else { "dolly_out" },
        ),
        CameraOperation::Truck { distance_m } => Some(
            if not_below_zero_exec(*distance_m) { "truck_right" } else { "truck_left" },
        ),
        CameraOperation::Pedestal { distance_m } => Some(
            if not_below_zero_exec(*distance_m) { "pedestal_up" } else { "pedestal_down" },
        ),
        CameraOperation::Translate { .. } => Some("translate"),
        CameraOperation::Rotate { .. } => Some("rotate"),
        CameraOperation::LookAt { .. } => Some("look_at"),
        CameraOperation::Orbit { .. } => Some("orbit"),
        CameraOperation::Follow { .. } => Some("follow"),
        CameraOperation::Crane { .. } => None,
        CameraOperation::Zoom { .. } => None,
        CameraOperation::RackFocus { .. } => Some("rack_focus"),
        CameraOperation::DollyZoom { .. } => Some("dolly_zoom"),
        CameraOperation::HandheldNoise { .. } => Some("handheld_noise"),
        CameraOperation::Reveal { .. } => Some("reveal"),
    }
}

/// "<measurement> over <seconds>s", the measurement's `{to}` replaced by
/// the dialect's word.
pub open spec fn measured(d: PromptDialect, w: OperationWording) -> Seq<char> {
    let m = match w.measurement {
        Some(x) => replace_all(x@, "{to}"@, word(d, "to"@)),
        None => Seq::empty(),
    };
    (if m.len() > 0 { m + " "@ } else { m }) + word(d, "over"@) + " "@ + w.seconds@ + word(d, "seconds"@)
}

/// One operation's phrase: the dialect phrase of its key (see
/// [`operation_key_of`]) with `{target}`
/// naming its target, then its measurement in brackets when measurements
/// are on.
pub open spec fn operation_phrase(
    scene: Scene,
    d: PromptDialect,
    o: PromptOptions,
    op: CameraOperation,
    w: OperationWording,
) -> Seq<char> {
    let base = phrase_text(d.operation@, operation_key_of(op, w));
    let named = match operation_target(op) {
        Some(t) => replace_all(base, "{target}"@, target_name(scene, d, o, t)),
        None => base,
    };
    if o.include_measurements { named + " ("@ + measured(d, w) + ")"@ } else { named }
}

pub open spec fn operation_ranges(ops: Seq<crate::model::TimedCameraOperation>) -> Seq<FrameRange> {
    ops.map_values(|t: crate::model::TimedCameraOperation| t.range)
}

/// The latest end among the first `k` operations in `order`.
pub open spec fn latest_end(ops: Seq<crate::model::TimedCameraOperation>, order: Seq<usize>, k: nat) -> u64
    decreases k,
{
    if k == 0 {
        0
    } else if k == 1 {
        ops[order[0] as int].range.end
    } else {
        let e = ops[order[k - 1] as int].range.end;
        let before = latest_end(ops, order, (k - 1) as nat);
        if e > before { e } else { before }
    }
}

/// The `k`-th operation in time order with its connective: "while" when it
/// starts before every earlier one has ended, "then" otherwise.
pub open spec fn movement_piece(scene: Scene, shot: Shot, d: PromptDialect, o: PromptOptions, w: ShotWording, k: int) -> Seq<
    char,
> {
    let ops = shot.camera.operations@;
    let order = edit_order_of(operation_ranges(ops));
    let j = order[k] as int;
    let lead = if k == 0 {
        Seq::empty()
    } else {
        ", "@ + (if ops[j].range.start < latest_end(ops, order, k as nat) {
            word(d, "while"@)
        } else {
            word(d, "then"@)
        }) + " "@
    };
    lead + operation_phrase(scene, d, o, ops[j].operation, w.operations@[j])
}

/// "<Rig>; <movement>." where the movement is "static" or the operations
/// in time order.
pub open spec fn movement_sentences(scene: Scene, shot: Shot, d: PromptDialect, o: PromptOptions, w: ShotWording) -> Seq<
    Seq<char>,
> {
    let ops = shot.camera.operations@;
    let movement = if ops.len() == 0 {
        word(d, "static"@)
    } else {
        flatten(Seq::new(ops.len(), |k: int| movement_piece(scene, shot, d, o, w, k)))
    };
    seq![capitalized(phrase_text(d.camera_rig@, camera_rig_key(shot.camera.rig)) + "; "@ + movement + "."@)]
}

// ----------------------------------------------------------------------
// The prompt
// ----------------------------------------------------------------------

/// The sentences of a shot's prompt, in order.
pub open spec fn prompt_sentences(scene: Scene, shot: Shot, d: PromptDialect, o: PromptOptions, w: ShotWording) -> Seq<
    Seq<char>,
> {
    context_sentences(scene, d, o) + transition_sentences(shot, d) + header_sentences(shot, d) + framing_sentences(
        scene,
        shot,
        d,
        o,
    ) + layer_sentences(scene, shot, d, o) + cue_sentences(scene, shot, d, o) + movement_sentences(scene, shot, d, o, w)
        + lens_sentences(d, w.lens) + composition_sentences(shot, d) + lighting_sentences(scene, shot, d)
        + intent_sentences(shot, d) + beat_sentences(scene, shot, d) + note_sentences(shot, d) + closing_sentences(d)
}

/// A shot's prompt: its sentences joined by spaces.
pub open spec fn prompt_text(scene: Scene, shot: Shot, d: PromptDialect, o: PromptOptions, w: ShotWording) -> Seq<char> {
    joined(prompt_sentences(scene, shot, d, o, w), " "@)
}

// ----------------------------------------------------------------------
// Writing the cues, the movement and the prompt
// ----------------------------------------------------------------------

proof fn lemma_track_index_stable(tracks: Seq<BlockingTrack>, id: Seq<char>, m: nat, n: nat)
    requires
        m <= n <= tracks.len(),
        track_index(tracks, id, m) is Some,
    ensures
        track_index(tracks, id, n) == track_index(tracks, id, m),
    decreases n - m,
{
    if n > m {
        lemma_track_index_stable(tracks, id, m, (n - 1) as nat);
    }
}

fn find_track(tracks: &Vec<BlockingTrack>, id: &String) -> (index: Option<usize>)
    ensures
        match index {
            Some(i) => track_index(tracks@, id@, tracks@.len()) == Some(i as int) && i < tracks.len(),
            None => track_index(tracks@, id@, tracks@.len()) is None,
        },
{
    let mut i: usize = 0;
    while i < tracks.len()
        invariant
            i <= tracks.len(),
            track_index(tracks@, id@, i as nat) is None,
        decreases tracks.len() - i,
    {
        if tracks[i].subject_id == *id {
            proof { lemma_track_index_stable(tracks@, id@, (i + 1) as nat, tracks@.len()); }
            return Some(i);
        }
        i = i + 1;
    }
    None
}

/// Positions of a track's keyframes in frame order.
fn keyframe_order(ks: &Vec<BlockingKeyframe>) -> (order: Vec<usize>)
    ensures
        order.len() == ks.len(),
        forall|k: int| 0 <= k < order.len() ==> #[trigger] order@[k] < ks.len(),
        forall|k: int| 0 <= k < order.len() ==> keyframes_in_order(ks@)[k] == ks@[#[trigger] order@[k] as int],
        keyframes_in_order(ks@).len() == ks.len(),
{
    let mut ranges: Vec<FrameRange> = Vec::new();
    let mut i: usize = 0;
    while i < ks.len()
        invariant
            i <= ks.len(),
            ranges@ == keyframe_ranges(ks@.take(i as int)),
        decreases ks.len() - i,
    {
        ranges.push(FrameRange { start: ks[i].frame, end: ks[i].frame });
        assert(keyframe_ranges(ks@.take(i + 1)) =~= keyframe_ranges(ks@.take(i as int)).push(
            FrameRange { start: ks@[i as int].frame, end: ks@[i as int].frame },
        ));
        i = i + 1;
    }
    assert(ks@.take(ks.len() as int) =~= ks@);
    let order = edit_order(&ranges);
    assert forall|k: int| 0 <= k < order.len() implies #[trigger] order@[k] < ks.len() by {
        assert(order@[k] < ranges@.len());
    }
    order
}

/// Positions in frame order of the keyframes that bear on `range`.
fn relevant_positions(ks: &Vec<BlockingKeyframe>, order: &Vec<usize>, range: FrameRange) -> (rel: Vec<usize>)
    requires
        order.len() == ks.len(),
        forall|k: int| 0 <= k < order.len() ==> #[trigger] order@[k] < ks.len(),
        forall|k: int| 0 <= k < order.len() ==> keyframes_in_order(ks@)[k] == ks@[#[trigger] order@[k] as int],
        keyframes_in_order(ks@).len() == ks.len(),
    ensures
        forall|i: int| 0 <= i < rel.len() ==> #[trigger] rel@[i] < order.len(),
        rel@.map_values(|p: usize| keyframes_in_order(ks@)[p as int]) == relevant_keyframes(ks@, range),
{
    let ghost sorted = keyframes_in_order(ks@);
    let n = order.len();
    let mut last: Option<usize> = None;
    let mut ins: Vec<usize> = Vec::new();
    let mut k: usize = 0;
    while k < n
        invariant
            k <= n,
            n == order.len(),
            order.len() == ks.len(),
            sorted == keyframes_in_order(ks@),
            sorted.len() == n,
            forall|m: int| 0 <= m < order.len() ==> #[trigger] order@[m] < ks.len(),
            forall|m: int| 0 <= m < order.len() ==> sorted[m] == ks@[#[trigger] order@[m] as int],
            match last {
                Some(x) => x < k && last_before(sorted, range.start, k as nat) == Some(sorted[x as int]),
                None => last_before(sorted, range.start, k as nat) is None,
            },
            forall|i: int| 0 <= i < ins.len() ==> #[trigger] ins@[i] < k,
            ins@.map_values(|p: usize| sorted[p as int]) == inside(sorted, range, k as nat),
        decreases n - k,
    {
        let f = ks[order[k]].frame;
        assert(sorted[k as int].frame == f);
        if f < range.start {
            last = Some(k);
        }
        let ghost before = ins@;
        if range.start <= f && f < range.end {
            ins.push(k);
            assert(ins@.map_values(|p: usize| sorted[p as int]) =~= before.map_values(|p: usize| sorted[p as int]).push(
                sorted[k as int],
            ));
        } else {
            assert(ins@.map_values(|p: usize| sorted[p as int]) =~= before.map_values(|p: usize| sorted[p as int]));
        }
        k = k + 1;
    }
    let mut rel: Vec<usize> = Vec::new();
    match last {
        Some(x) => rel.push(x),
        None => {},
    }
    let ghost head = rel@;
    let mut i: usize = 0;
    while i < ins.len()
        invariant
            i <= ins.len(),
            forall|m: int| 0 <= m < ins.len() ==> #[trigger] ins@[m] < n,
            forall|m: int| 0 <= m < head.len() ==> #[trigger] head[m] < n,
            rel@ == head + ins@.take(i as int),
        decreases ins.len() - i,
    {
        rel.push(ins[i]);
        assert(head + ins@.take(i + 1) =~= (head + ins@.take(i as int)).push(ins@[i as int]));
        i = i + 1;
    }
    assert(ins@.take(ins.len() as int) =~= ins@);
    assert(rel@.map_values(|p: usize| sorted[p as int]) =~= relevant_keyframes(ks@, range));
    rel
}

impl<'a> Namer<'a> {
    fn add_cue(&self, out: &mut Vec<String>, shot: &Shot, id: &String)
        requires
            self.wf(),
        ensures
            string_views(final(out)@) == string_views(old(out)@) + cue_sentence(
                *self.scene,
                *shot,
                *self.dialect,
                self.options,
                id@,
            ),
    {
        let d = self.dialect;
        let t = match find_track(&self.scene.blocking, id) {
            Some(t) => t,
            None => {
                assert(string_views(out@) =~= string_views(old(out)@) + cue_sentence(
                    *self.scene,
                    *shot,
                    *self.dialect,
                    self.options,
                    id@,
                ));
                return;
            },
        };
        let ks = &self.scene.blocking[t].keyframes;
        let order = keyframe_order(ks);
        let rel = relevant_positions(ks, &order, shot.range);
        let ghost sorted = keyframes_in_order(ks@);
        let ghost relv = rel@.map_values(|p: usize| sorted[p as int]);
        let ghost fa = |i: int| match relv[i].action {
            Some(a) => seq![a@],
            None => Seq::<Seq<char>>::empty(),
        };
        let mut acts: Vec<String> = Vec::new();
        let mut gaze: Option<usize> = None;
        let mut i: usize = 0;
        while i < rel.len()
            invariant
                i <= rel.len(),
                order.len() == ks.len(),
                forall|m: int| 0 <= m < order.len() ==> #[trigger] order@[m] < ks.len(),
                forall|m: int| 0 <= m < order.len() ==> sorted[m] == ks@[#[trigger] order@[m] as int],
                sorted == keyframes_in_order(ks@),
                forall|m: int| 0 <= m < rel.len() ==> #[trigger] rel@[m] < order.len(),
                relv == rel@.map_values(|p: usize| sorted[p as int]),
                fa == (|i: int| match relv[i].action {
                    Some(a) => seq![a@],
                    None => Seq::<Seq<char>>::empty(),
                }),
                string_views(acts@) == flatten(Seq::new(i as nat, fa)),
                match gaze {
                    Some(g) => g < i && last_gaze(relv, i as nat) == relv[g as int].gaze_target && relv[g as int].gaze_target is Some,
                    None => last_gaze(relv, i as nat) is None,
                },
            decreases rel.len() - i,
        {
            let k = &ks[order[rel[i]]];
            assert(relv[i as int] == *k);
            let ghost before = string_views(acts@);
            match &k.action {
                Some(a) => push_sentence(&mut acts, a.clone()),
                None => {},
            }
            assert(string_views(acts@) =~= before + fa(i as int));
            proof { lemma_flatten_new_step(i as nat, fa); }
            if k.gaze_target.is_some() {
                gaze = Some(i);
            }
            i = i + 1;
        }
        assert(relv == relevant_keyframes(ks@, shot.range));
        if acts.len() == 0 && gaze.is_none() {
            assert(string_views(out@) =~= string_views(old(out)@) + cue_sentence(
                *self.scene,
                *shot,
                *self.dialect,
                self.options,
                id@,
            ));
            return;
        }
        let mut line = self.name(id.as_str());
        push_str(&mut line, ":");
        let ghost after_name = line@;
        if acts.len() > 0 {
            let mut sep = owned(", ");
            push_str(&mut sep, d.word("then").as_str());
            push_str(&mut sep, " ");
            push_str(&mut line, " ");
            push_str(&mut line, join_with(&acts, sep.as_str()).as_str());
        }
        let ghost after_acts = line@;
        match gaze {
            Some(g) => {
                let k = &ks[order[rel[g]]];
                assert(relv[g as int] == *k);
                match &k.gaze_target {
                    Some(target) => {
                        if acts.len() > 0 {
                            push_str(&mut line, ";");
                        }
                        push_str(&mut line, " ");
                        push_str(&mut line, d.word("looking_at").as_str());
                        push_str(&mut line, " ");
                        push_str(&mut line, self.target(target).as_str());
                    },
                    None => {},
                }
            },
            None => {},
        }
        push_str(&mut line, ".");
        push_sentence(out, line);
        proof {
            broadcast use crate::diagnostic::lemma_concat_regroup;
            assert(string_views(out@) =~= string_views(old(out)@) + cue_sentence(
                *self.scene,
                *shot,
                *self.dialect,
                self.options,
                id@,
            ));
        }
    }

    fn add_cues(&self, out: &mut Vec<String>, shot: &Shot)
        requires
            self.wf(),
        ensures
            string_views(final(out)@) == string_views(old(out)@) + cue_sentences(
                *self.scene,
                *shot,
                *self.dialect,
                self.options,
            ),
    {
        let ids = &shot.framing.subject_ids;
        let ghost head = string_views(out@);
        let ghost f = |i: int| cue_sentence(*self.scene, *shot, *self.dialect, self.options, ids@[i]@);
        let mut i: usize = 0;
        while i < ids.len()
            invariant
                i <= ids.len(),
                self.wf(),
                ids == &shot.framing.subject_ids,
                f == (|i: int| cue_sentence(*self.scene, *shot, *self.dialect, self.options, ids@[i]@)),
                string_views(out@) == head + flatten(Seq::new(i as nat, f)),
            decreases ids.len() - i,
        {
            self.add_cue(out, shot, &ids[i]);
            proof { lemma_flatten_new_step(i as nat, f); }
            i = i + 1;
        }
    }
}

fn target_of(op: &CameraOperation) -> (t: Option<&TargetRef>)
    ensures
        match t {
            Some(r) => operation_target(*op) == Some(*r),
            None => operation_target(*op) is None,
        },
{
    match op {
        CameraOperation::LookAt { target } => Some(target),
        CameraOperation::Orbit { target, .. } => Some(target),
        CameraOperation::Follow { target, .. } => Some(target),
        CameraOperation::RackFocus { target, .. } => Some(target),
        CameraOperation::DollyZoom { target, .. } => Some(target),
        CameraOperation::Reveal { target, .. } => Some(target),
        CameraOperation::Crane { look_at, .. } => match look_at {
            Some(target) => Some(target),
            None => None,
        },
        _ => None,
    }
}

fn measured_text(d: &PromptDialect, w: &OperationWording) -> (s: String)
    ensures
        s@ == measured(*d, *w),
{
    let mut s = match &w.measurement {
        Some(x) => {
            let pattern = chars_of("{to}");
            proof { reveal_strlit("{to}"); }
            string_of(&replaced(&chars_of(x.as_str()), &pattern, &chars_of(d.word("to").as_str())))
        },
        None => String::new(),
    };
    if nonempty(&s) {
        push_str(&mut s, " ");
    }
    push_str(&mut s, d.word("over").as_str());
    push_str(&mut s, " ");
    push_str(&mut s, w.seconds.as_str());
    push_str(&mut s, d.word("seconds").as_str());
    s
}

impl<'a> Namer<'a> {
    fn operation_phrase(&self, op: &CameraOperation, w: &OperationWording) -> (s: String)
        requires
            self.wf(),
        ensures
            s@ == operation_phrase(*self.scene, *self.dialect, self.options, *op, *w),
    {
        let d = self.dialect;
        let base = match movement_key(op) {
            Some(k) => d.phrase(&d.operation, k),
            None => d.phrase(&d.operation, w.key.as_str()),
        };
        let mut named = match target_of(op) {
            Some(t) => {
                let pattern = chars_of("{target}");
                proof { reveal_strlit("{target}"); }
                string_of(&replaced(&chars_of(base.as_str()), &pattern, &chars_of(self.target(t).as_str())))
            },
            None => base,
        };
        if self.options.include_measurements {
            push_str(&mut named, " (");
            push_str(&mut named, measured_text(d, w).as_str());
            push_str(&mut named, ")");
        }
        named
    }

    fn add_movement(&self, out: &mut Vec<String>, shot: &Shot, w: &ShotWording)
        requires
            self.wf(),
            w.operations.len() == shot.camera.operations.len(),
        ensures
            string_views(final(out)@) == string_views(old(out)@) + movement_sentences(
                *self.scene,
                *shot,
                *self.dialect,
                self.options,
                *w,
            ),
    {
        let d = self.dialect;
        let ops = &shot.camera.operations;
        let mut s = d.phrase(&d.camera_rig, camera_rig_name(shot.camera.rig));
        push_str(&mut s, "; ");
        if ops.len() == 0 {
            push_str(&mut s, d.word("static").as_str());
        } else {
            let mut ranges: Vec<FrameRange> = Vec::new();
            let mut i: usize = 0;
            while i < ops.len()
                invariant
                    i <= ops.len(),
                    ranges@ == operation_ranges(ops@.take(i as int)),
                decreases ops.len() - i,
            {
                ranges.push(ops[i].range);
                assert(operation_ranges(ops@.take(i + 1)) =~= operation_ranges(ops@.take(i as int)).push(ops@[i as int].range));
                i = i + 1;
            }
            assert(ops@.take(ops.len() as int) =~= ops@);
            let order = edit_order(&ranges);
            let ghost head = s@;
            let ghost f = |k: int| movement_piece(*self.scene, *shot, *self.dialect, self.options, *w, k);
            let mut latest: u64 = 0;
            let mut k: usize = 0;
            while k < order.len()
                invariant
                    k <= order.len(),
                    self.wf(),
                    d == self.dialect,
                    order.len() == ops.len(),
                    w.operations.len() == ops.len(),
                    ops == &shot.camera.operations,
                    order@ == edit_order_of(operation_ranges(ops@)),
                    forall|m: int| 0 <= m < order.len() ==> #[trigger] order@[m] < ops.len(),
                    k > 0 ==> latest == latest_end(ops@, order@, k as nat),
                    f == (|k: int| movement_piece(*self.scene, *shot, *self.dialect, self.options, *w, k)),
                    s@ == head + flatten(Seq::new(k as nat, f)),
                decreases order.len() - k,
            {
                let j = order[k];
                let ghost before = s@;
                let lead = if k > 0 {
                    let mut l = owned(", ");
                    let connective = if ops[j].range.start < latest { d.word("while") } else { d.word("then") };
                    push_str(&mut l, connective.as_str());
                    push_str(&mut l, " ");
                    l
                } else {
                    String::new()
                };
                let phrase = self.operation_phrase(&ops[j].operation, &w.operations[j]);
                push_str(&mut s, lead.as_str());
                push_str(&mut s, phrase.as_str());
                proof {
                    lemma_movement_piece(*self.scene, *shot, *self.dialect, self.options, *w, k as int, j as int, latest, lead@, phrase@);
                    assert(s@ =~= before + f(k as int));
                    lemma_flatten_new_step(k as nat, f);
                }
                let e = ops[j].range.end;
                if k == 0 || e > latest {
                    latest = e;
                }
                k = k + 1;
            }
        }
        push_str(&mut s, ".");
        push_sentence(out, capitalize(s.as_str()));
        proof {
            broadcast use crate::diagnostic::lemma_concat_regroup;
            assert(string_views(out@) =~= string_views(old(out)@) + movement_sentences(
                *self.scene,
                *shot,
                *self.dialect,
                self.options,
                *w,
            ));
        }
    }
}

proof fn lemma_movement_piece(
    scene: Scene,
    shot: Shot,
    d: PromptDialect,
    o: PromptOptions,
    w: ShotWording,
    k: int,
    j: int,
    latest: u64,
    lead: Seq<char>,
    phrase: Seq<char>,
)
    requires
        0 <= k < shot.camera.operations@.len(),
        edit_order_of(operation_ranges(shot.camera.operations@))[k] as int == j,
        k > 0 ==> latest == latest_end(
            shot.camera.operations@,
            edit_order_of(operation_ranges(shot.camera.operations@)),
            k as nat,
        ),
        k == 0 ==> lead == Seq::<char>::empty(),
        k > 0 ==> lead == ", "@ + (if shot.camera.operations@[j].range.start < latest {
            word(d, "while"@)
        } else {
            word(d, "then"@)
        }) + " "@,
        phrase == operation_phrase(scene, d, o, shot.camera.operations@[j].operation, w.operations@[j]),
    ensures
        movement_piece(scene, shot, d, o, w, k) == lead + phrase,
{
}

/// One shot as a single-paragraph prompt in `dialect`: scene context, the
/// incoming transition, coverage and framing, depth layers, blocking cues,
/// rig and movement, lens, composition, lighting, intent, beats, notes and
/// the dialect's closing word. `wording` words the camera operations (one
/// per operation, in declaration order) and the lens.
pub fn emit_shot_prompt(
    scene: &Scene,
    shot: &Shot,
    dialect: &PromptDialect,
    options: &PromptOptions,
    wording: &ShotWording,
) -> (text: String)
    requires
        wording.operations.len() == shot.camera.operations.len(),
    ensures
        text@ == prompt_text(*scene, *shot, *dialect, *options, *wording),
{
    let namer = Namer::new(scene, dialect, *options);
    let mut sentences: Vec<String> = Vec::new();
    assert(string_views(sentences@) =~= Seq::<Seq<char>>::empty());
    add_context(&mut sentences, scene, dialect, *options);
    add_transition(&mut sentences, shot, dialect);
    add_header(&mut sentences, shot, dialect);
    namer.add_framing(&mut sentences, shot);
    namer.add_layers(&mut sentences, shot);
    namer.add_cues(&mut sentences, shot);
    namer.add_movement(&mut sentences, shot, wording);
    add_lens(&mut sentences, dialect, &wording.lens);
    add_composition(&mut sentences, shot, dialect);
    add_lighting(&mut sentences, scene, shot, dialect);
    add_intent(&mut sentences, shot, dialect);
    add_beats(&mut sentences, scene, shot, dialect);
    add_notes(&mut sentences, shot, dialect);
    add_closing(&mut sentences, dialect);
    assert(string_views(sentences@) =~= prompt_sentences(*scene, *shot, *dialect, *options, *wording));
    join_with(&sentences, " ")
}

// ----------------------------------------------------------------------
// Every shot of a project
// ----------------------------------------------------------------------

/// A shot prompt as plain values.
pub struct PromptView {
    pub scene_id: Seq<char>,
    pub shot_id: Seq<char>,
    pub text: Seq<char>,
}

impl View for ShotPrompt {
    type V = PromptView;

    open spec fn view(&self) -> PromptView {
        PromptView { scene_id: self.scene_id@, shot_id: self.shot_id@, text: self.text@ }
    }
}

pub open spec fn prompt_views(prompts: Seq<ShotPrompt>) -> Seq<PromptView> {
    prompts.map_values(|p: ShotPrompt| p@)
}

/// `filter` admits `id`: there is no filter, or it is `id`.
pub open spec fn admits(filter: Option<Seq<char>>, id: Seq<char>) -> bool {
    match filter {
        Some(f) => f == id,
        None => true,
    }
}

/// Every scene's wording lists one entry per shot, each with one entry per
/// camera operation.
pub open spec fn wordings_fit(project: CineProject, wordings: Seq<Vec<ShotWording>>) -> bool {
    &&& wordings.len() == project.scenes@.len()
    &&& forall|i: int|
        0 <= i < wordings.len() ==> (#[trigger] wordings[i])@.len() == project.scenes@[i].shots@.len()
    &&& forall|i: int, j: int|
        0 <= i < wordings.len() && 0 <= j < wordings[i]@.len() ==> (#[trigger] wordings[i]@[j]).operations@.len()
            == project.scenes@[i].shots@[j].camera.operations@.len()
}

/// The prompt of the `k`-th shot of scene `i` in edit order, if the shot
/// filter admits it.
pub open spec fn scene_shot_prompt(
    project: CineProject,
    d: PromptDialect,
    o: PromptOptions,
    shot_filter: Option<Seq<char>>,
    wordings: Seq<Vec<ShotWording>>,
    i: int,
    k: int,
) -> Seq<PromptView> {
    let scene = project.scenes@[i];
    let j = edit_order_of(crate::timeline::shot_ranges(scene.shots@))[k] as int;
    let shot = scene.shots@[j];
    if admits(shot_filter, shot.id@) {
        seq![PromptView { scene_id: scene.id@, shot_id: shot.id@, text: prompt_text(scene, shot, d, o, wordings[i]@[j]) }]
    } else {
        Seq::empty()
    }
}

pub open spec fn scene_prompts(
    project: CineProject,
    d: PromptDialect,
    o: PromptOptions,
    scene_filter: Option<Seq<char>>,
    shot_filter: Option<Seq<char>>,
    wordings: Seq<Vec<ShotWording>>,
    i: int,
) -> Seq<PromptView> {
    let scene = project.scenes@[i];
    if admits(scene_filter, scene.id@) {
        flatten(Seq::new(scene.shots@.len(), |k: int| scene_shot_prompt(project, d, o, shot_filter, wordings, i, k)))
    } else {
        Seq::empty()
    }
}

/// Prompts for every shot admitted by the filters: scenes in document
/// order, shots in edit order.
pub open spec fn project_prompts(
    project: CineProject,
    d: PromptDialect,
    o: PromptOptions,
    scene_filter: Option<Seq<char>>,
    shot_filter: Option<Seq<char>>,
    wordings: Seq<Vec<ShotWording>>,
) -> Seq<PromptView> {
    flatten(
        Seq::new(
            project.scenes@.len(),
            |i: int| scene_prompts(project, d, o, scene_filter, shot_filter, wordings, i),
        ),
    )
}

pub open spec fn optional_text(t: Option<&str>) -> Option<Seq<char>> {
    match t {
        Some(s) => Some(s@),
        None => None,
    }
}

fn admits_id(filter: Option<&str>, id: &String) -> (b: bool)
    ensures
        b == admits(optional_text(filter), id@),
{
    match filter {
        Some(f) => owned(f) == *id,
        None => true,
    }
}

fn add_scene_prompts(
    prompts: &mut Vec<ShotPrompt>,
    project: &CineProject,
    dialect: &PromptDialect,
    options: &PromptOptions,
    scene_filter: Option<&str>,
    shot_filter: Option<&str>,
    wordings: &Vec<Vec<ShotWording>>,
    i: usize,
)
    requires
        wordings_fit(*project, wordings@),
        i < project.scenes.len(),
    ensures
        prompt_views(final(prompts)@) == prompt_views(old(prompts)@) + scene_prompts(
            *project,
            *dialect,
            *options,
            optional_text(scene_filter),
            optional_text(shot_filter),
            wordings@,
            i as int,
        ),
{
    let ghost hf = optional_text(shot_filter);
    let scene = &project.scenes[i];
    let ghost head = prompt_views(prompts@);
    if admits_id(scene_filter, &scene.id) {
        let order = shot_order(&scene.shots);
        let ghost inner = |k: int| scene_shot_prompt(*project, *dialect, *options, hf, wordings@, i as int, k);
        let mut k: usize = 0;
        while k < order.len()
            invariant
                k <= order.len(),
                i < project.scenes.len(),
                scene == &project.scenes[i as int],
                wordings_fit(*project, wordings@),
                hf == optional_text(shot_filter),
                order@ == edit_order_of(crate::timeline::shot_ranges(scene.shots@)),
                order.len() == scene.shots.len(),
                forall|m: int| 0 <= m < order.len() ==> #[trigger] order@[m] < scene.shots.len(),
                inner == (|k: int| scene_shot_prompt(*project, *dialect, *options, hf, wordings@, i as int, k)),
                prompt_views(prompts@) == head + flatten(Seq::new(k as nat, inner)),
            decreases order.len() - k,
        {
            let j = order[k];
            let shot = &scene.shots[j];
            let ghost before = prompts@;
            if admits_id(shot_filter, &shot.id) {
                assert(wordings@[i as int]@.len() == scene.shots@.len());
                let w = &wordings[i][j];
                assert(w.operations@.len() == shot.camera.operations@.len());
                let text = emit_shot_prompt(scene, shot, dialect, options, w);
                prompts.push(ShotPrompt { scene_id: scene.id.clone(), shot_id: shot.id.clone(), text });
            }
            assert(prompt_views(prompts@) =~= prompt_views(before) + inner(k as int));
            proof { lemma_flatten_new_step(k as nat, inner); }
            k = k + 1;
        }
    }
    assert(prompt_views(prompts@) =~= head + scene_prompts(
        *project,
        *dialect,
        *options,
        optional_text(scene_filter),
        hf,
        wordings@,
        i as int,
    ));
}

/// Prompts for every shot, or for those of one scene or one shot id:
/// scenes in document order, shots in edit order. `wordings[i][j]` words
/// shot `j` of scene `i`.
pub fn emit_project_prompts(
    project: &CineProject,
    dialect: &PromptDialect,
    options: &PromptOptions,
    scene_filter: Option<&str>,
    shot_filter: Option<&str>,
    wordings: &Vec<Vec<ShotWording>>,
) -> (prompts: Vec<ShotPrompt>)
    requires
        wordings_fit(*project, wordings@),
    ensures
        prompt_views(prompts@) == project_prompts(
            *project,
            *dialect,
            *options,
            optional_text(scene_filter),
            optional_text(shot_filter),
            wordings@,
        ),
{
    let ghost sf = optional_text(scene_filter);
    let ghost hf = optional_text(shot_filter);
    let ghost outer = |i: int| scene_prompts(*project, *dialect, *options, sf, hf, wordings@, i);
    let mut prompts: Vec<ShotPrompt> = Vec::new();
    assert(prompt_views(prompts@) =~= Seq::<PromptView>::empty());
    let mut i: usize = 0;
    while i < project.scenes.len()
        invariant
            i <= project.scenes.len(),
            wordings_fit(*project, wordings@),
            sf == optional_text(scene_filter),
            hf == optional_text(shot_filter),
            outer == (|i: int| scene_prompts(*project, *dialect, *options, sf, hf, wordings@, i)),
            prompt_views(prompts@) == flatten(Seq::new(i as nat, outer)),
        decreases project.scenes.len() - i,
    {
        let ghost head = prompt_views(prompts@);
        add_scene_prompts(&mut prompts, project, dialect, options, scene_filter, shot_filter, wordings, i);
        assert(prompt_views(prompts@) =~= head + outer(i as int));
        proof { lemma_flatten_new_step(i as nat, outer); }
        i = i + 1;
    }
    prompts
}

} // verus!
