//! The decisions behind the control windows: which windows are open, which
//! app is selected, and the widget toggles. Drawing is left to the caller.
use vstd::prelude::*;

use vstd::string::StrSliceExecFns;

verus! {

/// Whether two strings hold the same characters.
pub fn str_eq(a: &str, b: &str) -> (same: bool)
    ensures
        same == (a@ == b@),
{
    let n = a.unicode_len();
    let m = b.unicode_len();
    if n != m {
        return false;
    }
    let mut i: usize = 0;
    while i < n
        invariant
            n == a@.len(),
            m == b@.len(),
            n == m,
            i <= n,
            forall|j: int| 0 <= j < i ==> #[trigger] a@[j] == b@[j],
        decreases n - i,
    {
        if a.get_char(i) != b.get_char(i) {
            return false;
        }
        i = i + 1;
    }
    proof {
        assert(a@ =~= b@);
    }
    true
}

/// The names in a list of open windows.
pub open spec fn open_names(open: Seq<String>) -> Set<Seq<char>> {
    Set::new(|k: Seq<char>| exists|i: int| 0 <= i < open.len() && #[trigger] open[i]@ == k)
}

/// No name is listed twice.
pub open spec fn names_distinct(open: Seq<String>) -> bool {
    forall|i: int, j: int| 0 <= i < j < open.len() ==> #[trigger] open[i]@ != #[trigger] open[j]@
}

/// The position of a name in a list of open windows, if it is there.
fn position_of(open: &Vec<String>, key: &str) -> (pos: Option<usize>)
    ensures
        pos matches Some(i) ==> i < open@.len() && open@[i as int]@ == key@,
        pos is None ==> forall|i: int| 0 <= i < open@.len() ==> #[trigger] open@[i]@ != key@,
{
    let mut i: usize = 0;
    while i < open.len()
        invariant
            i <= open@.len(),
            forall|j: int| 0 <= j < i ==> #[trigger] open@[j]@ != key@,
        decreases open@.len() - i,
    {
        if str_eq(open[i].as_str(), key) {
            return Some(i);
        }
        i = i + 1;
    }
    None
}

/// The open windows after recording whether `key` is open.
pub open spec fn after_set_open(open: Set<Seq<char>>, key: Seq<char>, is_open: bool) -> Set<Seq<char>> {
    if is_open {
        open.insert(key)
    } else {
        open.remove(key)
    }
}

/// Recording the same thing twice is recording it once, and the last record
/// of a window decides whether it is open, whatever was recorded before.
pub proof fn lemma_set_open_last_record_wins(open: Set<Seq<char>>, key: Seq<char>, first: bool, second: bool)
    ensures
        after_set_open(after_set_open(open, key, first), key, second) == after_set_open(open, key, second),
        after_set_open(after_set_open(open, key, second), key, second) == after_set_open(open, key, second),
        after_set_open(open, key, second).contains(key) == second,
        forall|other: Seq<char>| other != key ==> (#[trigger] after_set_open(open, key, second).contains(other) == open.contains(other)),
{
    assert(after_set_open(after_set_open(open, key, first), key, second) =~= after_set_open(open, key, second));
    assert(after_set_open(after_set_open(open, key, second), key, second) =~= after_set_open(open, key, second));
}

/// Record whether the window `key` is open: add its name to the open ones,
/// or take it out. The open names are a set held as a `Vec` in which no name
/// occurs twice: vstd specifies `BTreeSet` only for keys whose ordering it
/// knows to obey the laws of `Ord`, which it does not state of `String`.
pub fn set_open(open: &mut Vec<String>, key: &'static str, is_open: bool)
    requires
        names_distinct(old(open)@),
    ensures
        names_distinct(final(open)@),
        open_names(final(open)@) == after_set_open(open_names(old(open)@), key@, is_open),
{
    let pos = position_of(open, key);
    let ghost before = open@;
    if is_open {
        if pos.is_none() {
            open.push(key.to_owned());
            proof {
                assert forall|i: int, j: int| 0 <= i < j < open@.len() implies #[trigger] open@[i]@
                    != #[trigger] open@[j]@ by {
                    if j == before.len() {
                        assert(open@[i] == before[i]);
                    } else {
                        assert(open@[i] == before[i] && open@[j] == before[j]);
                    }
                }
                assert forall|k: Seq<char>| #[trigger] open_names(open@).contains(k) <==> open_names(before).insert(key@).contains(k) by {
                    if open_names(before).contains(k) && k != key@ {
                        let i = choose|i: int| 0 <= i < before.len() && #[trigger] before[i]@ == k;
                        assert(open@[i] == before[i]);
                    }
                    if k == key@ {
                        assert(open@[before.len() as int]@ == k);
                    }
                    if open_names(open@).contains(k) {
                        let i = choose|i: int| 0 <= i < open@.len() && #[trigger] open@[i]@ == k;
                        if i < before.len() {
                            assert(open@[i] == before[i]);
                        }
                    }
                }
                assert(open_names(open@) =~= open_names(before).insert(key@));
            }
        } else {
            proof {
                let p = pos->0 as int;
                assert(open_names(before).contains(key@));
                assert(open_names(before).insert(key@) =~= open_names(before));
            }
        }
    } else {
        match pos {
            Some(p) => {
                open.remove(p);
                proof {
                    assert forall|i: int, j: int| 0 <= i < j < open@.len() implies #[trigger] open@[i]@
                        != #[trigger] open@[j]@ by {
                        let ii = if i < p { i } else { i + 1 };
                        let jj = if j < p { j } else { j + 1 };
                        assert(open@[i] == before[ii]);
                        assert(open@[j] == before[jj]);
                    }
                    assert forall|k: Seq<char>| #[trigger] open_names(open@).contains(k) <==> open_names(before).remove(key@).contains(k) by {
                        if open_names(before).contains(k) && k != key@ {
                            let i = choose|i: int| 0 <= i < before.len() && #[trigger] before[i]@ == k;
                            assert(i != p);
                            if i < p {
                                assert(open@[i] == before[i]);
                            } else {
                                assert(open@[i - 1] == before[i]);
                            }
                        }
                        if open_names(open@).contains(k) {
                            let i = choose|i: int| 0 <= i < open@.len() && #[trigger] open@[i]@ == k;
                            let ii = if i < p { i } else { i + 1 };
                            assert(open@[i] == before[ii]);
                            assert(ii != p);
                            assert(before[ii]@ != before[p as int]@);
                        }
                    }
                    assert(open_names(open@) =~= open_names(before).remove(key@));
                }
            },
            None => {
                proof {
                    assert(!open_names(before).contains(key@));
                    assert(open_names(before).remove(key@) =~= open_names(before));
                }
            },
        }
    }
}

/// The name of the controls window.
pub open spec fn controls_name() -> Seq<char> {
    "Kintaro"@
}

/// The windows of the controls and which of them are open. Each window is
/// known by its name; drawing it is left to the caller, which, for each
/// module in turn, reads `is_open`, shows the window and reports the result
/// with `after_show`.
pub struct Kintaro {
    pub modules: Vec<&'static str>,
    pub open: Vec<String>,
}

impl Kintaro {
    /// No window is listed as open twice.
    pub open spec fn well_formed(&self) -> bool {
        names_distinct(self.open@)
    }

    /// The controls window alone, open.
    pub fn init(n_camera: usize) -> (k: Kintaro)
        ensures
            k.well_formed(),
            k.modules@.len() == 1,
            k.modules@[0]@ == controls_name(),
            open_names(k.open@) == set![controls_name()],
    {
        Self::from_modules(vec!["Kintaro"], n_camera)
    }

    /// The given windows, with the controls window open.
    pub fn from_modules(modules: Vec<&'static str>, _n_camera: usize) -> (k: Kintaro)
        ensures
            k.well_formed(),
            k.modules@ == modules@,
            open_names(k.open@) == set![controls_name()],
    {
        let mut open: Vec<String> = Vec::new();
        let name = "Kintaro";
        open.push(name.to_owned());
        proof {
            assert(open@[0]@ == controls_name());
            assert forall|k: Seq<char>| #[trigger] open_names(open@).contains(k) <==> set![controls_name()].contains(k) by {
                if k == controls_name() {
                    assert(open@[0]@ == k);
                }
            }
            assert(open_names(open@) =~= set![controls_name()]);
        }
        Kintaro { modules, open }
    }

    /// Whether the window `name` is open.
    pub fn is_open(&self, name: &str) -> (open: bool)
        ensures
            open == open_names(self.open@).contains(name@),
    {
        match position_of(&self.open, name) {
            Some(i) => {
                proof {
                    assert(self.open@[i as int]@ == name@);
                }
                true
            },
            None => false,
        }
    }

    /// Record whether the window `name` is open after it was shown.
    pub fn after_show(&mut self, name: &'static str, is_open: bool)
        requires
            old(self).well_formed(),
        ensures
            final(self).well_formed(),
            final(self).modules@ == old(self).modules@,
            open_names(final(self).open@) == after_set_open(open_names(old(self).open@), name@, is_open),
    {
        set_open(&mut self.open, name, is_open);
    }
}

/// The windows shown by the controls app.
pub struct Windows {
    pub kintaro: Kintaro,
}

impl Windows {
    /// The controls window alone, open.
    pub fn init(n_camera: usize) -> (w: Windows)
        ensures
            w.kintaro.well_formed(),
            w.kintaro.modules@.len() == 1,
            w.kintaro.modules@[0]@ == controls_name(),
            open_names(w.kintaro.open@) == set![controls_name()],
    {
        Windows { kintaro: Kintaro::init(n_camera) }
    }
}

/// The controls app.
pub struct Controls {
    pub windows: Windows,
}

impl Controls {
    /// The controls app with its window open.
    pub fn init(n_camera: usize) -> (c: Controls)
        ensures
            c.windows.kintaro.well_formed(),
            c.windows.kintaro.modules@.len() == 1,
            c.windows.kintaro.modules@[0]@ == controls_name(),
            open_names(c.windows.kintaro.open@) == set![controls_name()],
    {
        Controls { windows: Windows::init(n_camera) }
    }

    /// The app's name.
    pub fn name(&self) -> (name: &'static str)
        ensures
            name@ == controls_name(),
    {
        "Kintaro"
    }
}

/// The anchor under which the controls app is listed.
pub open spec fn demo_anchor() -> Seq<char> {
    "demo"@
}

/// All the apps, each under an anchor.
pub struct Apps {
    pub controls: Controls,
}

impl Apps {
    /// The apps, with the controls app's window open.
    pub fn init(n_camera: usize) -> (apps: Apps)
        ensures
            apps.controls.windows.kintaro.well_formed(),
            open_names(apps.controls.windows.kintaro.open@) == set![controls_name()],
    {
        Apps { controls: Controls::init(n_camera) }
    }

    /// The anchors of the apps, in order.
    pub fn anchors(&self) -> (anchors: Vec<&'static str>)
        ensures
            anchors@.len() == 1,
            anchors@[0]@ == demo_anchor(),
    {
        vec!["demo"]
    }
}

/// The text after a leading `#`, if the text has one.
pub fn strip_hash_prefix(s: &str) -> (rest: Option<&str>)
    ensures
        rest is Some <==> (s@.len() > 0 && s@[0] == '#'),
        rest matches Some(r) ==> r@ == s@.subrange(1, s@.len() as int),
{
    let n = s.unicode_len();
    if n > 0 && s.get_char(0) == '#' {
        Some(s.substring_char(1, n))
    } else {
        None
    }
}

/// The anchor selected after a frame: the one in the web location's hash
/// where it starts with `#`, else the one selected before; the first app's
/// anchor where that is empty.
pub open spec fn next_anchor(selected: Seq<char>, web_location_hash: Option<Seq<char>>) -> Seq<char> {
    let from_web = match web_location_hash {
        Some(h) => if h.len() > 0 && h[0] == '#' {
            h.subrange(1, h.len() as int)
        } else {
            selected
        },
        None => selected,
    };
    if from_web.len() == 0 {
        demo_anchor()
    } else {
        from_web
    }
}

/// A web location hash of `#` and a name selects the app of that name,
/// whatever was selected before.
pub proof fn lemma_hash_selects_the_app(selected: Seq<char>, h: Seq<char>)
    requires
        h.len() > 1,
        h[0] == '#',
    ensures
        next_anchor(selected, Some(h)) == h.subrange(1, h.len() as int),
{
}

/// Without a hash that starts with `#`, the selection stays, or falls back to
/// the first app where nothing is selected.
pub proof fn lemma_selection_stays_without_a_hash(selected: Seq<char>, h: Option<Seq<char>>)
    requires
        !(h is Some && h->0.len() > 0 && h->0[0] == '#'),
    ensures
        next_anchor(selected, h) == (if selected.len() > 0 { selected } else { "demo"@ }),
{
}

/// Whatever was selected and whatever the web location says, some app is
/// selected after a frame.
pub proof fn lemma_next_anchor_is_never_empty(selected: Seq<char>, web_location_hash: Option<Seq<char>>)
    ensures
        next_anchor(selected, web_location_hash).len() > 0,
{
    reveal_strlit("demo");
}

/// The frame rate shown by the controls: frames counted over the whole
/// seconds elapsed, plus one.
pub fn frames_per_second(frames: u64, elapsed_secs: u64) -> (fps: u64)
    requires
        elapsed_secs < u64::MAX,
    ensures
        fps == frames as int / (elapsed_secs as int + 1),
{
    frames / (elapsed_secs + 1)
}

/// All the apps with the anchor of the one on show.
pub struct WrapApp {
    pub selected_anchor: String,
    pub apps: Apps,
}

impl WrapApp {
    /// No anchor selected yet; the controls window open.
    pub fn init(n_camera: usize) -> (app: WrapApp)
        ensures
            app.selected_anchor@ == Seq::<char>::empty(),
            app.apps.controls.windows.kintaro.well_formed(),
            open_names(app.apps.controls.windows.kintaro.open@) == set![controls_name()],
    {
        WrapApp { selected_anchor: String::new(), apps: Apps::init(n_camera) }
    }

    /// The window title.
    pub fn name(&self) -> (name: &'static str)
        ensures
            name@ == controls_name(),
    {
        "Kintaro"
    }

    /// Choose the anchor to show at the start of a frame, from the web
    /// location's hash where there is one.
    pub fn select_anchor(&mut self, web_location_hash: Option<&str>)
        ensures
            final(self).selected_anchor@ == next_anchor(
                old(self).selected_anchor@,
                match web_location_hash {
                    Some(h) => Some(h@),
                    None => None,
                },
            ),
            web_location_hash is Some && web_location_hash->0@.len() > 1 && web_location_hash->0@[0] == '#'
                ==> final(self).selected_anchor@ == web_location_hash->0@.subrange(1, web_location_hash->0@.len() as int),
            web_location_hash is Some && web_location_hash->0@ == "#"@ ==> final(self).selected_anchor@ == "demo"@,
            !(web_location_hash is Some && web_location_hash->0@.len() > 0 && web_location_hash->0@[0] == '#') ==> final(self).selected_anchor@
                == (if old(self).selected_anchor@.len() > 0 {
                old(self).selected_anchor@
            } else {
                "demo"@
            }),
            final(self).apps == old(self).apps,
    {
        proof {
            reveal_strlit("#");
        }
        if let Some(hash) = web_location_hash {
            if let Some(anchor) = strip_hash_prefix(hash) {
                self.selected_anchor = anchor.to_owned();
            }
        }
        if self.selected_anchor.as_str().unicode_len() == 0 {
            let anchors = self.apps.anchors();
            self.selected_anchor = anchors[0].to_owned();
        }
    }

    /// Whether the app under `anchor` is updated this frame: it is the
    /// selected one, or everything is on show.
    pub fn should_update(&self, anchor: &str, everything_is_visible: bool) -> (update: bool)
        ensures
            update == (anchor@ == self.selected_anchor@ || everything_is_visible),
    {
        str_eq(anchor, self.selected_anchor.as_str()) || everything_is_visible
    }
}

/// A row of three buttons that each flip a switch.
#[derive(Debug, PartialEq, Eq, Structural)]
pub struct WidgetGallery {
    pub boolean: bool,
}

impl Default for WidgetGallery {
    /// The switch off.
    fn default() -> (gallery: Self)
        ensures
            !gallery.boolean,
    {
        WidgetGallery { boolean: false }
    }
}

impl WidgetGallery {
    /// The window's name.
    pub fn name(&self) -> (name: &'static str)
        ensures
            name@ == controls_name(),
    {
        "Kintaro"
    }

    /// Flip the switch once per button clicked this frame.
    pub fn gallery_grid_contents(&mut self, a_clicked: bool, b_clicked: bool, c_clicked: bool)
        ensures
            final(self).boolean == (old(self).boolean ^ a_clicked ^ b_clicked ^ c_clicked),
    {
        if a_clicked {
            self.boolean = !self.boolean;
        }
        if b_clicked {
            self.boolean = !self.boolean;
        }
        if c_clicked {
            self.boolean = !self.boolean;
        }
    }
}

/// What the control panel reads and changes of the state it shares with the
/// renderer: whether playing, whether a save was asked for, and the frames
/// counted. The volume and the instance scales are float sliders and stay
/// with the interface.
#[derive(Clone, Copy, Debug, PartialEq, Eq, Structural)]
pub struct UiState {
    pub play: bool,
    pub save: bool,
    pub frames: u64,
    pub camera_index: usize,
}

/// What one frame of the control panel shows.
#[derive(Clone, Copy, Debug, PartialEq, Eq)]
pub struct PanelFrame {
    /// The frame rate shown.
    pub fps: u64,
    /// The label of the play button.
    pub play_label: &'static str,
}

/// The control panel of the `Kintaro` window.
#[derive(Clone, Copy, Debug)]
pub struct ControlsInner {
    pub state: UiState,
    pub n_camera: usize,
}

impl ControlsInner {
    /// A panel over the shared state, for `n_camera` cameras.
    pub fn init(state: UiState, n_camera: usize) -> (c: ControlsInner)
        ensures
            c.state == state,
            c.n_camera == n_camera,
    {
        ControlsInner { state, n_camera }
    }

    /// One frame of the panel, `elapsed_secs` whole seconds after the frame
    /// count started: it shows the frame rate counted so far and a button
    /// labelled after the play state, counts the frame, flips the play state
    /// when the button was clicked and asks for a save when the save button
    /// was clicked.
    pub fn gallery_grid_contents(&mut self, elapsed_secs: u64, play_clicked: bool, save_clicked: bool) -> (shown: PanelFrame)
        requires
            old(self).state.frames < u64::MAX,
            elapsed_secs < u64::MAX,
        ensures
            shown.fps == old(self).state.frames as int / (elapsed_secs as int + 1),
            shown.play_label@ == (if old(self).state.play { "Pause"@ } else { "Play"@ }),
            final(self).state.frames == old(self).state.frames + 1,
            final(self).state.play == (old(self).state.play != play_clicked),
            final(self).state.save == (old(self).state.save || save_clicked),
            final(self).state.camera_index == old(self).state.camera_index,
            final(self).n_camera == old(self).n_camera,
    {
        let frames = self.state.frames;
        self.state.frames = frames + 1;
        let fps = frames_per_second(frames, elapsed_secs);
        let play_label = if self.state.play {
            "Pause"
        } else {
            "Play"
        };
        if play_clicked {
            self.state.play = !self.state.play;
        }
        if save_clicked {
            self.state.save = true;
        }
        PanelFrame { fps, play_label }
    }
}

} // verus!
