//! The overlay's shared state and the decisions taken on it: which character
//! windows exist, which users are hidden, the tray menu, and what each tray
//! command does.
use vstd::prelude::*;
use crate::escape::{
    json_escaped, law_json_escaped_ascii, law_percent_roundtrip, percent_decoded, percent_encode_ascii,
    percent_encoded, unicode_escape_json,
};
use crate::users::{
    find_user_json, parsed_users, read_users, records_view, user_json_for, user_records, UserRecord, UserRecordView,
};
use crate::text::{
    decimal, decimal_string, has_prefix, is_digit, lemma_decimal_digits, lemma_parse_decimal, owned,
    parse_usize, parse_usize_spec, push_str, starts_with, str_equals, trim_start_all,
    trim_start_matches,
};

verus! {

// ---------------------------------------------------------------------------
// Lists of strings
// ---------------------------------------------------------------------------

/// The character sequences of a sequence of strings.
pub open spec fn strs(v: Seq<String>) -> Seq<Seq<char>> {
    v.map_values(|s: String| s@)
}

/// Whether `v` holds a string equal to `s`.
pub fn contains_string(v: &Vec<String>, s: &str) -> (r: bool)
    ensures
        r == strs(v@).contains(s@),
{
    let n = v.len();
    for i in 0..n
        invariant
            n == v@.len(),
            forall|k: int| 0 <= k < i ==> strs(v@)[k] != s@,
    {
        if str_equals(v[i].as_str(), s) {
            assert(strs(v@)[i as int] == s@);
            return true;
        }
    }
    false
}

/// Whether two lists of strings hold the same strings in the same order.
pub fn strings_equal(a: &Vec<String>, b: &Vec<String>) -> (r: bool)
    ensures
        r == (strs(a@) == strs(b@)),
{
    if a.len() != b.len() {
        assert(strs(a@).len() != strs(b@).len());
        return false;
    }
    let n = a.len();
    for i in 0..n
        invariant
            n == a@.len(),
            n == b@.len(),
            forall|k: int| 0 <= k < i ==> strs(a@)[k] == strs(b@)[k],
    {
        if !str_equals(a[i].as_str(), b[i].as_str()) {
            assert(strs(a@)[i as int] != strs(b@)[i as int]);
            return false;
        }
    }
    assert(strs(a@) =~= strs(b@));
    true
}

/// A copy of a list of strings.
pub fn copy_strings(v: &Vec<String>) -> (r: Vec<String>)
    ensures
        strs(r@) == strs(v@),
{
    let mut r: Vec<String> = Vec::new();
    let n = v.len();
    for i in 0..n
        invariant
            n == v@.len(),
            strs(r@) == strs(v@).take(i as int),
    {
        let ghost old_r = r@;
        assert(strs(old_r).len() == old_r.len());
        assert(strs(v@).len() == v@.len());
        r.push(v[i].clone());
        assert(r@ == old_r.push(v@[i as int]));
        assert(old_r.len() == i);
        assert(strs(r@).len() == i + 1);
        assert forall|k: int| 0 <= k < i + 1 implies strs(r@)[k] == strs(v@).take(i + 1)[k] by {
            if k < i {
                assert(strs(old_r)[k] == strs(v@).take(i as int)[k]);
            }
        }
        assert(strs(r@) =~= strs(v@).take(i + 1));
    }
    assert(strs(v@).take(n as int) =~= strs(v@));
    r
}

/// Membership in a sequence extended by one element.
pub proof fn lemma_push_contains<T>(a: Seq<T>, e: T, x: T)
    ensures
        a.push(e).contains(x) <==> (a.contains(x) || x == e),
{
    if a.push(e).contains(x) && x != e {
        let k = choose|k: int| 0 <= k < a.push(e).len() && a.push(e)[k] == x;
        assert(a[k] == x);
    }
    if a.contains(x) {
        let k = choose|k: int| 0 <= k < a.len() && a[k] == x;
        assert(a.push(e)[k] == x);
    }
    if x == e {
        assert(a.push(e)[a.len() as int] == x);
    }
}

/// The strings of `v` that pass the filter `kept`, in order: those that occur
/// in `allowed` when `by_allowed`, else those that differ from `s`.
fn filter_strings(v: &Vec<String>, s: &str, allowed: &Vec<String>, by_allowed: bool) -> (r: Vec<
    String,
>)
    requires
        strs(v@).no_duplicates(),
    ensures
        strs(r@).no_duplicates(),
        forall|x: Seq<char>|
            strs(r@).contains(x) <==> (strs(v@).contains(x) && kept(x, s@, strs(allowed@), by_allowed)),
{
    let mut r: Vec<String> = Vec::new();
    let n = v.len();
    for i in 0..n
        invariant
            n == v@.len(),
            strs(v@).no_duplicates(),
            strs(r@).no_duplicates(),
            forall|x: Seq<char>|
                strs(r@).contains(x) <==> (strs(v@).take(i as int).contains(x) && kept(x, s@, strs(allowed@), by_allowed)),
    {
        let ghost before = strs(r@);
        let ghost vi = strs(v@)[i as int];
        let ghost t0 = strs(v@).take(i as int);
        assert(strs(v@).take(i + 1) =~= t0.push(vi));
        let keep = if by_allowed {
            contains_string(allowed, v[i].as_str())
        } else {
            !str_equals(v[i].as_str(), s)
        };
        if keep {
            assert(!before.contains(vi)) by {
                if before.contains(vi) {
                    let k = choose|k: int| 0 <= k < t0.len() && t0[k] == vi;
                    assert(strs(v@)[k] == strs(v@)[i as int]);
                }
            }
            let ghost old_r = r@;
            r.push(v[i].clone());
            assert(r@ == old_r.push(v@[i as int]));
            assert(strs(r@) =~= before.push(vi));
            assert forall|x: Seq<char>|
                strs(r@).contains(x) <==> (strs(v@).take(i + 1).contains(x) && kept(x, s@, strs(allowed@), by_allowed)) by {
                lemma_push_contains(before, vi, x);
                lemma_push_contains(t0, vi, x);
            }
            assert(strs(r@).no_duplicates()) by {
                assert forall|a: int, b: int|
                    0 <= a < strs(r@).len() && 0 <= b < strs(r@).len() && a != b implies strs(r@)[a]
                    != strs(r@)[b] by {
                    if a < before.len() && b < before.len() {
                        assert(before[a] != before[b]);
                    } else if a < before.len() {
                        assert(before.contains(before[a]));
                    } else if b < before.len() {
                        assert(before.contains(before[b]));
                    }
                }
            }
        } else {
            assert forall|x: Seq<char>|
                strs(r@).contains(x) <==> (strs(v@).take(i + 1).contains(x) && kept(x, s@, strs(allowed@), by_allowed)) by {
                lemma_push_contains(t0, vi, x);
            }
        }
    }
    assert(strs(v@).take(n as int) =~= strs(v@));
    r
}

/// The filter of `filter_strings`.
pub open spec fn kept(x: Seq<char>, s: Seq<char>, allowed: Seq<Seq<char>>, by_allowed: bool) -> bool {
    if by_allowed {
        allowed.contains(x)
    } else {
        x != s
    }
}

// ---------------------------------------------------------------------------
// Character windows
// ---------------------------------------------------------------------------

/// The label of the character window of user `user_id`.
pub open spec fn char_label(user_id: Seq<char>) -> Seq<char> {
    "char_"@ + user_id
}

/// The labels of the character windows of the given users, in order.
pub open spec fn char_labels(ids: Seq<Seq<char>>) -> Seq<Seq<char>> {
    ids.map_values(|id: Seq<char>| char_label(id))
}

/// The label of the character window of user `user_id`.
pub fn char_window_label(user_id: &str) -> (r: String)
    ensures
        r@ == char_label(user_id@),
{
    let mut r = owned("char_");
    push_str(&mut r, user_id);
    r
}

/// The labels of the character windows of the given users, in order.
pub fn char_window_labels_of(ids: &Vec<String>) -> (r: Vec<String>)
    ensures
        strs(r@) == char_labels(strs(ids@)),
{
    let mut r: Vec<String> = Vec::new();
    let n = ids.len();
    for i in 0..n
        invariant
            n == ids@.len(),
            strs(r@) == char_labels(strs(ids@)).take(i as int),
    {
        let ghost old_r = r@;
        assert(strs(old_r).len() == old_r.len());
        assert(strs(ids@).len() == ids@.len());
        r.push(char_window_label(ids[i].as_str()));
        assert forall|k: int| 0 <= k < i + 1 implies strs(r@)[k] == char_labels(strs(ids@)).take(
            i + 1,
        )[k] by {
            if k < i {
                assert(strs(old_r)[k] == char_labels(strs(ids@)).take(i as int)[k]);
            }
        }
        assert(strs(r@) =~= char_labels(strs(ids@)).take(i + 1));
    }
    assert(char_labels(strs(ids@)).take(n as int) =~= char_labels(strs(ids@)));
    r
}

// ---------------------------------------------------------------------------
// The overlay state
// ---------------------------------------------------------------------------

/// The state that the overlay's commands share.
pub struct OverlayState {
    drag_enabled: bool,
    character_size: u8,
    hidden_users: Vec<String>,
    tray_user_ids: Vec<String>,
    tray_user_labels: Vec<String>,
    char_user_ids: Vec<String>,
    users_json: String,
    notifications_muted: bool,
}

/// The abstract overlay state.
pub struct OverlayView {
    /// Whether character windows can be dragged (otherwise clicks pass
    /// through them).
    pub drag_enabled: bool,
    /// The character size level: 1 (small), 2 (medium) or 3 (large).
    pub character_size: u8,
    /// The users whose characters are hidden.
    pub hidden: Set<Seq<char>>,
    /// The users listed in the tray menu, and their labels.
    pub tray_ids: Seq<Seq<char>>,
    pub tray_labels: Seq<Seq<char>>,
    /// The users that have a character window.
    pub char_ids: Seq<Seq<char>>,
    /// The last users JSON text handed over by the front end.
    pub users_json: Seq<char>,
    /// Whether notifications are muted.
    pub muted: bool,
}

/// Every hidden user is listed in the tray, and the size level is 1, 2 or 3.
pub open spec fn view_wf(v: OverlayView) -> bool {
    &&& forall|u: Seq<char>| v.hidden.contains(u) ==> v.tray_ids.contains(u)
    &&& 1 <= v.character_size <= 3
}

/// The state in which the overlay starts.
pub open spec fn initial_view() -> OverlayView {
    OverlayView {
        drag_enabled: true,
        character_size: 2,
        hidden: Set::empty(),
        tray_ids: Seq::empty(),
        tray_labels: Seq::empty(),
        char_ids: Seq::empty(),
        users_json: "[]"@,
        muted: false,
    }
}

impl View for OverlayState {
    type V = OverlayView;

    closed spec fn view(&self) -> OverlayView {
        OverlayView {
            drag_enabled: self.drag_enabled,
            character_size: self.character_size,
            hidden: Set::new(|u: Seq<char>| strs(self.hidden_users@).contains(u)),
            tray_ids: strs(self.tray_user_ids@),
            tray_labels: strs(self.tray_user_labels@),
            char_ids: strs(self.char_user_ids@),
            users_json: self.users_json@,
            muted: self.notifications_muted,
        }
    }
}

impl OverlayState {
    /// The state is well formed: no user is hidden twice, and its view is
    /// well formed.
    pub closed spec fn wf(&self) -> bool {
        &&& strs(self.hidden_users@).no_duplicates()
        &&& view_wf(self@)
    }

    /// Whether character windows can be dragged.
    pub fn drag_enabled(&self) -> (r: bool)
        ensures
            r == self@.drag_enabled,
    {
        self.drag_enabled
    }

    /// The character size level.
    pub fn character_size(&self) -> (r: u8)
        ensures
            r == self@.character_size,
    {
        self.character_size
    }

    /// Whether notifications are muted.
    pub fn notifications_muted(&self) -> (r: bool)
        ensures
            r == self@.muted,
    {
        self.notifications_muted
    }

    /// Whether the character of `user_id` is hidden.
    pub fn is_hidden(&self, user_id: &str) -> (r: bool)
        ensures
            r == self@.hidden.contains(user_id@),
    {
        contains_string(&self.hidden_users, user_id)
    }

    /// The users listed in the tray menu.
    pub fn tray_user_ids(&self) -> (r: Vec<String>)
        ensures
            strs(r@) == self@.tray_ids,
    {
        copy_strings(&self.tray_user_ids)
    }

    /// The labels of the users listed in the tray menu.
    pub fn tray_user_labels(&self) -> (r: Vec<String>)
        ensures
            strs(r@) == self@.tray_labels,
    {
        copy_strings(&self.tray_user_labels)
    }

    /// The users that have a character window.
    pub fn char_user_ids(&self) -> (r: Vec<String>)
        ensures
            strs(r@) == self@.char_ids,
    {
        copy_strings(&self.char_user_ids)
    }

    /// The last users JSON text handed over by the front end.
    pub fn get_users_json(&self) -> (r: String)
        ensures
            r@ == self@.users_json,
    {
        self.users_json.clone()
    }

    /// Keeps `json` as the users JSON text.
    pub fn store_users_json(&mut self, json: String)
        requires
            old(self).wf(),
        ensures
            final(self).wf(),
            final(self)@ == (OverlayView { users_json: json@, ..old(self)@ }),
    {
        self.users_json = json;
    }

    /// The labels of all character windows, in order.
    pub fn char_window_labels(&self) -> (r: Vec<String>)
        ensures
            strs(r@) == char_labels(self@.char_ids),
    {
        char_window_labels_of(&self.char_user_ids)
    }

    /// Forgets every character window and returns the labels of the windows
    /// to destroy.
    pub fn destroy_char_windows(&mut self) -> (r: Vec<String>)
        requires
            old(self).wf(),
        ensures
            final(self).wf(),
            strs(r@) == char_labels(old(self)@.char_ids),
            final(self)@ == (OverlayView { char_ids: Seq::empty(), ..old(self)@ }),
    {
        let labels = char_window_labels_of(&self.char_user_ids);
        self.char_user_ids = Vec::new();
        proof {
            assert(strs(self.char_user_ids@) =~= Seq::<Seq<char>>::empty());
            assert(self@.hidden =~= old(self)@.hidden);
        }
        labels
    }

    /// Leaves the room: forgets every character window, the tray's users and
    /// every hidden user, and returns the labels of the windows to destroy.
    pub fn leave_overlay(&mut self) -> (r: Vec<String>)
        requires
            old(self).wf(),
        ensures
            final(self).wf(),
            strs(r@) == char_labels(old(self)@.char_ids),
            final(self)@ == left_view(old(self)@),
    {
        let labels = char_window_labels_of(&self.char_user_ids);
        self.char_user_ids = Vec::new();
        self.tray_user_ids = Vec::new();
        self.tray_user_labels = Vec::new();
        self.hidden_users = Vec::new();
        proof {
            assert(strs(self.char_user_ids@) =~= Seq::<Seq<char>>::empty());
            assert(strs(self.tray_user_ids@) =~= Seq::<Seq<char>>::empty());
            assert(strs(self.tray_user_labels@) =~= Seq::<Seq<char>>::empty());
            assert(strs(self.hidden_users@) =~= Seq::<Seq<char>>::empty());
            assert(self@.hidden =~= Set::<Seq<char>>::empty());
            assert(self@ == left_view(old(self)@));
        }
        labels
    }
}

/// The state after leaving the room.
pub open spec fn left_view(v: OverlayView) -> OverlayView {
    OverlayView {
        hidden: Set::empty(),
        tray_ids: Seq::empty(),
        tray_labels: Seq::empty(),
        char_ids: Seq::empty(),
        ..v
    }
}

impl Default for OverlayState {
    /// The starting state: dragging on, medium characters, nobody hidden or
    /// listed, no character windows, an empty users array, notifications on.
    fn default() -> (s: Self)
        ensures
            s.wf(),
            s@ == initial_view(),
    {
        let s = OverlayState {
            drag_enabled: true,
            character_size: 2,
            hidden_users: Vec::new(),
            tray_user_ids: Vec::new(),
            tray_user_labels: Vec::new(),
            char_user_ids: Vec::new(),
            users_json: owned("[]"),
            notifications_muted: false,
        };
        proof {
            assert(strs(s.hidden_users@) =~= Seq::<Seq<char>>::empty());
            assert(strs(s.tray_user_ids@) =~= Seq::<Seq<char>>::empty());
            assert(strs(s.tray_user_labels@) =~= Seq::<Seq<char>>::empty());
            assert(strs(s.char_user_ids@) =~= Seq::<Seq<char>>::empty());
            assert(s@.hidden =~= Set::<Seq<char>>::empty());
            assert(s@ == initial_view());
        }
        s
    }
}

// ---------------------------------------------------------------------------
// The users listed in the tray
// ---------------------------------------------------------------------------

/// The state after the tray's user list was replaced by `ids` and `labels`:
/// a hidden user stays hidden only when still listed.
pub open spec fn relisted_view(v: OverlayView, ids: Seq<Seq<char>>, labels: Seq<Seq<char>>) -> OverlayView {
    OverlayView {
        hidden: Set::new(|u: Seq<char>| v.hidden.contains(u) && ids.contains(u)),
        tray_ids: ids,
        tray_labels: labels,
        ..v
    }
}

/// Whether replacing the tray's users of state `v` by `ids` and `labels`
/// changes anything.
pub open spec fn users_changed(v: OverlayView, ids: Seq<Seq<char>>, labels: Seq<Seq<char>>) -> bool {
    v.tray_ids != ids || v.tray_labels != labels
}

impl OverlayState {
    /// Replaces the users listed in the tray when the list or its labels
    /// changed, keeping hidden only the users still listed; returns whether
    /// anything changed (the tray menu then needs rebuilding).
    pub fn update_overlay_users(&mut self, user_ids: Vec<String>, user_labels: Vec<String>) -> (changed: bool)
        requires
            old(self).wf(),
        ensures
            final(self).wf(),
            changed == users_changed(old(self)@, strs(user_ids@), strs(user_labels@)),
            changed ==> final(self)@ == relisted_view(old(self)@, strs(user_ids@), strs(user_labels@)),
            !changed ==> final(self)@ == old(self)@,
    {
        let changed = !strings_equal(&self.tray_user_ids, &user_ids) || !strings_equal(
            &self.tray_user_labels,
            &user_labels,
        );
        if changed {
            let kept = filter_strings(&self.hidden_users, "", &user_ids, true);
            self.hidden_users = kept;
            self.tray_user_ids = user_ids;
            self.tray_user_labels = user_labels;
            proof {
                assert(self@.hidden =~= relisted_view(old(self)@, strs(user_ids@), strs(user_labels@)).hidden);
            }
        }
        changed
    }
}

// ---------------------------------------------------------------------------
// The tray menu
// ---------------------------------------------------------------------------

/// One entry of the tray's "show/hide characters" submenu.
pub struct VisibilityItem {
    /// The menu id: `vis-` and the index of the user in the tray's list.
    pub id: String,
    pub label: String,
    /// Whether the entry is checked (the user's character is shown).
    pub visible: bool,
}

/// What the tray menu shows. Its fixed entries are always there; the
/// visibility submenu is there when the tray lists users.
pub struct TrayMenu {
    pub muted: bool,
    pub drag_enabled: bool,
    pub size_small: bool,
    pub size_medium: bool,
    pub size_large: bool,
    pub visibility: Option<Vec<VisibilityItem>>,
}

/// The menu id of the visibility entry of the `i`-th listed user.
pub open spec fn visibility_id(i: nat) -> Seq<char> {
    "vis-"@ + decimal(i)
}

/// The `i`-th visibility entry as the tray shows it for state `v`.
pub open spec fn visibility_item_ok(v: OverlayView, i: int, item: VisibilityItem) -> bool {
    &&& item.id@ == visibility_id(i as nat)
    &&& item.label@ == v.tray_labels[i]
    &&& item.visible == !v.hidden.contains(v.tray_ids[i])
}

/// The number of visibility entries: one per listed user that has a label.
pub open spec fn visibility_count(v: OverlayView) -> nat {
    if v.tray_ids.len() <= v.tray_labels.len() {
        v.tray_ids.len()
    } else {
        v.tray_labels.len()
    }
}

/// The tray menu for state `v`.
pub open spec fn tray_menu_ok(v: OverlayView, m: TrayMenu) -> bool {
    &&& m.muted == v.muted
    &&& m.drag_enabled == v.drag_enabled
    &&& m.size_small == (v.character_size == 1)
    &&& m.size_medium == (v.character_size == 2)
    &&& m.size_large == (v.character_size == 3)
    &&& (m.visibility is Some <==> v.tray_ids.len() > 0)
    &&& m.visibility matches Some(items) ==> {
        &&& items@.len() == visibility_count(v)
        &&& forall|i: int| 0 <= i < items@.len() ==> visibility_item_ok(v, i, #[trigger] items@[i])
    }
}

/// The menu id of the visibility entry of the `i`-th listed user.
pub fn visibility_menu_id(i: usize) -> (r: String)
    ensures
        r@ == visibility_id(i as nat),
{
    let mut r = owned("vis-");
    let digits = decimal_string(i);
    push_str(&mut r, digits.as_str());
    r
}

impl OverlayState {
    /// What the tray menu shows for this state.
    pub fn tray_menu(&self) -> (m: TrayMenu)
        ensures
            tray_menu_ok(self@, m),
    {
        let visibility = if self.tray_user_ids.len() == 0 {
            None
        } else {
            let n = if self.tray_user_ids.len() <= self.tray_user_labels.len() {
                self.tray_user_ids.len()
            } else {
                self.tray_user_labels.len()
            };
            let mut items: Vec<VisibilityItem> = Vec::new();
            for i in 0..n
                invariant
                    n == visibility_count(self@),
                    n <= self.tray_user_ids@.len(),
                    n <= self.tray_user_labels@.len(),
                    items@.len() == i,
                    forall|k: int| 0 <= k < i ==> visibility_item_ok(self@, k, #[trigger] items@[k]),
            {
                let uid = &self.tray_user_ids[i];
                let hidden = contains_string(&self.hidden_users, uid.as_str());
                let item = VisibilityItem {
                    id: visibility_menu_id(i),
                    label: self.tray_user_labels[i].clone(),
                    visible: !hidden,
                };
                assert(self@.tray_ids[i as int] == uid@);
                assert(self@.tray_labels[i as int] == item.label@);
                items.push(item);
            }
            Some(items)
        };
        TrayMenu {
            muted: self.notifications_muted,
            drag_enabled: self.drag_enabled,
            size_small: self.character_size == 1,
            size_medium: self.character_size == 2,
            size_large: self.character_size == 3,
            visibility,
        }
    }
}

// ---------------------------------------------------------------------------
// Tray commands
// ---------------------------------------------------------------------------

/// What a tray menu entry asks for.
#[derive(Clone, Copy, Debug, PartialEq, Eq, Structural)]
pub enum MenuCommand {
    ShowChat,
    ToggleDrag,
    SetSize(u8),
    ResetPositions,
    Leave,
    ToggleMute,
    Quit,
    /// Show or hide the character of the listed user with this index.
    ToggleVisibility(usize),
    Unknown,
}

/// The index in a visibility entry id: what follows every leading `vis-`,
/// read as a number, or 0 when it is not one.
pub open spec fn visibility_index(id: Seq<char>) -> usize {
    match parse_usize_spec(trim_start_all(id, "vis-"@)) {
        Some(n) => n,
        None => 0,
    }
}

/// The command of the tray menu entry with id `id`.
pub open spec fn menu_command(id: Seq<char>) -> MenuCommand {
    if id == "show"@ {
        MenuCommand::ShowChat
    } else if id == "toggle-drag"@ {
        MenuCommand::ToggleDrag
    } else if id == "size-1"@ {
        MenuCommand::SetSize(1)
    } else if id == "size-2"@ {
        MenuCommand::SetSize(2)
    } else if id == "size-3"@ {
        MenuCommand::SetSize(3)
    } else if id == "reset"@ {
        MenuCommand::ResetPositions
    } else if id == "leave"@ {
        MenuCommand::Leave
    } else if id == "mute-notify"@ {
        MenuCommand::ToggleMute
    } else if id == "quit"@ {
        MenuCommand::Quit
    } else if has_prefix(id, "vis-"@) {
        MenuCommand::ToggleVisibility(visibility_index(id))
    } else {
        MenuCommand::Unknown
    }
}

/// The command of the tray menu entry with id `id`.
pub fn parse_menu_id(id: &str) -> (c: MenuCommand)
    ensures
        c == menu_command(id@),
{
    if str_equals(id, "show") {
        MenuCommand::ShowChat
    } else if str_equals(id, "toggle-drag") {
        MenuCommand::ToggleDrag
    } else if str_equals(id, "size-1") {
        MenuCommand::SetSize(1)
    } else if str_equals(id, "size-2") {
        MenuCommand::SetSize(2)
    } else if str_equals(id, "size-3") {
        MenuCommand::SetSize(3)
    } else if str_equals(id, "reset") {
        MenuCommand::ResetPositions
    } else if str_equals(id, "leave") {
        MenuCommand::Leave
    } else if str_equals(id, "mute-notify") {
        MenuCommand::ToggleMute
    } else if str_equals(id, "quit") {
        MenuCommand::Quit
    } else if starts_with(id, "vis-") {
        let rest = trim_start_matches(id, "vis-");
        let idx = match parse_usize(rest.as_str()) {
            Some(n) => n,
            None => 0,
        };
        MenuCommand::ToggleVisibility(idx)
    } else {
        MenuCommand::Unknown
    }
}

/// `hidden` with `u` added when absent and removed when present.
pub open spec fn toggled(hidden: Set<Seq<char>>, u: Seq<char>) -> Set<Seq<char>> {
    if hidden.contains(u) {
        hidden.remove(u)
    } else {
        hidden.insert(u)
    }
}

/// The state after the tray command `cmd`.
pub open spec fn after_command(v: OverlayView, cmd: MenuCommand) -> OverlayView {
    match cmd {
        MenuCommand::ToggleDrag => OverlayView { drag_enabled: !v.drag_enabled, ..v },
        MenuCommand::SetSize(k) => OverlayView { character_size: k, ..v },
        MenuCommand::Leave => left_view(v),
        MenuCommand::ToggleMute => OverlayView { muted: !v.muted, ..v },
        MenuCommand::ToggleVisibility(i) => if i < v.tray_ids.len() {
            OverlayView { hidden: toggled(v.hidden, v.tray_ids[i as int]), ..v }
        } else {
            v
        },
        _ => v,
    }
}

/// A character window and whether it is shown.
pub struct CharWindow {
    pub label: String,
    pub visible: bool,
}

/// The character windows of the given users with whether each is shown.
pub open spec fn char_windows_ok(v: OverlayView, ws: Seq<CharWindow>) -> bool {
    &&& ws.len() == v.char_ids.len()
    &&& forall|i: int|
        0 <= i < ws.len() ==> {
            &&& (#[trigger] ws[i]).label@ == char_label(v.char_ids[i])
            &&& ws[i].visible == !v.hidden.contains(v.char_ids[i])
        }
}

/// What the application has to do after a tray command.
pub enum MenuAction {
    /// Show and focus the main window and open the chat.
    ShowChat,
    /// Dragging was switched: let the character windows take clicks (or pass
    /// them through), tell them, and rebuild the tray menu.
    DragToggled { enabled: bool, char_windows: Vec<String> },
    /// The character size changed: resize (and move) every character window,
    /// tell them, and rebuild the tray menu.
    SizeChanged { old_size: u8, new_size: u8, windows: Vec<CharWindow> },
    /// Move every character window back to its default position for this
    /// size level.
    ResetPositions { char_windows: Vec<String>, size_level: u8 },
    /// Destroy these character windows, rebuild the tray menu, restore the
    /// main window and tell it.
    Left { destroyed: Vec<String> },
    /// Notifications were switched: tell the main window and rebuild the
    /// tray menu.
    MuteToggled { muted: bool },
    /// Exit the application.
    Quit,
    /// A user's character was shown or hidden: hide or show its window, if
    /// any, and rebuild the tray menu.
    VisibilityToggled { window: Option<String>, hidden: bool },
    /// Nothing to do.
    Ignored,
}

/// The action for command `cmd` taken in state `v`.
pub open spec fn action_ok(v: OverlayView, cmd: MenuCommand, a: MenuAction) -> bool {
    match cmd {
        MenuCommand::ShowChat => a is ShowChat,
        MenuCommand::ToggleDrag => a matches MenuAction::DragToggled { enabled, char_windows }
            && enabled == !v.drag_enabled && strs(char_windows@) == char_labels(v.char_ids),
        MenuCommand::SetSize(k) => a matches MenuAction::SizeChanged {
            old_size,
            new_size,
            windows,
        } && old_size == v.character_size && new_size == k && char_windows_ok(v, windows@),
        MenuCommand::ResetPositions => a matches MenuAction::ResetPositions {
            char_windows,
            size_level,
        } && strs(char_windows@) == char_labels(v.char_ids) && size_level == v.character_size,
        MenuCommand::Leave => a matches MenuAction::Left { destroyed } && strs(destroyed@)
            == char_labels(v.char_ids),
        MenuCommand::ToggleMute => a matches MenuAction::MuteToggled { muted } && muted
            == !v.muted,
        MenuCommand::Quit => a is Quit,
        MenuCommand::ToggleVisibility(i) => a matches MenuAction::VisibilityToggled {
            window,
            hidden,
        } && if i < v.tray_ids.len() {
            &&& window matches Some(w) && w@ == char_label(v.tray_ids[i as int])
            &&& hidden == !v.hidden.contains(v.tray_ids[i as int])
        } else {
            window is None && !hidden
        },
        MenuCommand::Unknown => a is Ignored,
    }
}

impl OverlayState {
    fn char_windows(&self) -> (r: Vec<CharWindow>)
        ensures
            char_windows_ok(self@, r@),
    {
        let mut r: Vec<CharWindow> = Vec::new();
        let n = self.char_user_ids.len();
        for i in 0..n
            invariant
                n == self@.char_ids.len(),
                r@.len() == i,
                forall|k: int|
                    0 <= k < i ==> {
                        &&& (#[trigger] r@[k]).label@ == char_label(self@.char_ids[k])
                        &&& r@[k].visible == !self@.hidden.contains(self@.char_ids[k])
                    },
        {
            let uid = &self.char_user_ids[i];
            assert(self@.char_ids[i as int] == uid@);
            let hidden = contains_string(&self.hidden_users, uid.as_str());
            r.push(CharWindow { label: char_window_label(uid.as_str()), visible: !hidden });
        }
        r
    }

    /// Shows the hidden user `user_id`, or hides the shown one; returns
    /// whether it is hidden now.
    fn toggle_hidden(&mut self, user_id: &String) -> (now_hidden: bool)
        requires
            old(self).wf(),
            old(self)@.tray_ids.contains(user_id@),
        ensures
            final(self).wf(),
            final(self)@ == (OverlayView { hidden: toggled(old(self)@.hidden, user_id@), ..old(self)@ }),
            now_hidden == !old(self)@.hidden.contains(user_id@),
    {
        let was_hidden = contains_string(&self.hidden_users, user_id.as_str());
        if was_hidden {
            let rest = filter_strings(&self.hidden_users, user_id.as_str(), &self.tray_user_ids, false);
            self.hidden_users = rest;
        } else {
            let ghost before = strs(self.hidden_users@);
            let ghost old_h = self.hidden_users@;
            self.hidden_users.push(user_id.clone());
            proof {
                assert(self.hidden_users@ == old_h.push(*user_id));
                assert(strs(self.hidden_users@) =~= before.push(user_id@));
                assert forall|x: Seq<char>| strs(self.hidden_users@).contains(x) <==> (before.contains(x) || x == user_id@) by {
                    lemma_push_contains(before, user_id@, x);
                }
                assert(strs(self.hidden_users@).no_duplicates()) by {
                    let h = strs(self.hidden_users@);
                    assert forall|a: int, b: int| 0 <= a < h.len() && 0 <= b < h.len() && a != b implies h[a] != h[b] by {
                        if a < before.len() && b < before.len() {
                            assert(before[a] != before[b]);
                        } else if a < before.len() {
                            assert(before.contains(before[a]));
                        } else if b < before.len() {
                            assert(before.contains(before[b]));
                        }
                    }
                }
            }
        }
        proof {
            assert(self@.hidden =~= toggled(old(self)@.hidden, user_id@));
        }
        !was_hidden
    }

    /// Carries out the tray command `cmd`.
    fn apply_command(&mut self, cmd: MenuCommand) -> (a: MenuAction)
        requires
            old(self).wf(),
            cmd matches MenuCommand::SetSize(k) ==> 1 <= k <= 3,
        ensures
            final(self).wf(),
            final(self)@ == after_command(old(self)@, cmd),
            action_ok(old(self)@, cmd, a),
    {
        match cmd {
            MenuCommand::ShowChat => MenuAction::ShowChat,
            MenuCommand::ToggleDrag => {
                self.drag_enabled = !self.drag_enabled;
                assert(self@.hidden =~= old(self)@.hidden);
                MenuAction::DragToggled {
                    enabled: self.drag_enabled,
                    char_windows: char_window_labels_of(&self.char_user_ids),
                }
            },
            MenuCommand::SetSize(k) => {
                let old_size = self.character_size;
                self.character_size = k;
                assert(self@.hidden =~= old(self)@.hidden);
                MenuAction::SizeChanged { old_size, new_size: k, windows: self.char_windows() }
            },
            MenuCommand::ResetPositions => MenuAction::ResetPositions {
                char_windows: char_window_labels_of(&self.char_user_ids),
                size_level: self.character_size,
            },
            MenuCommand::Leave => {
                let destroyed = self.leave_overlay();
                MenuAction::Left { destroyed }
            },
            MenuCommand::ToggleMute => {
                self.notifications_muted = !self.notifications_muted;
                assert(self@.hidden =~= old(self)@.hidden);
                MenuAction::MuteToggled { muted: self.notifications_muted }
            },
            MenuCommand::Quit => MenuAction::Quit,
            MenuCommand::ToggleVisibility(i) => {
                if i < self.tray_user_ids.len() {
                    let uid = self.tray_user_ids[i].clone();
                    assert(self@.tray_ids[i as int] == uid@);
                    let now_hidden = self.toggle_hidden(&uid);
                    MenuAction::VisibilityToggled {
                        window: Some(char_window_label(uid.as_str())),
                        hidden: now_hidden,
                    }
                } else {
                    MenuAction::VisibilityToggled { window: None, hidden: false }
                }
            },
            MenuCommand::Unknown => MenuAction::Ignored,
        }
    }

    /// Carries out the tray menu entry with id `id`.
    pub fn handle_menu_event(&mut self, id: &str) -> (a: MenuAction)
        requires
            old(self).wf(),
        ensures
            final(self).wf(),
            final(self)@ == after_command(old(self)@, menu_command(id@)),
            action_ok(old(self)@, menu_command(id@), a),
    {
        let cmd = parse_menu_id(id);
        self.apply_command(cmd)
    }
}

// ---------------------------------------------------------------------------
// Synchronising the character windows with the room's users
// ---------------------------------------------------------------------------

/// The indices of the users in `ids` that have no window yet (are not in
/// `existing`), in order.
pub open spec fn fresh_indices(ids: Seq<Seq<char>>, existing: Seq<Seq<char>>) -> Seq<int>
    decreases ids.len(),
{
    if ids.len() == 0 {
        Seq::empty()
    } else {
        let prev = fresh_indices(ids.drop_last(), existing);
        if existing.contains(ids.last()) {
            prev
        } else {
            prev.push(ids.len() - 1)
        }
    }
}

/// The users of `existing` that are not in `ids` (whose windows go), in order.
pub open spec fn departed(existing: Seq<Seq<char>>, ids: Seq<Seq<char>>) -> Seq<Seq<char>>
    decreases existing.len(),
{
    if existing.len() == 0 {
        Seq::empty()
    } else {
        let prev = departed(existing.drop_last(), ids);
        if ids.contains(existing.last()) {
            prev
        } else {
            prev.push(existing.last())
        }
    }
}

/// A character window to create.
pub struct CharWindowPlan {
    /// The user's index in the room's list (it picks the window's position).
    pub index: usize,
    pub user_id: String,
    pub label: String,
    /// The script that hands the user's data to the window.
    pub init_script: String,
    /// The page of the window, with the user's data as query value.
    pub url: String,
    /// Whether the window starts shown (its user is not hidden).
    pub visible: bool,
}

/// The windows to destroy and to create when the room's users change.
pub struct CharSync {
    pub destroy: Vec<String>,
    pub create: Vec<CharWindowPlan>,
}

/// The user's data as the window receives it: the user's JSON with every
/// non-ASCII character escaped.
pub open spec fn escaped_user(recs: Seq<UserRecordView>, user_id: Seq<char>) -> Seq<char> {
    json_escaped(user_json_for(recs, user_id))
}

/// The script that hands the escaped user data `data` to the window.
pub open spec fn init_script_for(data: Seq<char>) -> Seq<char> {
    "window.__TAURI_CHAR_USER__="@ + data + ";"@
}

/// The page of a window whose escaped user data is `data`.
pub open spec fn char_url_for(data: Seq<char>) -> Seq<char> {
    "char.html?u="@ + percent_encoded(data)
}

/// `p` is the window of user `user_id` at index `i`.
pub open spec fn plan_ok(
    p: CharWindowPlan,
    i: int,
    user_id: Seq<char>,
    hidden: Set<Seq<char>>,
    recs: Seq<UserRecordView>,
) -> bool {
    &&& p.index == i
    &&& p.user_id@ == user_id
    &&& p.label@ == char_label(user_id)
    &&& p.visible == !hidden.contains(user_id)
    &&& p.init_script@ == init_script_for(escaped_user(recs, user_id))
    &&& p.url@ == char_url_for(escaped_user(recs, user_id))
}

/// `plan` is the synchronisation from the windows of `existing` to those of
/// `ids`, given the hidden users and the user records.
pub open spec fn sync_ok(
    existing: Seq<Seq<char>>,
    hidden: Set<Seq<char>>,
    ids: Seq<Seq<char>>,
    recs: Seq<UserRecordView>,
    plan: CharSync,
) -> bool {
    let fresh = fresh_indices(ids, existing);
    &&& strs(plan.destroy@) == char_labels(departed(existing, ids))
    &&& plan.create@.len() == fresh.len()
    &&& forall|k: int|
        0 <= k < fresh.len() ==> plan_ok(#[trigger] plan.create@[k], fresh[k], ids[fresh[k]], hidden, recs)
}

/// The indices that `fresh_indices` gives are indices of `ids`, increasing.
pub proof fn lemma_fresh_indices_bounds(ids: Seq<Seq<char>>, existing: Seq<Seq<char>>)
    ensures
        forall|k: int|
            0 <= k < fresh_indices(ids, existing).len() ==> 0 <= #[trigger] fresh_indices(ids, existing)[k]
                < ids.len(),
    decreases ids.len(),
{
    if ids.len() > 0 {
        let prev = fresh_indices(ids.drop_last(), existing);
        lemma_fresh_indices_bounds(ids.drop_last(), existing);
        assert forall|k: int| 0 <= k < fresh_indices(ids, existing).len() implies 0
            <= #[trigger] fresh_indices(ids, existing)[k] < ids.len() by {
            if k < prev.len() {
                assert(prev[k] < ids.drop_last().len());
            }
        }
    }
}

/// The windows to destroy and to create when the windows of `existing` give
/// way to those of `user_ids`, given the hidden users and the user records.
pub fn plan_char_windows(
    existing: &Vec<String>,
    hidden: &Vec<String>,
    user_ids: &Vec<String>,
    records: &Vec<UserRecord>,
) -> (plan: CharSync)
    ensures
        sync_ok(
            strs(existing@),
            Set::new(|u: Seq<char>| strs(hidden@).contains(u)),
            strs(user_ids@),
            records_view(records@),
            plan,
        ),
{
    let ghost ex = strs(existing@);
    let ghost ids = strs(user_ids@);
    let ghost hid = Set::new(|u: Seq<char>| strs(hidden@).contains(u));
    let ghost recs = records_view(records@);
    let mut destroy: Vec<String> = Vec::new();
    let m = existing.len();
    for i in 0..m
        invariant
            m == existing@.len(),
            ex == strs(existing@),
            ids == strs(user_ids@),
            strs(destroy@) == char_labels(departed(ex.take(i as int), ids)),
    {
        let ghost before = strs(destroy@);
        let ghost old_d = destroy@;
        assert(ex.take(i + 1).drop_last() =~= ex.take(i as int));
        assert(ex.take(i + 1).last() == ex[i as int]);
        let uid = &existing[i];
        assert(ex[i as int] == uid@);
        if !contains_string(user_ids, uid.as_str()) {
            destroy.push(char_window_label(uid.as_str()));
            proof {
                assert(strs(old_d).len() == old_d.len());
                let want = char_labels(departed(ex.take(i + 1), ids));
                assert(want =~= before.push(char_label(uid@)));
                assert forall|k: int| 0 <= k < want.len() implies strs(destroy@)[k] == want[k] by {
                    if k < before.len() {
                        assert(strs(old_d)[k] == before[k]);
                    }
                }
                assert(strs(destroy@) =~= want);
            }
        } else {
            assert(departed(ex.take(i + 1), ids) == departed(ex.take(i as int), ids));
        }
    }
    assert(ex.take(m as int) =~= ex);
    let mut create: Vec<CharWindowPlan> = Vec::new();
    let n = user_ids.len();
    for i in 0..n
        invariant
            n == user_ids@.len(),
            ex == strs(existing@),
            ids == strs(user_ids@),
            hid == Set::new(|u: Seq<char>| strs(hidden@).contains(u)),
            recs == records_view(records@),
            create@.len() == fresh_indices(ids.take(i as int), ex).len(),
            forall|k: int|
                0 <= k < create@.len() ==> plan_ok(
                    #[trigger] create@[k],
                    fresh_indices(ids.take(i as int), ex)[k],
                    ids[fresh_indices(ids.take(i as int), ex)[k]],
                    hid,
                    recs,
                ),
    {
        let ghost prev = fresh_indices(ids.take(i as int), ex);
        assert(ids.take(i + 1).drop_last() =~= ids.take(i as int));
        assert(ids.take(i + 1).last() == ids[i as int]);
        let uid = &user_ids[i];
        assert(ids[i as int] == uid@);
        if !contains_string(existing, uid.as_str()) {
            let user_data = find_user_json(records, uid.as_str());
            let escaped = unicode_escape_json(user_data.as_str());
            let mut init_script = owned("window.__TAURI_CHAR_USER__=");
            push_str(&mut init_script, escaped.as_str());
            push_str(&mut init_script, ";");
            let mut url = owned("char.html?u=");
            let encoded = percent_encode_ascii(escaped.as_str());
            push_str(&mut url, encoded.as_str());
            let hidden_now = contains_string(hidden, uid.as_str());
            let p = CharWindowPlan {
                index: i,
                user_id: uid.clone(),
                label: char_window_label(uid.as_str()),
                init_script,
                url,
                visible: !hidden_now,
            };
            assert(plan_ok(p, i as int, ids[i as int], hid, recs));
            create.push(p);
            assert(fresh_indices(ids.take(i + 1), ex) == prev.push(i as int));
        } else {
            assert(fresh_indices(ids.take(i + 1), ex) == prev);
        }
    }
    assert(ids.take(n as int) =~= ids);
    CharSync { destroy, create }
}

/// The state after synchronising the character windows with `ids` and
/// keeping `json` as the users JSON text.
pub open spec fn synced_view(v: OverlayView, ids: Seq<Seq<char>>, json: Seq<char>) -> OverlayView {
    OverlayView { char_ids: ids, users_json: json, ..v }
}

impl OverlayState {
    /// Synchronises the character windows with the room's users `user_ids`,
    /// whose data is the JSON array `users_json` (users found by their
    /// `userId` member; none when the text is not a JSON array): keeps the
    /// JSON, returns the windows to destroy and to create, and records
    /// `user_ids` as the users with windows.
    pub fn sync_char_windows(&mut self, user_ids: Vec<String>, users_json: String) -> (plan: CharSync)
        requires
            old(self).wf(),
        ensures
            final(self).wf(),
            final(self)@ == synced_view(old(self)@, strs(user_ids@), users_json@),
            sync_ok(old(self)@.char_ids, old(self)@.hidden, strs(user_ids@), user_records(users_json@), plan),
            parsed_users(users_json@, "userId"@) is None ==> forall|k: int|
                0 <= k < plan.create@.len() ==> (#[trigger] plan.create@[k]).init_script@
                    == init_script_for(json_escaped("null"@)),
    {
        let records = read_users(users_json.as_str());
        let plan = plan_char_windows(&self.char_user_ids, &self.hidden_users, &user_ids, &records);
        self.users_json = users_json;
        self.char_user_ids = user_ids;
        proof {
            assert(self@.hidden =~= old(self)@.hidden);
        }
        plan
    }

    /// The JSON of the user whose character window has label `label` (the
    /// label with every leading `char_` removed is the value of the user's
    /// `userId` member), or `null`; also `null` when the users JSON text is
    /// not a JSON array.
    pub fn get_user_for_window(&self, label: &str) -> (r: String)
        ensures
            r@ == user_json_for(user_records(self@.users_json), trim_start_all(label@, "char_"@)),
            parsed_users(self@.users_json, "userId"@) is None ==> r@ == "null"@,
    {
        let user_id = trim_start_matches(label, "char_");
        let records = read_users(self.users_json.as_str());
        find_user_json(&records, user_id.as_str())
    }
}

// ---------------------------------------------------------------------------
// Laws
// ---------------------------------------------------------------------------

/// The fixed tray entries give their commands.
pub proof fn law_menu_ids()
    ensures
        menu_command("show"@) == MenuCommand::ShowChat,
        menu_command("toggle-drag"@) == MenuCommand::ToggleDrag,
        menu_command("size-1"@) == MenuCommand::SetSize(1),
        menu_command("size-2"@) == MenuCommand::SetSize(2),
        menu_command("size-3"@) == MenuCommand::SetSize(3),
        menu_command("reset"@) == MenuCommand::ResetPositions,
        menu_command("leave"@) == MenuCommand::Leave,
        menu_command("mute-notify"@) == MenuCommand::ToggleMute,
        menu_command("quit"@) == MenuCommand::Quit,
{
    reveal_strlit("show");
    reveal_strlit("toggle-drag");
    reveal_strlit("size-1");
    reveal_strlit("size-2");
    reveal_strlit("size-3");
    reveal_strlit("reset");
    reveal_strlit("leave");
    reveal_strlit("mute-notify");
    reveal_strlit("quit");
    assert("show"@.len() == 4 && "quit"@.len() == 4 && "show"@[0] != "quit"@[0]);
    assert("toggle-drag"@.len() == 11 && "mute-notify"@.len() == 11);
    assert("toggle-drag"@[0] != "mute-notify"@[0]);
    assert("size-1"@.len() == 6 && "size-2"@.len() == 6 && "size-3"@.len() == 6);
    assert("size-1"@[5] != "size-2"@[5] && "size-1"@[5] != "size-3"@[5] && "size-2"@[5]
        != "size-3"@[5]);
    assert("reset"@.len() == 5 && "leave"@.len() == 5 && "reset"@[0] != "leave"@[0]);
}

/// The tray's visibility entry `i` gives the command that toggles the `i`-th
/// listed user, and that command flips whether this user is hidden (so the
/// entry's check mark flips) and no other user's.
pub proof fn law_visibility_entry_toggles(v: OverlayView, i: usize)
    requires
        i < v.tray_ids.len(),
    ensures
        menu_command(visibility_id(i as nat)) == MenuCommand::ToggleVisibility(i),
        after_command(v, MenuCommand::ToggleVisibility(i)).hidden.contains(v.tray_ids[i as int])
            == !v.hidden.contains(v.tray_ids[i as int]),
        forall|u: Seq<char>|
            u != v.tray_ids[i as int] ==> (after_command(v, MenuCommand::ToggleVisibility(i)).hidden.contains(u)
                == v.hidden.contains(u)),
{
    let id = visibility_id(i as nat);
    let d = decimal(i as nat);
    lemma_decimal_digits(i as nat);
    lemma_parse_decimal(i);
    reveal_strlit("vis-");
    reveal_strlit("show");
    reveal_strlit("toggle-drag");
    reveal_strlit("size-1");
    reveal_strlit("size-2");
    reveal_strlit("size-3");
    reveal_strlit("reset");
    reveal_strlit("leave");
    reveal_strlit("mute-notify");
    reveal_strlit("quit");
    assert(id[0] == 'v');
    assert(id.take(4) =~= "vis-"@);
    assert(id.skip(4) =~= d);
    assert(is_digit(d[0]));
    assert(!has_prefix(d, "vis-"@)) by {
        if has_prefix(d, "vis-"@) {
            assert(d.take(4)[0] == d[0]);
        }
    }
    assert(trim_start_all(id, "vis-"@) == trim_start_all(d, "vis-"@));
    assert(id != "show"@) by {
        assert("show"@[0] == 's');
    }
    assert(id != "toggle-drag"@) by {
        assert("toggle-drag"@[0] == 't');
    }
    assert(id != "size-1"@) by {
        assert("size-1"@[0] == 's');
    }
    assert(id != "size-2"@) by {
        assert("size-2"@[0] == 's');
    }
    assert(id != "size-3"@) by {
        assert("size-3"@[0] == 's');
    }
    assert(id != "reset"@) by {
        assert("reset"@[0] == 'r');
    }
    assert(id != "leave"@) by {
        assert("leave"@[0] == 'l');
    }
    assert(id != "mute-notify"@) by {
        assert("mute-notify"@[0] == 'm');
    }
    assert(id != "quit"@) by {
        assert("quit"@[0] == 'q');
    }
}

/// Switching dragging, notifications, or a user's visibility twice restores
/// the state.
pub proof fn law_toggle_twice_restores(v: OverlayView, cmd: MenuCommand)
    requires
        cmd is ToggleDrag || cmd is ToggleMute || cmd is ToggleVisibility,
    ensures
        after_command(after_command(v, cmd), cmd) == v,
{
    if let MenuCommand::ToggleVisibility(i) = cmd {
        if i < v.tray_ids.len() {
            let u = v.tray_ids[i as int];
            assert(toggled(toggled(v.hidden, u), u) =~= v.hidden);
        }
    }
}

/// Choosing a size, or leaving the room, a second time changes nothing more.
pub proof fn law_set_size_and_leave_idempotent(v: OverlayView, cmd: MenuCommand)
    requires
        cmd is SetSize || cmd is Leave,
    ensures
        after_command(after_command(v, cmd), cmd) == after_command(v, cmd),
{
}

/// Every command, every update of the tray's users and every synchronisation
/// of the character windows keeps the state well formed: every hidden user is
/// listed in the tray, and the size level is 1, 2 or 3.
pub proof fn law_operations_keep_wf(
    v: OverlayView,
    cmd: MenuCommand,
    ids: Seq<Seq<char>>,
    labels: Seq<Seq<char>>,
    json: Seq<char>,
)
    requires
        view_wf(v),
        cmd matches MenuCommand::SetSize(k) ==> 1 <= k <= 3,
    ensures
        view_wf(after_command(v, cmd)),
        view_wf(relisted_view(v, ids, labels)),
        view_wf(synced_view(v, ids, json)),
{
    if let MenuCommand::ToggleVisibility(i) = cmd {
        if i < v.tray_ids.len() {
            let u = v.tray_ids[i as int];
            assert(v.tray_ids[i as int] == u);
        }
    }
}

/// Replacing the tray's users by the same lists a second time reports no
/// change, so it leaves the state as the first replacement made it.
pub proof fn law_relist_twice_unchanged(v: OverlayView, ids: Seq<Seq<char>>, labels: Seq<Seq<char>>)
    ensures
        !users_changed(relisted_view(v, ids, labels), ids, labels),
{
}

/// Leaving the room forgets every character window, every listed user and
/// every hidden user, and the tray then shows no visibility submenu.
pub proof fn law_leave_forgets_everyone(v: OverlayView)
    ensures
        after_command(v, MenuCommand::Leave).char_ids.len() == 0,
        after_command(v, MenuCommand::Leave).tray_ids.len() == 0,
        after_command(v, MenuCommand::Leave).hidden == Set::<Seq<char>>::empty(),
        forall|m: TrayMenu| tray_menu_ok(after_command(v, MenuCommand::Leave), m) ==> m.visibility is None,
{
}

/// The users whose windows go are those that had one and are no longer in
/// the room.
pub proof fn lemma_departed(existing: Seq<Seq<char>>, ids: Seq<Seq<char>>, u: Seq<char>)
    ensures
        departed(existing, ids).contains(u) <==> (existing.contains(u) && !ids.contains(u)),
    decreases existing.len(),
{
    if existing.len() > 0 {
        let e = existing.drop_last();
        lemma_departed(e, ids, u);
        lemma_push_contains(e, existing.last(), u);
        assert(existing =~= e.push(existing.last()));
        lemma_push_contains(departed(e, ids), existing.last(), u);
    }
}

/// The users that get a window are those of the room that had none.
pub proof fn lemma_fresh_indices(ids: Seq<Seq<char>>, existing: Seq<Seq<char>>, j: int)
    requires
        0 <= j < ids.len(),
    ensures
        fresh_indices(ids, existing).contains(j) <==> !existing.contains(ids[j]),
    decreases ids.len(),
{
    let prev = fresh_indices(ids.drop_last(), existing);
    lemma_fresh_indices_bounds(ids.drop_last(), existing);
    if j < ids.len() - 1 {
        lemma_fresh_indices(ids.drop_last(), existing, j);
        lemma_push_contains(prev, ids.len() - 1, j);
        assert(ids.drop_last()[j] == ids[j]);
    } else {
        lemma_push_contains(prev, ids.len() - 1, j);
        assert(!prev.contains(j)) by {
            if prev.contains(j) {
                let k = choose|k: int| 0 <= k < prev.len() && prev[k] == j;
                assert(prev[k] < ids.drop_last().len());
            }
        }
    }
}

/// A synchronisation destroys exactly the windows of the users that left,
/// creates exactly one window for each user of the room that had none, and
/// leaves alone the window of every user who stays; afterwards the users with
/// windows are the room's users.
pub proof fn law_sync_windows(
    v: OverlayView,
    ids: Seq<Seq<char>>,
    json: Seq<char>,
    plan: CharSync,
    u: Seq<char>,
)
    requires
        sync_ok(v.char_ids, v.hidden, ids, user_records(json), plan),
    ensures
        strs(plan.destroy@).contains(char_label(u)) <==> (v.char_ids.contains(u) && !ids.contains(u)),
        (exists|k: int| 0 <= k < plan.create@.len() && (#[trigger] plan.create@[k]).user_id@ == u)
            <==> (ids.contains(u) && !v.char_ids.contains(u)),
        synced_view(v, ids, json).char_ids == ids,
{
    reveal_strlit("char_");
    let fresh = fresh_indices(ids, v.char_ids);
    let gone = departed(v.char_ids, ids);
    lemma_departed(v.char_ids, ids, u);
    lemma_fresh_indices_bounds(ids, v.char_ids);
    assert(strs(plan.destroy@) == char_labels(gone));
    if strs(plan.destroy@).contains(char_label(u)) {
        let k = choose|k: int| 0 <= k < strs(plan.destroy@).len() && strs(plan.destroy@)[k] == char_label(u);
        assert(char_labels(gone)[k] == char_label(gone[k]));
        assert("char_"@ + gone[k] == "char_"@ + u);
        assert(gone[k] =~= (("char_"@ + gone[k]).skip(5)));
        assert(u =~= (("char_"@ + u).skip(5)));
        assert(gone.contains(u));
    }
    if gone.contains(u) {
        let k = choose|k: int| 0 <= k < gone.len() && gone[k] == u;
        assert(char_labels(gone)[k] == char_label(u));
        assert(strs(plan.destroy@)[k] == char_label(u));
    }
    if exists|k: int| 0 <= k < plan.create@.len() && (#[trigger] plan.create@[k]).user_id@ == u {
        let k = choose|k: int| 0 <= k < plan.create@.len() && (#[trigger] plan.create@[k]).user_id@ == u;
        assert(plan_ok(plan.create@[k], fresh[k], ids[fresh[k]], v.hidden, user_records(json)));
        lemma_fresh_indices(ids, v.char_ids, fresh[k]);
        assert(fresh.contains(fresh[k]));
        assert(ids.contains(u));
    }
    if ids.contains(u) && !v.char_ids.contains(u) {
        let j = choose|j: int| 0 <= j < ids.len() && ids[j] == u;
        lemma_fresh_indices(ids, v.char_ids, j);
        let k = choose|k: int| 0 <= k < fresh.len() && fresh[k] == j;
        assert(plan_ok(plan.create@[k], fresh[k], ids[fresh[k]], v.hidden, user_records(json)));
        assert(plan.create@[k].user_id@ == u);
    }
}

/// A character window created for a user whose id does not start with
/// `char_` finds, when it asks for its user by its label, the same user JSON
/// that its creation escaped.
pub proof fn law_window_finds_its_user(json: Seq<char>, u: Seq<char>)
    requires
        !has_prefix(u, "char_"@),
    ensures
        trim_start_all(char_label(u), "char_"@) == u,
        user_json_for(user_records(json), trim_start_all(char_label(u), "char_"@))
            == user_json_for(user_records(json), u),
{
    reveal_strlit("char_");
    let l = char_label(u);
    assert(l.take(5) =~= "char_"@);
    assert(l.skip(5) =~= u);
    assert(trim_start_all(u, "char_"@) == u);
    assert(trim_start_all(l, "char_"@) == trim_start_all(l.skip(5), "char_"@));
}

/// What each fixed tray entry does to the state: a size entry sets the size
/// level to its number whatever it was, dragging and notifications flip,
/// leaving forgets the room's users, and showing the chat, resetting the
/// positions and quitting change nothing; every other field stays as it was.
pub proof fn law_menu_effects(v: OverlayView)
    ensures
        after_command(v, menu_command("size-1"@)) == (OverlayView { character_size: 1, ..v }),
        after_command(v, menu_command("size-2"@)) == (OverlayView { character_size: 2, ..v }),
        after_command(v, menu_command("size-3"@)) == (OverlayView { character_size: 3, ..v }),
        after_command(v, menu_command("size-1"@)).character_size == 1,
        after_command(v, menu_command("size-2"@)).character_size == 2,
        after_command(v, menu_command("size-3"@)).character_size == 3,
        after_command(v, menu_command("toggle-drag"@)) == (OverlayView {
            drag_enabled: !v.drag_enabled,
            ..v
        }),
        after_command(v, menu_command("mute-notify"@)) == (OverlayView { muted: !v.muted, ..v }),
        after_command(v, menu_command("leave"@)) == (OverlayView {
            hidden: Set::empty(),
            tray_ids: Seq::empty(),
            tray_labels: Seq::empty(),
            char_ids: Seq::empty(),
            ..v
        }),
        after_command(v, menu_command("show"@)) == v,
        after_command(v, menu_command("reset"@)) == v,
        after_command(v, menu_command("quit"@)) == v,
{
    law_menu_ids();
}

/// An entry that is neither a fixed entry nor a visibility entry (`vis-…`)
/// changes nothing.
pub proof fn law_other_entries_change_nothing(v: OverlayView, id: Seq<char>)
    requires
        !has_prefix(id, "vis-"@),
        id != "show"@,
        id != "toggle-drag"@,
        id != "size-1"@,
        id != "size-2"@,
        id != "size-3"@,
        id != "reset"@,
        id != "leave"@,
        id != "mute-notify"@,
        id != "quit"@,
    ensures
        after_command(v, menu_command(id)) == v,
{
}

/// The labels `char_` + id of the given users, in order.
pub open spec fn labels_are(labels: Seq<Seq<char>>, ids: Seq<Seq<char>>) -> bool {
    &&& labels.len() == ids.len()
    &&& forall|i: int| 0 <= i < ids.len() ==> #[trigger] labels[i] == "char_"@ + ids[i]
}

/// What the application is told to do for each fixed tray entry: the new
/// dragging flag and every character window for dragging; the old and new
/// size and every character window with whether it is shown for a size
/// entry; every window and the size level for resetting; every window to
/// destroy for leaving; the new flag for notifications.
pub proof fn law_menu_actions(v: OverlayView, a: MenuAction)
    ensures
        action_ok(v, menu_command("toggle-drag"@), a) ==> (a matches MenuAction::DragToggled {
            enabled,
            char_windows,
        } && enabled == !v.drag_enabled && labels_are(strs(char_windows@), v.char_ids)),
        action_ok(v, menu_command("size-1"@), a) ==> (a matches MenuAction::SizeChanged {
            old_size,
            new_size,
            windows,
        } && old_size == v.character_size && new_size == 1 && windows@.len() == v.char_ids.len()
            && forall|i: int|
            0 <= i < windows@.len() ==> (#[trigger] windows@[i]).label@ == "char_"@ + v.char_ids[i]
                && windows@[i].visible == !v.hidden.contains(v.char_ids[i])),
        action_ok(v, menu_command("size-2"@), a) ==> (a matches MenuAction::SizeChanged {
            old_size,
            new_size,
            ..
        } && old_size == v.character_size && new_size == 2),
        action_ok(v, menu_command("size-3"@), a) ==> (a matches MenuAction::SizeChanged {
            old_size,
            new_size,
            ..
        } && old_size == v.character_size && new_size == 3),
        action_ok(v, menu_command("reset"@), a) ==> (a matches MenuAction::ResetPositions {
            char_windows,
            size_level,
        } && size_level == v.character_size && labels_are(strs(char_windows@), v.char_ids)),
        action_ok(v, menu_command("leave"@), a) ==> (a matches MenuAction::Left { destroyed }
            && labels_are(strs(destroyed@), v.char_ids)),
        action_ok(v, menu_command("mute-notify"@), a) ==> (a matches MenuAction::MuteToggled {
            muted,
        } && muted == !v.muted),
        action_ok(v, menu_command("show"@), a) ==> a is ShowChat,
        action_ok(v, menu_command("quit"@), a) ==> a is Quit,
{
    law_menu_ids();
}

/// The tray shows the state: the mute and drag check marks are the flags,
/// and the small, medium and large entries are checked exactly when the size
/// level is 1, 2 and 3; in a well-formed state exactly one of them is.
pub proof fn law_tray_menu_shows_state(v: OverlayView, m: TrayMenu)
    requires
        tray_menu_ok(v, m),
    ensures
        m.muted == v.muted,
        m.drag_enabled == v.drag_enabled,
        m.size_small <==> v.character_size == 1,
        m.size_medium <==> v.character_size == 2,
        m.size_large <==> v.character_size == 3,
        view_wf(v) ==> (m.size_small || m.size_medium || m.size_large),
        !(m.size_small && m.size_medium) && !(m.size_small && m.size_large) && !(m.size_medium
            && m.size_large),
        m.visibility is Some <==> v.tray_ids.len() > 0,
        m.visibility matches Some(items) ==> items@.len() == (if v.tray_ids.len() <= v.tray_labels.len() {
            v.tray_ids.len()
        } else {
            v.tray_labels.len()
        }),
{
}

/// A `vis-` entry whose rest (after every leading `vis-`) is not a number
/// toggles the first listed user; one whose rest is the number `n` toggles
/// the `n`-th.
pub proof fn law_visibility_id_fallback(id: Seq<char>, rest: Seq<char>)
    requires
        id == "vis-"@ + rest,
        trim_start_all(id, "vis-"@) == rest,
    ensures
        parse_usize_spec(rest) is None ==> menu_command(id) == MenuCommand::ToggleVisibility(0),
        parse_usize_spec(rest) matches Some(n) ==> menu_command(id) == MenuCommand::ToggleVisibility(n),
{
    reveal_strlit("vis-");
    reveal_strlit("show");
    reveal_strlit("toggle-drag");
    reveal_strlit("size-1");
    reveal_strlit("size-2");
    reveal_strlit("size-3");
    reveal_strlit("reset");
    reveal_strlit("leave");
    reveal_strlit("mute-notify");
    reveal_strlit("quit");
    assert(id[0] == 'v');
    assert(id.take(4) =~= "vis-"@);
    assert(id != "show"@) by {
        assert("show"@[0] == 's');
    }
    assert(id != "toggle-drag"@) by {
        assert("toggle-drag"@[0] == 't');
    }
    assert(id != "size-1"@) by {
        assert("size-1"@[0] == 's');
    }
    assert(id != "size-2"@) by {
        assert("size-2"@[0] == 's');
    }
    assert(id != "size-3"@) by {
        assert("size-3"@[0] == 's');
    }
    assert(id != "reset"@) by {
        assert("reset"@[0] == 'r');
    }
    assert(id != "leave"@) by {
        assert("leave"@[0] == 'l');
    }
    assert(id != "mute-notify"@) by {
        assert("mute-notify"@[0] == 'm');
    }
    assert(id != "quit"@) by {
        assert("quit"@[0] == 'q');
    }
}

/// After choosing size entry `size-k`, the tray checks exactly that entry.
pub proof fn law_size_entry_checked(v: OverlayView, m: TrayMenu)
    ensures
        tray_menu_ok(after_command(v, menu_command("size-1"@)), m) ==> m.size_small && !m.size_medium
            && !m.size_large,
        tray_menu_ok(after_command(v, menu_command("size-2"@)), m) ==> !m.size_small && m.size_medium
            && !m.size_large,
        tray_menu_ok(after_command(v, menu_command("size-3"@)), m) ==> !m.size_small && !m.size_medium
            && m.size_large,
{
    law_menu_ids();
}

/// The `i`-th visibility entry is labelled with the `i`-th listed user's label,
/// has the id `vis-` followed by `i` in decimal, and is checked exactly when
/// that user is not hidden.
pub proof fn law_tray_visibility_entries(v: OverlayView, m: TrayMenu, i: int)
    requires
        tray_menu_ok(v, m),
        m.visibility is Some,
        0 <= i < v.tray_ids.len(),
        0 <= i < v.tray_labels.len(),
    ensures
        m.visibility->0@.len() > i,
        m.visibility->0@[i].label@ == v.tray_labels[i],
        m.visibility->0@[i].id@ == "vis-"@ + decimal(i as nat),
        m.visibility->0@[i].visible <==> !v.hidden.contains(v.tray_ids[i]),
{
    let items = m.visibility->0@;
    assert(visibility_item_ok(v, i, items[i]));
}

/// Replacing the tray's users keeps hidden every hidden user that is still
/// listed, and no other user.
pub proof fn law_relist_keeps_listed_hidden(
    v: OverlayView,
    ids: Seq<Seq<char>>,
    labels: Seq<Seq<char>>,
    u: Seq<char>,
)
    ensures
        relisted_view(v, ids, labels).hidden.contains(u) <==> (v.hidden.contains(u) && ids.contains(u)),
        relisted_view(v, ids, labels).tray_ids == ids,
        relisted_view(v, ids, labels).tray_labels == labels,
        relisted_view(v, ids, labels).char_ids == v.char_ids,
{
}

/// The overlay starts with dragging on, medium characters, nobody listed or
/// hidden, no character windows, an empty users array and notifications on.
pub proof fn law_initial_state()
    ensures
        initial_view().drag_enabled,
        initial_view().character_size == 2,
        initial_view().hidden == Set::<Seq<char>>::empty(),
        initial_view().tray_ids.len() == 0,
        initial_view().tray_labels.len() == 0,
        initial_view().char_ids.len() == 0,
        initial_view().users_json == seq!['[', ']'],
        !initial_view().muted,
{
    reveal_strlit("[]");
}

/// The tray's users count as changed exactly when the ids or the labels
/// differ from the listed ones.
pub proof fn law_users_changed(v: OverlayView, ids: Seq<Seq<char>>, labels: Seq<Seq<char>>)
    ensures
        users_changed(v, ids, labels) <==> !(v.tray_ids == ids && v.tray_labels == labels),
{
}

/// The users are read by their `userId` member, and text that is not a JSON
/// array gives no users.
pub proof fn law_users_read_by_user_id(json: Seq<char>)
    ensures
        parsed_users(json, seq!['u', 's', 'e', 'r', 'I', 'd']) matches Some(r) ==> user_records(json) == r,
        parsed_users(json, seq!['u', 's', 'e', 'r', 'I', 'd']) is None ==> user_records(json).len() == 0,
{
    reveal_strlit("userId");
    assert("userId"@ =~= seq!['u', 's', 'e', 'r', 'I', 'd']);
}

/// A user's JSON is that of the first record with the user's id, and `null`
/// when no record has it.
pub proof fn law_user_json_first_match(recs: Seq<UserRecordView>, u: Seq<char>, k: int)
    requires
        0 <= k < recs.len(),
        recs[k].0 == Some(u),
        forall|j: int| 0 <= j < k ==> (#[trigger] recs[j]).0 != Some(u),
    ensures
        user_json_for(recs, u) == recs[k].1,
    decreases k,
{
    if k > 0 {
        let rest = recs.drop_first();
        assert(recs[0].0 != Some(u));
        assert forall|j: int| 0 <= j < k - 1 implies (#[trigger] rest[j]).0 != Some(u) by {
            assert(rest[j] == recs[j + 1]);
        }
        law_user_json_first_match(rest, u, k - 1);
    }
}

/// No record with the user's id gives `null`.
pub proof fn law_user_json_missing(recs: Seq<UserRecordView>, u: Seq<char>)
    requires
        forall|j: int| 0 <= j < recs.len() ==> (#[trigger] recs[j]).0 != Some(u),
    ensures
        user_json_for(recs, u) == seq!['n', 'u', 'l', 'l'],
    decreases recs.len(),
{
    reveal_strlit("null");
    if recs.len() > 0 {
        let rest = recs.drop_first();
        assert(recs[0].0 != Some(u));
        assert forall|j: int| 0 <= j < rest.len() implies (#[trigger] rest[j]).0 != Some(u) by {
            assert(rest[j] == recs[j + 1]);
        }
        law_user_json_missing(rest, u);
    } else {
        assert("null"@ =~= seq!['n', 'u', 'l', 'l']);
    }
}

/// Every window a synchronisation creates is for the room's user at its
/// index: labelled `char_` + id, shown unless the user is hidden, with an
/// init script that assigns the user's escaped JSON to
/// `window.__TAURI_CHAR_USER__`, and the page `char.html` whose `u` query value
/// percent-decodes back to that escaped JSON.
pub proof fn law_sync_window_contents(
    existing: Seq<Seq<char>>,
    hidden: Set<Seq<char>>,
    ids: Seq<Seq<char>>,
    recs: Seq<UserRecordView>,
    plan: CharSync,
    k: int,
)
    requires
        sync_ok(existing, hidden, ids, recs, plan),
        0 <= k < plan.create@.len(),
    ensures
        ({
            let p = plan.create@[k];
            let u = p.user_id@;
            let data = json_escaped(user_json_for(recs, u));
            &&& 0 <= p.index < ids.len() && ids[p.index as int] == u
            &&& !existing.contains(u)
            &&& p.label@ == "char_"@ + u
            &&& p.visible == !hidden.contains(u)
            &&& p.init_script@ == "window.__TAURI_CHAR_USER__="@ + data + ";"@
            &&& p.url@ == "char.html?u="@ + percent_encoded(data)
            &&& percent_decoded(p.url@.skip(12)) == data
        }),
{
    reveal_strlit("char.html?u=");
    let fresh = fresh_indices(ids, existing);
    lemma_fresh_indices_bounds(ids, existing);
    let p = plan.create@[k];
    assert(plan_ok(p, fresh[k], ids[fresh[k]], hidden, recs));
    lemma_fresh_indices(ids, existing, fresh[k]);
    assert(fresh.contains(fresh[k]));
    let data = json_escaped(user_json_for(recs, p.user_id@));
    law_json_escaped_ascii(user_json_for(recs, p.user_id@));
    law_percent_roundtrip(data);
    assert(p.url@.skip(12) =~= percent_encoded(data));
}

} // verus!
